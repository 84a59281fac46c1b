use ratatui_core::buffer::cell::Cell;
use ratatui_core::buffer::diff::Update;
use ratatui_core::buffer::grid::Buffer;
use ratatui_core::layout::rect::Rect;
use ratatui_core::style::color::Color;
use ratatui_core::style::modifier::{Modifier, BOLD};
use ratatui_core::style::Style;

fn row_of(symbols: &[&str]) -> Buffer {
    let mut buffer = Buffer::empty(Rect::new(0, 0, symbols.len() as u16, 1));
    for (i, s) in symbols.iter().enumerate() {
        buffer.set(i as u16, 0, Cell::new(s));
    }
    buffer
}

fn places(updates: &[Update]) -> Vec<(u16, u16)> {
    updates.iter().map(|u| (u.x, u.y)).collect()
}

#[test]
fn one_changed_cell_gives_one_update() {
    let prev = row_of(&["a", "b", "c"]);
    let next = row_of(&["a", "x", "c"]);
    let updates = prev.diff(&next);
    assert_eq!(updates.len(), 1);
    assert_eq!((updates[0].x, updates[0].y), (1, 0));
    assert_eq!(updates[0].cell.symbol(), "x");
    assert_eq!(updates, vec![Update { x: 1, y: 0, cell: Cell::new("x") }]);
}

#[test]
fn a_buffer_does_not_differ_from_its_copy() {
    let mut buffer = Buffer::empty(Rect::new(3, 2, 4, 3));
    buffer.set(4, 3, Cell::styled("q", Style::new().fg(Color::Red)));
    buffer.set_wide(5, 4, "語", Style::new());
    let copy = buffer.clone();
    assert_eq!(copy.area, buffer.area);
    assert_eq!(copy.content, buffer.content);
    assert!(buffer.diff(&copy).is_empty());
    assert!(buffer.diff(&buffer).is_empty());
}

#[test]
fn applying_the_difference_gives_the_next_buffer() {
    let area = Rect::new(2, 1, 5, 3);
    let mut prev = Buffer::empty(area);
    prev.set(2, 1, Cell::new("a"));
    prev.set_wide(3, 2, "語", Style::new().bg(Color::Blue));
    prev.set(6, 3, Cell::new("z"));
    let mut next = Buffer::empty(area);
    next.set(2, 1, Cell::new("a"));
    next.set(3, 2, Cell::new("b"));
    next.set_wide(5, 1, "字", Style::new());
    next.merge_style(6, 3, Style::new().add_modifier(Modifier::from_bits(BOLD)));
    let updates = prev.diff(&next);
    let mut shown = prev.clone();
    shown.apply(&updates);
    assert_eq!(shown.content, next.content);
    assert_eq!(shown.area, next.area);
    assert_eq!(places(&updates), vec![(5, 1), (6, 1), (3, 2), (4, 2), (6, 3)]);
}

#[test]
fn updates_come_row_by_row_from_the_left() {
    let area = Rect::new(0, 0, 3, 3);
    let prev = Buffer::empty(area);
    let next = Buffer::filled(area, &Cell::new("#"));
    let updates = prev.diff(&next);
    assert_eq!(
        places(&updates),
        vec![(0, 0), (1, 0), (2, 0), (0, 1), (1, 1), (2, 1), (0, 2), (1, 2), (2, 2)]
    );
    assert!(updates.iter().all(|u| u.cell == Cell::new("#")));
}

#[test]
fn a_change_of_style_alone_is_a_difference() {
    let prev = row_of(&["a", "b"]);
    let mut next = row_of(&["a", "b"]);
    next.merge_style(0, 0, Style::new().fg(Color::Yellow));
    let updates = prev.diff(&next);
    assert_eq!(places(&updates), vec![(0, 0)]);
    assert_eq!(updates[0].cell.style.fg, Some(Color::Yellow));
    assert_eq!(updates[0].cell.symbol(), "a");
}

#[test]
fn a_wide_glyph_is_written_with_its_continuation() {
    let area = Rect::new(0, 0, 4, 1);
    let mut prev = Buffer::empty(area);
    prev.set_wide(1, 0, "語", Style::new());
    let mut next = Buffer::empty(area);
    next.set_wide(1, 0, "字", Style::new());
    let updates = prev.diff(&next);
    assert_eq!(places(&updates), vec![(1, 0), (2, 0)]);
    assert_eq!(updates[0].cell.symbol(), "字");
    assert!(!updates[0].cell.skip);
    assert!(updates[1].cell.skip);
    assert_eq!(updates[1].cell.symbol(), "");
}

#[test]
fn a_changed_continuation_brings_its_glyph_along() {
    let area = Rect::new(0, 0, 4, 1);
    let mut prev = Buffer::empty(area);
    prev.set_wide(1, 0, "語", Style::new());
    let mut next = prev.clone();
    next.merge_style(2, 0, Style::new().bg(Color::Red));
    let updates = prev.diff(&next);
    assert_eq!(places(&updates), vec![(1, 0), (2, 0)]);
    assert_eq!(updates[0].cell.symbol(), "語");
}

#[test]
fn a_glyph_does_not_reach_into_the_next_row() {
    let area = Rect::new(0, 0, 2, 2);
    let prev = Buffer::empty(area);
    let mut next = Buffer::empty(area);
    // a continuation at the start of the second row belongs to no glyph of the first
    next.set(1, 0, Cell::new("a"));
    next.set(0, 1, Cell::continuation(Style::new()));
    let updates = prev.diff(&next);
    assert_eq!(places(&updates), vec![(1, 0), (0, 1)]);
    let mut shown = prev.clone();
    shown.apply(&updates);
    assert_eq!(shown.content, next.content);
}

#[test]
fn set_writes_one_cell() {
    let mut buffer = Buffer::empty(Rect::new(10, 20, 3, 2));
    buffer.set(11, 21, Cell::new("k"));
    assert_eq!(buffer.index_of(11, 21), 4);
    assert_eq!(buffer.pos_of(4), (11, 21));
    assert_eq!(buffer.pos_of(0), (10, 20));
    assert_eq!(buffer.pos_of(5), (12, 21));
    assert_eq!(buffer.index_of(12, 20), 2);
    for i in 0..6 {
        let expected = if i == 4 { Cell::new("k") } else { Cell::default() };
        assert_eq!(buffer.content[i], expected);
    }
    assert_eq!(*buffer.get(11, 21), Cell::new("k"));
    assert_eq!(buffer.area(), Rect::new(10, 20, 3, 2));
}

#[test]
fn merge_style_keeps_the_glyph() {
    let mut buffer = row_of(&["a", "b"]);
    buffer.merge_style(1, 0, Style::new().fg(Color::Red));
    buffer.merge_style(1, 0, Style::new().bg(Color::Blue));
    let cell = buffer.get(1, 0);
    assert_eq!(cell.symbol(), "b");
    assert_eq!(cell.style, Style::new().fg(Color::Red).bg(Color::Blue));
    assert_eq!(*buffer.get(0, 0), Cell::new("a"));
}

#[test]
fn a_wide_glyph_at_the_last_column_becomes_a_space() {
    let mut buffer = Buffer::empty(Rect::new(0, 0, 3, 1));
    let style = Style::new().bg(Color::Green);
    buffer.set_wide(2, 0, "語", style);
    assert_eq!(*buffer.get(2, 0), Cell::styled(" ", style));
    buffer.set_wide(0, 0, "語", style);
    assert_eq!(*buffer.get(0, 0), Cell::styled("語", style));
    assert_eq!(*buffer.get(1, 0), Cell::continuation(style));
    assert!(buffer.get(1, 0).skip);
}

#[test]
fn resize_keeps_what_lies_in_both_areas() {
    let mut buffer = Buffer::empty(Rect::new(0, 0, 3, 2));
    for (i, s) in ["a", "b", "c", "d", "e", "f"].iter().enumerate() {
        buffer.set((i % 3) as u16, (i / 3) as u16, Cell::new(s));
    }
    let fill = Cell::new(".");
    buffer.resize(Rect::new(1, 1, 3, 2), &fill);
    assert_eq!(buffer.area, Rect::new(1, 1, 3, 2));
    let symbols: Vec<&str> = buffer.content.iter().map(|c| c.symbol()).collect();
    assert_eq!(symbols, vec!["e", "f", ".", ".", ".", "."]);
    buffer.resize(Rect::new(0, 0, 0, 5), &fill);
    assert!(buffer.content.is_empty());
    buffer.resize(Rect::new(0, 0, 2, 1), &fill);
    assert_eq!(buffer.content, vec![Cell::new("."), Cell::new(".")]);
}

#[test]
fn cells() {
    let mut cell = Cell::new("a");
    assert_eq!(cell.style, Style::new());
    assert!(!cell.skip);
    cell.set_symbol("ab");
    assert_eq!(cell.symbol(), "ab");
    cell.set_style(Style::new().fg(Color::Red));
    cell.set_style(Style::new().bg(Color::Blue));
    assert_eq!(cell.style, Style::new().fg(Color::Red).bg(Color::Blue));
    let copy = cell.clone();
    assert_eq!(copy, cell);
    cell.reset();
    assert_eq!(cell, Cell::default());
    assert_eq!(cell.symbol(), " ");
    assert_ne!(copy, cell);
    assert_ne!(Cell::new("a"), Cell::new("b"));
    assert_ne!(Cell::new(""), Cell::continuation(Style::new()));
}

#[test]
fn filled_and_empty() {
    let buffer = Buffer::filled(Rect::new(0, 0, 2, 2), &Cell::new("x"));
    assert_eq!(buffer.content, vec![Cell::new("x"); 4]);
    let buffer = Buffer::empty(Rect::new(5, 5, 2, 1));
    assert_eq!(buffer.content, vec![Cell::default(); 2]);
    let buffer = Buffer::empty(Rect::new(5, 5, 0, 9));
    assert!(buffer.content.is_empty());
    assert!(buffer.diff(&buffer.clone()).is_empty());
}
