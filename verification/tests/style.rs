use ratatui_core::style::color::Color;
use ratatui_core::style::modifier::{
    Modifier, ALL, BOLD, CROSSED_OUT, DIM, ITALIC, REVERSED, UNDERLINED,
};
use ratatui_core::style::{merge, Style};

fn m(bits: u16) -> Modifier {
    Modifier::from_bits(bits)
}

#[test]
fn a_new_style_sets_nothing() {
    let style = Style::new();
    assert_eq!(style.fg, None);
    assert_eq!(style.bg, None);
    assert_eq!(style.underline_color, None);
    assert!(style.add_modifier.is_empty());
    assert!(style.sub_modifier.is_empty());
    assert_eq!(Style::default(), style);
}

#[test]
fn reset_sets_every_field() {
    let style = Style::reset();
    assert_eq!(style.fg, Some(Color::Reset));
    assert_eq!(style.bg, Some(Color::Reset));
    assert_eq!(style.underline_color, Some(Color::Reset));
    assert!(style.add_modifier.is_empty());
    assert_eq!(style.sub_modifier.bits(), ALL);
}

#[test]
fn set_fields_of_the_patch_override() {
    let base = Style::new().fg(Color::Red).bg(Color::Blue);
    let patch = Style::new().fg(Color::Green).underline_color(Color::Rgb(1, 2, 3));
    let merged = merge(base, patch);
    assert_eq!(merged.fg, Some(Color::Green));
    assert_eq!(merged.bg, Some(Color::Blue));
    assert_eq!(merged.underline_color, Some(Color::Rgb(1, 2, 3)));
    assert_eq!(base.patch(patch), merged);
}

#[test]
fn unset_fields_stay_unset() {
    let merged = merge(Style::new().fg(Color::Red), Style::new().bg(Color::Indexed(7)));
    assert_eq!(merged.underline_color, None);
    assert_eq!(merged.fg, Some(Color::Red));
    assert_eq!(merged.bg, Some(Color::Indexed(7)));
    assert_eq!(merge(Style::new(), Style::new()), Style::new());
}

#[test]
fn reset_is_set_and_overrides() {
    let merged = merge(Style::new().fg(Color::Red), Style::new().fg(Color::Reset));
    assert_eq!(merged.fg, Some(Color::Reset));
}

#[test]
fn merge_is_not_commutative() {
    let a = Style::new().fg(Color::Red);
    let b = Style::new().fg(Color::Green);
    assert_eq!(merge(a, b).fg, Some(Color::Green));
    assert_eq!(merge(b, a).fg, Some(Color::Red));
}

#[test]
fn merge_is_associative_on_samples() {
    let styles = [
        Style::new(),
        Style::new().fg(Color::Red).add_modifier(m(BOLD | ITALIC)),
        Style::new().bg(Color::Blue).remove_modifier(m(BOLD)),
        Style::new().underline_color(Color::Cyan).add_modifier(m(DIM)).remove_modifier(m(ITALIC)),
        Style::reset(),
        Style::new().fg(Color::Green).bg(Color::Black).add_modifier(m(REVERSED | BOLD)),
    ];
    for a in styles {
        for b in styles {
            for c in styles {
                assert_eq!(merge(merge(a, b), c), merge(a, merge(b, c)));
            }
        }
    }
}

#[test]
fn adding_and_removing_modifiers() {
    let style = Style::new().add_modifier(m(BOLD | ITALIC)).remove_modifier(m(ITALIC | DIM));
    assert_eq!(style.add_modifier.bits(), BOLD);
    assert_eq!(style.sub_modifier.bits(), ITALIC | DIM);
    let style = style.add_modifier(m(DIM));
    assert_eq!(style.add_modifier.bits(), BOLD | DIM);
    assert_eq!(style.sub_modifier.bits(), ITALIC);
}

#[test]
fn modifiers_of_the_patch_win_over_those_of_the_base() {
    let base = Style::new().add_modifier(m(BOLD | UNDERLINED)).remove_modifier(m(DIM));
    let patch = Style::new().add_modifier(m(DIM)).remove_modifier(m(BOLD));
    let merged = merge(base, patch);
    assert_eq!(merged.add_modifier.bits(), UNDERLINED | DIM);
    assert_eq!(merged.sub_modifier.bits(), BOLD);
}

#[test]
fn modifier_sets() {
    let a = m(BOLD | ITALIC);
    let b = m(ITALIC | CROSSED_OUT);
    assert_eq!(a.union(b).bits(), BOLD | ITALIC | CROSSED_OUT);
    assert_eq!(a.difference(b).bits(), BOLD);
    assert_eq!(a.intersection(b).bits(), ITALIC);
    assert!(a.contains(m(BOLD)));
    assert!(!a.contains(b));
    assert!(a.contains(Modifier::empty()));
    assert!(Modifier::all().contains(a));
    assert_eq!(Modifier::from_bits(0xffff).bits(), ALL);
    assert_eq!(Modifier::default(), Modifier::empty());
    let mut c = a;
    c.insert(b);
    assert_eq!(c, a.union(b));
    c.remove(m(ITALIC));
    assert_eq!(c.bits(), BOLD | CROSSED_OUT);
}
