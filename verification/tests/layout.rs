use ratatui_core::layout::arith::round_half_even_div;
use ratatui_core::layout::constraint::Constraint;
use ratatui_core::layout::rect::Rect;
use ratatui_core::layout::resolve::resolve;
use ratatui_core::layout::cache::LayoutCache;
use ratatui_core::layout::solver::{available, solve, Direction, Layout};

fn widths(rects: &[Rect]) -> Vec<u16> {
    rects.iter().map(|r| r.width).collect()
}

fn lefts(rects: &[Rect]) -> Vec<u16> {
    rects.iter().map(|r| r.x).collect()
}

#[test]
fn lengths_and_fills_share_a_hundred_columns() {
    let constraints = vec![
        Constraint::Length(10),
        Constraint::Fill(1),
        Constraint::Fill(1),
        Constraint::Length(10),
    ];
    let rects = solve(Rect::new(0, 0, 100, 1), Direction::Horizontal, &constraints, 0, (0, 0));
    assert_eq!(widths(&rects), vec![10, 40, 40, 10]);
    assert_eq!(lefts(&rects), vec![0, 10, 50, 90]);
    assert_eq!(resolve(&constraints, 100), vec![10, 40, 40, 10]);
}

#[test]
fn two_halves_of_ten_columns() {
    let constraints = vec![Constraint::Percentage(50), Constraint::Percentage(50)];
    let rects = solve(Rect::new(0, 0, 10, 1), Direction::Horizontal, &constraints, 0, (0, 0));
    assert_eq!(widths(&rects), vec![5, 5]);
    assert_eq!(lefts(&rects), vec![0, 5]);
}

#[test]
fn three_lengths_of_three_in_seven_columns() {
    let constraints = vec![Constraint::Length(3), Constraint::Length(3), Constraint::Length(3)];
    let rects = solve(Rect::new(0, 0, 7, 1), Direction::Horizontal, &constraints, 0, (0, 0));
    assert_eq!(widths(&rects), vec![2, 2, 3]);
    assert!(widths(&rects).iter().map(|w| *w as u32).sum::<u32>() <= 7);
    assert_eq!(lefts(&rects), vec![0, 2, 4]);
}

#[test]
fn no_constraint_no_rectangle() {
    let rects = solve(Rect::new(3, 4, 50, 20), Direction::Vertical, &vec![], 2, (1, 1));
    assert!(rects.is_empty());
    assert_eq!(resolve(&vec![], 40), Vec::<u16>::new());
}

#[test]
fn container_without_width_gives_empty_rectangles_at_its_origin() {
    let constraints = vec![Constraint::Length(4), Constraint::Fill(1), Constraint::Min(2)];
    let rects = solve(Rect::new(7, 9, 0, 5), Direction::Horizontal, &constraints, 1, (0, 0));
    assert_eq!(rects, vec![Rect { x: 7, y: 9, width: 0, height: 5 }; 3]);
}

#[test]
fn container_without_height_gives_empty_rectangles_at_its_origin() {
    let constraints = vec![Constraint::Length(4), Constraint::Fill(1)];
    let rects = solve(Rect::new(7, 9, 30, 0), Direction::Horizontal, &constraints, 1, (0, 0));
    assert_eq!(rects, vec![Rect { x: 7, y: 9, width: 0, height: 0 }; 2]);
}

#[test]
fn margins_do_not_move_a_container_without_a_cell() {
    let constraints = vec![Constraint::Length(4), Constraint::Fill(1)];
    let rects = solve(Rect::new(7, 9, 0, 5), Direction::Vertical, &constraints, 1, (2, 1));
    assert_eq!(rects, vec![Rect { x: 7, y: 9, width: 0, height: 0 }; 2]);
    let rects = solve(Rect::new(7, 9, 30, 0), Direction::Vertical, &constraints, 1, (2, 1));
    assert_eq!(rects, vec![Rect { x: 7, y: 9, width: 30, height: 0 }; 2]);
    // margins that leave nothing give rectangles without a cell inside the container
    let rects = solve(Rect::new(7, 9, 30, 4), Direction::Vertical, &constraints, 0, (2, 2));
    assert_eq!(rects, vec![Rect { x: 9, y: 11, width: 26, height: 0 }; 2]);
}

#[test]
fn leftover_stays_free_at_the_far_end() {
    let constraints = vec![Constraint::Length(10)];
    let rects = solve(Rect::new(0, 0, 100, 1), Direction::Horizontal, &constraints, 0, (0, 0));
    assert_eq!(rects, vec![Rect { x: 0, y: 0, width: 10, height: 1 }]);
    let constraints = vec![Constraint::Length(10), Constraint::Fill(0)];
    assert_eq!(resolve(&constraints, 100), vec![10, 0]);
}

#[test]
fn vertical_split_with_margin_and_spacing() {
    let constraints = vec![Constraint::Length(3), Constraint::Fill(1), Constraint::Fill(3)];
    let rects = solve(Rect::new(10, 20, 40, 30), Direction::Vertical, &constraints, 2, (5, 1));
    // rows 21..49 are left: 28 rows, 4 of them for the two gaps, 24 to divide
    assert_eq!(
        rects,
        vec![
            Rect { x: 15, y: 21, width: 30, height: 3 },
            Rect { x: 15, y: 26, width: 30, height: 5 },
            Rect { x: 15, y: 33, width: 30, height: 16 },
        ]
    );
}

#[test]
fn spacing_only_between_segments_that_are_not_empty() {
    let constraints = vec![Constraint::Length(5), Constraint::Length(0), Constraint::Length(5)];
    let rects = solve(Rect::new(0, 0, 12, 1), Direction::Horizontal, &constraints, 1, (0, 0));
    assert_eq!(widths(&rects), vec![5, 0, 5]);
    assert_eq!(lefts(&rects), vec![0, 5, 6]);
}

#[test]
fn gaps_that_do_not_fit_leave_nothing_to_divide() {
    assert_eq!(available(10, 6, 3), 0);
    assert_eq!(available(10, 5, 3), 0);
    assert_eq!(available(10, 4, 3), 2);
    assert_eq!(available(10, 4, 0), 10);
    assert_eq!(available(10, 4, 1), 10);
    assert_eq!(available(10, 1, 70000), 0);
    let constraints = vec![Constraint::Fill(1), Constraint::Fill(1), Constraint::Fill(1)];
    let rects = solve(Rect::new(2, 3, 10, 1), Direction::Horizontal, &constraints, 6, (0, 0));
    assert_eq!(rects, vec![Rect { x: 2, y: 3, width: 0, height: 1 }; 3]);
}

#[test]
fn percentages_round_half_to_even() {
    // 2.5 goes down to 2, 3.5 goes up to 4
    assert_eq!(resolve(&vec![Constraint::Percentage(50)], 5), vec![2]);
    assert_eq!(resolve(&vec![Constraint::Percentage(50)], 7), vec![4]);
    assert_eq!(resolve(&vec![Constraint::Percentage(25)], 10), vec![2]);
    assert_eq!(resolve(&vec![Constraint::Percentage(75)], 10), vec![8]);
    assert_eq!(resolve(&vec![Constraint::Percentage(33)], 100), vec![33]);
    assert_eq!(resolve(&vec![Constraint::Ratio(1, 3)], 100), vec![33]);
    assert_eq!(resolve(&vec![Constraint::Ratio(2, 3)], 100), vec![67]);
    assert_eq!(resolve(&vec![Constraint::Ratio(1, 2)], 5), vec![2]);
    assert_eq!(resolve(&vec![Constraint::Ratio(3, 2)], 5), vec![5]);
    assert_eq!(resolve(&vec![Constraint::Ratio(1, 0)], 5), vec![0]);
}

#[test]
fn the_last_part_makes_up_for_the_rounding_errors() {
    let halves = vec![Constraint::Percentage(50), Constraint::Percentage(50)];
    // both halves of 7 round to 4, half a column too much each
    assert_eq!(resolve(&halves, 7), vec![4, 3]);
    // both halves of 5 round to 2, half a column too little each
    assert_eq!(resolve(&halves, 5), vec![2, 3]);
    let thirds = vec![Constraint::Ratio(1, 3), Constraint::Ratio(1, 3), Constraint::Ratio(1, 3)];
    assert_eq!(resolve(&thirds, 100), vec![33, 33, 34]);
    assert_eq!(resolve(&thirds, 10), vec![3, 3, 4]);
    assert_eq!(resolve(&thirds, 11), vec![4, 4, 3]);
    let quarters = vec![
        Constraint::Percentage(25),
        Constraint::Percentage(25),
        Constraint::Percentage(50),
    ];
    assert_eq!(resolve(&quarters, 10), vec![2, 2, 6]);
    // 99 hundredths are not the whole: nothing is made up for
    let short = vec![
        Constraint::Percentage(33),
        Constraint::Percentage(33),
        Constraint::Percentage(33),
    ];
    assert_eq!(resolve(&short, 100), vec![33, 33, 33]);
    // the last part is the last Percentage or Ratio, wherever it stands
    let mixed = vec![
        Constraint::Ratio(1, 3),
        Constraint::Length(0),
        Constraint::Ratio(2, 3),
        Constraint::Fill(1),
    ];
    assert_eq!(resolve(&mixed, 10), vec![3, 0, 7, 0]);
    assert_eq!(resolve(&mixed, 11), vec![4, 0, 7, 0]);
    // a ratio without a denominator asks for nothing and makes up for nothing
    let halves_and_nothing = vec![
        Constraint::Percentage(50),
        Constraint::Percentage(50),
        Constraint::Ratio(1, 0),
    ];
    assert_eq!(resolve(&halves_and_nothing, 5), vec![2, 3, 0]);
    // seven halves of three cells round to 2 each, four cells too much in all:
    // the last gives back the 2 it has, and the 3 cells are shared by the rest
    let many = vec![Constraint::Percentage(50); 7];
    assert_eq!(resolve(&many, 3), vec![0, 1, 0, 1, 0, 1, 0]);
    assert_eq!(resolve(&many, 6), vec![0, 1, 1, 1, 1, 1, 1]);
}

#[test]
fn min_keeps_its_bound_and_takes_the_rest() {
    assert_eq!(resolve(&vec![Constraint::Length(3), Constraint::Min(0)], 10), vec![3, 7]);
    assert_eq!(resolve(&vec![Constraint::Length(8), Constraint::Min(5)], 10), vec![5, 5]);
    assert_eq!(resolve(&vec![Constraint::Length(8), Constraint::Min(5)], 4), vec![0, 4]);
    assert_eq!(resolve(&vec![Constraint::Min(5), Constraint::Percentage(100)], 10), vec![5, 5]);
    assert_eq!(resolve(&vec![Constraint::Min(2), Constraint::Min(4)], 10), vec![4, 6]);
    assert_eq!(resolve(&vec![Constraint::Min(60), Constraint::Min(60)], 100), vec![50, 50]);
    assert_eq!(resolve(&vec![Constraint::Min(5), Constraint::Fill(1)], 10), vec![10, 0]);
}

#[test]
fn max_never_passes_its_bound() {
    assert_eq!(resolve(&vec![Constraint::Max(4)], 10), vec![4]);
    assert_eq!(resolve(&vec![Constraint::Max(40)], 10), vec![10]);
    assert_eq!(resolve(&vec![Constraint::Max(4), Constraint::Fill(1)], 10), vec![4, 6]);
    assert_eq!(resolve(&vec![Constraint::Length(8), Constraint::Max(4)], 10), vec![8, 2]);
    assert_eq!(resolve(&vec![Constraint::Max(10), Constraint::Max(10)], 15), vec![7, 8]);
    assert_eq!(resolve(&vec![Constraint::Percentage(80), Constraint::Max(4)], 10), vec![8, 2]);
}

#[test]
fn the_most_negotiable_shrinks_first() {
    let constraints = vec![
        Constraint::Fill(1),
        Constraint::Max(5),
        Constraint::Percentage(50),
        Constraint::Min(3),
        Constraint::Length(4),
    ];
    assert_eq!(resolve(&constraints, 40), vec![0, 5, 20, 11, 4]);
    assert_eq!(resolve(&constraints, 20), vec![0, 3, 10, 3, 4]);
    assert_eq!(resolve(&constraints, 12), vec![0, 0, 5, 3, 4]);
    assert_eq!(resolve(&constraints, 8), vec![0, 0, 1, 3, 4]);
    assert_eq!(resolve(&constraints, 6), vec![0, 0, 0, 3, 3]);
    assert_eq!(resolve(&constraints, 3), vec![0, 0, 0, 3, 0]);
    assert_eq!(resolve(&constraints, 2), vec![0, 0, 0, 2, 0]);
    assert_eq!(resolve(&constraints, 0), vec![0, 0, 0, 0, 0]);
}

#[test]
fn fills_divide_by_weight() {
    assert_eq!(resolve(&vec![Constraint::Fill(1), Constraint::Fill(2)], 10), vec![3, 7]);
    assert_eq!(resolve(&vec![Constraint::Fill(1), Constraint::Fill(3)], 10), vec![2, 8]);
    assert_eq!(resolve(&vec![Constraint::Fill(3), Constraint::Fill(1)], 2), vec![1, 1]);
    assert_eq!(resolve(&vec![Constraint::Fill(0), Constraint::Fill(0)], 10), vec![0, 0]);
    assert_eq!(
        resolve(&vec![Constraint::Fill(1), Constraint::Fill(1), Constraint::Fill(1)], 10),
        vec![3, 3, 4]
    );
    assert_eq!(
        resolve(&vec![Constraint::Fill(65535), Constraint::Fill(65535)], 65535),
        vec![32767, 32768]
    );
}

#[test]
fn segments_follow_one_another_without_sharing_a_cell() {
    let constraints = vec![
        Constraint::Percentage(30),
        Constraint::Min(2),
        Constraint::Max(7),
        Constraint::Ratio(1, 4),
        Constraint::Length(6),
    ];
    let container = Rect::new(5, 5, 61, 9);
    let rects = solve(container, Direction::Horizontal, &constraints, 1, (2, 1));
    assert_eq!(rects.len(), constraints.len());
    for pair in rects.windows(2) {
        assert!(pair[0].x + pair[0].width <= pair[1].x);
        assert!(!pair[0].intersects(pair[1]));
    }
    for r in &rects {
        assert_eq!((r.y, r.height), (6, 7));
        assert_eq!(r.intersection(container), *r);
    }
    // 57 columns less four gaps: 53 to divide, and the Min takes what is left
    assert_eq!(widths(&rects), vec![16, 11, 7, 13, 6]);
    assert_eq!(rects.last().map(|r| r.x + r.width), Some(64));
}

#[test]
fn huge_ratios_do_not_overflow() {
    let constraints = vec![
        Constraint::Ratio(u32::MAX, 1),
        Constraint::Ratio(u32::MAX, 1),
        Constraint::Percentage(u16::MAX),
    ];
    let lengths = resolve(&constraints, u16::MAX);
    assert_eq!(lengths.iter().map(|l| *l as u32).sum::<u32>(), 65535);
    assert_eq!(lengths[0], 32767);
}

#[test]
fn a_layout_splits_as_the_solver_does() {
    let constraints = vec![Constraint::Length(3), Constraint::Fill(1), Constraint::Max(4)];
    let area = Rect::new(2, 3, 30, 10);
    let layout = Layout::vertical(constraints.clone()).margin(1).spacing(1);
    assert_eq!(layout.direction, Direction::Vertical);
    assert_eq!(layout.margin, (1, 1));
    assert_eq!(layout.spacing, 1);
    assert_eq!(layout.constraints, constraints);
    assert_eq!(layout.split(area), solve(area, Direction::Vertical, &constraints, 1, (1, 1)));
    let layout = Layout::horizontal(constraints.clone()).horizontal_margin(2).vertical_margin(3);
    assert_eq!(layout.margin, (2, 3));
    assert_eq!(layout.spacing, 0);
    assert_eq!(
        layout.split(area),
        vec![
            Rect { x: 4, y: 6, width: 3, height: 4 },
            Rect { x: 7, y: 6, width: 19, height: 4 },
            Rect { x: 26, y: 6, width: 4, height: 4 },
        ]
    );
    let layout = Layout::new(Direction::Horizontal, vec![]);
    assert_eq!(layout.margin, (0, 0));
    assert!(layout.split(area).is_empty());
}

#[test]
fn the_cache_answers_as_the_solver_does() {
    let mut cache = LayoutCache::new(2);
    assert_eq!(cache.capacity(), 2);
    assert_eq!(cache.len(), 0);
    let area = Rect::new(0, 0, 20, 5);
    let a = vec![Constraint::Fill(1), Constraint::Fill(2)];
    let b = vec![Constraint::Length(4), Constraint::Min(1)];
    let c = vec![Constraint::Percentage(30)];
    let h = Direction::Horizontal;
    let first = cache.split(area, h, &a, 1, (0, 0));
    assert_eq!(first, solve(area, h, &a, 1, (0, 0)));
    assert_eq!(cache.len(), 1);
    assert!(cache.holds(area, h, &a, 1, (0, 0)));
    assert!(!cache.holds(area, h, &a, 0, (0, 0)));
    assert!(!cache.holds(area, Direction::Vertical, &a, 1, (0, 0)));
    assert!(!cache.holds(area, h, &b, 1, (0, 0)));
    // asked again, the answer is the same and nothing is added
    assert_eq!(cache.split(area, h, &a, 1, (0, 0)), first);
    assert_eq!(cache.len(), 1);
    assert_eq!(cache.split(area, h, &b, 1, (0, 0)), solve(area, h, &b, 1, (0, 0)));
    assert_eq!(cache.len(), 2);
    // `a` is asked again, so `b` is the one asked least recently and leaves for `c`
    assert_eq!(cache.split(area, h, &a, 1, (0, 0)), first);
    assert_eq!(cache.split(area, h, &c, 1, (0, 0)), solve(area, h, &c, 1, (0, 0)));
    assert_eq!(cache.len(), 2);
    assert!(cache.holds(area, h, &a, 1, (0, 0)));
    assert!(cache.holds(area, h, &c, 1, (0, 0)));
    assert!(!cache.holds(area, h, &b, 1, (0, 0)));
    cache.clear();
    assert_eq!(cache.len(), 0);
    assert_eq!(cache.capacity(), 2);
}

#[test]
fn a_cache_without_room_holds_nothing() {
    let mut cache = LayoutCache::new(0);
    let area = Rect::new(0, 0, 20, 5);
    let a = vec![Constraint::Fill(1), Constraint::Fill(2)];
    assert_eq!(
        cache.split(area, Direction::Vertical, &a, 0, (1, 1)),
        solve(area, Direction::Vertical, &a, 0, (1, 1))
    );
    assert_eq!(cache.len(), 0);
    assert!(!cache.holds(area, Direction::Vertical, &a, 0, (1, 1)));
}

#[test]
fn rounding_to_the_nearest_with_ties_to_the_even() {
    assert_eq!(round_half_even_div(0, 7), 0);
    assert_eq!(round_half_even_div(10, 4), 2);
    assert_eq!(round_half_even_div(14, 4), 4);
    assert_eq!(round_half_even_div(9, 4), 2);
    assert_eq!(round_half_even_div(11, 4), 3);
    assert_eq!(round_half_even_div(1, 2), 0);
    assert_eq!(round_half_even_div(3, 2), 2);
    assert_eq!(round_half_even_div(5, 1), 5);
    assert_eq!(round_half_even_div(u64::MAX, 1), u64::MAX);
    assert_eq!(round_half_even_div(u64::MAX, u64::MAX), 1);
    assert_eq!(round_half_even_div(u64::MAX - 1, u64::MAX), 1);
    assert_eq!(round_half_even_div(1, u64::MAX), 0);
}

#[test]
fn percentages_that_add_up_to_a_hundred_cover_everything() {
    let lists: Vec<Vec<u16>> = vec![
        vec![50, 50],
        vec![33, 33, 34],
        vec![10, 20, 30, 40],
        vec![1, 99],
        vec![25, 25, 25, 25],
        vec![100],
        vec![7, 13, 17, 19, 23, 21],
    ];
    for list in lists {
        let constraints: Vec<Constraint> = list.iter().map(|p| Constraint::Percentage(*p)).collect();
        for size in 0..300u16 {
            let lengths = resolve(&constraints, size);
            assert_eq!(lengths.iter().map(|l| *l as u32).sum::<u32>(), size as u32);
        }
    }
}

#[test]
fn bounds_hold_whatever_the_size() {
    let constraints = vec![
        Constraint::Percentage(40),
        Constraint::Min(7),
        Constraint::Max(9),
        Constraint::Length(5),
        Constraint::Fill(2),
        Constraint::Ratio(1, 7),
    ];
    for size in 0..200u16 {
        let lengths = resolve(&constraints, size);
        assert!(lengths.iter().map(|l| *l as u32).sum::<u32>() <= size as u32);
        assert!(lengths[2] <= 9);
        if size >= 7 {
            assert!(lengths[1] >= 7);
        }
        if size >= 12 {
            assert_eq!(lengths[3], 5);
        }
        // the Min takes the rest: nothing is left free
        assert_eq!(lengths.iter().map(|l| *l as u32).sum::<u32>(), size as u32);
        assert_eq!(lengths[4], 0);
    }
}

#[test]
fn fills_stay_within_a_cell_of_their_part() {
    for w1 in [0u16, 1, 2, 3, 7, 100, 65535] {
        for w2 in [1u16, 2, 5, 11, 65535] {
            for size in [0u16, 1, 2, 9, 10, 99, 1000, 65535] {
                let lengths = resolve(&vec![Constraint::Fill(w1), Constraint::Fill(w2)], size);
                let total = w1 as i64 + w2 as i64;
                assert_eq!(lengths[0] as u32 + lengths[1] as u32, size as u32);
                let off1 = lengths[0] as i64 * total - size as i64 * w1 as i64;
                let off2 = lengths[1] as i64 * total - size as i64 * w2 as i64;
                assert!(off1.abs() < total);
                assert!(off2.abs() < total);
            }
        }
    }
}

#[test]
fn segments_of_any_split_stay_in_order_inside_the_container() {
    let lists = vec![
        vec![Constraint::Fill(1), Constraint::Length(0), Constraint::Fill(1)],
        vec![Constraint::Length(3), Constraint::Percentage(50), Constraint::Max(2)],
        vec![Constraint::Min(1), Constraint::Min(1), Constraint::Ratio(1, 3)],
        vec![Constraint::Length(200), Constraint::Length(1)],
    ];
    for constraints in &lists {
        for width in [0u16, 1, 2, 5, 17, 64] {
            for spacing in [0u16, 1, 3, 40] {
                for margin in [0u16, 1, 9] {
                    let container = Rect::new(3, 4, width, 6);
                    let rects =
                        solve(container, Direction::Horizontal, constraints, spacing, (margin, 1));
                    assert_eq!(rects.len(), constraints.len());
                    let mut edge = container.x;
                    let mut seen = false;
                    for r in &rects {
                        assert!(r.x >= edge);
                        if r.width > 0 {
                            if seen {
                                assert!(r.x >= edge + spacing);
                            }
                            seen = true;
                            edge = r.x + r.width;
                        }
                        assert!(r.x + r.width <= container.x + container.width);
                        assert!(r.y >= container.y && r.y + r.height <= container.y + 6);
                    }
                }
            }
        }
    }
}
