//! Box-drawing line symbols and the sets that group them by weight.

use vstd::prelude::*;

verus! {

pub const VERTICAL: &'static str = "│";
pub const DOUBLE_VERTICAL: &'static str = "║";
pub const THICK_VERTICAL: &'static str = "┃";
pub const LIGHT_DOUBLE_DASH_VERTICAL: &'static str = "╎";
pub const HEAVY_DOUBLE_DASH_VERTICAL: &'static str = "╏";
pub const LIGHT_TRIPLE_DASH_VERTICAL: &'static str = "┆";
pub const HEAVY_TRIPLE_DASH_VERTICAL: &'static str = "┇";
pub const LIGHT_QUADRUPLE_DASH_VERTICAL: &'static str = "┊";
pub const HEAVY_QUADRUPLE_DASH_VERTICAL: &'static str = "┋";

pub const HORIZONTAL: &'static str = "─";
pub const DOUBLE_HORIZONTAL: &'static str = "═";
pub const THICK_HORIZONTAL: &'static str = "━";
pub const LIGHT_DOUBLE_DASH_HORIZONTAL: &'static str = "╌";
pub const HEAVY_DOUBLE_DASH_HORIZONTAL: &'static str = "╍";
pub const LIGHT_TRIPLE_DASH_HORIZONTAL: &'static str = "┄";
pub const HEAVY_TRIPLE_DASH_HORIZONTAL: &'static str = "┅";
pub const LIGHT_QUADRUPLE_DASH_HORIZONTAL: &'static str = "┈";
pub const HEAVY_QUADRUPLE_DASH_HORIZONTAL: &'static str = "┉";

pub const TOP_RIGHT: &'static str = "┐";
pub const ROUNDED_TOP_RIGHT: &'static str = "╮";
pub const DOUBLE_TOP_RIGHT: &'static str = "╗";
pub const THICK_TOP_RIGHT: &'static str = "┓";

pub const TOP_LEFT: &'static str = "┌";
pub const ROUNDED_TOP_LEFT: &'static str = "╭";
pub const DOUBLE_TOP_LEFT: &'static str = "╔";
pub const THICK_TOP_LEFT: &'static str = "┏";

pub const BOTTOM_RIGHT: &'static str = "┘";
pub const ROUNDED_BOTTOM_RIGHT: &'static str = "╯";
pub const DOUBLE_BOTTOM_RIGHT: &'static str = "╝";
pub const THICK_BOTTOM_RIGHT: &'static str = "┛";

pub const BOTTOM_LEFT: &'static str = "└";
pub const ROUNDED_BOTTOM_LEFT: &'static str = "╰";
pub const DOUBLE_BOTTOM_LEFT: &'static str = "╚";
pub const THICK_BOTTOM_LEFT: &'static str = "┗";

pub const VERTICAL_LEFT: &'static str = "┤";
pub const DOUBLE_VERTICAL_LEFT: &'static str = "╣";
pub const THICK_VERTICAL_LEFT: &'static str = "┫";

pub const VERTICAL_RIGHT: &'static str = "├";
pub const DOUBLE_VERTICAL_RIGHT: &'static str = "╠";
pub const THICK_VERTICAL_RIGHT: &'static str = "┣";

pub const HORIZONTAL_DOWN: &'static str = "┬";
pub const DOUBLE_HORIZONTAL_DOWN: &'static str = "╦";
pub const THICK_HORIZONTAL_DOWN: &'static str = "┳";

pub const HORIZONTAL_UP: &'static str = "┴";
pub const DOUBLE_HORIZONTAL_UP: &'static str = "╩";
pub const THICK_HORIZONTAL_UP: &'static str = "┻";

pub const CROSS: &'static str = "┼";
pub const DOUBLE_CROSS: &'static str = "╬";
pub const THICK_CROSS: &'static str = "╋";

/// The symbols needed to draw lines of one weight: the two straight pieces, the
/// four corners, the four tees and the cross.
#[derive(Debug, Clone, Copy, Eq, PartialEq, Hash)]
pub struct LineSet<'a> {
    pub vertical: &'a str,
    pub horizontal: &'a str,
    pub top_right: &'a str,
    pub top_left: &'a str,
    pub bottom_right: &'a str,
    pub bottom_left: &'a str,
    pub vertical_left: &'a str,
    pub vertical_right: &'a str,
    pub horizontal_down: &'a str,
    pub horizontal_up: &'a str,
    pub cross: &'a str,
}

/// Single-line box drawing.
pub fn normal() -> (set: LineSet<'static>)
    ensures
        set == (LineSet {
            vertical: VERTICAL,
            horizontal: HORIZONTAL,
            top_right: TOP_RIGHT,
            top_left: TOP_LEFT,
            bottom_right: BOTTOM_RIGHT,
            bottom_left: BOTTOM_LEFT,
            vertical_left: VERTICAL_LEFT,
            vertical_right: VERTICAL_RIGHT,
            horizontal_down: HORIZONTAL_DOWN,
            horizontal_up: HORIZONTAL_UP,
            cross: CROSS,
        }),
{
    LineSet {
        vertical: VERTICAL,
        horizontal: HORIZONTAL,
        top_right: TOP_RIGHT,
        top_left: TOP_LEFT,
        bottom_right: BOTTOM_RIGHT,
        bottom_left: BOTTOM_LEFT,
        vertical_left: VERTICAL_LEFT,
        vertical_right: VERTICAL_RIGHT,
        horizontal_down: HORIZONTAL_DOWN,
        horizontal_up: HORIZONTAL_UP,
        cross: CROSS,
    }
}

/// Single lines with rounded corners.
pub fn rounded() -> (set: LineSet<'static>)
    ensures
        set == (LineSet {
            vertical: VERTICAL,
            horizontal: HORIZONTAL,
            top_right: ROUNDED_TOP_RIGHT,
            top_left: ROUNDED_TOP_LEFT,
            bottom_right: ROUNDED_BOTTOM_RIGHT,
            bottom_left: ROUNDED_BOTTOM_LEFT,
            vertical_left: VERTICAL_LEFT,
            vertical_right: VERTICAL_RIGHT,
            horizontal_down: HORIZONTAL_DOWN,
            horizontal_up: HORIZONTAL_UP,
            cross: CROSS,
        }),
{
    LineSet {
        vertical: VERTICAL,
        horizontal: HORIZONTAL,
        top_right: ROUNDED_TOP_RIGHT,
        top_left: ROUNDED_TOP_LEFT,
        bottom_right: ROUNDED_BOTTOM_RIGHT,
        bottom_left: ROUNDED_BOTTOM_LEFT,
        vertical_left: VERTICAL_LEFT,
        vertical_right: VERTICAL_RIGHT,
        horizontal_down: HORIZONTAL_DOWN,
        horizontal_up: HORIZONTAL_UP,
        cross: CROSS,
    }
}

/// Double-line box drawing.
pub fn double() -> (set: LineSet<'static>)
    ensures
        set == (LineSet {
            vertical: DOUBLE_VERTICAL,
            horizontal: DOUBLE_HORIZONTAL,
            top_right: DOUBLE_TOP_RIGHT,
            top_left: DOUBLE_TOP_LEFT,
            bottom_right: DOUBLE_BOTTOM_RIGHT,
            bottom_left: DOUBLE_BOTTOM_LEFT,
            vertical_left: DOUBLE_VERTICAL_LEFT,
            vertical_right: DOUBLE_VERTICAL_RIGHT,
            horizontal_down: DOUBLE_HORIZONTAL_DOWN,
            horizontal_up: DOUBLE_HORIZONTAL_UP,
            cross: DOUBLE_CROSS,
        }),
{
    LineSet {
        vertical: DOUBLE_VERTICAL,
        horizontal: DOUBLE_HORIZONTAL,
        top_right: DOUBLE_TOP_RIGHT,
        top_left: DOUBLE_TOP_LEFT,
        bottom_right: DOUBLE_BOTTOM_RIGHT,
        bottom_left: DOUBLE_BOTTOM_LEFT,
        vertical_left: DOUBLE_VERTICAL_LEFT,
        vertical_right: DOUBLE_VERTICAL_RIGHT,
        horizontal_down: DOUBLE_HORIZONTAL_DOWN,
        horizontal_up: DOUBLE_HORIZONTAL_UP,
        cross: DOUBLE_CROSS,
    }
}

/// Thick-line box drawing.
pub fn thick() -> (set: LineSet<'static>)
    ensures
        set == (LineSet {
            vertical: THICK_VERTICAL,
            horizontal: THICK_HORIZONTAL,
            top_right: THICK_TOP_RIGHT,
            top_left: THICK_TOP_LEFT,
            bottom_right: THICK_BOTTOM_RIGHT,
            bottom_left: THICK_BOTTOM_LEFT,
            vertical_left: THICK_VERTICAL_LEFT,
            vertical_right: THICK_VERTICAL_RIGHT,
            horizontal_down: THICK_HORIZONTAL_DOWN,
            horizontal_up: THICK_HORIZONTAL_UP,
            cross: THICK_CROSS,
        }),
{
    LineSet {
        vertical: THICK_VERTICAL,
        horizontal: THICK_HORIZONTAL,
        top_right: THICK_TOP_RIGHT,
        top_left: THICK_TOP_LEFT,
        bottom_right: THICK_BOTTOM_RIGHT,
        bottom_left: THICK_BOTTOM_LEFT,
        vertical_left: THICK_VERTICAL_LEFT,
        vertical_right: THICK_VERTICAL_RIGHT,
        horizontal_down: THICK_HORIZONTAL_DOWN,
        horizontal_up: THICK_HORIZONTAL_UP,
        cross: THICK_CROSS,
    }
}

/// Light double-dashed sides; corners and junctions of the single set.
pub fn light_double_dashed() -> (set: LineSet<'static>)
    ensures
        set == (LineSet {
            vertical: LIGHT_DOUBLE_DASH_VERTICAL,
            horizontal: LIGHT_DOUBLE_DASH_HORIZONTAL,
            top_right: TOP_RIGHT,
            top_left: TOP_LEFT,
            bottom_right: BOTTOM_RIGHT,
            bottom_left: BOTTOM_LEFT,
            vertical_left: VERTICAL_LEFT,
            vertical_right: VERTICAL_RIGHT,
            horizontal_down: HORIZONTAL_DOWN,
            horizontal_up: HORIZONTAL_UP,
            cross: CROSS,
        }),
{
    LineSet {
        vertical: LIGHT_DOUBLE_DASH_VERTICAL,
        horizontal: LIGHT_DOUBLE_DASH_HORIZONTAL,
        top_right: TOP_RIGHT,
        top_left: TOP_LEFT,
        bottom_right: BOTTOM_RIGHT,
        bottom_left: BOTTOM_LEFT,
        vertical_left: VERTICAL_LEFT,
        vertical_right: VERTICAL_RIGHT,
        horizontal_down: HORIZONTAL_DOWN,
        horizontal_up: HORIZONTAL_UP,
        cross: CROSS,
    }
}

/// Heavy double-dashed sides; corners and junctions of the thick set.
pub fn heavy_double_dashed() -> (set: LineSet<'static>)
    ensures
        set == (LineSet {
            vertical: HEAVY_DOUBLE_DASH_VERTICAL,
            horizontal: HEAVY_DOUBLE_DASH_HORIZONTAL,
            top_right: THICK_TOP_RIGHT,
            top_left: THICK_TOP_LEFT,
            bottom_right: THICK_BOTTOM_RIGHT,
            bottom_left: THICK_BOTTOM_LEFT,
            vertical_left: THICK_VERTICAL_LEFT,
            vertical_right: THICK_VERTICAL_RIGHT,
            horizontal_down: THICK_HORIZONTAL_DOWN,
            horizontal_up: THICK_HORIZONTAL_UP,
            cross: THICK_CROSS,
        }),
{
    LineSet {
        vertical: HEAVY_DOUBLE_DASH_VERTICAL,
        horizontal: HEAVY_DOUBLE_DASH_HORIZONTAL,
        top_right: THICK_TOP_RIGHT,
        top_left: THICK_TOP_LEFT,
        bottom_right: THICK_BOTTOM_RIGHT,
        bottom_left: THICK_BOTTOM_LEFT,
        vertical_left: THICK_VERTICAL_LEFT,
        vertical_right: THICK_VERTICAL_RIGHT,
        horizontal_down: THICK_HORIZONTAL_DOWN,
        horizontal_up: THICK_HORIZONTAL_UP,
        cross: THICK_CROSS,
    }
}

/// Light triple-dashed sides; corners and junctions of the single set.
pub fn light_triple_dashed() -> (set: LineSet<'static>)
    ensures
        set == (LineSet {
            vertical: LIGHT_TRIPLE_DASH_VERTICAL,
            horizontal: LIGHT_TRIPLE_DASH_HORIZONTAL,
            top_right: TOP_RIGHT,
            top_left: TOP_LEFT,
            bottom_right: BOTTOM_RIGHT,
            bottom_left: BOTTOM_LEFT,
            vertical_left: VERTICAL_LEFT,
            vertical_right: VERTICAL_RIGHT,
            horizontal_down: HORIZONTAL_DOWN,
            horizontal_up: HORIZONTAL_UP,
            cross: CROSS,
        }),
{
    LineSet {
        vertical: LIGHT_TRIPLE_DASH_VERTICAL,
        horizontal: LIGHT_TRIPLE_DASH_HORIZONTAL,
        top_right: TOP_RIGHT,
        top_left: TOP_LEFT,
        bottom_right: BOTTOM_RIGHT,
        bottom_left: BOTTOM_LEFT,
        vertical_left: VERTICAL_LEFT,
        vertical_right: VERTICAL_RIGHT,
        horizontal_down: HORIZONTAL_DOWN,
        horizontal_up: HORIZONTAL_UP,
        cross: CROSS,
    }
}

/// Heavy triple-dashed sides; corners and junctions of the thick set.
pub fn heavy_triple_dashed() -> (set: LineSet<'static>)
    ensures
        set == (LineSet {
            vertical: HEAVY_TRIPLE_DASH_VERTICAL,
            horizontal: HEAVY_TRIPLE_DASH_HORIZONTAL,
            top_right: THICK_TOP_RIGHT,
            top_left: THICK_TOP_LEFT,
            bottom_right: THICK_BOTTOM_RIGHT,
            bottom_left: THICK_BOTTOM_LEFT,
            vertical_left: THICK_VERTICAL_LEFT,
            vertical_right: THICK_VERTICAL_RIGHT,
            horizontal_down: THICK_HORIZONTAL_DOWN,
            horizontal_up: THICK_HORIZONTAL_UP,
            cross: THICK_CROSS,
        }),
{
    LineSet {
        vertical: HEAVY_TRIPLE_DASH_VERTICAL,
        horizontal: HEAVY_TRIPLE_DASH_HORIZONTAL,
        top_right: THICK_TOP_RIGHT,
        top_left: THICK_TOP_LEFT,
        bottom_right: THICK_BOTTOM_RIGHT,
        bottom_left: THICK_BOTTOM_LEFT,
        vertical_left: THICK_VERTICAL_LEFT,
        vertical_right: THICK_VERTICAL_RIGHT,
        horizontal_down: THICK_HORIZONTAL_DOWN,
        horizontal_up: THICK_HORIZONTAL_UP,
        cross: THICK_CROSS,
    }
}

/// Light quadruple-dashed sides; corners and junctions of the single set.
pub fn light_quadruple_dashed() -> (set: LineSet<'static>)
    ensures
        set == (LineSet {
            vertical: LIGHT_QUADRUPLE_DASH_VERTICAL,
            horizontal: LIGHT_QUADRUPLE_DASH_HORIZONTAL,
            top_right: TOP_RIGHT,
            top_left: TOP_LEFT,
            bottom_right: BOTTOM_RIGHT,
            bottom_left: BOTTOM_LEFT,
            vertical_left: VERTICAL_LEFT,
            vertical_right: VERTICAL_RIGHT,
            horizontal_down: HORIZONTAL_DOWN,
            horizontal_up: HORIZONTAL_UP,
            cross: CROSS,
        }),
{
    LineSet {
        vertical: LIGHT_QUADRUPLE_DASH_VERTICAL,
        horizontal: LIGHT_QUADRUPLE_DASH_HORIZONTAL,
        top_right: TOP_RIGHT,
        top_left: TOP_LEFT,
        bottom_right: BOTTOM_RIGHT,
        bottom_left: BOTTOM_LEFT,
        vertical_left: VERTICAL_LEFT,
        vertical_right: VERTICAL_RIGHT,
        horizontal_down: HORIZONTAL_DOWN,
        horizontal_up: HORIZONTAL_UP,
        cross: CROSS,
    }
}

/// Heavy quadruple-dashed sides; corners and junctions of the thick set.
pub fn heavy_quadruple_dashed() -> (set: LineSet<'static>)
    ensures
        set == (LineSet {
            vertical: HEAVY_QUADRUPLE_DASH_VERTICAL,
            horizontal: HEAVY_QUADRUPLE_DASH_HORIZONTAL,
            top_right: THICK_TOP_RIGHT,
            top_left: THICK_TOP_LEFT,
            bottom_right: THICK_BOTTOM_RIGHT,
            bottom_left: THICK_BOTTOM_LEFT,
            vertical_left: THICK_VERTICAL_LEFT,
            vertical_right: THICK_VERTICAL_RIGHT,
            horizontal_down: THICK_HORIZONTAL_DOWN,
            horizontal_up: THICK_HORIZONTAL_UP,
            cross: THICK_CROSS,
        }),
{
    LineSet {
        vertical: HEAVY_QUADRUPLE_DASH_VERTICAL,
        horizontal: HEAVY_QUADRUPLE_DASH_HORIZONTAL,
        top_right: THICK_TOP_RIGHT,
        top_left: THICK_TOP_LEFT,
        bottom_right: THICK_BOTTOM_RIGHT,
        bottom_left: THICK_BOTTOM_LEFT,
        vertical_left: THICK_VERTICAL_LEFT,
        vertical_right: THICK_VERTICAL_RIGHT,
        horizontal_down: THICK_HORIZONTAL_DOWN,
        horizontal_up: THICK_HORIZONTAL_UP,
        cross: THICK_CROSS,
    }
}

} // verus!
