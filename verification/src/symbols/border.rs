//! Border symbol sets: the eight symbols that frame a rectangular area.

use vstd::prelude::*;
use crate::symbols::block;
use crate::symbols::line;
use crate::symbols::line::LineSet;

verus! {

/// The symbols of a border: four corners and four sides.
#[derive(Debug, Clone, Copy, Eq, PartialEq, Hash)]
pub struct BorderSet<'a> {
    pub top_left: &'a str,
    pub top_right: &'a str,
    pub bottom_left: &'a str,
    pub bottom_right: &'a str,
    pub vertical_left: &'a str,
    pub vertical_right: &'a str,
    pub horizontal_top: &'a str,
    pub horizontal_bottom: &'a str,
}

impl<'a> BorderSet<'a> {
    /// The border that a line set draws: its corners, its vertical piece on both
    /// sides, its horizontal piece above and below.
    pub open spec fn of_line_set(line_set: LineSet<'a>) -> BorderSet<'a> {
        BorderSet {
            top_left: line_set.top_left,
            top_right: line_set.top_right,
            bottom_left: line_set.bottom_left,
            bottom_right: line_set.bottom_right,
            vertical_left: line_set.vertical,
            vertical_right: line_set.vertical,
            horizontal_top: line_set.horizontal,
            horizontal_bottom: line_set.horizontal,
        }
    }
}

impl Default for BorderSet<'_> {
    /// The default border is the plain one.
    fn default() -> (set: Self)
        ensures
            set == (BorderSet {
                top_left: line::TOP_LEFT,
                top_right: line::TOP_RIGHT,
                bottom_left: line::BOTTOM_LEFT,
                bottom_right: line::BOTTOM_RIGHT,
                vertical_left: line::VERTICAL,
                vertical_right: line::VERTICAL,
                horizontal_top: line::HORIZONTAL,
                horizontal_bottom: line::HORIZONTAL,
            }),
    {
        plain()
    }
}

/// Makes a border set out of a line set.
pub fn from_line_set<'a>(line_set: LineSet<'a>) -> (set: BorderSet<'a>)
    ensures
        set == BorderSet::of_line_set(line_set),
{
    BorderSet {
        top_left: line_set.top_left,
        top_right: line_set.top_right,
        bottom_left: line_set.bottom_left,
        bottom_right: line_set.bottom_right,
        vertical_left: line_set.vertical,
        vertical_right: line_set.vertical,
        horizontal_top: line_set.horizontal,
        horizontal_bottom: line_set.horizontal,
    }
}

/// Border of single lines.
///
/// ```text
/// ┌─────┐
/// │xxxxx│
/// │xxxxx│
/// └─────┘
/// ```
pub fn plain() -> (set: BorderSet<'static>)
    ensures
        set == (BorderSet {
            top_left: line::TOP_LEFT,
            top_right: line::TOP_RIGHT,
            bottom_left: line::BOTTOM_LEFT,
            bottom_right: line::BOTTOM_RIGHT,
            vertical_left: line::VERTICAL,
            vertical_right: line::VERTICAL,
            horizontal_top: line::HORIZONTAL,
            horizontal_bottom: line::HORIZONTAL,
        }),
{
    from_line_set(line::normal())
}

/// Border of single lines with rounded corners.
///
/// ```text
/// ╭─────╮
/// │xxxxx│
/// │xxxxx│
/// ╰─────╯
/// ```
pub fn rounded() -> (set: BorderSet<'static>)
    ensures
        set == (BorderSet {
            top_left: line::ROUNDED_TOP_LEFT,
            top_right: line::ROUNDED_TOP_RIGHT,
            bottom_left: line::ROUNDED_BOTTOM_LEFT,
            bottom_right: line::ROUNDED_BOTTOM_RIGHT,
            vertical_left: line::VERTICAL,
            vertical_right: line::VERTICAL,
            horizontal_top: line::HORIZONTAL,
            horizontal_bottom: line::HORIZONTAL,
        }),
{
    from_line_set(line::rounded())
}

/// Border of double lines.
///
/// ```text
/// ╔═════╗
/// ║xxxxx║
/// ║xxxxx║
/// ╚═════╝
/// ```
pub fn double() -> (set: BorderSet<'static>)
    ensures
        set == (BorderSet {
            top_left: line::DOUBLE_TOP_LEFT,
            top_right: line::DOUBLE_TOP_RIGHT,
            bottom_left: line::DOUBLE_BOTTOM_LEFT,
            bottom_right: line::DOUBLE_BOTTOM_RIGHT,
            vertical_left: line::DOUBLE_VERTICAL,
            vertical_right: line::DOUBLE_VERTICAL,
            horizontal_top: line::DOUBLE_HORIZONTAL,
            horizontal_bottom: line::DOUBLE_HORIZONTAL,
        }),
{
    from_line_set(line::double())
}

/// Border of thick lines.
///
/// ```text
/// ┏━━━━━┓
/// ┃xxxxx┃
/// ┃xxxxx┃
/// ┗━━━━━┛
/// ```
pub fn thick() -> (set: BorderSet<'static>)
    ensures
        set == (BorderSet {
            top_left: line::THICK_TOP_LEFT,
            top_right: line::THICK_TOP_RIGHT,
            bottom_left: line::THICK_BOTTOM_LEFT,
            bottom_right: line::THICK_BOTTOM_RIGHT,
            vertical_left: line::THICK_VERTICAL,
            vertical_right: line::THICK_VERTICAL,
            horizontal_top: line::THICK_HORIZONTAL,
            horizontal_bottom: line::THICK_HORIZONTAL,
        }),
{
    from_line_set(line::thick())
}

/// Border of light double-dashed lines.
///
/// ```text
/// ┌╌╌╌╌╌┐
/// ╎xxxxx╎
/// ╎xxxxx╎
/// └╌╌╌╌╌┘
/// ```
pub fn light_double_dashed() -> (set: BorderSet<'static>)
    ensures
        set == (BorderSet {
            top_left: line::TOP_LEFT,
            top_right: line::TOP_RIGHT,
            bottom_left: line::BOTTOM_LEFT,
            bottom_right: line::BOTTOM_RIGHT,
            vertical_left: line::LIGHT_DOUBLE_DASH_VERTICAL,
            vertical_right: line::LIGHT_DOUBLE_DASH_VERTICAL,
            horizontal_top: line::LIGHT_DOUBLE_DASH_HORIZONTAL,
            horizontal_bottom: line::LIGHT_DOUBLE_DASH_HORIZONTAL,
        }),
{
    from_line_set(line::light_double_dashed())
}

/// Border of heavy double-dashed lines.
///
/// ```text
/// ┏╍╍╍╍╍┓
/// ╏xxxxx╏
/// ╏xxxxx╏
/// ┗╍╍╍╍╍┛
/// ```
pub fn heavy_double_dashed() -> (set: BorderSet<'static>)
    ensures
        set == (BorderSet {
            top_left: line::THICK_TOP_LEFT,
            top_right: line::THICK_TOP_RIGHT,
            bottom_left: line::THICK_BOTTOM_LEFT,
            bottom_right: line::THICK_BOTTOM_RIGHT,
            vertical_left: line::HEAVY_DOUBLE_DASH_VERTICAL,
            vertical_right: line::HEAVY_DOUBLE_DASH_VERTICAL,
            horizontal_top: line::HEAVY_DOUBLE_DASH_HORIZONTAL,
            horizontal_bottom: line::HEAVY_DOUBLE_DASH_HORIZONTAL,
        }),
{
    from_line_set(line::heavy_double_dashed())
}

/// Border of light triple-dashed lines.
///
/// ```text
/// ┌┄┄┄┄┄┐
/// ┆xxxxx┆
/// ┆xxxxx┆
/// └┄┄┄┄┄┘
/// ```
pub fn light_triple_dashed() -> (set: BorderSet<'static>)
    ensures
        set == (BorderSet {
            top_left: line::TOP_LEFT,
            top_right: line::TOP_RIGHT,
            bottom_left: line::BOTTOM_LEFT,
            bottom_right: line::BOTTOM_RIGHT,
            vertical_left: line::LIGHT_TRIPLE_DASH_VERTICAL,
            vertical_right: line::LIGHT_TRIPLE_DASH_VERTICAL,
            horizontal_top: line::LIGHT_TRIPLE_DASH_HORIZONTAL,
            horizontal_bottom: line::LIGHT_TRIPLE_DASH_HORIZONTAL,
        }),
{
    from_line_set(line::light_triple_dashed())
}

/// Border of heavy triple-dashed lines.
///
/// ```text
/// ┏┅┅┅┅┅┓
/// ┇xxxxx┇
/// ┇xxxxx┇
/// ┗┅┅┅┅┅┛
/// ```
pub fn heavy_triple_dashed() -> (set: BorderSet<'static>)
    ensures
        set == (BorderSet {
            top_left: line::THICK_TOP_LEFT,
            top_right: line::THICK_TOP_RIGHT,
            bottom_left: line::THICK_BOTTOM_LEFT,
            bottom_right: line::THICK_BOTTOM_RIGHT,
            vertical_left: line::HEAVY_TRIPLE_DASH_VERTICAL,
            vertical_right: line::HEAVY_TRIPLE_DASH_VERTICAL,
            horizontal_top: line::HEAVY_TRIPLE_DASH_HORIZONTAL,
            horizontal_bottom: line::HEAVY_TRIPLE_DASH_HORIZONTAL,
        }),
{
    from_line_set(line::heavy_triple_dashed())
}

/// Border of light quadruple-dashed lines.
///
/// ```text
/// ┌┈┈┈┈┈┐
/// ┊xxxxx┊
/// ┊xxxxx┊
/// └┈┈┈┈┈┘
/// ```
pub fn light_quadruple_dashed() -> (set: BorderSet<'static>)
    ensures
        set == (BorderSet {
            top_left: line::TOP_LEFT,
            top_right: line::TOP_RIGHT,
            bottom_left: line::BOTTOM_LEFT,
            bottom_right: line::BOTTOM_RIGHT,
            vertical_left: line::LIGHT_QUADRUPLE_DASH_VERTICAL,
            vertical_right: line::LIGHT_QUADRUPLE_DASH_VERTICAL,
            horizontal_top: line::LIGHT_QUADRUPLE_DASH_HORIZONTAL,
            horizontal_bottom: line::LIGHT_QUADRUPLE_DASH_HORIZONTAL,
        }),
{
    from_line_set(line::light_quadruple_dashed())
}

/// Border of heavy quadruple-dashed lines.
///
/// ```text
/// ┏┉┉┉┉┉┓
/// ┋xxxxx┋
/// ┋xxxxx┋
/// ┗┉┉┉┉┉┛
/// ```
pub fn heavy_quadruple_dashed() -> (set: BorderSet<'static>)
    ensures
        set == (BorderSet {
            top_left: line::THICK_TOP_LEFT,
            top_right: line::THICK_TOP_RIGHT,
            bottom_left: line::THICK_BOTTOM_LEFT,
            bottom_right: line::THICK_BOTTOM_RIGHT,
            vertical_left: line::HEAVY_QUADRUPLE_DASH_VERTICAL,
            vertical_right: line::HEAVY_QUADRUPLE_DASH_VERTICAL,
            horizontal_top: line::HEAVY_QUADRUPLE_DASH_HORIZONTAL,
            horizontal_bottom: line::HEAVY_QUADRUPLE_DASH_HORIZONTAL,
        }),
{
    from_line_set(line::heavy_quadruple_dashed())
}

pub const QUADRANT_TOP_LEFT: &'static str = "▘";
pub const QUADRANT_TOP_RIGHT: &'static str = "▝";
pub const QUADRANT_BOTTOM_LEFT: &'static str = "▖";
pub const QUADRANT_BOTTOM_RIGHT: &'static str = "▗";
pub const QUADRANT_TOP_HALF: &'static str = "▀";
pub const QUADRANT_BOTTOM_HALF: &'static str = "▄";
pub const QUADRANT_LEFT_HALF: &'static str = "▌";
pub const QUADRANT_RIGHT_HALF: &'static str = "▐";
pub const QUADRANT_TOP_LEFT_BOTTOM_LEFT_BOTTOM_RIGHT: &'static str = "▙";
pub const QUADRANT_TOP_LEFT_TOP_RIGHT_BOTTOM_LEFT: &'static str = "▛";
pub const QUADRANT_TOP_LEFT_TOP_RIGHT_BOTTOM_RIGHT: &'static str = "▜";
pub const QUADRANT_TOP_RIGHT_BOTTOM_LEFT_BOTTOM_RIGHT: &'static str = "▟";
pub const QUADRANT_TOP_LEFT_BOTTOM_RIGHT: &'static str = "▚";
pub const QUADRANT_TOP_RIGHT_BOTTOM_LEFT: &'static str = "▞";
pub const QUADRANT_BLOCK: &'static str = "█";

/// Border drawn half a cell outside the area it surrounds.
///
/// ```text
/// ▛▀▀▀▀▀▜
/// ▌xxxxx▐
/// ▌xxxxx▐
/// ▙▄▄▄▄▄▟
/// ```
pub fn quadrant_outside() -> (set: BorderSet<'static>)
    ensures
        set == (BorderSet {
            top_left: QUADRANT_TOP_LEFT_TOP_RIGHT_BOTTOM_LEFT,
            top_right: QUADRANT_TOP_LEFT_TOP_RIGHT_BOTTOM_RIGHT,
            bottom_left: QUADRANT_TOP_LEFT_BOTTOM_LEFT_BOTTOM_RIGHT,
            bottom_right: QUADRANT_TOP_RIGHT_BOTTOM_LEFT_BOTTOM_RIGHT,
            vertical_left: QUADRANT_LEFT_HALF,
            vertical_right: QUADRANT_RIGHT_HALF,
            horizontal_top: QUADRANT_TOP_HALF,
            horizontal_bottom: QUADRANT_BOTTOM_HALF,
        }),
{
    BorderSet {
        top_left: QUADRANT_TOP_LEFT_TOP_RIGHT_BOTTOM_LEFT,
        top_right: QUADRANT_TOP_LEFT_TOP_RIGHT_BOTTOM_RIGHT,
        bottom_left: QUADRANT_TOP_LEFT_BOTTOM_LEFT_BOTTOM_RIGHT,
        bottom_right: QUADRANT_TOP_RIGHT_BOTTOM_LEFT_BOTTOM_RIGHT,
        vertical_left: QUADRANT_LEFT_HALF,
        vertical_right: QUADRANT_RIGHT_HALF,
        horizontal_top: QUADRANT_TOP_HALF,
        horizontal_bottom: QUADRANT_BOTTOM_HALF,
    }
}

/// Border drawn half a cell inside the area it surrounds.
///
/// ```text
/// ▗▄▄▄▄▄▖
/// ▐xxxxx▌
/// ▐xxxxx▌
/// ▝▀▀▀▀▀▘
/// ```
pub fn quadrant_inside() -> (set: BorderSet<'static>)
    ensures
        set == (BorderSet {
            top_left: QUADRANT_BOTTOM_RIGHT,
            top_right: QUADRANT_BOTTOM_LEFT,
            bottom_left: QUADRANT_TOP_RIGHT,
            bottom_right: QUADRANT_TOP_LEFT,
            vertical_left: QUADRANT_RIGHT_HALF,
            vertical_right: QUADRANT_LEFT_HALF,
            horizontal_top: QUADRANT_BOTTOM_HALF,
            horizontal_bottom: QUADRANT_TOP_HALF,
        }),
{
    BorderSet {
        top_left: QUADRANT_BOTTOM_RIGHT,
        top_right: QUADRANT_BOTTOM_LEFT,
        bottom_left: QUADRANT_TOP_RIGHT,
        bottom_right: QUADRANT_TOP_LEFT,
        vertical_left: QUADRANT_RIGHT_HALF,
        vertical_right: QUADRANT_LEFT_HALF,
        horizontal_top: QUADRANT_BOTTOM_HALF,
        horizontal_bottom: QUADRANT_TOP_HALF,
    }
}

pub const ONE_EIGHTH_TOP_EIGHT: &'static str = "▔";
pub const ONE_EIGHTH_BOTTOM_EIGHT: &'static str = "▁";
pub const ONE_EIGHTH_LEFT_EIGHT: &'static str = "▏";
pub const ONE_EIGHTH_RIGHT_EIGHT: &'static str = "▕";

/// Wide border of one-eighth blocks.
///
/// ```text
/// ▁▁▁▁▁▁▁
/// ▏xxxxx▕
/// ▏xxxxx▕
/// ▔▔▔▔▔▔▔
/// ```
pub fn one_eighth_wide() -> (set: BorderSet<'static>)
    ensures
        set == (BorderSet {
            top_left: ONE_EIGHTH_BOTTOM_EIGHT,
            top_right: ONE_EIGHTH_BOTTOM_EIGHT,
            bottom_left: ONE_EIGHTH_TOP_EIGHT,
            bottom_right: ONE_EIGHTH_TOP_EIGHT,
            vertical_left: ONE_EIGHTH_LEFT_EIGHT,
            vertical_right: ONE_EIGHTH_RIGHT_EIGHT,
            horizontal_top: ONE_EIGHTH_BOTTOM_EIGHT,
            horizontal_bottom: ONE_EIGHTH_TOP_EIGHT,
        }),
{
    BorderSet {
        top_left: ONE_EIGHTH_BOTTOM_EIGHT,
        top_right: ONE_EIGHTH_BOTTOM_EIGHT,
        bottom_left: ONE_EIGHTH_TOP_EIGHT,
        bottom_right: ONE_EIGHTH_TOP_EIGHT,
        vertical_left: ONE_EIGHTH_LEFT_EIGHT,
        vertical_right: ONE_EIGHTH_RIGHT_EIGHT,
        horizontal_top: ONE_EIGHTH_BOTTOM_EIGHT,
        horizontal_bottom: ONE_EIGHTH_TOP_EIGHT,
    }
}

/// Tall border of one-eighth blocks.
///
/// ```text
/// ▕▔▔▏
/// ▕xx▏
/// ▕xx▏
/// ▕▁▁▏
/// ```
pub fn one_eighth_tall() -> (set: BorderSet<'static>)
    ensures
        set == (BorderSet {
            top_left: ONE_EIGHTH_RIGHT_EIGHT,
            top_right: ONE_EIGHTH_LEFT_EIGHT,
            bottom_left: ONE_EIGHTH_RIGHT_EIGHT,
            bottom_right: ONE_EIGHTH_LEFT_EIGHT,
            vertical_left: ONE_EIGHTH_RIGHT_EIGHT,
            vertical_right: ONE_EIGHTH_LEFT_EIGHT,
            horizontal_top: ONE_EIGHTH_TOP_EIGHT,
            horizontal_bottom: ONE_EIGHTH_BOTTOM_EIGHT,
        }),
{
    BorderSet {
        top_left: ONE_EIGHTH_RIGHT_EIGHT,
        top_right: ONE_EIGHTH_LEFT_EIGHT,
        bottom_left: ONE_EIGHTH_RIGHT_EIGHT,
        bottom_right: ONE_EIGHTH_LEFT_EIGHT,
        vertical_left: ONE_EIGHTH_RIGHT_EIGHT,
        vertical_right: ONE_EIGHTH_LEFT_EIGHT,
        horizontal_top: ONE_EIGHTH_TOP_EIGHT,
        horizontal_bottom: ONE_EIGHTH_BOTTOM_EIGHT,
    }
}

/// Wide border whose sides look equally thick: half blocks above and below, full
/// blocks left and right.
///
/// ```text
/// ▄▄▄▄
/// █xx█
/// █xx█
/// ▀▀▀▀
/// ```
pub fn proportional_wide() -> (set: BorderSet<'static>)
    ensures
        set == (BorderSet {
            top_left: QUADRANT_BOTTOM_HALF,
            top_right: QUADRANT_BOTTOM_HALF,
            bottom_left: QUADRANT_TOP_HALF,
            bottom_right: QUADRANT_TOP_HALF,
            vertical_left: QUADRANT_BLOCK,
            vertical_right: QUADRANT_BLOCK,
            horizontal_top: QUADRANT_BOTTOM_HALF,
            horizontal_bottom: QUADRANT_TOP_HALF,
        }),
{
    BorderSet {
        top_left: QUADRANT_BOTTOM_HALF,
        top_right: QUADRANT_BOTTOM_HALF,
        bottom_left: QUADRANT_TOP_HALF,
        bottom_right: QUADRANT_TOP_HALF,
        vertical_left: QUADRANT_BLOCK,
        vertical_right: QUADRANT_BLOCK,
        horizontal_top: QUADRANT_BOTTOM_HALF,
        horizontal_bottom: QUADRANT_TOP_HALF,
    }
}

/// Tall border whose sides look equally thick: full blocks everywhere but for the
/// half blocks of the top and bottom edges.
///
/// ```text
/// █▀▀█
/// █xx█
/// █xx█
/// █▄▄█
/// ```
pub fn proportional_tall() -> (set: BorderSet<'static>)
    ensures
        set == (BorderSet {
            top_left: QUADRANT_BLOCK,
            top_right: QUADRANT_BLOCK,
            bottom_left: QUADRANT_BLOCK,
            bottom_right: QUADRANT_BLOCK,
            vertical_left: QUADRANT_BLOCK,
            vertical_right: QUADRANT_BLOCK,
            horizontal_top: QUADRANT_TOP_HALF,
            horizontal_bottom: QUADRANT_BOTTOM_HALF,
        }),
{
    BorderSet {
        top_left: QUADRANT_BLOCK,
        top_right: QUADRANT_BLOCK,
        bottom_left: QUADRANT_BLOCK,
        bottom_right: QUADRANT_BLOCK,
        vertical_left: QUADRANT_BLOCK,
        vertical_right: QUADRANT_BLOCK,
        horizontal_top: QUADRANT_TOP_HALF,
        horizontal_bottom: QUADRANT_BOTTOM_HALF,
    }
}

/// Solid border of full blocks.
///
/// ```text
/// ████
/// █xx█
/// █xx█
/// ████
/// ```
pub fn full() -> (set: BorderSet<'static>)
    ensures
        set == (BorderSet {
            top_left: block::FULL,
            top_right: block::FULL,
            bottom_left: block::FULL,
            bottom_right: block::FULL,
            vertical_left: block::FULL,
            vertical_right: block::FULL,
            horizontal_top: block::FULL,
            horizontal_bottom: block::FULL,
        }),
{
    BorderSet {
        top_left: block::FULL,
        top_right: block::FULL,
        bottom_left: block::FULL,
        bottom_right: block::FULL,
        vertical_left: block::FULL,
        vertical_right: block::FULL,
        horizontal_top: block::FULL,
        horizontal_bottom: block::FULL,
    }
}

/// Border of blanks: it takes the room of a border, and its style, without drawing
/// one.
pub fn empty() -> (set: BorderSet<'static>)
    ensures
        set == (BorderSet {
            top_left: " ",
            top_right: " ",
            bottom_left: " ",
            bottom_right: " ",
            vertical_left: " ",
            vertical_right: " ",
            horizontal_top: " ",
            horizontal_bottom: " ",
        }),
{
    BorderSet {
        top_left: " ",
        top_right: " ",
        bottom_left: " ",
        bottom_right: " ",
        vertical_left: " ",
        vertical_right: " ",
        horizontal_top: " ",
        horizontal_bottom: " ",
    }
}

} // verus!
