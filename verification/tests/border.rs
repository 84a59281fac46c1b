use ratatui_core::symbols::border;
use ratatui_core::symbols::border::{from_line_set, BorderSet};
use ratatui_core::symbols::line::{
    double as double_lines, heavy_triple_dashed as heavy_triple_dashed_lines,
    light_triple_dashed as light_triple_dashed_lines, normal as normal_lines,
    rounded as rounded_lines, thick as thick_lines, LineSet, CROSS, THICK_CROSS,
};

#[test]
fn default() {
    assert_eq!(BorderSet::default(), border::plain());
}

/// Draws a two by two box with the set. '░' (U+2591) stands for the room around
/// and inside it, so that the size of each symbol shows.
fn render(set: BorderSet) -> String {
    format!(
        "░░░░░░\n░{}{}{}{}░\n░{}░░{}░\n░{}░░{}░\n░{}{}{}{}░\n░░░░░░",
        set.top_left,
        set.horizontal_top,
        set.horizontal_top,
        set.top_right,
        set.vertical_left,
        set.vertical_right,
        set.vertical_left,
        set.vertical_right,
        set.bottom_left,
        set.horizontal_bottom,
        set.horizontal_bottom,
        set.bottom_right
    )
}

#[test]
fn border_set_from_line_set() {
    let custom_line_set = LineSet {
        top_left: "a",
        top_right: "b",
        bottom_left: "c",
        bottom_right: "d",
        vertical: "e",
        horizontal: "f",
        vertical_left: "g",
        vertical_right: "h",
        horizontal_down: "i",
        horizontal_up: "j",
        cross: "k",
    };

    let border_set = from_line_set(custom_line_set);

    assert_eq!(
        border_set,
        BorderSet {
            top_left: "a",
            top_right: "b",
            bottom_left: "c",
            bottom_right: "d",
            vertical_left: "e",
            vertical_right: "e",
            horizontal_bottom: "f",
            horizontal_top: "f",
        }
    );
}

#[test]
fn plain() {
    assert_eq!(
        render(border::plain()),
        "░░░░░░\n\
         ░┌──┐░\n\
         ░│░░│░\n\
         ░│░░│░\n\
         ░└──┘░\n\
         ░░░░░░"
    );
}

#[test]
fn rounded() {
    assert_eq!(
        render(border::rounded()),
        "░░░░░░\n\
         ░╭──╮░\n\
         ░│░░│░\n\
         ░│░░│░\n\
         ░╰──╯░\n\
         ░░░░░░"
    );
}

#[test]
fn double() {
    assert_eq!(
        render(border::double()),
        "░░░░░░\n\
         ░╔══╗░\n\
         ░║░░║░\n\
         ░║░░║░\n\
         ░╚══╝░\n\
         ░░░░░░"
    );
}

#[test]
fn thick() {
    assert_eq!(
        render(border::thick()),
        "░░░░░░\n\
         ░┏━━┓░\n\
         ░┃░░┃░\n\
         ░┃░░┃░\n\
         ░┗━━┛░\n\
         ░░░░░░"
    );
}

#[test]
fn light_double_dashed() {
    assert_eq!(
        render(border::light_double_dashed()),
        "░░░░░░\n\
         ░┌╌╌┐░\n\
         ░╎░░╎░\n\
         ░╎░░╎░\n\
         ░└╌╌┘░\n\
         ░░░░░░"
    );
}

#[test]
fn heavy_double_dashed() {
    assert_eq!(
        render(border::heavy_double_dashed()),
        "░░░░░░\n\
         ░┏╍╍┓░\n\
         ░╏░░╏░\n\
         ░╏░░╏░\n\
         ░┗╍╍┛░\n\
         ░░░░░░"
    );
}

#[test]
fn light_triple_dashed() {
    assert_eq!(
        render(border::light_triple_dashed()),
        "░░░░░░\n\
         ░┌┄┄┐░\n\
         ░┆░░┆░\n\
         ░┆░░┆░\n\
         ░└┄┄┘░\n\
         ░░░░░░"
    );
}

#[test]
fn heavy_triple_dashed() {
    assert_eq!(
        render(border::heavy_triple_dashed()),
        "░░░░░░\n\
         ░┏┅┅┓░\n\
         ░┇░░┇░\n\
         ░┇░░┇░\n\
         ░┗┅┅┛░\n\
         ░░░░░░"
    );
}

#[test]
fn light_quadruple_dashed() {
    assert_eq!(
        render(border::light_quadruple_dashed()),
        "░░░░░░\n\
         ░┌┈┈┐░\n\
         ░┊░░┊░\n\
         ░┊░░┊░\n\
         ░└┈┈┘░\n\
         ░░░░░░"
    );
}

#[test]
fn heavy_quadruple_dashed() {
    assert_eq!(
        render(border::heavy_quadruple_dashed()),
        "░░░░░░\n\
         ░┏┉┉┓░\n\
         ░┋░░┋░\n\
         ░┋░░┋░\n\
         ░┗┉┉┛░\n\
         ░░░░░░"
    );
}

#[test]
fn quadrant_outside() {
    assert_eq!(
        render(border::quadrant_outside()),
        "░░░░░░\n\
         ░▛▀▀▜░\n\
         ░▌░░▐░\n\
         ░▌░░▐░\n\
         ░▙▄▄▟░\n\
         ░░░░░░"
    );
}

#[test]
fn quadrant_inside() {
    assert_eq!(
        render(border::quadrant_inside()),
        "░░░░░░\n\
         ░▗▄▄▖░\n\
         ░▐░░▌░\n\
         ░▐░░▌░\n\
         ░▝▀▀▘░\n\
         ░░░░░░"
    );
}

#[test]
fn one_eighth_wide() {
    assert_eq!(
        render(border::one_eighth_wide()),
        "░░░░░░\n\
         ░▁▁▁▁░\n\
         ░▏░░▕░\n\
         ░▏░░▕░\n\
         ░▔▔▔▔░\n\
         ░░░░░░"
    );
}

#[test]
fn one_eighth_tall() {
    assert_eq!(
        render(border::one_eighth_tall()),
        "░░░░░░\n\
         ░▕▔▔▏░\n\
         ░▕░░▏░\n\
         ░▕░░▏░\n\
         ░▕▁▁▏░\n\
         ░░░░░░"
    );
}

#[test]
fn proportional_wide() {
    assert_eq!(
        render(border::proportional_wide()),
        "░░░░░░\n\
         ░▄▄▄▄░\n\
         ░█░░█░\n\
         ░█░░█░\n\
         ░▀▀▀▀░\n\
         ░░░░░░"
    );
}

#[test]
fn proportional_tall() {
    assert_eq!(
        render(border::proportional_tall()),
        "░░░░░░\n\
         ░█▀▀█░\n\
         ░█░░█░\n\
         ░█░░█░\n\
         ░█▄▄█░\n\
         ░░░░░░"
    );
}

#[test]
fn full() {
    assert_eq!(
        render(border::full()),
        "░░░░░░\n\
         ░████░\n\
         ░█░░█░\n\
         ░█░░█░\n\
         ░████░\n\
         ░░░░░░"
    );
}

#[test]
fn empty() {
    assert_eq!(
        render(border::empty()),
        "░░░░░░\n\
         ░    ░\n\
         ░ ░░ ░\n\
         ░ ░░ ░\n\
         ░    ░\n\
         ░░░░░░"
    );
}

#[test]
fn line_sets_share_corners_with_their_borders() {
    assert_eq!(from_line_set(normal_lines()), border::plain());
    assert_eq!(from_line_set(rounded_lines()), border::rounded());
    assert_eq!(from_line_set(double_lines()), border::double());
    assert_eq!(from_line_set(thick_lines()), border::thick());
    assert_eq!(heavy_triple_dashed_lines().cross, THICK_CROSS);
    assert_eq!(light_triple_dashed_lines().cross, CROSS);
    assert_eq!(rounded_lines().horizontal_down, "┬");
    assert_eq!(double_lines().vertical_right, "╠");
}
