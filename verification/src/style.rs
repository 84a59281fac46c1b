//! Styles: colors and text modifiers that compose by overriding.

pub mod color;
pub mod modifier;

use vstd::prelude::*;
use crate::style::color::Color;
use crate::style::modifier::{Modifier, ALL};

verus! {

/// What a style says of the look of a cell. A color that is `None` is not set:
/// it leaves in place what is there. `Some(Color::Reset)` is set, and asks for
/// the terminal's default. The modifiers of `add_modifier` are switched on,
/// those of `sub_modifier` switched off, all others left as they are.
#[derive(Debug, Clone, Copy, PartialEq, Eq, Hash, Structural)]
pub struct Style {
    pub fg: Option<Color>,
    pub bg: Option<Color>,
    pub underline_color: Option<Color>,
    pub add_modifier: Modifier,
    pub sub_modifier: Modifier,
}

/// The color of a merge: that of the patch where it sets one, else that of the
/// base.
pub open spec fn merged_color(base: Option<Color>, patch: Option<Color>) -> Option<Color> {
    if patch is Some {
        patch
    } else {
        base
    }
}

/// The style that says nothing.
pub open spec fn unset() -> Style {
    Style {
        fg: None,
        bg: None,
        underline_color: None,
        add_modifier: Modifier { bits: 0 },
        sub_modifier: Modifier { bits: 0 },
    }
}

/// The merge of two styles, field by field: what the patch sets overrides the
/// base, what it leaves unset is taken from the base. A modifier that the patch
/// switches on is no longer switched off, and the other way round.
pub open spec fn merged(base: Style, patch: Style) -> Style {
    Style {
        fg: merged_color(base.fg, patch.fg),
        bg: merged_color(base.bg, patch.bg),
        underline_color: merged_color(base.underline_color, patch.underline_color),
        add_modifier: base.add_modifier.spec_difference(patch.sub_modifier).spec_union(
            patch.add_modifier,
        ),
        sub_modifier: base.sub_modifier.spec_difference(patch.add_modifier).spec_union(
            patch.sub_modifier,
        ),
    }
}

/// Merging is associative: patching a base with one style and then with
/// another gives what patching it with the merge of the two gives.
pub proof fn lemma_merge_associative(s1: Style, s2: Style, s3: Style)
    ensures
        merged(merged(s1, s2), s3) == merged(s1, merged(s2, s3)),
{
    let a1 = s1.add_modifier.bits;
    let a2 = s2.add_modifier.bits;
    let a3 = s3.add_modifier.bits;
    let r1 = s1.sub_modifier.bits;
    let r2 = s2.sub_modifier.bits;
    let r3 = s3.sub_modifier.bits;
    assert((((a1 & !r2) | a2) & !r3) | a3 == (a1 & !((r2 & !a3) | r3)) | ((a2 & !r3) | a3))
        by (bit_vector);
    assert((((r1 & !a2) | r2) & !a3) | r3 == (r1 & !((a2 & !r3) | a3)) | ((r2 & !a3) | r3))
        by (bit_vector);
}

/// The style that says nothing changes nothing, whichever side it is merged
/// from.
pub proof fn lemma_merge_unset(s: Style)
    ensures
        merged(s, unset()) == s,
        merged(unset(), s) == s,
{
    let a = s.add_modifier.bits;
    let r = s.sub_modifier.bits;
    assert((a & !0u16) | 0u16 == a) by (bit_vector);
    assert((r & !0u16) | 0u16 == r) by (bit_vector);
    assert((0u16 & !r) | a == a) by (bit_vector);
    assert((0u16 & !a) | r == r) by (bit_vector);
}

/// A field that the patch sets comes out as the patch has it, whatever the base
/// says; one that it leaves unset comes out as the base has it.
pub proof fn lemma_merge_overrides(base: Style, patch: Style)
    ensures
        patch.fg is Some ==> merged(base, patch).fg == patch.fg,
        patch.fg is None ==> merged(base, patch).fg == base.fg,
        patch.bg is Some ==> merged(base, patch).bg == patch.bg,
        patch.bg is None ==> merged(base, patch).bg == base.bg,
        patch.underline_color is Some ==> merged(base, patch).underline_color
            == patch.underline_color,
        patch.underline_color is None ==> merged(base, patch).underline_color
            == base.underline_color,
        merged(base, patch).add_modifier.spec_contains(patch.add_modifier),
        merged(base, patch).sub_modifier.spec_contains(patch.sub_modifier),
{
    let a1 = base.add_modifier.bits;
    let a2 = patch.add_modifier.bits;
    let r1 = base.sub_modifier.bits;
    let r2 = patch.sub_modifier.bits;
    assert((((a1 & !r2) | a2) & a2) == a2) by (bit_vector);
    assert((((r1 & !a2) | r2) & r2) == r2) by (bit_vector);
}

/// Applies `patch` over `base`, field by field.
pub fn merge(base: Style, patch: Style) -> (style: Style)
    ensures
        style == merged(base, patch),
{
    base.patch(patch)
}

impl Style {
    /// The style that says nothing.
    pub fn new() -> (style: Style)
        ensures
            style == unset(),
    {
        Style {
            fg: None,
            bg: None,
            underline_color: None,
            add_modifier: Modifier::empty(),
            sub_modifier: Modifier::empty(),
        }
    }

    /// The style that puts every color back to the terminal's default and
    /// switches every modifier off.
    pub fn reset() -> (style: Style)
        ensures
            style == (Style {
                fg: Some(Color::Reset),
                bg: Some(Color::Reset),
                underline_color: Some(Color::Reset),
                add_modifier: Modifier { bits: 0 },
                sub_modifier: Modifier { bits: ALL },
            }),
    {
        Style {
            fg: Some(Color::Reset),
            bg: Some(Color::Reset),
            underline_color: Some(Color::Reset),
            add_modifier: Modifier::empty(),
            sub_modifier: Modifier::all(),
        }
    }

    /// The same style with the foreground color set.
    pub fn fg(self, color: Color) -> (style: Style)
        ensures
            style == (Style { fg: Some(color), ..self }),
    {
        Style { fg: Some(color), ..self }
    }

    /// The same style with the background color set.
    pub fn bg(self, color: Color) -> (style: Style)
        ensures
            style == (Style { bg: Some(color), ..self }),
    {
        Style { bg: Some(color), ..self }
    }

    /// The same style with the color of the underline set.
    pub fn underline_color(self, color: Color) -> (style: Style)
        ensures
            style == (Style { underline_color: Some(color), ..self }),
    {
        Style { underline_color: Some(color), ..self }
    }

    /// The same style with `modifier` switched on: its modifiers join those to
    /// switch on and leave those to switch off.
    pub fn add_modifier(self, modifier: Modifier) -> (style: Style)
        ensures
            style == (Style {
                add_modifier: self.add_modifier.spec_union(modifier),
                sub_modifier: self.sub_modifier.spec_difference(modifier),
                ..self
            }),
    {
        Style {
            add_modifier: self.add_modifier.union(modifier),
            sub_modifier: self.sub_modifier.difference(modifier),
            ..self
        }
    }

    /// The same style with `modifier` switched off: its modifiers join those to
    /// switch off and leave those to switch on.
    pub fn remove_modifier(self, modifier: Modifier) -> (style: Style)
        ensures
            style == (Style {
                add_modifier: self.add_modifier.spec_difference(modifier),
                sub_modifier: self.sub_modifier.spec_union(modifier),
                ..self
            }),
    {
        Style {
            add_modifier: self.add_modifier.difference(modifier),
            sub_modifier: self.sub_modifier.union(modifier),
            ..self
        }
    }

    /// This style with `other` applied over it.
    pub fn patch(self, other: Style) -> (style: Style)
        ensures
            style == merged(self, other),
    {
        Style {
            fg: if other.fg.is_some() { other.fg } else { self.fg },
            bg: if other.bg.is_some() { other.bg } else { self.bg },
            underline_color: if other.underline_color.is_some() {
                other.underline_color
            } else {
                self.underline_color
            },
            add_modifier: self.add_modifier.difference(other.sub_modifier).union(
                other.add_modifier,
            ),
            sub_modifier: self.sub_modifier.difference(other.add_modifier).union(
                other.sub_modifier,
            ),
        }
    }
}

impl Default for Style {
    /// The style that says nothing.
    fn default() -> (style: Style)
        ensures
            style == unset(),
    {
        Style::new()
    }
}

} // verus!
