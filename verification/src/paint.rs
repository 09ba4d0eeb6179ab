//! What is drawn, as a list of steps: whoever has a screen carries them out in
//! order.

use vstd::prelude::*;

use crate::geometry::Rect;

verus! {

/// The background, `#11111b`. Colors are written as Windows has them, with blue
/// in the highest byte.
pub const BACKGROUND_COLOR: u32 = 0x001B1111;

/// The text, `#cdd6f4`.
pub const TEXT_COLOR: u32 = 0x00F4D6CD;

/// The accent behind the active workspace and the selected row, `#56d285`.
pub const ACCENT_COLOR: u32 = 0x0085D256;

/// The background of the text field, `#1b1b29`.
pub const EDIT_BACKGROUND_COLOR: u32 = 0x00291B1B;

/// How a line of text sits in its rectangle.
#[derive(Clone, Copy, Debug, PartialEq, Eq, Structural)]
pub enum TextLayout {
    /// In the middle.
    Centered,
    /// From the left end, cut off with an ellipsis if it does not fit.
    LeftCut,
}

/// A step of drawing.
#[derive(Debug)]
pub enum PaintStep {
    /// Fill a rectangle with a color.
    Fill { area: Rect, color: u32 },
    /// Write a line of text into a rectangle.
    Text { text: String, area: Rect, color: u32, layout: TextLayout },
}

/// A step of drawing, with the text by its characters.
pub enum PaintView {
    Fill { area: Rect, color: u32 },
    Text { text: Seq<char>, area: Rect, color: u32, layout: TextLayout },
}

impl View for PaintStep {
    type V = PaintView;

    open spec fn view(&self) -> PaintView {
        match *self {
            PaintStep::Fill { area, color } => PaintView::Fill { area, color },
            PaintStep::Text { text, area, color, layout } => PaintView::Text {
                text: text@,
                area,
                color,
                layout,
            },
        }
    }
}

/// The steps, each with its text by its characters.
pub open spec fn step_views(steps: Seq<PaintStep>) -> Seq<PaintView> {
    Seq::new(steps.len(), |i: int| steps[i]@)
}

/// Appends a step.
pub(crate) fn push_step(steps: &mut Vec<PaintStep>, step: PaintStep)
    ensures
        final(steps)@ == old(steps)@.push(step),
        step_views(final(steps)@) == step_views(old(steps)@).push(step@),
{
    steps.push(step);
    assert(step_views(steps@) =~= step_views(old(steps)@).push(step@));
}

} // verus!
