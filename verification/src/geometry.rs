//! Where things are on the screen: the widgets of the bar, the popup and its
//! rows, and which window covers which monitor. All in pixels.

use vstd::prelude::*;

verus! {

/// A rectangle; `right` and `bottom` lie just outside it.
#[derive(Clone, Copy, Debug, PartialEq, Eq, Structural)]
pub struct Rect {
    pub left: i32,
    pub top: i32,
    pub right: i32,
    pub bottom: i32,
}

/// Where a window goes, and how large it is.
#[derive(Clone, Copy, Debug, PartialEq, Eq, Structural)]
pub struct Placement {
    pub x: i32,
    pub y: i32,
    pub width: i32,
    pub height: i32,
}

/// The height that the bar reserves at the top of the screen.
pub const BAR_HEIGHT: i32 = 32;

/// The width of the volume widget.
pub const VOLUME_RECT_WIDTH: i32 = 100;

/// The gap between the volume widget and the right end of the bar.
pub const VOLUME_MARGIN: i32 = 20;

/// The width of the clock.
pub const CLOCK_WIDTH: i32 = 140;

/// How many workspaces the bar shows.
pub const WORKSPACE_COUNT: usize = 7;

/// The left end of the first workspace.
pub const WORKSPACE_LEFT: i32 = 10;

/// The width of a workspace.
pub const WORKSPACE_WIDTH: i32 = 36;

/// From the left end of one workspace to that of the next.
pub const WORKSPACE_STRIDE: i32 = 44;

/// The gap above and below a workspace.
pub const WORKSPACE_MARGIN: i32 = 4;

/// The gap between the workspaces and the window title.
pub const TITLE_INDENT: i32 = 20;

/// The gap between the window title and the clock.
pub const TITLE_MARGIN: i32 = 10;

pub const POPUP_WIDTH: i32 = 480;

pub const POPUP_HEIGHT: i32 = 360;

/// The height of a row of the popup's list.
pub const ROW_HEIGHT: i32 = 28;

/// The height of the popup's text field, below which the list starts.
pub const EDIT_HEIGHT: i32 = 32;

/// The gap between the popup's list and its sides, and between the side of a
/// row and its text.
pub const ROW_MARGIN: i32 = 8;

/// Division that rounds toward zero.
pub open spec fn toward_zero(dividend: int, divisor: int) -> int {
    if dividend >= 0 {
        dividend / divisor
    } else {
        -((-dividend) / divisor)
    }
}

impl Rect {
    /// The point lies in the rectangle.
    pub open spec fn spec_contains(self, x: int, y: int) -> bool {
        self.left <= x < self.right && self.top <= y < self.bottom
    }

    /// Does the point lie in the rectangle?
    pub fn contains(&self, x: i32, y: i32) -> (inside: bool)
        ensures
            inside == self.spec_contains(x as int, y as int),
    {
        x >= self.left && x < self.right && y >= self.top && y < self.bottom
    }

    /// The rectangle reaches at least as far as `other` on all four sides.
    pub open spec fn spec_covers(self, other: Rect) -> bool {
        &&& self.left <= other.left
        &&& self.top <= other.top
        &&& self.right >= other.right
        &&& self.bottom >= other.bottom
    }

    /// Does the rectangle reach at least as far as `other` on all four sides?
    pub fn covers(&self, other: &Rect) -> (covered: bool)
        ensures
            covered == self.spec_covers(*other),
    {
        self.left <= other.left && self.top <= other.top && self.right >= other.right
            && self.bottom >= other.bottom
    }

    /// The width and the height fit into an `i32`.
    pub open spec fn measurable(self) -> bool {
        &&& i32::MIN <= self.right - self.left <= i32::MAX
        &&& i32::MIN <= self.bottom - self.top <= i32::MAX
    }

    /// The place and size of a window that fills the rectangle.
    pub fn placement(&self) -> (place: Placement)
        requires
            self.measurable(),
        ensures
            place.x == self.left,
            place.y == self.top,
            place.width == self.right - self.left,
            place.height == self.bottom - self.top,
    {
        Placement {
            x: self.left,
            y: self.top,
            width: self.right - self.left,
            height: self.bottom - self.top,
        }
    }
}

/// The strip at the top of the screen that the bar asks the shell for.
pub fn appbar_rect(screen_width: i32) -> (rect: Rect)
    ensures
        rect == (Rect { left: 0, top: 0, right: screen_width, bottom: BAR_HEIGHT }),
{
    Rect { left: 0, top: 0, right: screen_width, bottom: BAR_HEIGHT }
}

/// A bar of this width has room to compute its right end in.
pub open spec fn bar_width_ok(width: i32) -> bool {
    width - VOLUME_RECT_WIDTH - VOLUME_MARGIN >= i32::MIN
}

/// The volume widget: at the right end of the bar.
pub open spec fn volume_area(width: i32, height: i32) -> Rect {
    Rect {
        left: (width - VOLUME_RECT_WIDTH - VOLUME_MARGIN) as i32,
        top: 0,
        right: (width - VOLUME_MARGIN) as i32,
        bottom: height,
    }
}

/// Where the volume widget is.
pub fn volume_rect(width: i32, height: i32) -> (rect: Rect)
    requires
        bar_width_ok(width),
    ensures
        rect == volume_area(width, height),
{
    Rect {
        left: width - VOLUME_RECT_WIDTH - VOLUME_MARGIN,
        top: 0,
        right: width - VOLUME_MARGIN,
        bottom: height,
    }
}

/// The clock: in the middle of the bar.
pub open spec fn clock_area(width: i32, height: i32) -> Rect {
    let middle = toward_zero(width as int, 2);
    Rect {
        left: (middle - CLOCK_WIDTH / 2) as i32,
        top: 0,
        right: (middle + CLOCK_WIDTH / 2) as i32,
        bottom: height,
    }
}

/// Where the clock is.
pub fn clock_rect(width: i32, height: i32) -> (rect: Rect)
    ensures
        rect == clock_area(width, height),
{
    Rect {
        left: width / 2 - CLOCK_WIDTH / 2,
        top: 0,
        right: width / 2 + CLOCK_WIDTH / 2,
        bottom: height,
    }
}

/// A bar of this height has room for the gap below a workspace.
pub open spec fn bar_height_ok(height: i32) -> bool {
    height - WORKSPACE_MARGIN >= i32::MIN
}

/// Workspace `index`, counted from the left end of the bar.
pub open spec fn workspace_area(index: int, height: i32) -> Rect {
    let left = WORKSPACE_LEFT + index * WORKSPACE_STRIDE;
    Rect {
        left: left as i32,
        top: WORKSPACE_MARGIN,
        right: (left + WORKSPACE_WIDTH) as i32,
        bottom: (height - WORKSPACE_MARGIN) as i32,
    }
}

/// Where a workspace is.
pub fn workspace_rect(index: usize, height: i32) -> (rect: Rect)
    requires
        index < WORKSPACE_COUNT,
        bar_height_ok(height),
    ensures
        rect == workspace_area(index as int, height),
{
    let left: i32 = WORKSPACE_LEFT + index as i32 * WORKSPACE_STRIDE;
    Rect {
        left,
        top: WORKSPACE_MARGIN,
        right: left + WORKSPACE_WIDTH,
        bottom: height - WORKSPACE_MARGIN,
    }
}

/// The window title: from behind the workspaces up to the clock.
pub open spec fn title_area(width: i32, height: i32) -> Rect {
    Rect {
        left: (WORKSPACE_LEFT + WORKSPACE_COUNT * WORKSPACE_STRIDE
            + TITLE_INDENT) as i32,
        top: 0,
        right: (clock_area(width, height).left - TITLE_MARGIN) as i32,
        bottom: height,
    }
}

/// Where the window title is.
pub fn title_rect(width: i32, height: i32) -> (rect: Rect)
    ensures
        rect == title_area(width, height),
{
    Rect {
        left: WORKSPACE_LEFT + WORKSPACE_COUNT as i32 * WORKSPACE_STRIDE
            + TITLE_INDENT,
        top: 0,
        right: clock_rect(width, height).left - TITLE_MARGIN,
        bottom: height,
    }
}

/// Where the popup opens: in the middle of the screen.
pub fn popup_placement(screen_width: i32, screen_height: i32) -> (place: Placement)
    requires
        screen_width - POPUP_WIDTH >= i32::MIN,
        screen_height - POPUP_HEIGHT >= i32::MIN,
    ensures
        place.x == toward_zero(screen_width - POPUP_WIDTH, 2),
        place.y == toward_zero(screen_height - POPUP_HEIGHT, 2),
        place.width == POPUP_WIDTH,
        place.height == POPUP_HEIGHT,
{
    Placement {
        x: (screen_width - POPUP_WIDTH) / 2,
        y: (screen_height - POPUP_HEIGHT) / 2,
        width: POPUP_WIDTH,
        height: POPUP_HEIGHT,
    }
}

/// Where the text field is in the popup.
pub fn edit_placement() -> (place: Placement)
    ensures
        place == (Placement { x: 8, y: 8, width: 464, height: 20 }),
{
    Placement { x: 8, y: 8, width: POPUP_WIDTH - 16, height: EDIT_HEIGHT - 12 }
}

/// Row `row` of the list in a popup of that width.
pub open spec fn row_area(row: int, width: i32) -> Rect {
    Rect {
        left: ROW_MARGIN,
        top: (EDIT_HEIGHT + row * ROW_HEIGHT) as i32,
        right: (width - ROW_MARGIN) as i32,
        bottom: (EDIT_HEIGHT + (row + 1) * ROW_HEIGHT) as i32,
    }
}

/// Where a row of the list is.
pub fn row_rect(row: usize, width: i32) -> (rect: Rect)
    requires
        EDIT_HEIGHT + (row + 1) * ROW_HEIGHT <= i32::MAX,
        width - ROW_MARGIN >= i32::MIN,
    ensures
        rect == row_area(row as int, width),
{
    Rect {
        left: ROW_MARGIN,
        top: EDIT_HEIGHT + row as i32 * ROW_HEIGHT,
        right: width - ROW_MARGIN,
        bottom: EDIT_HEIGHT + (row as i32 + 1) * ROW_HEIGHT,
    }
}

/// The part of row `row` that holds its text.
pub open spec fn row_text_area(row: int, width: i32) -> Rect {
    Rect { left: (ROW_MARGIN + ROW_MARGIN) as i32, ..row_area(row, width) }
}

/// The row of the list at height `y` of the popup, if the list reaches up to
/// there.
pub open spec fn row_below(y: int) -> Option<int> {
    if y >= EDIT_HEIGHT {
        Some((y - EDIT_HEIGHT) / ROW_HEIGHT as int)
    } else {
        None
    }
}

/// Which row of the list is at height `y` of the popup?
pub fn row_at(y: i32) -> (row: Option<usize>)
    ensures
        row is Some <==> row_below(y as int) is Some,
        row matches Some(index) ==> row_below(y as int) == Some(index as int),
{
    if y >= EDIT_HEIGHT {
        Some(((y - EDIT_HEIGHT) / ROW_HEIGHT) as usize)
    } else {
        None
    }
}

} // verus!
