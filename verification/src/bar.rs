//! The bar: what it shows, and how it answers the messages of its window, the
//! windows in front of it and the window manager.

use vstd::prelude::*;

use crate::fullscreen::{bar_visibility, visibility_for, Visibility};
use crate::geometry::{
    bar_height_ok, bar_width_ok, clock_area, clock_rect, title_area, title_rect, volume_area,
    volume_rect, workspace_area, workspace_rect, Rect, WORKSPACE_COUNT,
};
use crate::komorebi::{notified_workspace, notified_workspace_of};
use crate::labels::{
    clock_text, is_clock_label, is_local_time_reading, volume_label, volume_text,
};
use crate::paint::{
    push_step, step_views, PaintStep, PaintView, TextLayout, ACCENT_COLOR, BACKGROUND_COLOR,
    TEXT_COLOR,
};
use crate::search::HOTKEY_ID;
use crate::utf16::{title_text, utf16_lossy, without_trailing_nuls};
use crate::volume::WHEEL_PERCENT;
use crate::win32::{
    hotkey_number, lparam_x, lparam_y, signed16, signed32, wheel_delta, EVENT_SYSTEM_FOREGROUND,
    WM_CREATE, WM_DESTROY, WM_HOTKEY, WM_LBUTTONDOWN, WM_MOUSEWHEEL, WM_PAINT, WM_TIMER,
};

verus! {

/// The timer that refreshes the volume and the clock.
pub const REFRESH_TIMER: usize = 1;

/// Milliseconds between two refreshes.
pub const REFRESH_PERIOD: u32 = 1000;

/// The timer that looks for a full screen window.
pub const FULLSCREEN_TIMER: usize = 2;

/// Milliseconds between two looks: few, so that hiding and showing feels
/// immediate.
pub const FULLSCREEN_PERIOD: u32 = 150;

/// What the bar shows.
pub struct Bar {
    /// The handle of the bar's window, 0 until it is created.
    pub window: isize,
    /// The title of the window in front.
    pub title: String,
    /// The active workspace, counted from 0.
    pub active_workspace: usize,
    /// The volume in percent.
    pub volume: u32,
    /// The sound is muted.
    pub muted: bool,
}

/// What the bar shows, with the title by its characters.
#[verifier::ext_equal]
pub struct BarState {
    pub window: isize,
    pub title: Seq<char>,
    pub active_workspace: usize,
    pub volume: u32,
    pub muted: bool,
}

impl View for Bar {
    type V = BarState;

    open spec fn view(&self) -> BarState {
        BarState {
            window: self.window,
            title: self.title@,
            active_workspace: self.active_workspace,
            volume: self.volume,
            muted: self.muted,
        }
    }
}

/// What is to be done about a message to the bar.
#[derive(Clone, Copy, Debug, PartialEq, Eq, Structural)]
pub enum BarAction {
    /// Set up the window that was just created.
    Create,
    /// Open or close the search popup.
    ToggleSearch,
    /// Give the strip of the screen back and quit.
    Destroy,
    /// Read the volume and draw the bar again.
    Refresh,
    /// Hide or show the bar for the window in front.
    CheckFullscreen,
    /// A click at this point of the bar.
    Click { x: i32, y: i32 },
    /// A turn of the wheel at this point of the screen, worth this many percent
    /// of volume.
    Wheel { percent: i32, x: i32, y: i32 },
    /// Draw the bar.
    Paint,
    /// Nothing.
    Ignore,
    /// Leave it to the system.
    Default,
}

/// What a message to the bar asks for.
pub open spec fn bar_action(message: u32, wparam: usize, lparam: isize) -> BarAction {
    let x = signed16(lparam as int) as i32;
    let y = signed16(lparam as int / 0x1_0000) as i32;
    if message == WM_CREATE {
        BarAction::Create
    } else if message == WM_HOTKEY {
        if signed32(wparam as int) == HOTKEY_ID {
            BarAction::ToggleSearch
        } else {
            BarAction::Ignore
        }
    } else if message == WM_DESTROY {
        BarAction::Destroy
    } else if message == WM_TIMER {
        if wparam == REFRESH_TIMER {
            BarAction::Refresh
        } else if wparam == FULLSCREEN_TIMER {
            BarAction::CheckFullscreen
        } else {
            BarAction::Ignore
        }
    } else if message == WM_LBUTTONDOWN {
        BarAction::Click { x, y }
    } else if message == WM_MOUSEWHEEL {
        let percent = if signed16(wparam as int / 0x1_0000) > 0 {
            WHEEL_PERCENT
        } else {
            (-WHEEL_PERCENT) as i32
        };
        BarAction::Wheel { percent, x, y }
    } else if message == WM_PAINT {
        BarAction::Paint
    } else {
        BarAction::Default
    }
}

/// What does a message to the bar ask for?
pub fn bar_message(message: u32, wparam: usize, lparam: isize) -> (action: BarAction)
    ensures
        action == bar_action(message, wparam, lparam),
{
    if message == WM_CREATE {
        BarAction::Create
    } else if message == WM_HOTKEY {
        if hotkey_number(wparam) == HOTKEY_ID {
            BarAction::ToggleSearch
        } else {
            BarAction::Ignore
        }
    } else if message == WM_DESTROY {
        BarAction::Destroy
    } else if message == WM_TIMER {
        if wparam == REFRESH_TIMER {
            BarAction::Refresh
        } else if wparam == FULLSCREEN_TIMER {
            BarAction::CheckFullscreen
        } else {
            BarAction::Ignore
        }
    } else if message == WM_LBUTTONDOWN {
        BarAction::Click { x: lparam_x(lparam), y: lparam_y(lparam) }
    } else if message == WM_MOUSEWHEEL {
        let percent: i32 = if wheel_delta(wparam) > 0 {
            WHEEL_PERCENT
        } else {
            -WHEEL_PERCENT
        };
        BarAction::Wheel { percent, x: lparam_x(lparam), y: lparam_y(lparam) }
    } else if message == WM_PAINT {
        BarAction::Paint
    } else {
        BarAction::Default
    }
}

/// The bar can be laid out in this client area.
pub open spec fn client_ok(client: Rect) -> bool {
    &&& client.measurable()
    &&& bar_width_ok((client.right - client.left) as i32)
    &&& bar_height_ok((client.bottom - client.top) as i32)
}

/// The volume widget, if the point lies in it.
pub open spec fn volume_at(client: Rect, x: i32, y: i32) -> Option<Rect> {
    let widget = volume_area((client.right - client.left) as i32, client.bottom);
    if widget.spec_contains(x as int, y as int) {
        Some(widget)
    } else {
        None
    }
}

/// Does the point of the client area lie in the volume widget? Its place, if so.
pub fn volume_hit(client: Rect, x: i32, y: i32) -> (widget: Option<Rect>)
    requires
        i32::MIN <= client.right - client.left <= i32::MAX,
        bar_width_ok((client.right - client.left) as i32),
    ensures
        widget == volume_at(client, x, y),
{
    let widget = volume_rect(client.right - client.left, client.bottom);
    if widget.contains(x, y) {
        Some(widget)
    } else {
        None
    }
}

/// The label of a workspace.
pub open spec fn workspace_name(index: int) -> Seq<char> {
    if index == 0 {
        "I"@
    } else if index == 1 {
        "II"@
    } else if index == 2 {
        "III"@
    } else if index == 3 {
        "IV"@
    } else if index == 4 {
        "V"@
    } else if index == 5 {
        "VI"@
    } else {
        "VII"@
    }
}

/// The label of a workspace.
pub fn workspace_label(index: usize) -> (label: &'static str)
    requires
        index < WORKSPACE_COUNT,
    ensures
        label@ == workspace_name(index as int),
{
    match index {
        0 => "I",
        1 => "II",
        2 => "III",
        3 => "IV",
        4 => "V",
        5 => "VI",
        _ => "VII",
    }
}

/// Workspace `index` as it is drawn: the active one on the accent color.
pub open spec fn workspace_views(index: int, active: usize, height: i32) -> Seq<PaintView> {
    let area = workspace_area(index, height);
    let back = if index == active {
        seq![PaintView::Fill { area, color: ACCENT_COLOR }]
    } else {
        Seq::empty()
    };
    back.push(
        PaintView::Text {
            text: workspace_name(index),
            area,
            color: if index == active {
                BACKGROUND_COLOR
            } else {
                TEXT_COLOR
            },
            layout: TextLayout::Centered,
        },
    )
}

/// The first `count` workspaces as they are drawn.
pub open spec fn workspaces_views(count: int, active: usize, height: i32) -> Seq<PaintView>
    decreases count,
{
    if count <= 0 {
        Seq::empty()
    } else {
        workspaces_views(count - 1, active, height) + workspace_views(count - 1, active, height)
    }
}

/// The window title as it is drawn: not at all if it is empty.
pub open spec fn title_views(title: Seq<char>, width: i32, height: i32) -> Seq<PaintView> {
    if title.len() == 0 {
        Seq::empty()
    } else {
        seq![
            PaintView::Text {
                text: title,
                area: title_area(width, height),
                color: TEXT_COLOR,
                layout: TextLayout::LeftCut,
            },
        ]
    }
}

/// The bar as it is drawn: the background, the workspaces, the window title,
/// the volume and the clock.
pub open spec fn bar_views(state: BarState, client: Rect, clock: Seq<char>) -> Seq<PaintView> {
    let width = (client.right - client.left) as i32;
    let height = (client.bottom - client.top) as i32;
    seq![PaintView::Fill { area: client, color: BACKGROUND_COLOR }] + workspaces_views(
        WORKSPACE_COUNT as int,
        state.active_workspace,
        height,
    ) + title_views(state.title, width, height) + seq![
        PaintView::Text {
            text: volume_label(state.volume, state.muted),
            area: volume_area(width, height),
            color: TEXT_COLOR,
            layout: TextLayout::Centered,
        },
        PaintView::Text {
            text: clock,
            area: clock_area(width, height),
            color: TEXT_COLOR,
            layout: TextLayout::Centered,
        },
    ]
}

/// What is to be done after another window came to the front.
#[derive(Clone, Copy, Debug, PartialEq, Eq, Structural)]
pub struct ForegroundChange {
    /// How the bar is to be shown, if that is to be set.
    pub visibility: Option<Visibility>,
    /// The bar is to be drawn again.
    pub repaint: bool,
}

/// The title of a window, whose text was read into `buffer` if it is `length`
/// units long; none if it has no text.
pub open spec fn title_of(length: i32, buffer: Seq<u16>) -> Seq<char> {
    if length > 0 {
        without_trailing_nuls(utf16_lossy(buffer))
    } else {
        Seq::empty()
    }
}

/// The bar after a workspace was named, if one was.
pub open spec fn after_workspace(before: BarState, named: Option<u64>) -> BarState {
    match named {
        Some(number) => BarState { active_workspace: number as usize, ..before },
        None => before,
    }
}

/// The bar is to be drawn again after a workspace was named: if it is another
/// one, and there is a window to draw.
pub open spec fn workspace_repaints(before: BarState, named: Option<u64>) -> bool {
    match named {
        Some(number) => before.active_workspace != number as usize && before.window != 0,
        None => false,
    }
}

impl Bar {
    /// A bar without a window. It shows the first workspace as the active one
    /// until it hears of another.
    pub fn new() -> (bar: Bar)
        ensures
            bar@ == (BarState {
                window: 0,
                title: Seq::empty(),
                active_workspace: 0,
                volume: 0,
                muted: false,
            }),
    {
        Bar { window: 0, title: String::new(), active_workspace: 0, volume: 0, muted: false }
    }

    /// The window of the bar was created.
    pub fn created(&mut self, window: isize)
        ensures
            final(self)@ == (BarState { window, ..old(self)@ }),
    {
        self.window = window;
    }

    /// Takes the volume in percent and the mute state, as they were read from
    /// the sound device. A reading that failed changes nothing.
    pub fn volume_read(&mut self, reading: Option<(u32, bool)>)
        ensures
            final(self)@ == (match reading {
                Some((volume, muted)) => BarState { volume, muted, ..old(self)@ },
                None => old(self)@,
            }),
    {
        if let Some((volume, muted)) = reading {
            self.volume = volume;
            self.muted = muted;
        }
    }

    /// Takes the title of the window that is in front when the bar starts. A
    /// window without text changes nothing.
    pub fn first_title(&mut self, length: i32, buffer: &[u16])
        ensures
            final(self)@ == (if length > 0 {
                BarState { title: title_of(length, buffer@), ..old(self)@ }
            } else {
                old(self)@
            }),
    {
        if length > 0 {
            self.title = title_text(buffer);
        }
    }

    /// Another window came to the front: takes its title, and decides on the
    /// bar. Any other event changes nothing.
    pub fn foreground_changed(
        &mut self,
        event: u32,
        window: isize,
        length: i32,
        buffer: &[u16],
        fullscreen: bool,
    ) -> (change: ForegroundChange)
        ensures
            event != EVENT_SYSTEM_FOREGROUND ==> {
                &&& final(self)@ == old(self)@
                &&& change == (ForegroundChange { visibility: None, repaint: false })
            },
            event == EVENT_SYSTEM_FOREGROUND ==> {
                &&& final(self)@ == (BarState { title: title_of(length, buffer@), ..old(self)@ })
                &&& change == (ForegroundChange {
                    visibility: if old(self)@.window != 0 {
                        visibility_for(old(self)@.window, window, fullscreen)
                    } else {
                        None
                    },
                    repaint: old(self)@.window != 0,
                })
            },
    {
        if event != EVENT_SYSTEM_FOREGROUND {
            return ForegroundChange { visibility: None, repaint: false };
        }
        self.title = if length > 0 {
            title_text(buffer)
        } else {
            String::new()
        };
        if self.window != 0 {
            ForegroundChange {
                visibility: bar_visibility(self.window, window, fullscreen),
                repaint: true,
            }
        } else {
            ForegroundChange { visibility: None, repaint: false }
        }
    }

    /// A line from the window manager: takes over the active workspace, if the
    /// line names one. Is the bar to be drawn again?
    pub fn notified(&mut self, line: &str) -> (repaint: bool)
        ensures
            final(self)@ == after_workspace(old(self)@, notified_workspace_of(line@)),
            repaint == workspace_repaints(old(self)@, notified_workspace_of(line@)),
    {
        match notified_workspace(line) {
            Some(number) => self.workspace_focused(number),
            None => false,
        }
    }

    /// A workspace has the focus. Is the bar to be drawn again?
    pub fn workspace_focused(&mut self, number: u64) -> (repaint: bool)
        ensures
            final(self)@ == after_workspace(old(self)@, Some(number)),
            repaint == workspace_repaints(old(self)@, Some(number)),
    {
        let workspace: usize = #[verifier::truncate]
        (number as usize);
        if self.active_workspace != workspace {
            self.active_workspace = workspace;
            self.window != 0
        } else {
            false
        }
    }

    /// How the bar is drawn into a client area, with this text for the clock.
    pub fn draw_with_clock(&self, client: Rect, clock: String) -> (steps: Vec<PaintStep>)
        requires
            client_ok(client),
        ensures
            step_views(steps@) == bar_views(self@, client, clock@),
    {
        let width: i32 = client.right - client.left;
        let height: i32 = client.bottom - client.top;
        let active = self.active_workspace;
        let mut steps: Vec<PaintStep> = Vec::new();
        push_step(&mut steps, PaintStep::Fill { area: client, color: BACKGROUND_COLOR });
        let ghost start = step_views(steps@);
        assert(start =~= seq![PaintView::Fill { area: client, color: BACKGROUND_COLOR }]);
        let mut index: usize = 0;
        while index < WORKSPACE_COUNT
            invariant
                index <= WORKSPACE_COUNT,
                bar_height_ok(height),
                step_views(steps@) == start + workspaces_views(index as int, active, height),
            decreases WORKSPACE_COUNT - index,
        {
            let ghost before = step_views(steps@);
            let area = workspace_rect(index, height);
            if index == active {
                push_step(&mut steps, PaintStep::Fill { area, color: ACCENT_COLOR });
            }
            let color: u32 = if index == active {
                BACKGROUND_COLOR
            } else {
                TEXT_COLOR
            };
            push_step(
                &mut steps,
                PaintStep::Text {
                    text: workspace_label(index).to_string(),
                    area,
                    color,
                    layout: TextLayout::Centered,
                },
            );
            assert(step_views(steps@) =~= before + workspace_views(index as int, active, height));
            index += 1;
            assert(step_views(steps@) =~= start + workspaces_views(index as int, active, height));
        }
        let ghost front = step_views(steps@);
        if !self.title.as_str().is_empty() {
            push_step(
                &mut steps,
                PaintStep::Text {
                    text: self.title.clone(),
                    area: title_rect(width, height),
                    color: TEXT_COLOR,
                    layout: TextLayout::LeftCut,
                },
            );
        }
        assert(step_views(steps@) =~= front + title_views(self@.title, width, height));
        push_step(
            &mut steps,
            PaintStep::Text {
                text: volume_text(self.volume, self.muted),
                area: volume_rect(width, height),
                color: TEXT_COLOR,
                layout: TextLayout::Centered,
            },
        );
        push_step(
            &mut steps,
            PaintStep::Text {
                text: clock,
                area: clock_rect(width, height),
                color: TEXT_COLOR,
                layout: TextLayout::Centered,
            },
        );
        assert(step_views(steps@) =~= bar_views(self@, client, clock@));
        steps
    }

    /// How the bar is drawn into a client area now.
    pub fn draw(&self, client: Rect) -> (steps: Vec<PaintStep>)
        requires
            client_ok(client),
        ensures
            exists|clock: Seq<char>|
                is_clock_label(clock) && is_local_time_reading(clock) && step_views(steps@)
                    == #[trigger] bar_views(self@, client, clock),
    {
        let clock = clock_text();
        let ghost shown = clock@;
        let steps = self.draw_with_clock(client, clock);
        assert(step_views(steps@) == bar_views(self@, client, shown));
        steps
    }
}

} // verus!
