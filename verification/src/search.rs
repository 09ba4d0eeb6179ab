//! The app search: what it knows, what its popup lists, and how it answers
//! keys, clicks and the other messages of its windows.

use vstd::prelude::*;

use crate::apps::App;
use crate::filter::{is_listing, list_matches, name_views, MAX_RESULTS};
use crate::geometry::{row_area, row_at, row_below, row_rect, row_text_area, Rect, ROW_MARGIN};
use crate::paint::{
    push_step, step_views, PaintStep, PaintView, TextLayout, ACCENT_COLOR, BACKGROUND_COLOR,
    TEXT_COLOR,
};
use crate::text::{ascii_lowercase, lowercase, lowercase_chars, lowers_as_ascii};
use crate::usage::{one_more_use, use_count, without_stale, Usage, UsageEntry};
use crate::utf16::{from_utf16_lossy, utf16_lossy};
use crate::win32::{
    activation_state, lparam_y, notification_code, signed16, virtual_key, EN_CHANGE, MOD_ALT,
    VK_DOWN, VK_ESCAPE, VK_RETURN, VK_SPACE, VK_UP, WA_INACTIVE, WM_ACTIVATE, WM_COMMAND, WM_CREATE,
    WM_CTLCOLOREDIT, WM_KEYDOWN, WM_LBUTTONDOWN, WM_PAINT,
};

verus! {

/// The number of the hotkey that opens and closes the popup.
pub const HOTKEY_ID: i32 = 1;

/// A system-wide hotkey.
#[derive(Clone, Copy, Debug, PartialEq, Eq, Structural)]
pub struct Hotkey {
    /// Its number.
    pub id: i32,
    /// The modifier keys, as `RegisterHotKey` takes them.
    pub modifiers: u32,
    /// The virtual key code.
    pub key: u32,
}

/// The hotkey to register for the popup: Alt and Space.
pub fn register_hotkey() -> (hotkey: Hotkey)
    ensures
        hotkey == (Hotkey { id: HOTKEY_ID, modifiers: MOD_ALT, key: VK_SPACE as u32 }),
{
    Hotkey { id: HOTKEY_ID, modifiers: MOD_ALT, key: VK_SPACE as u32 }
}

/// The app search.
pub struct Search {
    apps: Vec<App>,
    listed: Vec<usize>,
    selected: usize,
    popup: isize,
    edit: isize,
    usage: Usage,
}

/// What the app search knows and shows.
#[verifier::ext_equal]
pub struct SearchState {
    /// The apps found when the Start Menu was last read.
    pub apps: Seq<App>,
    /// The apps in the popup's list, as indices into the apps when the list was
    /// made.
    pub listed: Seq<usize>,
    /// The selected row of the list.
    pub selected: int,
    /// The handle of the popup, 0 while it is closed.
    pub popup: isize,
    /// The handle of the popup's text field, 0 while it is closed.
    pub edit: isize,
    /// The recorded uses, by path.
    pub uses: Map<Seq<char>, UsageEntry>,
}

impl SearchState {
    /// The list is no longer than the popup shows, and the selection is one of
    /// its rows, or the first if there are none.
    pub open spec fn valid(self) -> bool {
        &&& self.listed.len() <= MAX_RESULTS
        &&& 0 <= self.selected
        &&& self.selected == 0 || self.selected < self.listed.len()
    }

    /// The path of the selected app. There is none if the list is empty, or if
    /// the apps were read again since and there are fewer now.
    pub open spec fn target(self) -> Option<Seq<char>> {
        if self.selected < self.listed.len() && self.listed[self.selected] < self.apps.len() {
            Some(self.apps[self.listed[self.selected] as int].path@)
        } else {
            None
        }
    }

    /// The selected app was launched so often that one more cannot be counted.
    pub open spec fn count_exhausted(self) -> bool {
        self.target() matches Some(path) && use_count(self.uses, path) == u32::MAX
    }

    /// After the launch of the selected app: one use more of it, and no app in
    /// the history that was not opened for too long.
    pub open spec fn after_launch(self, now: i64) -> SearchState {
        match self.target() {
            Some(path) => SearchState {
                uses: without_stale(
                    self.uses.insert(path, one_more_use(self.uses, path, now)),
                    now,
                ),
                ..self
            },
            None => self,
        }
    }

    /// After the popup was closed.
    pub open spec fn closed(self) -> SearchState {
        SearchState { popup: 0, edit: 0, ..self }
    }

    /// After the selection moved down by one row, if there is one.
    pub open spec fn moved_down(self) -> SearchState {
        if self.selected + 1 < self.listed.len() {
            SearchState { selected: self.selected + 1, ..self }
        } else {
            self
        }
    }

    /// After the selection moved up by one row, if there is one.
    pub open spec fn moved_up(self) -> SearchState {
        if self.selected > 0 {
            SearchState { selected: self.selected - 1, ..self }
        } else {
            self
        }
    }

    /// The row of the list at height `y` of the popup.
    pub open spec fn row_hit(self, y: int) -> Option<int> {
        match row_below(y) {
            Some(row) => if row < self.listed.len() {
                Some(row)
            } else {
                None
            },
            None => None,
        }
    }
}

/// The lower case names of the apps.
pub open spec fn lower_names(apps: Seq<App>) -> Seq<Seq<char>> {
    Seq::new(apps.len(), |i: int| lowercase(apps[i].name@))
}

/// `value` is the rank of the app at `path`: what `rank` makes of how often it
/// was launched and for how many seconds it was not opened, 0 if it never was.
pub open spec fn is_rank<F: Fn(u32, u64) -> u64>(
    rank: F,
    uses: Map<Seq<char>, UsageEntry>,
    now: i64,
    path: Seq<char>,
    value: u64,
) -> bool {
    if uses.contains_key(path) {
        let entry = uses[path];
        call_ensures(rank, (entry.count, entry.spec_unused_seconds(now) as u64), value)
    } else {
        value == 0
    }
}

/// `ranks` holds the rank of each app.
pub open spec fn are_ranks<F: Fn(u32, u64) -> u64>(
    rank: F,
    uses: Map<Seq<char>, UsageEntry>,
    now: i64,
    apps: Seq<App>,
    ranks: Seq<u64>,
) -> bool {
    &&& ranks.len() == apps.len()
    &&& forall|i: int|
        0 <= i < apps.len() ==> is_rank(rank, uses, now, (#[trigger] apps[i]).path@, ranks[i])
}

/// `after` lists what `before` has for the lower case query, with the first row
/// selected; all else is as it was.
pub open spec fn is_filtered<F: Fn(u32, u64) -> u64>(
    before: SearchState,
    after: SearchState,
    query: Seq<char>,
    now: i64,
    rank: F,
) -> bool {
    &&& after == (SearchState { listed: after.listed, selected: 0, ..before })
    &&& exists|ranks: Seq<u64>|
        {
            &&& #[trigger] are_ranks(rank, before.uses, now, before.apps, ranks)
            &&& is_listing(
                after.listed,
                lower_names(before.apps),
                ranks,
                query,
                MAX_RESULTS as nat,
            )
        }
}

/// The state in which the popup opens: with the apps just read, if there were
/// none.
pub open spec fn with_index(before: SearchState, indexed: Seq<App>) -> SearchState {
    if before.apps.len() == 0 {
        SearchState { apps: indexed, ..before }
    } else {
        before
    }
}

/// What the hotkey does.
#[derive(Clone, Copy, Debug, PartialEq, Eq, Structural)]
pub enum Toggle {
    /// Open the popup.
    Open,
    /// Close the popup with this handle.
    Close(isize),
}

/// What the hotkey does in a state.
pub open spec fn toggle_of(state: SearchState) -> Toggle {
    if state.popup != 0 {
        Toggle::Close(state.popup)
    } else {
        Toggle::Open
    }
}

/// What is to be done about a message to the text field.
#[derive(Clone, Copy, Debug, PartialEq, Eq, Structural)]
pub enum EditAction {
    /// Hand it on to the text field.
    Forward,
    /// Draw the popup again.
    Repaint,
    /// Launch the selected app and close the popup.
    Launch,
    /// Close the popup.
    Close,
}

/// What is to be done about a message to the popup.
#[derive(Clone, Copy, Debug, PartialEq, Eq, Structural)]
pub enum PopupAction {
    /// Create the text field.
    CreateEdit,
    /// Color the text field.
    ColorEdit,
    /// Read the query from the text field, filter, and draw the popup again.
    ReadQuery,
    /// Launch the selected app and close the popup.
    Launch,
    /// Close the popup.
    Close,
    /// Draw the popup.
    Paint,
    /// Nothing.
    Ignore,
    /// Leave it to the system.
    Default,
}

/// What a message to the text field asks for.
pub open spec fn edit_action(message: u32, wparam: usize) -> EditAction {
    let key = wparam as int % 0x1_0000;
    if message != WM_KEYDOWN {
        EditAction::Forward
    } else if key == VK_DOWN || key == VK_UP {
        EditAction::Repaint
    } else if key == VK_RETURN {
        EditAction::Launch
    } else if key == VK_ESCAPE {
        EditAction::Close
    } else {
        EditAction::Forward
    }
}

/// The state after a message to the text field: the arrow keys move the
/// selection.
pub open spec fn after_edit_message(
    before: SearchState,
    message: u32,
    wparam: usize,
) -> SearchState {
    let key = wparam as int % 0x1_0000;
    if message == WM_KEYDOWN && key == VK_DOWN {
        before.moved_down()
    } else if message == WM_KEYDOWN && key == VK_UP {
        before.moved_up()
    } else {
        before
    }
}

/// What a message to the popup asks for.
pub open spec fn popup_action(
    state: SearchState,
    message: u32,
    wparam: usize,
    lparam: isize,
) -> PopupAction {
    if message == WM_CREATE {
        PopupAction::CreateEdit
    } else if message == WM_CTLCOLOREDIT {
        PopupAction::ColorEdit
    } else if message == WM_COMMAND {
        if (wparam as int / 0x1_0000) % 0x1_0000_0000 == EN_CHANGE {
            PopupAction::ReadQuery
        } else {
            PopupAction::Ignore
        }
    } else if message == WM_LBUTTONDOWN {
        if state.row_hit(signed16(lparam as int / 0x1_0000)) is Some {
            PopupAction::Launch
        } else {
            PopupAction::Ignore
        }
    } else if message == WM_ACTIVATE {
        if wparam as int % 0x1_0000 == WA_INACTIVE {
            PopupAction::Close
        } else {
            PopupAction::Ignore
        }
    } else if message == WM_PAINT {
        PopupAction::Paint
    } else {
        PopupAction::Default
    }
}

/// The state after a message to the popup: a click selects the row it hits.
pub open spec fn after_popup_message(
    before: SearchState,
    message: u32,
    lparam: isize,
) -> SearchState {
    match before.row_hit(signed16(lparam as int / 0x1_0000)) {
        Some(row) => if message == WM_LBUTTONDOWN {
            SearchState { selected: row, ..before }
        } else {
            before
        },
        None => before,
    }
}

/// Row `row` as it is drawn: the selected one on the accent color, and the name
/// of its app if the app is still there.
pub open spec fn row_views(state: SearchState, row: int, width: i32) -> Seq<PaintView> {
    let selected = row == state.selected;
    let back = if selected {
        seq![PaintView::Fill { area: row_area(row, width), color: ACCENT_COLOR }]
    } else {
        Seq::empty()
    };
    let app = state.listed[row] as int;
    let name = if app < state.apps.len() {
        seq![
            PaintView::Text {
                text: state.apps[app].name@,
                area: row_text_area(row, width),
                color: if selected {
                    BACKGROUND_COLOR
                } else {
                    TEXT_COLOR
                },
                layout: TextLayout::LeftCut,
            },
        ]
    } else {
        Seq::empty()
    };
    back + name
}

/// The first `rows` rows as they are drawn.
pub open spec fn list_views(state: SearchState, rows: int, width: i32) -> Seq<PaintView>
    decreases rows,
{
    if rows <= 0 {
        Seq::empty()
    } else {
        list_views(state, rows - 1, width) + row_views(state, rows - 1, width)
    }
}

/// The popup as it is drawn: the background, then the rows of the list.
pub open spec fn popup_views(state: SearchState, client: Rect) -> Seq<PaintView> {
    seq![PaintView::Fill { area: client, color: BACKGROUND_COLOR }] + list_views(
        state,
        state.listed.len() as int,
        (client.right - client.left) as i32,
    )
}

/// `chrono::Utc::now` and `DateTime::timestamp`: the seconds since the Unix
/// epoch by the machine's clock. `chrono` counts on a clock that is past the
/// epoch; which second it is, is left open here.
#[verifier::external_body]
fn unix_time() -> (now: i64)
    ensures
        now >= 0,
{
    chrono::Utc::now().timestamp()
}

/// The machine's clock gave this time, in seconds since the Unix epoch, when it
/// was asked. What it may give is for [`unix_time`] alone to say.
pub closed spec fn is_clock_reading(now: i64) -> bool {
    call_ensures(unix_time, (), now)
}

/// Nothing but the clock gives a reading of the clock.
proof fn readings_come_from_the_clock(now: i64)
    ensures
        is_clock_reading(now) <==> call_ensures(unix_time, (), now),
{
}

impl View for Search {
    type V = SearchState;

    closed spec fn view(&self) -> SearchState {
        SearchState {
            apps: self.apps@,
            listed: self.listed@,
            selected: self.selected as int,
            popup: self.popup,
            edit: self.edit,
            uses: self.usage@,
        }
    }
}

impl Search {
    /// The recorded uses have one entry for each path.
    pub closed spec fn usage_wf(&self) -> bool {
        self.usage.wf()
    }

    /// What holds between any two calls.
    pub open spec fn wf(&self) -> bool {
        self@.valid() && self.usage_wf()
    }

    /// A search that knows no apps yet.
    pub fn new(usage: Usage) -> (search: Search)
        requires
            usage.wf(),
        ensures
            search.wf(),
            search@ == (SearchState {
                apps: Seq::empty(),
                listed: Seq::empty(),
                selected: 0,
                popup: 0,
                edit: 0,
                uses: usage@,
            }),
    {
        Search { apps: Vec::new(), listed: Vec::new(), selected: 0, popup: 0, edit: 0, usage }
    }

    /// The apps found when the Start Menu was last read.
    pub fn apps(&self) -> (apps: &Vec<App>)
        ensures
            apps@ == self@.apps,
    {
        &self.apps
    }

    /// The apps in the list, as indices.
    pub fn listed(&self) -> (listed: &Vec<usize>)
        ensures
            listed@ == self@.listed,
    {
        &self.listed
    }

    /// The selected row.
    pub fn selected(&self) -> (selected: usize)
        ensures
            selected == self@.selected,
    {
        self.selected
    }

    /// The recorded uses.
    pub fn usage(&self) -> (usage: &Usage)
        requires
            self.wf(),
        ensures
            usage.wf(),
            usage@ == self@.uses,
    {
        &self.usage
    }

    /// The handle of the text field, 0 while the popup is closed.
    pub fn edit(&self) -> (edit: isize)
        ensures
            edit == self@.edit,
    {
        self.edit
    }

    /// Takes over apps that were just read from the Start Menu. The list stays
    /// as it is until it is made anew.
    pub fn warm_index(&mut self, apps: Vec<App>)
        requires
            old(self).wf(),
        ensures
            final(self).wf(),
            final(self)@ == (SearchState { apps: apps@, ..old(self)@ }),
    {
        self.apps = apps;
    }

    /// Has the Start Menu to be read before the popup can open?
    pub fn needs_index(&self) -> (needed: bool)
        ensures
            needed == (self@.apps.len() == 0),
    {
        self.apps.len() == 0
    }

    /// The rank of each app at time `now`.
    fn ranks<F: Fn(u32, u64) -> u64>(&self, now: i64, rank: &F) -> (ranks: Vec<u64>)
        requires
            self.wf(),
            forall|count: u32, unused: u64| call_requires(*rank, (count, unused)),
        ensures
            are_ranks(*rank, self@.uses, now, self@.apps, ranks@),
    {
        let mut ranks: Vec<u64> = Vec::new();
        let mut i: usize = 0;
        while i < self.apps.len()
            invariant
                i <= self.apps@.len(),
                i == ranks@.len(),
                self.wf(),
                forall|count: u32, unused: u64| call_requires(*rank, (count, unused)),
                forall|j: int|
                    0 <= j < i ==> is_rank(
                        *rank,
                        self@.uses,
                        now,
                        (#[trigger] self@.apps[j]).path@,
                        ranks@[j],
                    ),
            decreases self.apps@.len() - i,
        {
            let value: u64 = match self.usage.get(&self.apps[i].path) {
                Some(entry) => rank(entry.count, entry.unused_seconds(now)),
                None => 0,
            };
            ranks.push(value);
            i += 1;
        }
        ranks
    }

    /// The lower case name of each app.
    fn names(&self) -> (names: Vec<Vec<char>>)
        ensures
            name_views(names@) == lower_names(self@.apps),
            forall|i: int|
                0 <= i < self@.apps.len() ==> lowers_as_ascii((#[trigger] self@.apps[i]).name@),
    {
        let mut names: Vec<Vec<char>> = Vec::new();
        let mut i: usize = 0;
        while i < self.apps.len()
            invariant
                i <= self.apps@.len(),
                i == names@.len(),
                forall|j: int|
                    0 <= j < i ==> (#[trigger] names@[j])@ == lowercase(self@.apps[j].name@),
                forall|j: int|
                    0 <= j < i ==> lowers_as_ascii((#[trigger] self@.apps[j]).name@),
            decreases self.apps@.len() - i,
        {
            names.push(lowercase_chars(self.apps[i].name.as_str()));
            i += 1;
        }
        assert(name_views(names@) =~= lower_names(self@.apps));
        names
    }

    /// Lists the apps whose name has the query in it, in upper or lower case,
    /// as of time `now`: those with the highest rank first, and by name among
    /// equal ranks. Selects the first row.
    ///
    /// `rank` weighs how often an app was launched against the seconds for
    /// which it was not opened.
    pub fn apply_filter_at<F: Fn(u32, u64) -> u64>(&mut self, query: &str, now: i64, rank: &F)
        requires
            old(self).wf(),
            forall|count: u32, unused: u64| call_requires(*rank, (count, unused)),
        ensures
            final(self).wf(),
            is_filtered(old(self)@, final(self)@, lowercase(query@), now, *rank),
            lowers_as_ascii(query@),
            forall|i: int|
                0 <= i < old(self)@.apps.len() ==> lowers_as_ascii(
                    (#[trigger] old(self)@.apps[i]).name@,
                ),
    {
        let names = self.names();
        let ranks = self.ranks(now, rank);
        let query_lower = lowercase_chars(query);
        assert(name_views(names@).len() == names@.len());
        self.listed = list_matches(&names, &ranks, &query_lower);
        self.selected = 0;
    }

    /// Lists the apps whose name has the query in it, as of now.
    pub fn apply_filter<F: Fn(u32, u64) -> u64>(&mut self, query: &str, rank: &F)
        requires
            old(self).wf(),
            forall|count: u32, unused: u64| call_requires(*rank, (count, unused)),
        ensures
            final(self).wf(),
            exists|now: i64|
                now >= 0 && is_clock_reading(now) && #[trigger] is_filtered(
                    old(self)@,
                    final(self)@,
                    lowercase(query@),
                    now,
                    *rank,
                ),
            lowers_as_ascii(query@),
            forall|i: int|
                0 <= i < old(self)@.apps.len() ==> lowers_as_ascii(
                    (#[trigger] old(self)@.apps[i]).name@,
                ),
    {
        let now = unix_time();
        self.apply_filter_at(query, now, rank);
    }

    /// Lists the apps for the query that the text field holds, in UTF-16.
    pub fn query_changed<F: Fn(u32, u64) -> u64>(&mut self, units: &[u16], rank: &F)
        requires
            old(self).wf(),
            forall|count: u32, unused: u64| call_requires(*rank, (count, unused)),
        ensures
            final(self).wf(),
            exists|now: i64|
                now >= 0 && is_clock_reading(now) && #[trigger] is_filtered(
                    old(self)@,
                    final(self)@,
                    lowercase(utf16_lossy(units@)),
                    now,
                    *rank,
                ),
            lowers_as_ascii(utf16_lossy(units@)),
            forall|i: int|
                0 <= i < old(self)@.apps.len() ==> lowers_as_ascii(
                    (#[trigger] old(self)@.apps[i]).name@,
                ),
    {
        let query = from_utf16_lossy(units);
        self.apply_filter(query.as_str(), rank);
    }

    /// Would a launch of the selected app overflow the count of its uses?
    pub fn count_exhausted(&self) -> (exhausted: bool)
        requires
            self.wf(),
        ensures
            exhausted == self@.count_exhausted(),
    {
        if self.selected < self.listed.len() {
            let app = self.listed[self.selected];
            if app < self.apps.len() {
                return match self.usage.get(&self.apps[app].path) {
                    Some(entry) => entry.count == u32::MAX,
                    None => false,
                };
            }
        }
        false
    }

    /// Launches the selected app at time `now`: records the use, and hands out
    /// the path to open, if there is one.
    pub fn launch_selected_at(&mut self, now: i64) -> (path: Option<String>)
        requires
            old(self).wf(),
            !old(self)@.count_exhausted(),
        ensures
            final(self).wf(),
            final(self)@ == old(self)@.after_launch(now),
            path is Some <==> old(self)@.target() is Some,
            path matches Some(text) ==> old(self)@.target() == Some(text@),
    {
        if self.selected < self.listed.len() {
            let app = self.listed[self.selected];
            if app < self.apps.len() {
                let path = self.apps[app].path.clone();
                self.usage.record(path.clone(), now);
                self.usage.prune_stale_usage(now);
                return Some(path);
            }
        }
        None
    }

    /// Launches the selected app now.
    pub fn launch_selected(&mut self) -> (path: Option<String>)
        requires
            old(self).wf(),
            !old(self)@.count_exhausted(),
        ensures
            final(self).wf(),
            exists|now: i64|
                now >= 0 && is_clock_reading(now) && final(self)@
                    == #[trigger] old(self)@.after_launch(now),
            path is Some <==> old(self)@.target() is Some,
            path matches Some(text) ==> old(self)@.target() == Some(text@),
    {
        let now = unix_time();
        self.launch_selected_at(now)
    }

    /// What does the hotkey do?
    pub fn toggle_search(&self) -> (toggle: Toggle)
        ensures
            toggle == toggle_of(self@),
    {
        if self.popup != 0 {
            Toggle::Close(self.popup)
        } else {
            Toggle::Open
        }
    }

    /// Prepares the list for the popup to open with at time `now`: all apps,
    /// as no query is written yet. `indexed` is what the Start Menu holds,
    /// wanted only if no apps are known.
    pub fn open_search_at<F: Fn(u32, u64) -> u64>(
        &mut self,
        indexed: Vec<App>,
        now: i64,
        rank: &F,
    )
        requires
            old(self).wf(),
            forall|count: u32, unused: u64| call_requires(*rank, (count, unused)),
        ensures
            final(self).wf(),
            is_filtered(
                with_index(old(self)@, indexed@),
                final(self)@,
                Seq::empty(),
                now,
                *rank,
            ),
    {
        if self.needs_index() {
            self.warm_index(indexed);
        }
        self.apply_filter_at("", now, rank);
        proof {
            reveal_strlit("");
            assert(ascii_lowercase(""@) =~= Seq::<char>::empty());
        }
    }

    /// Prepares the list for the popup to open with now.
    pub fn open_search<F: Fn(u32, u64) -> u64>(&mut self, indexed: Vec<App>, rank: &F)
        requires
            old(self).wf(),
            forall|count: u32, unused: u64| call_requires(*rank, (count, unused)),
        ensures
            final(self).wf(),
            exists|now: i64|
                now >= 0 && is_clock_reading(now) && #[trigger] is_filtered(
                    with_index(old(self)@, indexed@),
                    final(self)@,
                    Seq::empty(),
                    now,
                    *rank,
                ),
    {
        let now = unix_time();
        self.open_search_at(indexed, now, rank);
    }

    /// The popup was opened and has this handle.
    pub fn popup_opened(&mut self, popup: isize)
        requires
            old(self).wf(),
        ensures
            final(self).wf(),
            final(self)@ == (SearchState { popup, ..old(self)@ }),
    {
        self.popup = popup;
    }

    /// The text field was created and has this handle.
    pub fn edit_created(&mut self, edit: isize)
        requires
            old(self).wf(),
        ensures
            final(self).wf(),
            final(self)@ == (SearchState { edit, ..old(self)@ }),
    {
        self.edit = edit;
    }

    /// The popup was closed.
    pub fn close_search(&mut self)
        requires
            old(self).wf(),
        ensures
            final(self).wf(),
            final(self)@ == old(self)@.closed(),
    {
        self.popup = 0;
        self.edit = 0;
    }

    /// Answers a message to the text field: the arrow keys move the selection,
    /// Enter launches, Escape closes, and the rest is the text field's own.
    pub fn edit_message(&mut self, message: u32, wparam: usize) -> (action: EditAction)
        requires
            old(self).wf(),
        ensures
            final(self).wf(),
            final(self)@ == after_edit_message(old(self)@, message, wparam),
            action == edit_action(message, wparam),
    {
        if message != WM_KEYDOWN {
            return EditAction::Forward;
        }
        let key = virtual_key(wparam);
        if key == VK_DOWN {
            if self.selected + 1 < self.listed.len() {
                self.selected = self.selected + 1;
            }
            EditAction::Repaint
        } else if key == VK_UP {
            if self.selected > 0 {
                self.selected = self.selected - 1;
            }
            EditAction::Repaint
        } else if key == VK_RETURN {
            EditAction::Launch
        } else if key == VK_ESCAPE {
            EditAction::Close
        } else {
            EditAction::Forward
        }
    }

    /// Answers a message to the popup: a changed query is to be read, a click
    /// on a row selects and launches it, and losing the focus closes the popup.
    pub fn popup_message(&mut self, message: u32, wparam: usize, lparam: isize) -> (action:
        PopupAction)
        requires
            old(self).wf(),
        ensures
            final(self).wf(),
            final(self)@ == after_popup_message(old(self)@, message, lparam),
            action == popup_action(old(self)@, message, wparam, lparam),
    {
        if message == WM_CREATE {
            PopupAction::CreateEdit
        } else if message == WM_CTLCOLOREDIT {
            PopupAction::ColorEdit
        } else if message == WM_COMMAND {
            if notification_code(wparam) == EN_CHANGE {
                PopupAction::ReadQuery
            } else {
                PopupAction::Ignore
            }
        } else if message == WM_LBUTTONDOWN {
            match row_at(lparam_y(lparam)) {
                Some(row) => if row < self.listed.len() {
                    self.selected = row;
                    PopupAction::Launch
                } else {
                    PopupAction::Ignore
                },
                None => PopupAction::Ignore,
            }
        } else if message == WM_ACTIVATE {
            if activation_state(wparam) == WA_INACTIVE {
                PopupAction::Close
            } else {
                PopupAction::Ignore
            }
        } else if message == WM_PAINT {
            PopupAction::Paint
        } else {
            PopupAction::Default
        }
    }

    /// How the popup is drawn into a client area.
    pub fn draw_search(&self, client: Rect) -> (steps: Vec<PaintStep>)
        requires
            self.wf(),
            client.measurable(),
            client.right - client.left - ROW_MARGIN >= i32::MIN,
        ensures
            step_views(steps@) == popup_views(self@, client),
    {
        let width: i32 = client.right - client.left;
        let mut steps: Vec<PaintStep> = Vec::new();
        push_step(&mut steps, PaintStep::Fill { area: client, color: BACKGROUND_COLOR });
        let ghost start = step_views(steps@);
        assert(start =~= seq![PaintView::Fill { area: client, color: BACKGROUND_COLOR }]);
        let mut row: usize = 0;
        while row < self.listed.len()
            invariant
                self.wf(),
                row <= self.listed@.len(),
                width - ROW_MARGIN >= i32::MIN,
                step_views(steps@) == start + list_views(self@, row as int, width),
            decreases self.listed@.len() - row,
        {
            let ghost before = step_views(steps@);
            let area = row_rect(row, width);
            let selected = row == self.selected;
            if selected {
                push_step(&mut steps, PaintStep::Fill { area, color: ACCENT_COLOR });
            }
            let app = self.listed[row];
            if app < self.apps.len() {
                let color: u32 = if selected {
                    BACKGROUND_COLOR
                } else {
                    TEXT_COLOR
                };
                push_step(
                    &mut steps,
                    PaintStep::Text {
                        text: self.apps[app].name.clone(),
                        area: Rect { left: area.left + ROW_MARGIN, ..area },
                        color,
                        layout: TextLayout::LeftCut,
                    },
                );
            }
            assert(step_views(steps@) =~= before + row_views(self@, row as int, width));
            row += 1;
            assert(step_views(steps@) =~= start + list_views(self@, row as int, width));
        }
        steps
    }
}

} // verus!
