//! What the bar and its app search do, stated of calls of the library's
//! functions: of what goes in and what comes out, whatever is in between.

use vstd::prelude::*;

use crate::apps::{shortcut_name, visit_entry, App, Visit};
use crate::bar::{
    bar_message, bar_views, client_ok, title_views, volume_hit, workspace_name, workspace_views,
    workspaces_views, Bar, BarAction, BarState, ForegroundChange, FULLSCREEN_PERIOD,
    FULLSCREEN_TIMER, REFRESH_PERIOD, REFRESH_TIMER,
};
use crate::filter::{
    is_before, is_listing, is_match, list_matches, name_views, MAX_RESULTS,
};
use crate::fullscreen::{bar_visibility, is_fullscreen_window, Visibility};
use crate::geometry::{
    appbar_rect, clock_rect, edit_placement, popup_placement, row_at, row_rect, title_rect,
    volume_rect, workspace_rect, Placement, Rect,
};
use crate::komorebi::{
    elements_of, focused_workspace, focused_workspace_of, json_tree, link_step, member_of,
    number_of, parsed_json, JsonTree, LinkEvent, LinkStep,
};
use crate::labels::{
    clock_text, decimal, is_clock_label, is_local_time_reading, volume_label, volume_text,
};
use crate::laws::{
    filter_ignores_case, is_determined, title_has_no_trailing_nul, utf16_of_concatenation,
    utf16_round_trip,
};
use crate::paint::{
    step_views, PaintStep, PaintView, TextLayout, ACCENT_COLOR, BACKGROUND_COLOR,
    EDIT_BACKGROUND_COLOR, TEXT_COLOR,
};
use crate::search::{
    are_ranks, is_clock_reading, is_filtered, is_rank, list_views, lower_names, popup_views,
    row_views, with_index, EditAction, PopupAction, Search, SearchState, Toggle,
};
use crate::text::{
    ascii_lower, ascii_lowercase, contains_chars, is_ascii_text, is_substring, lowercase,
    lowercase_chars, lowers_as_ascii, occurs_at, order_of, precedes_at, text_precedes, TextOrder,
};
use crate::usage::{
    entry_in_map, later_wins, Usage, UsageEntry, SECONDS_PER_DAY, USAGE_PRUNE_AFTER_DAYS,
};
use crate::utf16::{
    title_text, trim_nuls, utf16, utf16_lossy, utf16_of_char, wide, wide_nul,
    without_trailing_nuls,
};
use crate::volume::{is_cached_use, mute_after_click, with_endpoint_volume};
use crate::win32::{
    activation_state, hotkey_number, lparam_x, lparam_y, notification_code, signed16, virtual_key,
    wheel_delta,
};

verus! {

// The list of the app search.

/// The seconds from the last launch of an app to `now`, none if the launch is
/// yet to come.
pub open spec fn seconds_since(last_used: i64, now: i64) -> u64 {
    if now > last_used {
        (now - last_used) as u64
    } else {
        0
    }
}

/// `weight` is what the recorded use of the app at `path` is worth at time
/// `now`: what `rank` makes of its launches and of the time since the last one.
/// An app that was never launched is worth nothing.
pub open spec fn weighs<F: Fn(u32, u64) -> u64>(
    rank: F,
    uses: Map<Seq<char>, UsageEntry>,
    now: i64,
    path: Seq<char>,
    weight: u64,
) -> bool {
    if uses.contains_key(path) {
        call_ensures(
            rank,
            (uses[path].count, seconds_since(uses[path].last_used, now)),
            weight,
        )
    } else {
        weight == 0
    }
}

/// The text has the part in it, with something before it and behind it, or
/// nothing.
pub open spec fn has_inside(text: Seq<char>, part: Seq<char>) -> bool {
    exists|before: Seq<char>, behind: Seq<char>| text == #[trigger] (before + part + behind)
}

/// The texts are the same up to character `k`, where `a` has the smaller
/// character or is at its end.
pub open spec fn parts_at(a: Seq<char>, b: Seq<char>, k: int) -> bool {
    &&& 0 <= k <= a.len()
    &&& k < b.len()
    &&& forall|i: int| 0 <= i < k ==> a[i] == b[i]
    &&& k == a.len() || a[k] < b[k]
}

/// In a dictionary `a` stands before `b`.
pub open spec fn reads_before(a: Seq<char>, b: Seq<char>) -> bool {
    exists|k: int| parts_at(a, b, k)
}

/// App `i` stands above app `j`: it is worth more, or its name comes first, or
/// all that is equal and it was found first.
pub open spec fn stands_above(apps: Seq<App>, weights: Seq<u64>, i: int, j: int) -> bool {
    let first = lowercase(apps[i].name@);
    let second = lowercase(apps[j].name@);
    ||| weights[i] > weights[j]
    ||| weights[i] == weights[j] && reads_before(first, second)
    ||| weights[i] == weights[j] && first == second && i < j
}

/// `listed` is what a search for `query`, in lower case, finds at time `now`:
/// the ten apps that stand above all others of those with the query in their
/// name, or all of those if they are no more than ten.
pub open spec fn is_found<F: Fn(u32, u64) -> u64>(
    apps: Seq<App>,
    uses: Map<Seq<char>, UsageEntry>,
    listed: Seq<usize>,
    query: Seq<char>,
    now: i64,
    rank: F,
) -> bool {
    exists|weights: Seq<u64>| #[trigger] is_found_by(apps, uses, listed, query, now, rank, weights)
}

/// `listed` is what a search finds if the apps are worth `weights`.
pub open spec fn is_found_by<F: Fn(u32, u64) -> u64>(
    apps: Seq<App>,
    uses: Map<Seq<char>, UsageEntry>,
    listed: Seq<usize>,
    query: Seq<char>,
    now: i64,
    rank: F,
    weights: Seq<u64>,
) -> bool {
    &&& weights.len() == apps.len()
    &&& forall|i: int|
        0 <= i < apps.len() ==> weighs(rank, uses, now, (#[trigger] apps[i]).path@, weights[i])
    &&& listed.len() <= 10
    &&& forall|r: int|
        0 <= r < listed.len() ==> (#[trigger] listed[r]) < apps.len() && has_inside(
            lowercase(apps[listed[r] as int].name@),
            query,
        )
    &&& forall|r: int, s: int|
        0 <= r < s < listed.len() ==> stands_above(
            apps,
            weights,
            #[trigger] listed[r] as int,
            #[trigger] listed[s] as int,
        )
    &&& forall|i: usize|
        i < apps.len() && has_inside(lowercase(apps[i as int].name@), query)
            && !#[trigger] listed.contains(i) ==> listed.len() == 10 && forall|r: int|
            0 <= r < listed.len() ==> stands_above(
                apps,
                weights,
                #[trigger] listed[r] as int,
                i as int,
            )
}

proof fn substring_is_inside(part: Seq<char>, text: Seq<char>)
    ensures
        is_substring(part, text) <==> has_inside(text, part),
{
    if is_substring(part, text) {
        let at = choose|at: int| occurs_at(part, text, at);
        let before = text.take(at);
        let behind = text.skip(at + part.len());
        assert(text =~= before + text.subrange(at, at + part.len()) + behind);
        assert(text == before + part + behind);
    }
    if has_inside(text, part) {
        let (before, behind) = choose|before: Seq<char>, behind: Seq<char>|
            text == #[trigger] (before + part + behind);
        let at = before.len() as int;
        assert(text.subrange(at, at + part.len()) =~= part);
        assert(occurs_at(part, text, at));
    }
}

proof fn dictionary_orders_agree(a: Seq<char>, b: Seq<char>)
    ensures
        text_precedes(a, b) <==> reads_before(a, b),
{
    if text_precedes(a, b) {
        let k = choose|k: int| precedes_at(a, b, k);
        assert forall|i: int| 0 <= i < k implies a[i] == b[i] by {
            assert(a.take(k)[i] == b.take(k)[i]);
        }
        assert(parts_at(a, b, k));
    }
    if reads_before(a, b) {
        let k = choose|k: int| parts_at(a, b, k);
        assert(a.take(k) =~= b.take(k));
        assert(precedes_at(a, b, k));
    }
}

/// What the filter lists is what a search finds.
proof fn filtered_is_found<F: Fn(u32, u64) -> u64>(
    before: SearchState,
    after: SearchState,
    query: Seq<char>,
    now: i64,
    rank: F,
)
    requires
        is_filtered(before, after, query, now, rank),
    ensures
        is_found(before.apps, before.uses, after.listed, query, now, rank),
{
    let apps = before.apps;
    let listed = after.listed;
    let names = lower_names(apps);
    let weights = choose|ranks: Seq<u64>|
        {
            &&& #[trigger] are_ranks(rank, before.uses, now, apps, ranks)
            &&& is_listing(listed, names, ranks, query, MAX_RESULTS as nat)
        };
    assert forall|i: int| 0 <= i < apps.len() implies weighs(
        rank,
        before.uses,
        now,
        (#[trigger] apps[i]).path@,
        weights[i],
    ) by {
        assert(is_rank(rank, before.uses, now, apps[i].path@, weights[i]));
    }
    assert forall|i: int| #[trigger]
        is_match(names, query, i) == (0 <= i < apps.len() && has_inside(
            lowercase(apps[i].name@),
            query,
        )) by {
        if 0 <= i < apps.len() {
            substring_is_inside(query, names[i]);
        }
    }
    assert forall|i: int, j: int|
        0 <= i < apps.len() && 0 <= j < apps.len() && #[trigger] is_before(
            names,
            weights,
            i,
            j,
        ) implies stands_above(apps, weights, i, j) by {
        dictionary_orders_agree(names[i], names[j]);
    }
    assert forall|r: int| 0 <= r < listed.len() implies (#[trigger] listed[r]) < apps.len()
        && has_inside(lowercase(apps[listed[r] as int].name@), query) by {
        assert(is_match(names, query, listed[r] as int));
    }
    assert forall|r: int, s: int| 0 <= r < s < listed.len() implies stands_above(
        apps,
        weights,
        #[trigger] listed[r] as int,
        #[trigger] listed[s] as int,
    ) by {
        assert(is_before(names, weights, listed[r] as int, listed[s] as int));
    }
    assert forall|i: usize|
        i < apps.len() && has_inside(lowercase(apps[i as int].name@), query)
            && !#[trigger] listed.contains(i) implies listed.len() == 10 && forall|r: int|
        0 <= r < listed.len() ==> stands_above(
            apps,
            weights,
            #[trigger] listed[r] as int,
            i as int,
        ) by {
        assert(is_match(names, query, i as int));
        assert forall|r: int| 0 <= r < listed.len() implies stands_above(
            apps,
            weights,
            #[trigger] listed[r] as int,
            i as int,
        ) by {
            assert(is_before(names, weights, listed[r] as int, i as int));
        }
    }
    assert(is_found_by(apps, before.uses, listed, query, now, rank, weights));
}

/// A search as of a given time lists what it finds then, whatever was listed
/// before, selects the first row and changes nothing else.
pub proof fn search_lists_what_it_finds<F: Fn(u32, u64) -> u64>(
    search: &mut Search,
    query: &str,
    now: i64,
    rank: &F,
)
    requires
        call_ensures(Search::apply_filter_at::<F>, (search, query, now, rank), ()),
    ensures
        is_found(
            old(search)@.apps,
            old(search)@.uses,
            final(search)@.listed,
            lowercase(query@),
            now,
            *rank,
        ),
        final(search)@ == (SearchState {
            listed: final(search)@.listed,
            selected: 0,
            ..old(search)@
        }),
{
    filtered_is_found(old(search)@, final(search)@, lowercase(query@), now, *rank);
}

/// A search lists what it finds as of a time that the clock gave.
pub proof fn search_goes_by_the_clock<F: Fn(u32, u64) -> u64>(
    search: &mut Search,
    query: &str,
    rank: &F,
)
    requires
        call_ensures(Search::apply_filter::<F>, (search, query, rank), ()),
    ensures
        exists|now: i64|
            is_clock_reading(now) && #[trigger] is_found(
                old(search)@.apps,
                old(search)@.uses,
                final(search)@.listed,
                lowercase(query@),
                now,
                *rank,
            ),
        final(search)@ == (SearchState {
            listed: final(search)@.listed,
            selected: 0,
            ..old(search)@
        }),
{
    let now = choose|now: i64|
        now >= 0 && is_clock_reading(now) && #[trigger] is_filtered(
            old(search)@,
            final(search)@,
            lowercase(query@),
            now,
            *rank,
        );
    filtered_is_found(old(search)@, final(search)@, lowercase(query@), now, *rank);
}

/// What is typed is searched for, as of a time that the clock gave.
pub proof fn typed_text_is_searched_for<F: Fn(u32, u64) -> u64>(
    search: &mut Search,
    units: &[u16],
    typed: Seq<char>,
    rank: &F,
)
    requires
        utf16_lossy(units@) == typed,
        call_ensures(Search::query_changed::<F>, (search, units, rank), ()),
    ensures
        exists|now: i64|
            is_clock_reading(now) && #[trigger] is_found(
                old(search)@.apps,
                old(search)@.uses,
                final(search)@.listed,
                lowercase(typed),
                now,
                *rank,
            ),
        final(search)@ == (SearchState {
            listed: final(search)@.listed,
            selected: 0,
            ..old(search)@
        }),
{
    let now = choose|now: i64|
        now >= 0 && is_clock_reading(now) && #[trigger] is_filtered(
            old(search)@,
            final(search)@,
            lowercase(utf16_lossy(units@)),
            now,
            *rank,
        );
    filtered_is_found(old(search)@, final(search)@, lowercase(typed), now, *rank);
}

/// The popup opens with what a search for nothing finds, as of a time that the
/// clock gave, among the known apps; or among those just read from the Start
/// Menu, if none are known.
pub proof fn popup_opens_with_a_search_for_nothing<F: Fn(u32, u64) -> u64>(
    search: &mut Search,
    indexed: Vec<App>,
    rank: &F,
)
    requires
        call_ensures(Search::open_search::<F>, (search, indexed, rank), ()),
    ensures
        exists|now: i64|
            is_clock_reading(now) && #[trigger] is_found(
                final(search)@.apps,
                old(search)@.uses,
                final(search)@.listed,
                Seq::empty(),
                now,
                *rank,
            ),
        old(search)@.apps.len() > 0 ==> final(search)@.apps == old(search)@.apps,
        old(search)@.apps.len() == 0 ==> final(search)@.apps == indexed@,
        final(search)@ == (SearchState {
            apps: final(search)@.apps,
            listed: final(search)@.listed,
            selected: 0,
            ..old(search)@
        }),
{
    let before = with_index(old(search)@, indexed@);
    let now = choose|now: i64|
        now >= 0 && is_clock_reading(now) && #[trigger] is_filtered(
            before,
            final(search)@,
            Seq::empty(),
            now,
            *rank,
        );
    filtered_is_found(before, final(search)@, Seq::empty(), now, *rank);
}

/// The same as of a given time.
pub proof fn popup_opens_with_a_search_for_nothing_at<F: Fn(u32, u64) -> u64>(
    search: &mut Search,
    indexed: Vec<App>,
    now: i64,
    rank: &F,
)
    requires
        call_ensures(Search::open_search_at::<F>, (search, indexed, now, rank), ()),
    ensures
        is_found(
            final(search)@.apps,
            old(search)@.uses,
            final(search)@.listed,
            Seq::empty(),
            now,
            *rank,
        ),
        old(search)@.apps.len() > 0 ==> final(search)@.apps == old(search)@.apps,
        old(search)@.apps.len() == 0 ==> final(search)@.apps == indexed@,
        final(search)@ == (SearchState {
            apps: final(search)@.apps,
            listed: final(search)@.listed,
            selected: 0,
            ..old(search)@
        }),
{
    let before = with_index(old(search)@, indexed@);
    filtered_is_found(before, final(search)@, Seq::empty(), now, *rank);
}

/// A search starts closed, with no apps and an empty list, and with the uses it
/// is given; apps have to be read exactly while none are known.
pub proof fn search_starts_closed_and_empty(usage: Usage, search: Search, needed: bool)
    requires
        call_ensures(Search::new, (usage,), search),
        call_ensures(Search::needs_index, (&search,), needed),
    ensures
        search@.apps.len() == 0,
        search@.listed.len() == 0,
        search@.selected == 0,
        search@.popup == 0,
        search@.edit == 0,
        search@.uses == usage@,
        needed,
{
}

/// An app that is worth more than another at every time the clock may give is
/// listed above the other, if that is listed at all. So a few recent launches
/// can outweigh many old ones.
pub proof fn use_is_weighed_by_the_clock<F: Fn(u32, u64) -> u64>(
    search: &mut Search,
    query: &str,
    rank: &F,
    better: usize,
    worse: usize,
)
    requires
        call_ensures(Search::apply_filter::<F>, (search, query, rank), ()),
        better < old(search)@.apps.len(),
        worse < old(search)@.apps.len(),
        has_inside(lowercase(old(search)@.apps[better as int].name@), lowercase(query@)),
        forall|now: i64, x: u64, y: u64|
            is_clock_reading(now) && #[trigger] weighs(
                *rank,
                old(search)@.uses,
                now,
                old(search)@.apps[better as int].path@,
                x,
            ) && #[trigger] weighs(
                *rank,
                old(search)@.uses,
                now,
                old(search)@.apps[worse as int].path@,
                y,
            ) ==> x > y,
        final(search)@.listed.contains(worse),
    ensures
        exists|r: int, s: int|
            0 <= r < s < final(search)@.listed.len() && #[trigger] final(search)@.listed[r]
                == better && #[trigger] final(search)@.listed[s] == worse,
{
    search_goes_by_the_clock(search, query, rank);
    let apps = old(search)@.apps;
    let uses = old(search)@.uses;
    let listed = final(search)@.listed;
    let now = choose|now: i64|
        is_clock_reading(now) && #[trigger] is_found(
            apps,
            uses,
            listed,
            lowercase(query@),
            now,
            *rank,
        );
    let weights = choose|weights: Seq<u64>| #[trigger]
        is_found_by(apps, uses, listed, lowercase(query@), now, *rank, weights);
    assert(weighs(*rank, uses, now, apps[better as int].path@, weights[better as int]));
    assert(weighs(*rank, uses, now, apps[worse as int].path@, weights[worse as int]));
    assert(weights[better as int] > weights[worse as int]);
    let s = choose|s: int| 0 <= s < listed.len() && listed[s] == worse;
    if !listed.contains(better) {
        assert(stands_above(apps, weights, listed[s] as int, better as int));
    }
    let r = choose|r: int| 0 <= r < listed.len() && listed[r] == better;
    if r > s {
        assert(stands_above(apps, weights, listed[s] as int, listed[r] as int));
    }
    assert(listed[r] == better && listed[s] == worse);
}

// Launching.

/// The app in the selected row is launched at time `now`: `path` is where it
/// is, one more launch of it is recorded, and what was not launched for more
/// than a year is forgotten. Where the row or its app is not there, nothing is
/// launched or recorded.
pub open spec fn is_launched(
    before: SearchState,
    after: SearchState,
    path: Option<String>,
    now: i64,
) -> bool {
    let row = before.selected;
    if row < before.listed.len() && before.listed[row] < before.apps.len() {
        let opened = before.apps[before.listed[row] as int].path@;
        &&& path is Some
        &&& path->0@ == opened
        &&& after.uses.contains_key(opened)
        &&& after.uses[opened].last_used == now
        &&& after.uses[opened].count == 1 + (if before.uses.contains_key(opened) {
            before.uses[opened].count as int
        } else {
            0
        })
        &&& forall|other: Seq<char>|
            other != opened ==> (#[trigger] after.uses.contains_key(other)
                <==> before.uses.contains_key(other) && now - before.uses[other].last_used <= 365
                * 24 * 60 * 60)
        &&& forall|other: Seq<char>|
            other != opened && #[trigger] after.uses.contains_key(other) ==> after.uses[other]
                == before.uses[other]
        &&& after == (SearchState { uses: after.uses, ..before })
    } else {
        path is None && after == before
    }
}

/// A launch at a given time launches the app in the selected row.
pub proof fn launch_opens_the_selected_row(search: &mut Search, now: i64, path: Option<String>)
    requires
        call_ensures(Search::launch_selected_at, (search, now), path),
        old(search)@.valid(),
        !old(search)@.count_exhausted(),
    ensures
        is_launched(old(search)@, final(search)@, path, now),
{
    assert(SECONDS_PER_DAY * USAGE_PRUNE_AFTER_DAYS == 365 * 24 * 60 * 60);
}

/// A launch launches the app in the selected row, and records a time that the
/// clock gave.
pub proof fn launch_goes_by_the_clock(search: &mut Search, path: Option<String>)
    requires
        call_ensures(Search::launch_selected, (search,), path),
        old(search)@.valid(),
        !old(search)@.count_exhausted(),
    ensures
        exists|now: i64|
            is_clock_reading(now) && #[trigger] is_launched(
                old(search)@,
                final(search)@,
                path,
                now,
            ),
{
    let now = choose|now: i64|
        now >= 0 && is_clock_reading(now) && final(search)@ == #[trigger] old(
            search,
        )@.after_launch(now);
    assert(SECONDS_PER_DAY * USAGE_PRUNE_AFTER_DAYS == 365 * 24 * 60 * 60);
    assert(is_launched(old(search)@, final(search)@, path, now));
}

/// The count of an app is full exactly if the app in the selected row was
/// launched as often as can be counted.
pub proof fn full_count_is_of_the_selected_row(search: &Search, full: bool)
    requires
        call_ensures(Search::count_exhausted, (search,), full),
        search@.valid(),
    ensures
        full <==> {
            let row = search@.selected;
            &&& row < search@.listed.len()
            &&& search@.listed[row] < search@.apps.len()
            &&& search@.uses.contains_key(search@.apps[search@.listed[row] as int].path@)
            &&& search@.uses[search@.apps[search@.listed[row] as int].path@].count == u32::MAX
        },
{
}

// The popup as it is drawn.

/// The step writes this text into this area.
pub open spec fn writes(
    step: PaintStep,
    text: Seq<char>,
    area: Rect,
    color: u32,
    layout: TextLayout,
) -> bool {
    match step {
        PaintStep::Text { text: t, area: a, color: c, layout: l } => t@ == text && a == area && c
            == color && l == layout,
        PaintStep::Fill { .. } => false,
    }
}

/// The step fills this area with this color.
pub open spec fn fills(step: PaintStep, area: Rect, color: u32) -> bool {
    match step {
        PaintStep::Fill { area: a, color: c } => a == area && c == color,
        PaintStep::Text { .. } => false,
    }
}

/// The step writes some text that reaches between two heights.
pub open spec fn writes_between(step: PaintStep, top: int, bottom: int) -> bool {
    match step {
        PaintStep::Text { area, .. } => area.top < bottom && top < area.bottom,
        PaintStep::Fill { .. } => false,
    }
}

/// The text that a step writes.
pub open spec fn written(step: PaintStep) -> Seq<char> {
    match step {
        PaintStep::Text { text, .. } => text@,
        PaintStep::Fill { .. } => Seq::empty(),
    }
}

/// Where a row of the list lies in a popup of this width, with its text
/// starting `indent` pixels further right.
pub open spec fn row_place(row: int, width: int, indent: int) -> Rect {
    Rect {
        left: (8 + indent) as i32,
        top: (32 + 28 * row) as i32,
        right: (width - 8) as i32,
        bottom: (32 + 28 * (row + 1)) as i32,
    }
}

/// The view of a step of the list: the fill behind the selected row, or the
/// name of the app in a row.
spec fn is_row_view(state: SearchState, rows: int, width: i32, view: PaintView) -> bool {
    ||| 0 <= state.selected < rows && view == (PaintView::Fill {
        area: row_place(state.selected, width as int, 0),
        color: ACCENT_COLOR,
    })
    ||| exists|row: int|
        0 <= row < rows && #[trigger] state.listed[row] < state.apps.len() && view == row_name_view(
            state,
            row,
            width,
        )
}

spec fn row_name_view(state: SearchState, row: int, width: i32) -> PaintView {
    PaintView::Text {
        text: state.apps[state.listed[row] as int].name@,
        area: row_place(row, width as int, 8),
        color: if row == state.selected {
            BACKGROUND_COLOR
        } else {
            TEXT_COLOR
        },
        layout: TextLayout::LeftCut,
    }
}

proof fn list_is_drawn(state: SearchState, rows: int, width: i32)
    requires
        state.valid(),
        0 <= rows <= state.listed.len(),
        width - 8 >= i32::MIN,
    ensures
        ({
            let views = list_views(state, rows, width);
            &&& forall|k: int|
                0 <= k < views.len() ==> is_row_view(state, rows, width, #[trigger] views[k])
            &&& forall|row: int|
                0 <= row < rows && #[trigger] state.listed[row] < state.apps.len()
                    ==> views.contains(row_name_view(state, row, width))
            &&& state.selected < rows ==> views.contains(
                PaintView::Fill {
                    area: row_place(state.selected, width as int, 0),
                    color: ACCENT_COLOR,
                },
            )
            &&& forall|k: int, l: int|
                0 <= k < views.len() && 0 <= l < views.len() && #[trigger] views[k] is Fill
                    && #[trigger] views[l] == row_name_view(state, state.selected, width) ==> k < l
        }),
    decreases rows,
{
    let views = list_views(state, rows, width);
    if rows > 0 {
        list_is_drawn(state, rows - 1, width);
        let front = list_views(state, rows - 1, width);
        let last = rows - 1;
        let back = row_views(state, last, width);
        assert(views =~= front + back);
        assert forall|k: int| 0 <= k < views.len() implies is_row_view(
            state,
            rows,
            width,
            #[trigger] views[k],
        ) by {
            if k < front.len() {
                assert(views[k] == front[k]);
                assert(is_row_view(state, rows - 1, width, front[k]));
            } else {
                assert(views[k] == back[k - front.len()]);
                assert(state.listed[last] == state.listed[last]);
            }
        }
        assert forall|row: int|
            0 <= row < rows && #[trigger] state.listed[row]
                < state.apps.len() implies views.contains(row_name_view(state, row, width)) by {
            let name = row_name_view(state, row, width);
            if row < last {
                let k = choose|k: int| 0 <= k < front.len() && front[k] == name;
                assert(views[k] == name);
            } else {
                assert(back[back.len() - 1] == name);
                assert(views[views.len() - 1] == name);
            }
        }
        if state.selected < rows {
            let mark = PaintView::Fill {
                area: row_place(state.selected, width as int, 0),
                color: ACCENT_COLOR,
            };
            if state.selected < last {
                let k = choose|k: int| 0 <= k < front.len() && front[k] == mark;
                assert(views[k] == mark);
            } else {
                assert(back[0] == mark);
                assert(views[front.len() as int] == mark);
            }
        }
        assert forall|k: int, l: int|
            0 <= k < views.len() && 0 <= l < views.len() && #[trigger] views[k] is Fill
                && #[trigger] views[l] == row_name_view(state, state.selected, width) implies k
            < l by {
            if k < front.len() {
                assert(views[k] == front[k]);
                assert(is_row_view(state, rows - 1, width, front[k]));
                if l < front.len() {
                    assert(views[l] == front[l]);
                }
            } else {
                assert(views[k] == back[k - front.len()]);
                assert(state.selected == last);
                if l < front.len() {
                    assert(views[l] == front[l]);
                    assert(is_row_view(state, rows - 1, width, front[l]));
                    let row = choose|row: int|
                        0 <= row < rows - 1 && #[trigger] state.listed[row] < state.apps.len()
                            && front[l] == row_name_view(state, row, width);
                    assert(row_place(row, width as int, 8).top != row_place(
                        last,
                        width as int,
                        8,
                    ).top);
                } else {
                    assert(views[l] == back[l - front.len()]);
                }
            }
        }
    }
}

/// The steps of the popup are the background and then those of the list.
proof fn popup_steps(search: &Search, client: Rect, steps: Seq<PaintStep>)
    requires
        step_views(steps) == popup_views(search@, client),
        search@.valid(),
        i32::MIN + 8 <= client.right - client.left <= i32::MAX,
    ensures
        ({
            let rows = search@.listed.len() as int;
            let width = (client.right - client.left) as i32;
            let list = list_views(search@, rows, width);
            &&& steps.len() == 1 + list.len()
            &&& fills(steps[0], client, BACKGROUND_COLOR)
            &&& forall|k: int|
                0 < k < steps.len() ==> (#[trigger] steps[k])@ == list[k - 1] && is_row_view(
                    search@,
                    rows,
                    width,
                    steps[k]@,
                )
        }),
{
    let rows = search@.listed.len() as int;
    let width = (client.right - client.left) as i32;
    let views = popup_views(search@, client);
    let list = list_views(search@, rows, width);
    list_is_drawn(search@, rows, width);
    assert(steps.len() == step_views(steps).len());
    assert(views.len() == 1 + list.len());
    assert(step_views(steps)[0] == steps[0]@);
    assert forall|k: int| 0 < k < steps.len() implies (#[trigger] steps[k])@ == list[k - 1]
        && is_row_view(search@, rows, width, steps[k]@) by {
        assert(step_views(steps)[k] == steps[k]@);
        assert(views[k] == list[k - 1]);
    }
}

/// Each row of the popup shows the name of the app that a launch from that row
/// opens, and no other text; a row whose app is gone shows none.
pub proof fn popup_shows_the_listed_apps(
    search: &Search,
    client: Rect,
    steps: Vec<PaintStep>,
    row: int,
)
    requires
        call_ensures(Search::draw_search, (search, client), steps),
        search@.valid(),
        i32::MIN + 8 <= client.right - client.left <= i32::MAX,
        0 <= row < search@.listed.len(),
    ensures
        ({
            let width = client.right - client.left;
            let app = search@.listed[row] as int;
            let name = search@.apps[app].name@;
            let here = app < search@.apps.len();
            let ink = if row == search@.selected {
                BACKGROUND_COLOR
            } else {
                TEXT_COLOR
            };
            &&& here ==> exists|k: int|
                0 <= k < steps@.len() && writes(
                    #[trigger] steps@[k],
                    name,
                    row_place(row, width, 8),
                    ink,
                    TextLayout::LeftCut,
                )
            &&& forall|k: int|
                0 <= k < steps@.len() && writes_between(
                    #[trigger] steps@[k],
                    32 + 28 * row,
                    32 + 28 * (row + 1),
                ) ==> here && written(steps@[k]) == name
            &&& here ==> (SearchState { selected: row, ..search@ }).target() == Some(
                search@.apps[app].path@,
            )
        }),
{
    let state = search@;
    let width = (client.right - client.left) as i32;
    let rows = state.listed.len() as int;
    let list = list_views(state, rows, width);
    popup_steps(search, client, steps@);
    list_is_drawn(state, rows, width);
    let name = row_name_view(state, row, width);
    if state.listed[row] < state.apps.len() {
        let k = choose|k: int| 0 <= k < list.len() && list[k] == name;
        assert(steps@[k + 1]@ == name);
    }
    assert forall|k: int|
        0 <= k < steps@.len() && writes_between(
            #[trigger] steps@[k],
            32 + 28 * row,
            32 + 28 * (row + 1),
        ) implies steps@[k]@ == name && state.listed[row] < state.apps.len() by {
        assert(k > 0);
        assert(is_row_view(state, rows, width, steps@[k]@));
        let other = choose|other: int|
            0 <= other < rows && #[trigger] state.listed[other] < state.apps.len() && steps@[k]@
                == row_name_view(state, other, width);
        assert(other == row);
    }
}

/// The selected row is marked with the accent, behind its text, and nothing
/// else is. The background is drawn first.
pub proof fn popup_marks_the_selected_row(search: &Search, client: Rect, steps: Vec<PaintStep>)
    requires
        call_ensures(Search::draw_search, (search, client), steps),
        search@.valid(),
        i32::MIN + 8 <= client.right - client.left <= i32::MAX,
    ensures
        steps@.len() > 0,
        fills(steps@[0], client, BACKGROUND_COLOR),
        forall|k: int|
            0 < k < steps@.len() && #[trigger] steps@[k] is Fill ==> fills(
                steps@[k],
                row_place(search@.selected, client.right - client.left, 0),
                ACCENT_COLOR,
            ),
        search@.listed.len() > 0 ==> exists|k: int|
            0 < k < steps@.len() && fills(
                #[trigger] steps@[k],
                row_place(search@.selected, client.right - client.left, 0),
                ACCENT_COLOR,
            ),
        forall|k: int, l: int|
            0 <= k < steps@.len() && 0 <= l < steps@.len() && #[trigger] steps@[k] is Fill
                && writes_between(
                #[trigger] steps@[l],
                32 + 28 * search@.selected,
                32 + 28 * (search@.selected + 1),
            ) ==> k < l,
{
    let state = search@;
    let width = (client.right - client.left) as i32;
    let rows = state.listed.len() as int;
    let list = list_views(state, rows, width);
    popup_steps(search, client, steps@);
    list_is_drawn(state, rows, width);
    if rows > 0 {
        let mark = PaintView::Fill {
            area: row_place(state.selected, width as int, 0),
            color: ACCENT_COLOR,
        };
        let k = choose|k: int| 0 <= k < list.len() && list[k] == mark;
        assert(steps@[k + 1]@ == mark);
    }
    assert forall|k: int, l: int|
        0 <= k < steps@.len() && 0 <= l < steps@.len() && #[trigger] steps@[k] is Fill
            && writes_between(
            #[trigger] steps@[l],
            32 + 28 * state.selected,
            32 + 28 * (state.selected + 1),
        ) implies k < l by {
        assert(l > 0);
        assert(is_row_view(state, rows, width, steps@[l]@));
        let other = choose|other: int|
            0 <= other < rows && #[trigger] state.listed[other] < state.apps.len() && steps@[l]@
                == row_name_view(state, other, width);
        assert(other == state.selected);
        if k > 0 {
            assert(steps@[k]@ == list[k - 1]);
            assert(steps@[l]@ == list[l - 1]);
        }
    }
}

/// There is no text in the popup but that of its rows, and nothing at all but
/// the background where nothing is listed.
pub proof fn popup_shows_nothing_else(search: &Search, client: Rect, steps: Vec<PaintStep>, k: int)
    requires
        call_ensures(Search::draw_search, (search, client), steps),
        search@.valid(),
        i32::MIN + 8 <= client.right - client.left <= i32::MAX,
        0 < k < steps@.len(),
    ensures
        search@.listed.len() > 0,
        steps@[k] is Text ==> exists|row: int|
            0 <= row < search@.listed.len() && #[trigger] search@.listed[row]
                < search@.apps.len() && writes_between(
                steps@[k],
                32 + 28 * row,
                32 + 28 * (row + 1),
            ),
{
    let state = search@;
    let width = (client.right - client.left) as i32;
    let rows = state.listed.len() as int;
    popup_steps(search, client, steps@);
    assert(is_row_view(state, rows, width, steps@[k]@));
    if steps@[k] is Text {
        let row = choose|row: int|
            0 <= row < rows && #[trigger] state.listed[row] < state.apps.len() && steps@[k]@
                == row_name_view(state, row, width);
        assert(state.listed[row] < state.apps.len());
    }
}

// The bar as it is drawn.

/// Where workspace `i` lies in a bar of this height.
pub open spec fn workspace_place(i: int, height: int) -> Rect {
    Rect {
        left: (10 + 44 * i) as i32,
        top: 4,
        right: (46 + 44 * i) as i32,
        bottom: (height - 4) as i32,
    }
}

proof fn workspaces_are_drawn(count: int, active: usize, height: i32)
    requires
        0 <= count <= 7,
        height - 4 >= i32::MIN,
    ensures
        ({
            let views = workspaces_views(count, active, height);
            &&& views.len() == count + (if active < count {
                1int
            } else {
                0
            })
            &&& active < count ==> views[active as int] == (PaintView::Fill {
                area: workspace_place(active as int, height as int),
                color: ACCENT_COLOR,
            })
            &&& forall|i: int|
                0 <= i < count ==> views[if active <= i {
                    i + 1
                } else {
                    i
                }] == #[trigger] workspace_text_view(i, active, height)
        }),
    decreases count,
{
    if count > 0 {
        let last = count - 1;
        workspaces_are_drawn(last, active, height);
        let front = workspaces_views(last, active, height);
        let back = workspace_views(last, active, height);
        let views = workspaces_views(count, active, height);
        assert(views =~= front + back);
        assert(back[back.len() - 1] == workspace_text_view(last, active, height));
        assert forall|i: int| 0 <= i < count implies views[if active <= i {
            i + 1
        } else {
            i
        }] == #[trigger] workspace_text_view(i, active, height) by {
            let at = if active <= i {
                i + 1
            } else {
                i
            };
            if i < last {
                assert(views[at] == front[at]);
            } else {
                assert(views[at] == back[at - front.len()]);
            }
        }
    }
}

spec fn workspace_text_view(i: int, active: usize, height: i32) -> PaintView {
    PaintView::Text {
        text: workspace_name(i),
        area: workspace_place(i, height as int),
        color: if i == active {
            BACKGROUND_COLOR
        } else {
            TEXT_COLOR
        },
        layout: TextLayout::Centered,
    }
}

/// The drawing has the seven workspaces in a row at the left, the title of the
/// window in front, if it has one, up to the clock, the volume at the right and
/// `clock` in the middle; the active workspace is marked with the accent, behind
/// its text. There is nothing else in it, and the background is drawn first.
pub open spec fn shows_the_bar(
    state: BarState,
    client: Rect,
    clock: Seq<char>,
    steps: Seq<PaintStep>,
) -> bool {
    let width = client.right - client.left;
    let height = client.bottom - client.top;
    let marked = state.active_workspace < 7;
    let titled = state.title.len() > 0;
    let middle = if width >= 0 {
        width / 2
    } else {
        -((-width) / 2)
    };
    &&& steps.len() == 10 + (if marked {
        1int
    } else {
        0
    }) + (if titled {
        1int
    } else {
        0
    })
    &&& fills(steps[0], client, BACKGROUND_COLOR)
    &&& forall|i: int|
        0 <= i < 7 ==> writes(
            steps[if state.active_workspace <= i {
                i + 2
            } else {
                i + 1
            }],
            #[trigger] workspace_name(i),
            workspace_place(i, height),
            if i == state.active_workspace {
                BACKGROUND_COLOR
            } else {
                TEXT_COLOR
            },
            TextLayout::Centered,
        )
    &&& marked ==> fills(
        steps[state.active_workspace + 1],
        workspace_place(state.active_workspace as int, height),
        ACCENT_COLOR,
    )
    &&& titled ==> writes(
        steps[steps.len() - 3],
        state.title,
        Rect { left: 338, top: 0, right: (middle - 80) as i32, bottom: height as i32 },
        TEXT_COLOR,
        TextLayout::LeftCut,
    )
    &&& writes(
        steps[steps.len() - 2],
        volume_label(state.volume, state.muted),
        Rect {
            left: (width - 120) as i32,
            top: 0,
            right: (width - 20) as i32,
            bottom: height as i32,
        },
        TEXT_COLOR,
        TextLayout::Centered,
    )
    &&& writes(
        steps[steps.len() - 1],
        clock,
        Rect {
            left: (middle - 70) as i32,
            top: 0,
            right: (middle + 70) as i32,
            bottom: height as i32,
        },
        TEXT_COLOR,
        TextLayout::Centered,
    )
}

proof fn views_show_the_bar(
    state: BarState,
    client: Rect,
    clock: Seq<char>,
    steps: Seq<PaintStep>,
)
    requires
        client_ok(client),
        step_views(steps) == bar_views(state, client, clock),
    ensures
        shows_the_bar(state, client, clock, steps),
{
    let width = (client.right - client.left) as i32;
    let height = (client.bottom - client.top) as i32;
    let active = state.active_workspace;
    let views = bar_views(state, client, clock);
    let marks = workspaces_views(7, active, height);
    let title = title_views(state.title, width, height);
    workspaces_are_drawn(7, active, height);
    assert(steps.len() == step_views(steps).len());
    assert(views.len() == 1 + marks.len() + title.len() + 2);
    assert forall|k: int| 0 <= k < steps.len() implies (#[trigger] steps[k])@ == views[k] by {
        assert(step_views(steps)[k] == steps[k]@);
    }
    assert forall|k: int| 0 <= k < marks.len() implies views[k + 1] == #[trigger] marks[k] by {}
    assert(steps[0]@ == views[0]);
    assert forall|i: int| 0 <= i < 7 implies writes(
        steps[if active <= i {
            i + 2
        } else {
            i + 1
        }],
        #[trigger] workspace_name(i),
        workspace_place(i, height as int),
        if i == active {
            BACKGROUND_COLOR
        } else {
            TEXT_COLOR
        },
        TextLayout::Centered,
    ) by {
        let at = if active <= i {
            i + 1
        } else {
            i
        };
        assert(marks[at] == workspace_text_view(i, active, height));
        assert(steps[at + 1]@ == marks[at]);
    }
    if active < 7 {
        assert(marks[active as int] == views[active + 1]);
        assert(steps[active + 1]@ == marks[active as int]);
    }
    if title.len() > 0 {
        assert(views[views.len() - 3] == title[0]);
        assert(steps[steps.len() - 3]@ == title[0]);
    }
    assert(steps[steps.len() - 2]@ == views[views.len() - 2]);
    assert(steps[steps.len() - 1]@ == views[views.len() - 1]);
}

/// What is drawn for the bar with a given clock text.
pub proof fn bar_shows_its_state(bar: &Bar, client: Rect, clock: String, steps: Vec<PaintStep>)
    requires
        call_ensures(Bar::draw_with_clock, (bar, client, clock), steps),
        client_ok(client),
    ensures
        shows_the_bar(bar@, client, clock@, steps@),
{
    views_show_the_bar(bar@, client, clock@, steps@);
}

/// The clock in the bar is the local time that the machine gave: the last step
/// writes it into the middle of the bar, and no other text is in its place.
pub proof fn clock_shows_the_local_time(bar: &Bar, client: Rect, steps: Vec<PaintStep>)
    requires
        call_ensures(Bar::draw, (bar, client), steps),
        client_ok(client),
    ensures
        steps@.len() > 0,
        is_local_time_reading(written(steps@.last())),
        shows_the_bar(bar@, client, written(steps@.last()), steps@),
{
    let clock = choose|clock: Seq<char>|
        is_clock_label(clock) && is_local_time_reading(clock) && step_views(steps@)
            == #[trigger] bar_views(bar@, client, clock);
    views_show_the_bar(bar@, client, clock, steps@);
}

/// The text of the clock is the local time that the machine gave.
pub proof fn clock_text_is_the_local_time(text: String)
    requires
        call_ensures(clock_text, (), text),
    ensures
        is_local_time_reading(text@),
{
}

/// A point hits the volume widget exactly if it lies in the area that the bar's
/// volume text is written into, and that area is what is handed out.
pub proof fn volume_is_hit_where_it_is_written(
    bar: &Bar,
    client: Rect,
    clock: String,
    steps: Vec<PaintStep>,
    x: i32,
    y: i32,
    hit: Option<Rect>,
)
    requires
        call_ensures(Bar::draw_with_clock, (bar, client, clock), steps),
        call_ensures(volume_hit, (client, x, y), hit),
        client_ok(client),
        client.left == 0,
        client.top == 0,
    ensures
        steps@.len() > 2,
        match steps@[steps@.len() - 2] {
            PaintStep::Text { text, area, .. } => {
                &&& text@ == volume_label(bar@.volume, bar@.muted)
                &&& hit == (if area.left <= x < area.right && area.top <= y < area.bottom {
                    Some(area)
                } else {
                    None
                })
            },
            PaintStep::Fill { .. } => false,
        },
{
    views_show_the_bar(bar@, client, clock@, steps@);
}

// The active workspace.

/// The object has this member under this key.
pub open spec fn has_member(tree: JsonTree, key: Seq<char>, member: JsonTree) -> bool {
    match tree {
        JsonTree::Object(members) => members.contains_key(key) && members[key] == member,
        _ => false,
    }
}

/// The notification says that monitor number `focused` has the focus, and that
/// on the monitor at place `place` of the list workspace number `workspace` has
/// it.
pub open spec fn tells_focus(
    notification: JsonTree,
    focused: u64,
    place: int,
    workspace: u64,
) -> bool {
    exists|
        state: JsonTree,
        monitors: JsonTree,
        elements: Seq<JsonTree>,
        workspaces: JsonTree,
    | #[trigger]
        tells_focus_by(
            notification,
            focused,
            place,
            workspace,
            state,
            monitors,
            elements,
            workspaces,
        )
}

/// The same, with the parts of the notification on the way.
pub open spec fn tells_focus_by(
    notification: JsonTree,
    focused: u64,
    place: int,
    workspace: u64,
    state: JsonTree,
    monitors: JsonTree,
    elements: Seq<JsonTree>,
    workspaces: JsonTree,
) -> bool {
    &&& has_member(notification, "state"@, state)
    &&& has_member(state, "monitors"@, monitors)
    &&& has_member(monitors, "focused"@, JsonTree::Unsigned(focused))
    &&& has_member(monitors, "elements"@, JsonTree::Array(elements))
    &&& 0 <= place < elements.len()
    &&& has_member(elements[place], "workspaces"@, workspaces)
    &&& has_member(workspaces, "focused"@, JsonTree::Unsigned(workspace))
}

/// A notification that tells which workspace has the focus on the monitor that
/// has it names that workspace, from number 0 on.
proof fn told_focus_is_named(notification: JsonTree, focused: u64, workspace: u64)
    requires
        focused <= usize::MAX,
        tells_focus(notification, focused, focused as int, workspace),
    ensures
        focused_workspace_of(notification) == Some(workspace),
{
    let (state, monitors, elements, workspaces) = choose|
        state: JsonTree,
        monitors: JsonTree,
        elements: Seq<JsonTree>,
        workspaces: JsonTree,
    | #[trigger]
        tells_focus_by(
            notification,
            focused,
            focused as int,
            workspace,
            state,
            monitors,
            elements,
            workspaces,
        );
    assert(member_of(Some(notification), "state"@) == Some(state));
    assert(member_of(Some(state), "monitors"@) == Some(monitors));
    assert(elements_of(member_of(Some(monitors), "elements"@)) == Some(elements));
    assert(member_of(Some(elements[focused as int]), "workspaces"@) == Some(workspaces));
}

/// Any workspace that a notification names is one that it tells of.
proof fn named_focus_is_told(notification: JsonTree)
    requires
        focused_workspace_of(notification) is Some,
    ensures
        exists|focused: u64| #[trigger]
            tells_focus(
                notification,
                focused,
                focused as usize as int,
                focused_workspace_of(notification)->0,
            ),
{
    let state = member_of(Some(notification), "state"@)->0;
    let monitors = member_of(Some(state), "monitors"@)->0;
    let focused = number_of(member_of(Some(monitors), "focused"@))->0;
    let elements = elements_of(member_of(Some(monitors), "elements"@))->0;
    let place = focused as usize as int;
    let workspaces = member_of(Some(elements[place]), "workspaces"@)->0;
    assert(tells_focus_by(
        notification,
        focused,
        place,
        focused_workspace_of(notification)->0,
        state,
        monitors,
        elements,
        workspaces,
    ));
    assert(tells_focus(notification, focused, place, focused_workspace_of(notification)->0));
}

/// A notification that tells which workspace has the focus on the monitor that
/// has it names that workspace, whatever its number, and any workspace named is
/// one that the notification tells of.
pub proof fn notification_names_the_focused_workspace(
    notification: &serde_json::Value,
    named: Option<u64>,
    focused: u64,
    workspace: u64,
)
    requires
        call_ensures(focused_workspace, (notification,), named),
        focused <= usize::MAX,
    ensures
        tells_focus(json_tree(*notification), focused, focused as int, workspace) ==> named == Some(
            workspace,
        ),
        named matches Some(number) ==> exists|monitor: u64| #[trigger]
            tells_focus(
                json_tree(*notification),
                monitor,
                monitor as usize as int,
                number,
            ),
{
    let tree = json_tree(*notification);
    if tells_focus(tree, focused, focused as int, workspace) {
        told_focus_is_named(tree, focused, workspace);
    }
    if named is Some {
        named_focus_is_told(tree);
    }
}

/// A line from komorebi that tells which workspace has the focus makes the bar
/// show that one as active. The bar is drawn again if it showed another and has
/// a window. A line that is no notification, or tells nothing of the kind,
/// changes nothing.
pub proof fn line_makes_its_workspace_active(
    bar: &mut Bar,
    line: &str,
    repaint: bool,
    focused: u64,
    workspace: u64,
)
    requires
        call_ensures(Bar::notified, (bar, line), repaint),
        focused <= usize::MAX,
        workspace <= usize::MAX,
    ensures
        parsed_json(line@) matches Some(tree) && tells_focus(
            tree,
            focused,
            focused as int,
            workspace,
        ) ==> {
            &&& final(bar)@ == (BarState { active_workspace: workspace as usize, ..old(bar)@ })
            &&& repaint == (old(bar)@.active_workspace != workspace && old(bar)@.window != 0)
        },
        parsed_json(line@) is None ==> final(bar)@ == old(bar)@ && !repaint,
        (parsed_json(line@) matches Some(tree) && forall|monitor: u64, place: int, number: u64|
            !#[trigger] tells_focus(tree, monitor, place, number)) ==> final(bar)@ == old(bar)@
            && !repaint,
{
    if let Some(tree) = parsed_json(line@) {
        if tells_focus(tree, focused, focused as int, workspace) {
            told_focus_is_named(tree, focused, workspace);
        }
        if focused_workspace_of(tree) is Some {
            named_focus_is_told(tree);
        }
    }
}

/// A workspace that komorebi focuses becomes the active one, and the bar is
/// drawn again if it showed another and has a window.
pub proof fn focused_workspace_becomes_active(bar: &mut Bar, number: u64, repaint: bool)
    requires
        call_ensures(Bar::workspace_focused, (bar, number), repaint),
        number <= usize::MAX,
    ensures
        final(bar)@ == (BarState { active_workspace: number as usize, ..old(bar)@ }),
        repaint == (old(bar)@.active_workspace != number && old(bar)@.window != 0),
{
}

// The window in front.

/// The text of a window that comes to the front becomes the title, without the
/// NULs behind it in the buffer; a window without text leaves no title. The bar
/// is drawn again if it has a window, and hides for another window exactly
/// while that is in full screen. Other events change nothing.
pub proof fn window_in_front_gives_the_title(
    bar: &mut Bar,
    event: u32,
    window: isize,
    length: i32,
    buffer: &[u16],
    fullscreen: bool,
    change: ForegroundChange,
    title: Seq<char>,
    nuls: nat,
)
    requires
        call_ensures(
            Bar::foreground_changed,
            (bar, event, window, length, buffer, fullscreen),
            change,
        ),
        utf16_lossy(buffer@) == title + Seq::new(nuls, |i: int| '\0'),
        title.len() > 0 ==> title.last() != '\0',
    ensures
        event == 3 ==> final(bar)@ == (BarState {
            title: if length > 0 {
                title
            } else {
                Seq::empty()
            },
            ..old(bar)@
        }),
        event == 3 ==> change == (ForegroundChange {
            visibility: if old(bar)@.window == 0 || window == old(bar)@.window {
                None
            } else if fullscreen {
                Some(Visibility::Hidden)
            } else {
                Some(Visibility::Shown)
            },
            repaint: old(bar)@.window != 0,
        }),
        event != 3 ==> final(bar)@ == old(bar)@ && change == (ForegroundChange {
            visibility: None,
            repaint: false,
        }),
{
    padding_is_dropped(title, nuls);
}

/// The window that is in front when the bar starts gives the title if it has
/// text, and changes nothing if not.
pub proof fn first_window_gives_the_title(
    bar: &mut Bar,
    length: i32,
    buffer: &[u16],
    title: Seq<char>,
    nuls: nat,
)
    requires
        call_ensures(Bar::first_title, (bar, length, buffer), ()),
        utf16_lossy(buffer@) == title + Seq::new(nuls, |i: int| '\0'),
        title.len() > 0 ==> title.last() != '\0',
    ensures
        length > 0 ==> final(bar)@ == (BarState { title, ..old(bar)@ }),
        length <= 0 ==> final(bar)@ == old(bar)@,
{
    padding_is_dropped(title, nuls);
}

/// The title in a buffer that goes on with NULs is what was written into it.
proof fn padded_title_is_read(title: Seq<char>, nuls: nat)
    requires
        title.len() > 0 ==> title.last() != '\0',
    ensures
        without_trailing_nuls(utf16_lossy(utf16(title) + Seq::new(nuls, |i: int| 0u16))) == title,
{
    let padding = Seq::new(nuls, |i: int| '\0');
    padding_in_utf16(title, nuls);
    utf16_round_trip(title + padding);
    padding_is_dropped(title, nuls);
}

proof fn padding_in_utf16(title: Seq<char>, nuls: nat)
    ensures
        utf16(title + Seq::new(nuls, |i: int| '\0')) == utf16(title) + Seq::new(
            nuls,
            |i: int| 0u16,
        ),
    decreases nuls,
{
    let padded = title + Seq::new(nuls, |i: int| '\0');
    if nuls == 0 {
        assert(padded =~= title);
        assert(utf16(title) + Seq::new(nuls, |i: int| 0u16) =~= utf16(title));
    } else {
        let fewer = (nuls - 1) as nat;
        padding_in_utf16(title, fewer);
        assert(padded.drop_last() =~= title + Seq::new(fewer, |i: int| '\0'));
        assert(padded.last() == '\0');
        assert(utf16_of_char('\0') =~= seq![0u16]);
        assert(utf16(padded) =~= utf16(title) + Seq::new(nuls, |i: int| 0u16));
    }
}

proof fn padding_is_dropped(title: Seq<char>, nuls: nat)
    requires
        title.len() > 0 ==> title.last() != '\0',
    ensures
        without_trailing_nuls(title + Seq::new(nuls, |i: int| '\0')) == title,
    decreases nuls,
{
    let padded = title + Seq::new(nuls, |i: int| '\0');
    if nuls == 0 {
        assert(padded =~= title);
    } else {
        let fewer = (nuls - 1) as nat;
        padding_is_dropped(title, fewer);
        assert(padded.drop_last() =~= title + Seq::new(fewer, |i: int| '\0'));
        assert(padded.last() == '\0');
    }
}

/// A window shows something in full screen exactly if it reaches to all four
/// ends of its monitor, so that every point of the monitor lies in it, and it is
/// not the desktop: a `Progman`, or anything that starts with `WorkerW`. Without
/// a place or a monitor it does not.
pub proof fn fullscreen_is_covering_every_point(
    class_name: &[u16],
    class: Seq<char>,
    window: Option<Rect>,
    monitor: Option<Rect>,
    fullscreen: bool,
)
    requires
        call_ensures(is_fullscreen_window, (class_name, window, monitor), fullscreen),
        utf16_lossy(class_name@) == class,
    ensures
        fullscreen <==> {
            &&& class != "Progman"@
            &&& forall|rest: Seq<char>| class != #[trigger] ("WorkerW"@ + rest)
            &&& window is Some
            &&& monitor is Some
            &&& window->0.left <= monitor->0.left
            &&& window->0.top <= monitor->0.top
            &&& window->0.right >= monitor->0.right
            &&& window->0.bottom >= monitor->0.bottom
        },
        monitor is Some && monitor->0.left < monitor->0.right && monitor->0.top
            < monitor->0.bottom ==> (fullscreen <==> {
            &&& class != "Progman"@
            &&& forall|rest: Seq<char>| class != #[trigger] ("WorkerW"@ + rest)
            &&& window is Some
            &&& forall|x: int, y: int| #[trigger]
                lies_in(monitor->0, x, y) ==> lies_in(window->0, x, y)
        }),
{
    let prefix = "WorkerW"@;
    if prefix.len() <= class.len() && class.take(prefix.len() as int) == prefix {
        assert(class =~= prefix + class.skip(prefix.len() as int));
    }
    if exists|rest: Seq<char>| class == #[trigger] (prefix + rest) {
        let rest = choose|rest: Seq<char>| class == #[trigger] (prefix + rest);
        assert(class.take(prefix.len() as int) =~= prefix);
    }
    if let (Some(inner), Some(outer)) = (monitor, window) {
        if inner.left < inner.right && inner.top < inner.bottom && (forall|x: int, y: int|
            #[trigger] lies_in(inner, x, y) ==> lies_in(outer, x, y)) {
            assert(lies_in(inner, inner.left as int, inner.top as int));
            assert(lies_in(inner, inner.right - 1, inner.bottom - 1));
        }
    }
}

/// The point lies in the rectangle.
pub open spec fn lies_in(area: Rect, x: int, y: int) -> bool {
    area.left <= x < area.right && area.top <= y < area.bottom
}

/// The bar hides for another window exactly while that is in full screen; in
/// front itself, it stays as it is.
pub proof fn bar_hides_exactly_for_fullscreen(
    bar: isize,
    window: isize,
    fullscreen: bool,
    visibility: Option<Visibility>,
)
    requires
        call_ensures(bar_visibility, (bar, window, fullscreen), visibility),
    ensures
        visibility is None <==> window == bar,
        visibility == Some(Visibility::Hidden) <==> window != bar && fullscreen,
        visibility == Some(Visibility::Shown) <==> window != bar && !fullscreen,
{
}

// Messages.

/// The low half of the parameter holds the two coordinates of the mouse, as
/// Windows packs them: `y` above `x`, each in 16 bits.
pub open spec fn holds_point(lparam: isize, x: i16, y: i16) -> bool {
    lparam as int % 0x1_0000_0000 == (y as int % 0x1_0000) * 0x1_0000 + x as int % 0x1_0000
}

proof fn point_is_unpacked(lparam: isize, x: i16, y: i16)
    requires
        holds_point(lparam, x, y),
    ensures
        signed16(lparam as int) == x,
        signed16(lparam as int / 0x1_0000) == y,
{
    let all = lparam as int;
    let low = all % 0x1_0000_0000;
    let high = all / 0x1_0000_0000;
    assert(all == high * 0x1_0000_0000 + low);
    assert(all % 0x1_0000 == low % 0x1_0000);
    assert(all / 0x1_0000 == high * 0x1_0000 + low / 0x1_0000);
    assert((all / 0x1_0000) % 0x1_0000 == (low / 0x1_0000) % 0x1_0000);
    assert(low / 0x1_0000 == y as int % 0x1_0000);
}

/// The words that Windows packs into the parameters of a message come out as
/// they went in.
pub proof fn packed_words_come_out(
    lparam: isize,
    wparam: usize,
    x: i16,
    y: i16,
    got_x: i32,
    got_y: i32,
    high: i16,
    code: u32,
    low: u32,
    key: u16,
    number: i32,
)
    requires
        holds_point(lparam, x, y),
        call_ensures(lparam_x, (lparam,), got_x),
        call_ensures(lparam_y, (lparam,), got_y),
        call_ensures(wheel_delta, (wparam,), high),
        call_ensures(notification_code, (wparam,), code),
        call_ensures(activation_state, (wparam,), low),
        call_ensures(virtual_key, (wparam,), key),
        call_ensures(hotkey_number, (wparam,), number),
        wparam <= u32::MAX,
    ensures
        got_x == x,
        got_y == y,
        high as int % 0x1_0000 == wparam as int / 0x1_0000,
        code * 0x1_0000 + low == wparam,
        key == low < 0x1_0000,
        number as int % 0x1_0000_0000 == wparam,
{
    point_is_unpacked(lparam, x, y);
}

/// A click on the bar is at the point that the message holds; a turn of the
/// wheel is, too, and is worth five percent up if it goes away from the user,
/// and five percent down if not.
pub proof fn mouse_messages_tell_the_point(
    wparam: usize,
    lparam: isize,
    x: i16,
    y: i16,
    turn: i16,
    click: BarAction,
    wheel: BarAction,
)
    requires
        call_ensures(bar_message, (0x0201u32, wparam, lparam), click),
        call_ensures(bar_message, (0x020Au32, wparam, lparam), wheel),
        holds_point(lparam, x, y),
        (wparam as int / 0x1_0000) % 0x1_0000 == turn as int % 0x1_0000,
    ensures
        click == (BarAction::Click { x: x as i32, y: y as i32 }),
        wheel == (BarAction::Wheel {
            percent: if turn > 0 {
                5i32
            } else {
                -5i32
            },
            x: x as i32,
            y: y as i32,
        }),
{
    point_is_unpacked(lparam, x, y);
}

/// What the other messages to the bar ask for, whatever else they hold.
pub proof fn bar_messages_are_told_apart(
    message: u32,
    wparam: usize,
    lparam: isize,
    action: BarAction,
)
    requires
        call_ensures(bar_message, (message, wparam, lparam), action),
    ensures
        action is Create <==> message == 0x0001,
        action is Destroy <==> message == 0x0002,
        action is Paint <==> message == 0x000F,
        action is Click <==> message == 0x0201,
        action is Wheel <==> message == 0x020A,
        action is ToggleSearch <==> message == 0x0312 && wparam as int % 0x1_0000_0000 == 1,
        action is Refresh <==> message == 0x0113 && wparam == 1,
        action is CheckFullscreen <==> message == 0x0113 && wparam == 2,
        action is Ignore <==> message == 0x0312 && wparam as int % 0x1_0000_0000 != 1 || message
            == 0x0113 && wparam != 1 && wparam != 2,
{
}

/// In the text field the arrow keys move the selection by one row, as far as
/// the list goes, and the popup is drawn again; Enter launches; Escape closes;
/// and all other keys and messages are the text field's own. The key is in the
/// lowest 16 bits of the parameter.
pub proof fn keys_move_launch_and_close(
    search: &mut Search,
    message: u32,
    wparam: usize,
    action: EditAction,
)
    requires
        call_ensures(Search::edit_message, (search, message, wparam), action),
        old(search)@.valid(),
    ensures
        ({
            let key = wparam as int % 0x1_0000;
            let pressed = message == 0x0100;
            let row = old(search)@.selected;
            let rows = old(search)@.listed.len();
            &&& action is Repaint <==> pressed && (key == 0x26 || key == 0x28)
            &&& action is Launch <==> pressed && key == 0x0D
            &&& action is Close <==> pressed && key == 0x1B
            &&& final(search)@ == (SearchState {
                selected: if pressed && key == 0x28 && row + 1 < rows {
                    row + 1
                } else if pressed && key == 0x26 && row > 0 {
                    row - 1
                } else {
                    row
                },
                ..old(search)@
            })
        }),
{
}

/// A click in the popup launches the row that is drawn at its height and
/// selects it; below the last row and above the first it does nothing.
pub proof fn click_launches_the_row_under_it(
    search: &mut Search,
    wparam: usize,
    lparam: isize,
    x: i16,
    y: i16,
    action: PopupAction,
    row: int,
)
    requires
        call_ensures(Search::popup_message, (search, 0x0201u32, wparam, lparam), action),
        old(search)@.valid(),
        holds_point(lparam, x, y),
    ensures
        0 <= row < old(search)@.listed.len() && row_place(row, 480, 0).top <= y < row_place(
            row,
            480,
            0,
        ).bottom ==> action is Launch && final(search)@ == (SearchState {
            selected: row,
            ..old(search)@
        }),
        y < 32 || y >= 32 + 28 * old(search)@.listed.len() ==> action is Ignore && final(search)@
            == old(search)@,
{
    point_is_unpacked(lparam, x, y);
}

/// What the other messages to the popup ask for: a changed text is read, the
/// loss of the focus closes the popup. None of them changes anything by itself.
pub proof fn popup_messages_are_told_apart(
    search: &mut Search,
    message: u32,
    wparam: usize,
    lparam: isize,
    action: PopupAction,
)
    requires
        call_ensures(Search::popup_message, (search, message, wparam, lparam), action),
    ensures
        action is CreateEdit <==> message == 0x0001,
        action is ColorEdit <==> message == 0x0133,
        action is Paint <==> message == 0x000F,
        action is ReadQuery <==> message == 0x0111 && (wparam as int / 0x1_0000) % 0x1_0000_0000
            == 0x0300,
        action is Close <==> message == 0x0006 && wparam as int % 0x1_0000 == 0,
        action is Launch ==> message == 0x0201,
        action is Default <==> message != 0x0001 && message != 0x0133 && message != 0x000F
            && message != 0x0111 && message != 0x0006 && message != 0x0201,
        message != 0x0201 ==> final(search)@ == old(search)@,
{
}

/// The hotkey opens the popup while it is closed, and closes it while it is
/// open. Opening, closing and reading the apps anew leave the recorded uses as
/// they are.
pub proof fn hotkey_opens_and_closes(
    search: &mut Search,
    opened: &mut Search,
    popup: isize,
    while_open: Toggle,
    when_closed: Toggle,
)
    requires
        popup != 0,
        call_ensures(Search::popup_opened, (search, popup), ()),
        call_ensures(Search::close_search, (opened,), ()),
        *old(opened) == *final(search),
        call_ensures(Search::toggle_search, (&*final(search),), while_open),
        call_ensures(Search::toggle_search, (&*final(opened),), when_closed),
    ensures
        while_open == Toggle::Close(popup),
        when_closed == Toggle::Open,
        final(opened)@ == (SearchState { popup: 0, edit: 0, ..old(search)@ }),
{
}

/// Apps that are read anew take the place of the known ones, and the list and
/// the selection stay as they are.
pub proof fn reading_apps_keeps_the_list(search: &mut Search, apps: Vec<App>)
    requires
        call_ensures(Search::warm_index, (search, apps), ()),
    ensures
        final(search)@.apps == apps@,
        final(search)@.listed == old(search)@.listed,
        final(search)@.selected == old(search)@.selected,
        final(search)@.uses == old(search)@.uses,
{
}

// The volume.

/// The number that decimal digits read as.
pub open spec fn number_read(digits: Seq<char>) -> int
    decreases digits.len(),
{
    if digits.len() == 0 {
        0
    } else {
        number_read(digits.drop_last()) * 10 + (digits.last() as int - '0' as int)
    }
}

/// The characters are decimal digits, with no zero in front of others.
pub open spec fn is_plain_number(digits: Seq<char>) -> bool {
    &&& digits.len() > 0
    &&& forall|i: int| 0 <= i < digits.len() ==> '0' <= #[trigger] digits[i] && digits[i] <= '9'
    &&& digits.len() > 1 ==> digits[0] != '0'
}

proof fn decimal_reads_back(number: nat)
    ensures
        is_plain_number(decimal(number)),
        number_read(decimal(number)) == number,
        number > 0 ==> decimal(number)[0] != '0',
    decreases number,
{
    let digits = decimal(number);
    if number < 10 {
        assert(digits.drop_last() =~= Seq::<char>::empty());
        assert(number_read(digits.drop_last()) == 0);
        assert(digits.last() as int - '0' as int == number);
    } else {
        let front = decimal(number / 10);
        decimal_reads_back(number / 10);
        assert(digits.drop_last() =~= front);
        assert(digits.last() as int - '0' as int == number % 10);
        assert forall|i: int| 0 <= i < digits.len() implies '0' <= #[trigger] digits[i]
            && digits[i] <= '9' by {
            if i < front.len() {
                assert(digits[i] == front[i]);
            }
        }
        assert(digits[0] == front[0]);
    }
}

/// The volume widget reads `Mute` while the sound is muted, and otherwise `Vol`,
/// the percentage in decimal and a percent sign.
pub proof fn volume_reads_as_its_level(percent: u32, muted: bool, text: String)
    requires
        call_ensures(volume_text, (percent, muted), text),
    ensures
        text@ == volume_label(percent, muted),
        muted ==> text@ == "Mute"@,
        !muted ==> exists|digits: Seq<char>|
            text@ == #[trigger] ("Vol "@ + digits + "%"@) && is_plain_number(digits)
                && number_read(digits) == percent,
{
    decimal_reads_back(percent as nat);
    if !muted {
        assert(text@ == "Vol "@ + decimal(percent as nat) + "%"@);
    }
}

/// A reading of the sound device is what the bar shows next; a failed one
/// changes nothing. A click turns the mute state round, so that two clicks are
/// none.
pub proof fn volume_follows_the_device(
    bar: &mut Bar,
    reading: Option<(u32, bool)>,
    muted: bool,
    once: bool,
    twice: bool,
)
    requires
        call_ensures(Bar::volume_read, (bar, reading), ()),
        call_ensures(mute_after_click, (muted,), once),
        call_ensures(mute_after_click, (once,), twice),
    ensures
        reading matches Some((volume, mute)) ==> final(bar)@ == (BarState {
            volume,
            muted: mute,
            ..old(bar)@
        }),
        reading is None ==> final(bar)@ == old(bar)@,
        once != muted,
        twice == muted,
{
}

// The apps of the Start Menu.

/// The four characters are `.lnk`, in upper or lower case.
pub open spec fn is_link_ending(ending: Seq<char>) -> bool {
    ascii_lowercase(ending) == seq!['.', 'l', 'n', 'k']
}

/// A file is a shortcut exactly if its name is an app's name, of at least one
/// character, with `.lnk` behind it; and that is the name of the app.
pub proof fn shortcut_is_a_name_and_an_ending(file_name: &str, name: Option<String>)
    requires
        call_ensures(shortcut_name, (file_name,), name),
    ensures
        name matches Some(app) ==> app@.len() > 0 && exists|ending: Seq<char>|
            file_name@ == #[trigger] (app@ + ending) && is_link_ending(ending),
        forall|app: Seq<char>, ending: Seq<char>|
            file_name@ == #[trigger] (app + ending) && app.len() > 0 && is_link_ending(ending)
                ==> name is Some && name->0@ == app,
{
    let file = file_name@;
    if name is Some {
        let app = name->0@;
        let ending = file.skip(file.len() - 4);
        assert(file =~= app + ending);
        assert(ascii_lowercase(ending) =~= seq!['.', 'l', 'n', 'k']);
    }
    assert forall|app: Seq<char>, ending: Seq<char>|
        file == #[trigger] (app + ending) && app.len() > 0 && is_link_ending(
            ending,
        ) implies name is Some && name->0@ == app by {
        let small = ascii_lowercase(ending);
        assert(ending.len() == small.len() == 4);
        assert forall|k: int| 0 <= k < 4 implies file[app.len() + k] == #[trigger] ending[k]
            && small[k] == ascii_lower(ending[k]) by {}
        assert(small[0] == '.' && small[1] == 'l' && small[2] == 'n' && small[3] == 'k');
        assert(ending[0] == '.');
        assert(ending[1] == 'l' || ending[1] == 'L');
        assert(ending[2] == 'n' || ending[2] == 'N');
        assert(ending[3] == 'k' || ending[3] == 'K');
        assert(file.take(file.len() - 4) =~= app);
    }
}

/// Folders are looked through; a shortcut adds its app under its name, with the
/// path of the shortcut; all else is passed over.
pub proof fn start_menu_is_read(
    is_folder: bool,
    file_name: Option<&str>,
    path: &str,
    visit: Visit,
    name: Option<String>,
)
    requires
        call_ensures(visit_entry, (is_folder, file_name, path), visit),
        file_name matches Some(text) ==> call_ensures(shortcut_name, (text,), name),
        file_name is None ==> name is None,
    ensures
        visit is Descend <==> is_folder,
        visit is Add <==> !is_folder && name is Some,
        visit matches Visit::Add(app) ==> app.name@ == name->0@ && app.path@ == path@,
{
}

// The recorded uses.

/// What is recorded of an app is what was last set, and setting it leaves the
/// other apps alone.
pub proof fn set_use_is_recorded(
    usage: &mut Usage,
    path: String,
    entry: UsageEntry,
    other: &String,
    found: Option<UsageEntry>,
    before: Option<UsageEntry>,
)
    requires
        call_ensures(Usage::insert, (usage, path, entry), ()),
        call_ensures(Usage::get, (&*final(usage), other), found),
        call_ensures(Usage::get, (&*old(usage), other), before),
    ensures
        other@ == path@ ==> found == Some(entry),
        other@ != path@ ==> found == before,
{
}

/// A launch that is recorded adds one to the count of the app and sets its
/// time, and leaves the other apps alone.
pub proof fn recorded_launch_counts_up(
    usage: &mut Usage,
    path: String,
    now: i64,
    other: &String,
    found: Option<UsageEntry>,
    before: Option<UsageEntry>,
)
    requires
        call_ensures(Usage::record, (usage, path, now), ()),
        call_ensures(Usage::get, (&*final(usage), other), found),
        call_ensures(Usage::get, (&*old(usage), other), before),
        before matches Some(entry) ==> entry.count < u32::MAX,
    ensures
        other@ != path@ ==> found == before,
        other@ == path@ ==> found == Some(
            UsageEntry {
                count: match before {
                    Some(entry) => (entry.count + 1) as u32,
                    None => 1u32,
                },
                last_used: now,
            },
        ),
{
}

/// Forgetting old uses forgets exactly those that lie more than 365 days back.
pub proof fn old_uses_are_forgotten(
    usage: &mut Usage,
    now: i64,
    path: &String,
    found: Option<UsageEntry>,
    before: Option<UsageEntry>,
)
    requires
        call_ensures(Usage::prune_stale_usage, (usage, now), ()),
        call_ensures(Usage::get, (&*final(usage), path), found),
        call_ensures(Usage::get, (&*old(usage), path), before),
    ensures
        found == (match before {
            Some(entry) => if now - entry.last_used > 365 * 24 * 60 * 60 {
                None
            } else {
                Some(entry)
            },
            None => None,
        }),
{
}

/// A history that is made of entries has for each path the last of its entries,
/// and nothing for a path without one.
pub proof fn last_entry_counts(
    entries: Vec<(String, UsageEntry)>,
    usage: Usage,
    path: &String,
    found: Option<UsageEntry>,
    i: int,
)
    requires
        call_ensures(Usage::from_entries, (entries,), usage),
        call_ensures(Usage::get, (&usage, path), found),
    ensures
        0 <= i < entries@.len() && entries@[i].0@ == path@ && (forall|j: int|
            i < j < entries@.len() ==> (#[trigger] entries@[j]).0@ != path@) ==> found == Some(
            entries@[i].1,
        ),
        (forall|j: int| 0 <= j < entries@.len() ==> (#[trigger] entries@[j]).0@ != path@)
            ==> found is None,
{
    last_entry_wins(entries@, path@, i);
}

proof fn last_entry_wins(entries: Seq<(String, UsageEntry)>, path: Seq<char>, i: int)
    ensures
        0 <= i < entries.len() && entries[i].0@ == path && (forall|j: int|
            i < j < entries.len() ==> (#[trigger] entries[j]).0@ != path) ==> later_wins(
            entries,
        ).contains_key(path) && later_wins(entries)[path] == entries[i].1,
        (forall|j: int| 0 <= j < entries.len() ==> (#[trigger] entries[j]).0@ != path)
            ==> !later_wins(entries).contains_key(path),
    decreases entries.len(),
{
    if entries.len() > 0 {
        let rest = entries.drop_last();
        let last = entries.len() - 1;
        last_entry_wins(rest, path, i);
        if 0 <= i < last && (forall|j: int|
            i < j < entries.len() ==> (#[trigger] entries[j]).0@ != path) {
            assert forall|j: int| i < j < rest.len() implies (#[trigger] rest[j]).0@ != path by {
                assert(entries[j].0@ != path);
            }
            assert(entries[last].0@ != path);
            assert(rest[i] == entries[i]);
        }
        if forall|j: int| 0 <= j < entries.len() ==> (#[trigger] entries[j]).0@ != path {
            assert forall|j: int| 0 <= j < rest.len() implies (#[trigger] rest[j]).0@ != path by {
                assert(entries[j].0@ != path);
            }
            assert(entries[last].0@ != path);
        }
    }
}

// Places on the screen.

/// The popup opens in the middle of the screen: as far from the left end as
/// from the right and as far from the top as from the bottom, to within a
/// pixel. Its text field lies in it, above the list.
pub proof fn popup_opens_in_the_middle(
    screen_width: i32,
    screen_height: i32,
    popup: Placement,
    edit: Placement,
)
    requires
        call_ensures(popup_placement, (screen_width, screen_height), popup),
        call_ensures(edit_placement, (), edit),
    ensures
        popup.width == 480,
        popup.height == 360,
        -1 <= (screen_width - (popup.x + popup.width)) - popup.x <= 1,
        -1 <= (screen_height - (popup.y + popup.height)) - popup.y <= 1,
        edit.x == 8,
        edit.x + edit.width == popup.width - 8,
        edit.y == 8,
        edit.y + edit.height <= 32,
        edit.height == 20,
{
}

/// A row of the list is at the heights at which it is drawn, and no row is
/// above the first.
pub proof fn row_is_where_it_is_drawn(
    y: i32,
    row: Option<usize>,
    place: usize,
    width: i32,
    area: Rect,
)
    requires
        call_ensures(row_at, (y,), row),
        call_ensures(row_rect, (place, width), area),
        place < 1000,
        width - 8 >= i32::MIN,
    ensures
        row == Some(place) <==> area.top <= y < area.bottom,
        y < 32 <==> row is None,
        area == row_place(place as int, width as int, 0),
{
}

/// The bar asks for the top of the screen, in its whole width and 32 pixels
/// high, and fills what the shell gives it.
pub proof fn bar_takes_the_top_of_the_screen(
    screen_width: i32,
    asked: Rect,
    given: Rect,
    place: Placement,
)
    requires
        call_ensures(appbar_rect, (screen_width,), asked),
        call_ensures(Rect::placement, (&given,), place),
    ensures
        asked == (Rect { left: 0, top: 0, right: screen_width, bottom: 32 }),
        place.x == given.left,
        place.y == given.top,
        place.x + place.width == given.right,
        place.y + place.height == given.bottom,
{
}

// Text for Windows.

/// What is written in UTF-16 reads back as it was, with a NUL behind it or
/// without.
pub proof fn wide_text_reads_back(
    text: &str,
    units: Vec<u16>,
    terminated: Vec<u16>,
    read: String,
    buffer: &[u16],
)
    requires
        call_ensures(wide, (text,), units),
        call_ensures(wide_nul, (text,), terminated),
        buffer@ == terminated@,
        call_ensures(title_text, (buffer,), read),
        text@.len() > 0 ==> text@.last() != '\0',
    ensures
        utf16_lossy(units@) == text@,
        terminated@ == units@.push(0),
        read@ == text@,
{
    utf16_round_trip(text@);
    padded_title_is_read(text@, 1);
    assert(terminated@ =~= utf16(text@) + Seq::new(1, |i: int| 0u16));
}

/// A character is one UTF-16 unit, its own number, or a pair of units if that
/// has more than 16 bits; and the units of two texts in a row are those of the
/// one and then those of the other.
pub proof fn wide_text_goes_by_characters(
    first: &str,
    second: &str,
    both: &str,
    first_units: Vec<u16>,
    second_units: Vec<u16>,
    both_units: Vec<u16>,
)
    requires
        call_ensures(wide, (first,), first_units),
        call_ensures(wide, (second,), second_units),
        call_ensures(wide, (both,), both_units),
        both@ == first@ + second@,
    ensures
        both_units@ == first_units@ + second_units@,
        first@.len() == 0 ==> first_units@.len() == 0,
        first@.len() == 1 && (first@[0] as int) < 0x1_0000 ==> first_units@.len() == 1
            && first_units@[0] == first@[0] as int,
        first@.len() == 1 && first@[0] as int >= 0x1_0000 ==> first_units@.len() == 2 && 0xD800
            <= first_units@[0] < 0xDC00 && 0xDC00 <= first_units@[1] < 0xE000 && 0x1_0000 + (
        first_units@[0] - 0xD800) * 0x400 + (first_units@[1] - 0xDC00) == first@[0] as int,
{
    utf16_of_concatenation(first@, second@);
    if first@.len() == 1 {
        assert(first@.drop_last() =~= Seq::<char>::empty());
        assert(utf16(first@.drop_last()) =~= Seq::<u16>::empty());
        assert(utf16(first@) =~= utf16_of_char(first@[0]));
        pair_makes_up_the_character(first@[0]);
    }
}

proof fn pair_makes_up_the_character(c: char)
    ensures
        (c as int) < 0x1_0000 ==> utf16_of_char(c)[0] == c as int,
        c as int >= 0x1_0000 ==> {
            let units = utf16_of_char(c);
            &&& 0xD800 <= units[0] < 0xDC00
            &&& 0xDC00 <= units[1] < 0xE000
            &&& 0x1_0000 + (units[0] - 0xD800) * 0x400 + (units[1] - 0xDC00) == c as int
        },
{
}

/// What is read from a buffer, and a text that is trimmed, lose the NULs at the
/// end and nothing else.
pub proof fn only_trailing_nuls_are_dropped(
    text: &str,
    trimmed: String,
    buffer: &[u16],
    title: String,
)
    requires
        call_ensures(trim_nuls, (text,), trimmed),
        call_ensures(title_text, (buffer,), title),
    ensures
        loses_trailing_nuls(text@, trimmed@),
        loses_trailing_nuls(utf16_lossy(buffer@), title@),
{
    title_has_no_trailing_nul(text@);
    title_has_no_trailing_nul(utf16_lossy(buffer@));
}

/// `short` is `long` without the NULs at its end.
pub open spec fn loses_trailing_nuls(long: Seq<char>, short: Seq<char>) -> bool {
    &&& short.len() <= long.len()
    &&& forall|i: int| 0 <= i < short.len() ==> short[i] == long[i]
    &&& forall|i: int| short.len() <= i < long.len() ==> long[i] == '\0'
    &&& short.len() > 0 ==> short.last() != '\0'
}

// Text in the search.

/// A text is found in another exactly if it stands there with something, or
/// nothing, before it and behind it; and texts are put in dictionary order.
pub proof fn texts_are_found_and_ordered(
    a: &Vec<char>,
    b: &Vec<char>,
    found: bool,
    order: TextOrder,
)
    requires
        call_ensures(contains_chars, (a, b), found),
        call_ensures(order_of, (a, b), order),
    ensures
        found <==> has_inside(b@, a@),
        order is Before <==> reads_before(a@, b@),
        order is After <==> reads_before(b@, a@),
        order is Same <==> a@ == b@,
{
    substring_is_inside(a@, b@);
    dictionary_orders_agree(a@, b@);
    dictionary_orders_agree(b@, a@);
}

/// The list of a query has the ten apps that stand above all others of those
/// with the query in their name, or all of those: the higher rank first, then
/// the name that comes first, then the one with the smaller number.
pub proof fn matches_are_listed_in_order(
    names: &Vec<Vec<char>>,
    ranks: &Vec<u64>,
    query: &Vec<char>,
    list: Vec<usize>,
    r: int,
    s: int,
    i: usize,
)
    requires
        call_ensures(list_matches, (names, ranks, query), list),
        names@.len() == ranks@.len(),
    ensures
        list@.len() <= 10,
        0 <= r < list@.len() ==> list@[r] < names@.len() && has_inside(
            names@[list@[r] as int]@,
            query@,
        ),
        0 <= r < s < list@.len() ==> ranked_above(
            names@,
            ranks@,
            list@[r] as int,
            list@[s] as int,
        ),
        i < names@.len() && has_inside(names@[i as int]@, query@) && !list@.contains(i)
            ==> list@.len() == 10,
        i < names@.len() && has_inside(names@[i as int]@, query@) && !list@.contains(i) && 0 <= r
            < list@.len() ==> ranked_above(names@, ranks@, list@[r] as int, i as int),
{
    let views = name_views(names@);
    if 0 <= r < list@.len() {
        assert(is_match(views, query@, list@[r] as int));
        substring_is_inside(query@, views[list@[r] as int]);
    }
    if 0 <= r < s < list@.len() {
        assert(is_match(views, query@, list@[s] as int));
        assert(is_before(views, ranks@, list@[r] as int, list@[s] as int));
        dictionary_orders_agree(views[list@[r] as int], views[list@[s] as int]);
    }
    if i < names@.len() && has_inside(names@[i as int]@, query@) && !list@.contains(i) {
        substring_is_inside(query@, views[i as int]);
        assert(is_match(views, query@, i as int));
        if 0 <= r < list@.len() {
            assert(is_before(views, ranks@, list@[r] as int, i as int));
            dictionary_orders_agree(views[list@[r] as int], views[i as int]);
        }
    }
}

/// App `i` stands above app `j` by their ranks and lower case names.
pub open spec fn ranked_above(names: Seq<Vec<char>>, ranks: Seq<u64>, i: int, j: int) -> bool {
    ||| ranks[i] > ranks[j]
    ||| ranks[i] == ranks[j] && reads_before(names[i]@, names[j]@)
    ||| ranks[i] == ranks[j] && names[i]@ == names[j]@ && i < j
}

/// Of names and queries in ASCII the case of the letters does not matter: what
/// is listed has the query in its name but for the case, and what has it is
/// listed, unless ten others are.
pub proof fn ascii_letters_match_in_any_case<F: Fn(u32, u64) -> u64>(
    search: &mut Search,
    query: &str,
    now: i64,
    rank: &F,
    app: usize,
)
    requires
        call_ensures(Search::apply_filter_at::<F>, (search, query, now, rank), ()),
        app < old(search)@.apps.len(),
        is_ascii_text(query@),
        is_ascii_text(old(search)@.apps[app as int].name@),
    ensures
        ({
            let small = ascii_lowercase(old(search)@.apps[app as int].name@);
            let listed = final(search)@.listed;
            &&& listed.contains(app) ==> has_inside(small, ascii_lowercase(query@))
            &&& has_inside(small, ascii_lowercase(query@)) ==> listed.contains(app) || listed.len()
                == 10
        }),
{
    search_lists_what_it_finds(search, query, now, rank);
    let apps = old(search)@.apps;
    let uses = old(search)@.uses;
    let listed = final(search)@.listed;
    let weights = choose|weights: Seq<u64>| #[trigger]
        is_found_by(apps, uses, listed, lowercase(query@), now, *rank, weights);
    assert(lowers_as_ascii(apps[app as int].name@));
    assert(lowers_as_ascii(query@));
    if listed.contains(app) {
        let r = choose|r: int| 0 <= r < listed.len() && listed[r] == app;
        assert(has_inside(lowercase(apps[listed[r] as int].name@), lowercase(query@)));
    }
}

/// Two queries in ASCII that differ in the case of their letters only list the
/// same, from the same state at the same time.
pub proof fn ascii_queries_in_any_case_list_the_same<F: Fn(u32, u64) -> u64>(
    one: &mut Search,
    other: &mut Search,
    query: &str,
    recased: &str,
    now: i64,
    rank: &F,
)
    requires
        call_ensures(Search::apply_filter_at::<F>, (one, query, now, rank), ()),
        call_ensures(Search::apply_filter_at::<F>, (other, recased, now, rank), ()),
        old(one)@ == old(other)@,
        is_ascii_text(query@),
        is_ascii_text(recased@),
        ascii_lowercase(query@) == ascii_lowercase(recased@),
        is_determined(*rank),
    ensures
        final(one)@ == final(other)@,
{
    filter_ignores_case(
        old(one)@,
        final(one)@,
        final(other)@,
        query@,
        recased@,
        now,
        *rank,
    );
}

/// The time since a launch is never negative, and a use is stale when it lies
/// more than 365 days back.
pub proof fn age_of_a_use(entry: &UsageEntry, now: i64, seconds: u64, stale: bool)
    requires
        call_ensures(UsageEntry::unused_seconds, (entry, now), seconds),
        call_ensures(UsageEntry::is_stale, (entry, now), stale),
    ensures
        seconds == seconds_since(entry.last_used, now),
        stale <==> now - entry.last_used > 365 * 24 * 60 * 60,
{
}

/// The entries that are written out are the recorded uses, one for each path.
pub proof fn entries_are_the_recorded_uses(
    usage: &Usage,
    entries: &Vec<(String, UsageEntry)>,
    path: &String,
    found: Option<UsageEntry>,
    i: int,
    j: int,
)
    requires
        call_ensures(Usage::entries, (usage,), entries),
        call_ensures(Usage::get, (usage, path), found),
    ensures
        0 <= i < entries@.len() && entries@[i].0@ == path@ ==> found == Some(entries@[i].1),
        (forall|k: int| 0 <= k < entries@.len() ==> (#[trigger] entries@[k]).0@ != path@)
            ==> found is None,
        0 <= i < j < entries@.len() ==> entries@[i].0@ != entries@[j].0@,
{
    if 0 <= i < entries@.len() {
        entry_in_map(entries@, i);
    }
}

/// The lower case form of a text is that of the whole text; in ASCII it is that
/// of each letter.
pub proof fn text_is_lowered(text: &str, chars: Vec<char>)
    requires
        call_ensures(lowercase_chars, (text,), chars),
    ensures
        chars@ == lowercase(text@),
        is_ascii_text(text@) ==> chars@ == ascii_lowercase(text@),
{
}

// The widgets of the bar.

/// A color as Windows has it, from its parts: red in the lowest byte, blue in
/// the highest.
pub open spec fn color_of(red: int, green: int, blue: int) -> int {
    blue * 0x1_0000 + green * 0x100 + red
}

/// The palette and the pace of the bar: it is drawn anew once a second, and
/// looks for a full screen window more often than five times a second.
pub proof fn palette_and_pace()
    ensures
        BACKGROUND_COLOR == color_of(0x11, 0x11, 0x1b),
        TEXT_COLOR == color_of(0xcd, 0xd6, 0xf4),
        ACCENT_COLOR == color_of(0x56, 0xd2, 0x85),
        EDIT_BACKGROUND_COLOR == color_of(0x1b, 0x1b, 0x29),
        REFRESH_PERIOD == 1000,
        FULLSCREEN_PERIOD == 150,
        REFRESH_TIMER == 1,
        FULLSCREEN_TIMER == 2,
{
}

/// Where the widgets are in a bar of this width and height.
pub proof fn widgets_are_at_their_places(
    width: i32,
    height: i32,
    index: usize,
    volume: Rect,
    clock: Rect,
    title: Rect,
    workspace: Rect,
)
    requires
        call_ensures(volume_rect, (width, height), volume),
        call_ensures(clock_rect, (width, height), clock),
        call_ensures(title_rect, (width, height), title),
        call_ensures(workspace_rect, (index, height), workspace),
        width - 120 >= i32::MIN,
        height - 4 >= i32::MIN,
        index < 7,
    ensures
        width - volume.right == 20,
        volume.right - volume.left == 100,
        clock.right - clock.left == 140,
        0 <= width ==> clock.left <= width - clock.right <= clock.left + 1,
        title.left == 338,
        clock.left - title.right == 10,
        workspace == workspace_place(index as int, height as int),
        volume.top == 0 && clock.top == 0 && title.top == 0,
        volume.bottom == height && clock.bottom == height && title.bottom == height,
{
}

/// In any client area a point hits the volume widget exactly if it lies in the
/// hundred pixels that end twenty pixels before the right end, above the bottom.
pub proof fn volume_is_hit_at_the_right_end(client: Rect, x: i32, y: i32, hit: Option<Rect>)
    requires
        call_ensures(volume_hit, (client, x, y), hit),
        i32::MIN + 120 <= client.right - client.left <= i32::MAX,
    ensures
        ({
            let width = client.right - client.left;
            hit == (if width - 120 <= x < width - 20 && 0 <= y < client.bottom {
                Some(
                    Rect {
                        left: (width - 120) as i32,
                        top: 0,
                        right: (width - 20) as i32,
                        bottom: client.bottom,
                    },
                )
            } else {
                None
            })
        }),
{
}

/// Until it hears of a workspace, a window or a volume, the bar shows the first
/// workspace as active and no title; its window is the one that was created.
pub proof fn bar_starts_with_the_first_workspace(bar: Bar, created: &mut Bar, window: isize)
    requires
        call_ensures(Bar::new, (), bar),
        call_ensures(Bar::created, (created, window), ()),
    ensures
        bar@.active_workspace == 0,
        bar@.title.len() == 0,
        bar@.window == 0,
        bar@.volume == 0 && !bar@.muted,
        final(created)@ == (BarState { window, ..old(created)@ }),
{
}

// The sound device and komorebi.

/// The cached device is used if there is one, and else a new one, if one can be
/// had. A use that goes well leaves the device cached; one that fails leaves
/// none, so that the next use asks for the device anew.
pub proof fn device_is_kept_while_it_works<
    T,
    R,
    A: FnOnce() -> Option<T>,
    F: FnOnce(&T) -> Option<R>,
>(slot: &mut Option<T>, acquire: A, use_it: F, result: Option<R>)
    requires
        call_ensures(with_endpoint_volume::<T, R, A, F>, (slot, acquire, use_it), result),
    ensures
        *old(slot) matches Some(device) ==> call_ensures(use_it, (&device,), result)
            && *final(slot) == (if result is Some {
            Some(device)
        } else {
            None
        }),
        *old(slot) is None ==> exists|got: Option<T>| #[trigger]
            call_ensures(acquire, (), got) && (match got {
                Some(device) => call_ensures(use_it, (&device,), result) && *final(slot) == (
                if result is Some {
                    Some(device)
                } else {
                    None
                }),
                None => result is None && *final(slot) is None,
            }),
{
    let got = choose|got: Option<T>| #[trigger]
        is_cached_use(*old(slot), *final(slot), acquire, use_it, got, result);
    if *old(slot) is None {
        assert(call_ensures(acquire, (), got));
    }
}

/// The bar subscribes when it starts and after each wait, listens to one
/// connection after the other, and waits two seconds when the subscription is
/// refused or komorebi closes the link.
pub proof fn bar_stays_in_touch(event: LinkEvent, step: LinkStep)
    requires
        call_ensures(link_step, (event,), step),
    ensures
        step is Subscribe <==> event is Started || event is Waited,
        step is Listen <==> event is Subscribed || event is ConnectionEnded
            || event is NotAccepted,
        step is Wait <==> event is Refused || event is Closed,
        step matches LinkStep::Wait(seconds) ==> seconds == 2,
{
}

} // verus!
