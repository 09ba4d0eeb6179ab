//! What holds of the library as a whole: statements about several of its
//! functions at once, over the spec functions that their contracts use.

use vstd::prelude::*;

use crate::bar::{
    after_workspace, bar_views, title_views, workspace_repaints, workspace_views, workspaces_views,
    BarState,
};
use crate::filter::{
    is_before, is_before_asymmetric, is_before_total, is_listing, is_match, MAX_RESULTS,
};
use crate::fullscreen::{is_desktop, shows_fullscreen, visibility_for, Visibility};
use crate::geometry::{
    clock_area, row_area, title_area, volume_area, workspace_area, Rect, CLOCK_WIDTH, EDIT_HEIGHT,
    POPUP_HEIGHT, POPUP_WIDTH, VOLUME_MARGIN, VOLUME_RECT_WIDTH, WORKSPACE_COUNT,
};
use crate::komorebi::{next_link_step, LinkEvent, LinkStep, RETRY_SECONDS};
use crate::paint::{PaintView, ACCENT_COLOR};
use crate::search::{
    after_edit_message, after_popup_message, are_ranks, edit_action, is_filtered, is_rank,
    list_views, lower_names, popup_action, popup_views, row_views, toggle_of, SearchState, Toggle,
};
use crate::text::{
    ascii_lowercase, ascii_uppercase, is_ascii_text, is_substring, lowercase, lowers_as_ascii,
    occurs_at, text_precedes,
};
use crate::usage::{
    entry_in_map, entry_map, is_entry_of, later_wins, paths_distinct, use_count, without_stale,
    UsageEntry,
};
use crate::utf16::{utf16, utf16_lossy, utf16_of_char, without_trailing_nuls};
use crate::volume::is_cached_use;
use crate::win32::{signed16, VK_RETURN, WM_KEYDOWN, WM_LBUTTONDOWN};

verus! {

// The list of the popup.

/// A query, the names and the ranks determine the list.
pub proof fn listing_is_unique(
    a: Seq<usize>,
    b: Seq<usize>,
    names: Seq<Seq<char>>,
    ranks: Seq<u64>,
    query: Seq<char>,
    limit: nat,
)
    requires
        is_listing(a, names, ranks, query, limit),
        is_listing(b, names, ranks, query, limit),
    ensures
        a == b,
{
    listing_prefix(a, b, names, ranks, query, limit, a.len() as int);
    listing_prefix(b, a, names, ranks, query, limit, b.len() as int);
    assert(a.take(a.len() as int) =~= a);
    assert(b.take(b.len() as int) =~= b);
    assert(a =~= b);
}

/// Two lists agree on their first `k` rows.
proof fn listing_prefix(
    a: Seq<usize>,
    b: Seq<usize>,
    names: Seq<Seq<char>>,
    ranks: Seq<u64>,
    query: Seq<char>,
    limit: nat,
    k: int,
)
    requires
        is_listing(a, names, ranks, query, limit),
        is_listing(b, names, ranks, query, limit),
        0 <= k <= a.len(),
    ensures
        k <= b.len(),
        a.take(k) == b.take(k),
    decreases k,
{
    if k > 0 {
        let last = k - 1;
        listing_prefix(a, b, names, ranks, query, limit, last);
        let x = a[last];
        assert(is_match(names, query, x as int));
        assert forall|r: int| 0 <= r < last implies a[r] == b[r] by {
            assert(a.take(last)[r] == b.take(last)[r]);
        }
        // App `x` stands in `b`, and not among the rows that are already equal.
        assert(last < b.len()) by {
            if b.len() == last {
                if b.contains(x) {
                    let r = choose|r: int| 0 <= r < b.len() && b[r] == x;
                    is_before_asymmetric(names, ranks, a[r] as int, a[last] as int);
                }
            }
        }
        let y = b[last];
        if x != y {
            is_before_total(names, ranks, x as int, y as int);
            listing_no_gap(a, b, names, ranks, query, limit, last);
            listing_no_gap(b, a, names, ranks, query, limit, last);
            is_before_asymmetric(names, ranks, x as int, y as int);
        }
        assert(a.take(k) =~= a.take(last).push(x));
        assert(b.take(k) =~= b.take(last).push(y));
    } else {
        assert(a.take(0) =~= b.take(0));
    }
}

/// Where two lists agree up to row `k`, row `k` of the one does not come behind
/// that of the other.
proof fn listing_no_gap(
    a: Seq<usize>,
    b: Seq<usize>,
    names: Seq<Seq<char>>,
    ranks: Seq<u64>,
    query: Seq<char>,
    limit: nat,
    k: int,
)
    requires
        is_listing(a, names, ranks, query, limit),
        is_listing(b, names, ranks, query, limit),
        0 <= k < a.len(),
        k < b.len(),
        forall|r: int| 0 <= r < k ==> a[r] == b[r],
        a[k] != b[k],
    ensures
        is_before(names, ranks, a[k] as int, b[k] as int),
{
    let x = a[k];
    let y = b[k];
    assert(is_match(names, query, y as int));
    if a.contains(y) {
        let r = choose|r: int| 0 <= r < a.len() && a[r] == y;
        if r < k {
            assert(b[r] == y);
            is_before_asymmetric(names, ranks, b[r] as int, b[k] as int);
        }
    }
}

/// `rank` gives one rank to each use.
pub open spec fn is_determined<F: Fn(u32, u64) -> u64>(rank: F) -> bool {
    forall|count: u32, unused: u64, x: u64, y: u64| #[trigger]
        call_ensures(rank, (count, unused), x) && #[trigger] call_ensures(rank, (count, unused), y)
            ==> x == y
}

/// The same apps, uses and time list the same for the same query.
pub proof fn filter_is_determined<F: Fn(u32, u64) -> u64>(
    before: SearchState,
    other: SearchState,
    first: SearchState,
    second: SearchState,
    query: Seq<char>,
    now: i64,
    rank: F,
)
    requires
        is_determined(rank),
        before.apps == other.apps,
        before.uses == other.uses,
        is_filtered(before, first, query, now, rank),
        is_filtered(other, second, query, now, rank),
    ensures
        first.listed == second.listed,
        first.selected == second.selected,
{
    let names = lower_names(before.apps);
    let x = choose|ranks: Seq<u64>|
        {
            &&& #[trigger] are_ranks(rank, before.uses, now, before.apps, ranks)
            &&& is_listing(first.listed, names, ranks, query, MAX_RESULTS as nat)
        };
    let y = choose|ranks: Seq<u64>|
        {
            &&& #[trigger] are_ranks(rank, before.uses, now, before.apps, ranks)
            &&& is_listing(second.listed, names, ranks, query, MAX_RESULTS as nat)
        };
    assert forall|i: int| 0 <= i < x.len() implies x[i] == y[i] by {
        let path = before.apps[i].path@;
        assert(is_rank(rank, before.uses, now, path, x[i]));
        assert(is_rank(rank, before.uses, now, path, y[i]));
    }
    assert(x =~= y);
    listing_is_unique(first.listed, second.listed, names, x, query, MAX_RESULTS as nat);
}

/// Two queries that are the same but for upper and lower case list the same.
pub proof fn filter_ignores_case<F: Fn(u32, u64) -> u64>(
    before: SearchState,
    first: SearchState,
    second: SearchState,
    first_query: Seq<char>,
    second_query: Seq<char>,
    now: i64,
    rank: F,
)
    requires
        is_determined(rank),
        is_filtered(before, first, lowercase(first_query), now, rank),
        is_filtered(before, second, lowercase(second_query), now, rank),
        lowercase(first_query) == lowercase(second_query),
    ensures
        first == second,
{
    filter_is_determined(before, before, first, second, lowercase(first_query), now, rank);
}

/// A query in ASCII, the same query in capitals and the same query in small
/// letters list the same. That their lower case forms are those of ASCII is what
/// filtering by each of them ensures.
pub proof fn filter_ignores_ascii_case<F: Fn(u32, u64) -> u64>(
    before: SearchState,
    plain: SearchState,
    capitals: SearchState,
    small: SearchState,
    query: Seq<char>,
    now: i64,
    rank: F,
)
    requires
        is_determined(rank),
        is_ascii_text(query),
        is_filtered(before, plain, lowercase(query), now, rank),
        is_filtered(before, capitals, lowercase(ascii_uppercase(query)), now, rank),
        is_filtered(before, small, lowercase(ascii_lowercase(query)), now, rank),
        lowers_as_ascii(query),
        lowers_as_ascii(ascii_uppercase(query)),
        lowers_as_ascii(ascii_lowercase(query)),
    ensures
        plain == capitals,
        plain == small,
{
    ascii_case_falls_together(query);
    filter_ignores_case(before, plain, capitals, query, ascii_uppercase(query), now, rank);
    filter_ignores_case(before, plain, small, query, ascii_lowercase(query), now, rank);
}

/// A text in ASCII, its capitals and its small letters have one lower case form.
proof fn ascii_case_falls_together(text: Seq<char>)
    requires
        is_ascii_text(text),
    ensures
        is_ascii_text(ascii_uppercase(text)),
        is_ascii_text(ascii_lowercase(text)),
        ascii_lowercase(ascii_uppercase(text)) == ascii_lowercase(text),
        ascii_lowercase(ascii_lowercase(text)) == ascii_lowercase(text),
{
    assert forall|i: int| 0 <= i < text.len() implies (#[trigger] ascii_uppercase(text)[i] as int)
        < 0x80 by {
        assert((text[i] as int) < 0x80);
    }
    assert forall|i: int| 0 <= i < text.len() implies (#[trigger] ascii_lowercase(text)[i] as int)
        < 0x80 by {
        assert((text[i] as int) < 0x80);
    }
    assert(ascii_lowercase(ascii_uppercase(text)) =~= ascii_lowercase(text));
    assert(ascii_lowercase(ascii_lowercase(text)) =~= ascii_lowercase(text));
}

/// Filtering by the same query again changes nothing but the selection, which
/// goes back to the first row.
pub proof fn filtering_again_keeps_the_list<F: Fn(u32, u64) -> u64>(
    before: SearchState,
    shown: SearchState,
    again: SearchState,
    query: Seq<char>,
    now: i64,
    rank: F,
)
    requires
        is_determined(rank),
        is_filtered(before, SearchState { selected: 0, ..shown }, query, now, rank),
        is_filtered(shown, again, query, now, rank),
    ensures
        again == (SearchState { selected: 0, ..shown }),
{
    filter_is_determined(
        before,
        shown,
        SearchState { selected: 0, ..shown },
        again,
        query,
        now,
        rank,
    );
}

/// How many apps match a query.
pub open spec fn match_count(names: Seq<Seq<char>>, query: Seq<char>) -> nat {
    matches_of(names, query).len()
}

/// The apps that match a query.
pub open spec fn matches_of(names: Seq<Seq<char>>, query: Seq<char>) -> Set<int> {
    vstd::set_lib::set_int_range(0, names.len() as int).filter(
        |i: int| is_match(names, query, i),
    )
}

/// The popup lists as many apps as match the query, up to as many as it shows.
pub proof fn all_matches_are_listed<F: Fn(u32, u64) -> u64>(
    before: SearchState,
    after: SearchState,
    query: Seq<char>,
    now: i64,
    rank: F,
)
    requires
        before.apps.len() <= usize::MAX,
        is_filtered(before, after, query, now, rank),
    ensures
        ({
            let found = match_count(lower_names(before.apps), query);
            after.listed.len() == (if found < MAX_RESULTS {
                found
            } else {
                MAX_RESULTS as nat
            })
        }),
{
    let names = lower_names(before.apps);
    let ranks = choose|ranks: Seq<u64>|
        {
            &&& #[trigger] are_ranks(rank, before.uses, now, before.apps, ranks)
            &&& is_listing(after.listed, names, ranks, query, MAX_RESULTS as nat)
        };
    listing_length(after.listed, names, ranks, query, MAX_RESULTS as nat);
}

/// A query that has another in it lists no more rows than that.
pub proof fn longer_query_lists_no_more<F: Fn(u32, u64) -> u64>(
    before: SearchState,
    shorter: SearchState,
    longer: SearchState,
    part: Seq<char>,
    query: Seq<char>,
    now: i64,
    rank: F,
)
    requires
        before.apps.len() <= usize::MAX,
        is_substring(part, query),
        is_filtered(before, shorter, part, now, rank),
        is_filtered(before, longer, query, now, rank),
    ensures
        longer.listed.len() <= shorter.listed.len(),
{
    let names = lower_names(before.apps);
    all_matches_are_listed(before, shorter, part, now, rank);
    all_matches_are_listed(before, longer, query, now, rank);
    vstd::set_lib::lemma_int_range(0, names.len() as int);
    let found = matches_of(names, part);
    let fewer = matches_of(names, query);
    assert(fewer.subset_of(found)) by {
        assert forall|i: int| fewer.contains(i) implies found.contains(i) by {
            longer_query_matches_less(names, query, part, i);
        }
    }
    vstd::set_lib::lemma_len_subset(fewer, found);
}

/// A list has as many rows as there are matches, up to its limit.
proof fn listing_length(
    list: Seq<usize>,
    names: Seq<Seq<char>>,
    ranks: Seq<u64>,
    query: Seq<char>,
    limit: nat,
)
    requires
        names.len() <= usize::MAX,
        is_listing(list, names, ranks, query, limit),
    ensures
        list.len() == (if match_count(names, query) < limit {
            match_count(names, query)
        } else {
            limit
        }),
{
    let found = matches_of(names, query);
    vstd::set_lib::lemma_int_range(0, names.len() as int);
    listing_rows_differ(list, names, ranks, query, limit);
    let numbers = list.map_values(|i: usize| i as int);
    assert(numbers.no_duplicates());
    numbers.unique_seq_to_set();
    assert(numbers.to_set().subset_of(found)) by {
        assert forall|i: int| numbers.to_set().contains(i) implies found.contains(i) by {
            let r = choose|r: int| 0 <= r < numbers.len() && numbers[r] == i;
            assert(is_match(names, query, list[r] as int));
        }
    }
    vstd::set_lib::lemma_len_subset(numbers.to_set(), found);
    if list.len() < limit {
        assert(found.subset_of(numbers.to_set())) by {
            assert forall|i: int| found.contains(i) implies numbers.to_set().contains(i) by {
                assert(is_match(names, query, i as usize as int));
                assert(list.contains(i as usize));
                let r = choose|r: int| 0 <= r < list.len() && list[r] == i as usize;
                assert(numbers[r] == i);
            }
        }
        vstd::set_lib::lemma_len_subset(found, numbers.to_set());
    }
}

/// No app is listed twice.
proof fn listing_rows_differ(
    list: Seq<usize>,
    names: Seq<Seq<char>>,
    ranks: Seq<u64>,
    query: Seq<char>,
    limit: nat,
)
    requires
        is_listing(list, names, ranks, query, limit),
    ensures
        forall|r: int, s: int| 0 <= r < s < list.len() ==> list[r] != list[s],
{
    assert forall|r: int, s: int| 0 <= r < s < list.len() implies list[r] != list[s] by {
        if list[r] == list[s] {
            is_before_asymmetric(names, ranks, list[r] as int, list[s] as int);
        }
    }
}

/// With nothing written every app matches, so that the popup opens with all of
/// them, or with as many as it shows.
pub proof fn empty_query_lists_all<F: Fn(u32, u64) -> u64>(
    before: SearchState,
    after: SearchState,
    now: i64,
    rank: F,
)
    requires
        before.apps.len() <= usize::MAX,
        is_filtered(before, after, Seq::empty(), now, rank),
    ensures
        before.apps.len() <= MAX_RESULTS ==> after.listed.len() == before.apps.len(),
        before.apps.len() > MAX_RESULTS ==> after.listed.len() == MAX_RESULTS,
        before.apps.len() <= MAX_RESULTS ==> forall|i: usize|
            i < before.apps.len() ==> #[trigger] after.listed.contains(i),
{
    let names = lower_names(before.apps);
    let list = after.listed;
    let query = Seq::<char>::empty();
    let limit = MAX_RESULTS as nat;
    let ranks = choose|ranks: Seq<u64>|
        {
            &&& #[trigger] are_ranks(rank, before.uses, now, before.apps, ranks)
            &&& is_listing(list, names, ranks, query, limit)
        };
    assert forall|i: usize| i < names.len() implies #[trigger] is_match(names, query, i as int) by {
        assert(names[i as int].subrange(0, 0) =~= query);
        assert(occurs_at(query, names[i as int], 0));
    }
    listing_length(list, names, ranks, query, limit);
    let all = vstd::set_lib::set_int_range(0, names.len() as int);
    vstd::set_lib::lemma_int_range(0, names.len() as int);
    assert(matches_of(names, query) =~= all) by {
        assert forall|i: int| all.contains(i) implies matches_of(names, query).contains(i) by {
            assert(is_match(names, query, i as usize as int));
        }
    }
    if names.len() <= limit {
        listing_rows_differ(list, names, ranks, query, limit);
        let numbers = list.map_values(|i: usize| i as int);
        assert(numbers.no_duplicates());
        numbers.unique_seq_to_set();
        assert(numbers.to_set().subset_of(all)) by {
            assert forall|i: int| numbers.to_set().contains(i) implies all.contains(i) by {
                let r = choose|r: int| 0 <= r < numbers.len() && numbers[r] == i;
                assert(is_match(names, query, list[r] as int));
            }
        }
        vstd::set_lib::lemma_subset_equality(numbers.to_set(), all);
        assert forall|i: usize| i < names.len() implies #[trigger] list.contains(i) by {
            assert(all.contains(i as int));
            assert(numbers.to_set().contains(i as int));
            let r = choose|r: int| 0 <= r < numbers.len() && numbers[r] == i as int;
            assert(list[r] == i);
        }
    }
}

/// Writing on only narrows the choice: an app that matches a query matches
/// every part of it.
pub proof fn longer_query_matches_less(
    names: Seq<Seq<char>>,
    query: Seq<char>,
    part: Seq<char>,
    i: int,
)
    requires
        is_substring(part, query),
        is_match(names, query, i),
    ensures
        is_match(names, part, i),
{
    let name = names[i];
    let j = choose|at: int| occurs_at(part, query, at);
    let k = choose|at: int| occurs_at(query, name, at);
    assert(name.subrange(k + j, k + j + part.len()) =~= part) by {
        assert forall|n: int| 0 <= n < part.len() implies name[k + j + n] == part[n] by {
            assert(query.subrange(j, j + part.len())[n] == part[n]);
            assert(name.subrange(k, k + query.len())[j + n] == query[j + n]);
        }
    }
    assert(occurs_at(part, name, k + j));
}

/// Rows further up have the higher rank, or the same rank and a name that does
/// not come later in dictionary order.
pub proof fn rows_are_ordered(
    list: Seq<usize>,
    names: Seq<Seq<char>>,
    ranks: Seq<u64>,
    query: Seq<char>,
    limit: nat,
    r: int,
    s: int,
)
    requires
        is_listing(list, names, ranks, query, limit),
        0 <= r < s < list.len(),
    ensures
        ranks[list[r] as int] >= ranks[list[s] as int],
        ranks[list[r] as int] == ranks[list[s] as int] ==> names[list[r] as int]
            == names[list[s] as int] || text_precedes(
            names[list[r] as int],
            names[list[s] as int],
        ),
        list[r] != list[s],
{
    assert(is_before(names, ranks, list[r] as int, list[s] as int));
    is_before_asymmetric(names, ranks, list[r] as int, list[s] as int);
}

/// `rank` gives no lower rank to an app that was launched at least as often and
/// opened at least as recently.
pub open spec fn favours_use<F: Fn(u32, u64) -> u64>(rank: F) -> bool {
    forall|more: u32, fewer: u32, sooner: u64, longer: u64, x: u64, y: u64|
        more >= fewer && sooner <= longer && #[trigger] call_ensures(rank, (more, sooner), x)
            && #[trigger] call_ensures(rank, (fewer, longer), y) ==> x >= y
}

/// App `i` was launched at least as often as app `j` and opened at least as
/// recently; an app that was never launched is behind every other.
pub open spec fn is_used_no_less(state: SearchState, now: i64, i: int, j: int) -> bool {
    let first = state.apps[i].path@;
    let second = state.apps[j].path@;
    state.uses.contains_key(second) ==> {
        &&& state.uses.contains_key(first)
        &&& state.uses[first].count >= state.uses[second].count
        &&& state.uses[first].spec_unused_seconds(now) <= state.uses[second].spec_unused_seconds(
            now,
        )
    }
}

/// Use decides before the name does: an app can stand above one that is used no
/// less only where their names are in that order.
pub proof fn use_decides_before_the_name<F: Fn(u32, u64) -> u64>(
    before: SearchState,
    after: SearchState,
    query: Seq<char>,
    now: i64,
    rank: F,
    upper: int,
    lower: int,
)
    requires
        is_filtered(before, after, query, now, rank),
        favours_use(rank),
        0 <= upper < lower < after.listed.len(),
        is_used_no_less(before, now, after.listed[lower] as int, after.listed[upper] as int),
    ensures
        ({
            let names = lower_names(before.apps);
            let above = names[after.listed[upper] as int];
            let below = names[after.listed[lower] as int];
            above == below || text_precedes(above, below)
        }),
{
    let names = lower_names(before.apps);
    let ranks = choose|ranks: Seq<u64>|
        {
            &&& #[trigger] are_ranks(rank, before.uses, now, before.apps, ranks)
            &&& is_listing(after.listed, names, ranks, query, MAX_RESULTS as nat)
        };
    let above = after.listed[upper] as int;
    let below = after.listed[lower] as int;
    assert(is_match(names, query, above));
    assert(is_match(names, query, below));
    assert(is_rank(rank, before.uses, now, before.apps[above].path@, ranks[above]));
    assert(is_rank(rank, before.uses, now, before.apps[below].path@, ranks[below]));
    rows_are_ordered(
        after.listed,
        names,
        ranks,
        query,
        MAX_RESULTS as nat,
        upper,
        lower,
    );
}

// The selection.

/// The arrow keys undo each other, except at the ends of the list, where they
/// change nothing.
pub proof fn arrows_undo_each_other(state: SearchState)
    requires
        state.valid(),
    ensures
        state.moved_down().valid(),
        state.moved_up().valid(),
        state.selected + 1 < state.listed.len() ==> state.moved_down().moved_up() == state,
        state.selected + 1 >= state.listed.len() ==> state.moved_down() == state,
        state.selected > 0 ==> state.moved_up().moved_down() == state,
        state.selected == 0 ==> state.moved_up() == state,
{
}

/// Only a launch changes the recorded uses: no message to the text field or to
/// the popup does, and none of them changes the apps or the list. So Escape and
/// the loss of the focus close the popup with nothing launched.
pub proof fn messages_launch_nothing(
    state: SearchState,
    message: u32,
    wparam: usize,
    lparam: isize,
)
    ensures
        ({
            let after = after_edit_message(state, message, wparam);
            &&& after == (SearchState { selected: after.selected, ..state })
        }),
        ({
            let after = after_popup_message(state, message, lparam);
            &&& after == (SearchState { selected: after.selected, ..state })
        }),
        edit_action(message, wparam) is Close ==> after_edit_message(state, message, wparam)
            == state,
        popup_action(state, message, wparam, lparam) is Close ==> after_popup_message(
            state,
            message,
            lparam,
        ) == state,
        state.closed().uses == state.uses,
{
}

/// A click on a row does what moving to the row and pressing Enter does: it
/// launches the app of that row.
pub proof fn click_is_select_and_enter(
    state: SearchState,
    row: int,
    wparam: usize,
    lparam: isize,
)
    requires
        state.valid(),
        state.row_hit(signed16(lparam as int / 0x1_0000)) == Some(row),
    ensures
        popup_action(state, WM_LBUTTONDOWN, wparam, lparam) is Launch,
        edit_action(WM_KEYDOWN, VK_RETURN as usize) is Launch,
        after_popup_message(state, WM_LBUTTONDOWN, lparam) == (SearchState {
            selected: row,
            ..state
        }),
        after_popup_message(state, WM_LBUTTONDOWN, lparam).valid(),
        after_edit_message(
            SearchState { selected: row, ..state },
            WM_KEYDOWN,
            VK_RETURN as usize,
        ) == (SearchState { selected: row, ..state }),
{
    assert(VK_RETURN as usize as int % 0x1_0000 == VK_RETURN);
}

/// A click hits a row exactly where the row is drawn.
pub proof fn click_hits_the_drawn_row(state: SearchState, row: int, y: int, width: i32)
    requires
        state.valid(),
        0 <= row < state.listed.len(),
    ensures
        state.row_hit(y) == Some(row) <==> row_area(row, width).top <= y < row_area(
            row,
            width,
        ).bottom,
{
}

/// The hotkey opens a closed popup and closes an open one.
pub proof fn hotkey_alternates(state: SearchState, popup: isize)
    requires
        popup != 0,
    ensures
        toggle_of(state.closed()) == Toggle::Open,
        toggle_of(SearchState { popup, ..state }) == Toggle::Close(popup),
        toggle_of(SearchState { popup, ..state }.closed()) == Toggle::Open,
{
}

// The recorded uses.

/// A launch adds one to the uses of the app and sets the time of its last use,
/// and the app stays in the history. The list, the selection and the popup stay
/// as they are.
pub proof fn launch_is_recorded(state: SearchState, now: i64)
    requires
        state.target() is Some,
        !state.count_exhausted(),
    ensures
        ({
            let path = state.target()->0;
            let after = state.after_launch(now);
            &&& after.uses.contains_key(path)
            &&& after.uses[path].count == use_count(state.uses, path) + 1
            &&& after.uses[path].last_used == now
            &&& after == (SearchState { uses: after.uses, ..state })
            &&& after.target() == state.target()
        }),
{
}

/// A launch never moves the app down: with the same query at the same time it
/// then stands in its row or further up.
pub proof fn launch_never_lowers<F: Fn(u32, u64) -> u64>(
    before: SearchState,
    shown: SearchState,
    again: SearchState,
    query: Seq<char>,
    now: i64,
    rank: F,
)
    requires
        favours_use(rank),
        before.apps.len() <= usize::MAX,
        shown.valid(),
        shown.selected < shown.listed.len(),
        !shown.count_exhausted(),
        is_filtered(before, SearchState { selected: 0, ..shown }, query, now, rank),
        is_filtered(shown.after_launch(now), again, query, now, rank),
    ensures
        exists|row: int|
            0 <= row <= shown.selected && row < again.listed.len() && #[trigger] again.listed[row]
                == shown.listed[shown.selected],
{
    let names = lower_names(shown.apps);
    let limit = MAX_RESULTS as nat;
    let old_ranks = choose|ranks: Seq<u64>|
        {
            &&& #[trigger] are_ranks(rank, before.uses, now, before.apps, ranks)
            &&& is_listing(shown.listed, names, ranks, query, limit)
        };
    let launched = shown.after_launch(now);
    let new_ranks = choose|ranks: Seq<u64>|
        {
            &&& #[trigger] are_ranks(rank, launched.uses, now, launched.apps, ranks)
            &&& is_listing(again.listed, names, ranks, query, limit)
        };
    let k = shown.selected;
    let app = shown.listed[k];
    let list = again.listed;
    assert(is_match(names, query, app as int));
    let row = if list.contains(app) {
        choose|r: int| 0 <= r < list.len() && list[r] == app
    } else {
        list.len() as int
    };
    // What now stands above the app stood above it before.
    assert forall|r: int| 0 <= r < row implies exists|q: int|
        0 <= q < k && #[trigger] shown.listed[q] == #[trigger] list[r] by {
        let other = list[r];
        assert(is_match(names, query, other as int));
        assert(is_before(names, new_ranks, other as int, app as int));
        if other == app {
            is_before_asymmetric(names, new_ranks, other as int, app as int);
        }
        launch_keeps_rows_below(shown, now, rank, old_ranks, new_ranks, other as int);
        is_before_asymmetric(names, new_ranks, other as int, app as int);
        is_before_total(names, old_ranks, other as int, app as int);
        is_before_asymmetric(names, old_ranks, other as int, app as int);
        assert(shown.listed.contains(other));
        let q = choose|q: int| 0 <= q < shown.listed.len() && shown.listed[q] == other;
        if q > k {
            assert(is_before(
                names,
                old_ranks,
                shown.listed[k] as int,
                shown.listed[q] as int,
            ));
        }
        assert(shown.listed[q] == list[r]);
    }
    listing_rows_differ(list, names, new_ranks, query, limit);
    listing_rows_differ(shown.listed, names, old_ranks, query, limit);
    let above = list.take(row);
    let above_before = shown.listed.take(k);
    above.unique_seq_to_set();
    above_before.unique_seq_to_set();
    assert(above.to_set().subset_of(above_before.to_set())) by {
        assert forall|i: usize| above.to_set().contains(i) implies above_before.to_set().contains(
            i,
        ) by {
            let r = choose|r: int| 0 <= r < above.len() && above[r] == i;
            assert(list[r] == i);
            let q = choose|q: int| 0 <= q < k && #[trigger] shown.listed[q] == list[r];
            assert(above_before[q] == i);
        }
    }
    vstd::set_lib::lemma_len_subset(above.to_set(), above_before.to_set());
    assert(row <= k);
    assert(list[row] == app);
}

/// An app that stood below the one that is launched stays below it.
proof fn launch_keeps_rows_below<F: Fn(u32, u64) -> u64>(
    state: SearchState,
    now: i64,
    rank: F,
    old_ranks: Seq<u64>,
    new_ranks: Seq<u64>,
    other: int,
)
    requires
        favours_use(rank),
        state.target() is Some,
        !state.count_exhausted(),
        0 <= state.selected < state.listed.len(),
        are_ranks(rank, state.uses, now, state.apps, old_ranks),
        are_ranks(rank, state.after_launch(now).uses, now, state.apps, new_ranks),
        0 <= other < state.apps.len(),
    ensures
        ({
            let names = lower_names(state.apps);
            let app = state.listed[state.selected] as int;
            is_before(names, old_ranks, app, other) ==> is_before(names, new_ranks, app, other)
        }),
{
    let app = state.listed[state.selected] as int;
    let path = state.apps[app].path@;
    let uses = state.after_launch(now).uses;
    assert(is_rank(rank, state.uses, now, path, old_ranks[app]));
    assert(is_rank(rank, uses, now, path, new_ranks[app]));
    assert(is_rank(rank, state.uses, now, state.apps[other].path@, old_ranks[other]));
    assert(is_rank(rank, uses, now, state.apps[other].path@, new_ranks[other]));
    assert(uses.contains_key(path));
    assert(uses[path].count == use_count(state.uses, path) + 1);
    assert(uses[path].spec_unused_seconds(now) == 0);
    assert(new_ranks[app] >= old_ranks[app]);
    if state.apps[other].path@ == path {
        assert(old_ranks[other] == old_ranks[app]);
        assert(new_ranks[other] == new_ranks[app]);
    } else {
        assert(new_ranks[other] <= old_ranks[other]);
    }
}

/// `rank` gives an app that was just launched a higher rank than one that was
/// launched less often, and a higher one than an app that never was.
pub open spec fn prefers_the_most_launched<F: Fn(u32, u64) -> u64>(rank: F) -> bool {
    &&& forall|more: u32, fewer: u32, unused: u64, x: u64, y: u64|
        more > fewer && #[trigger] call_ensures(rank, (more, 0u64), x) && #[trigger] call_ensures(
            rank,
            (fewer, unused),
            y,
        ) ==> x > y
    &&& forall|count: u32, x: u64|
        count > 0 && #[trigger] call_ensures(rank, (count, 0u64), x) ==> x > 0
}

/// An app that with this launch was launched more often than any other of the
/// apps comes first right after it, so that the next Enter launches it again.
/// Two apps with one path share their uses: if there is another with its path,
/// one of them comes first.
pub proof fn most_launched_comes_first<F: Fn(u32, u64) -> u64>(
    before: SearchState,
    shown: SearchState,
    again: SearchState,
    query: Seq<char>,
    now: i64,
    rank: F,
)
    requires
        prefers_the_most_launched(rank),
        shown.valid(),
        shown.selected < shown.listed.len(),
        !shown.count_exhausted(),
        is_filtered(before, SearchState { selected: 0, ..shown }, query, now, rank),
        is_filtered(shown.after_launch(now), again, query, now, rank),
        forall|i: int|
            0 <= i < shown.apps.len() && Some((#[trigger] shown.apps[i]).path@) != shown.target()
                ==> use_count(shown.after_launch(now).uses, shown.apps[i].path@) < use_count(
                shown.uses,
                shown.target()->0,
            ) + 1,
    ensures
        again.target() is Some,
        again.target() == shown.target(),
        ({
            let app = shown.listed[shown.selected];
            (forall|i: int|
                0 <= i < shown.apps.len() && i != app ==> (#[trigger] shown.apps[i]).path@
                    != shown.apps[app as int].path@) ==> again.listed[0] == app
        }),
{
    let names = lower_names(shown.apps);
    let limit = MAX_RESULTS as nat;
    let old_ranks = choose|ranks: Seq<u64>|
        {
            &&& #[trigger] are_ranks(rank, before.uses, now, before.apps, ranks)
            &&& is_listing(shown.listed, names, ranks, query, limit)
        };
    let app = shown.listed[shown.selected];
    assert(is_match(names, query, app as int));
    let path = shown.apps[app as int].path@;
    let launched = shown.after_launch(now);
    let ranks = choose|ranks: Seq<u64>|
        {
            &&& #[trigger] are_ranks(rank, launched.uses, now, launched.apps, ranks)
            &&& is_listing(again.listed, names, ranks, query, limit)
        };
    let list = again.listed;
    assert(list.len() > 0);
    let first = list[0] as int;
    assert(is_match(names, query, first));
    let other = shown.apps[first].path@;
    assert(is_rank(rank, launched.uses, now, path, ranks[app as int]));
    assert(is_rank(rank, launched.uses, now, other, ranks[first]));
    assert(launched.uses[path].spec_unused_seconds(now) == 0);
    if other != path {
        assert(use_count(launched.uses, other) < use_count(shown.uses, path) + 1);
        assert(ranks[app as int] > ranks[first]);
        if list.contains(app) {
            let r = choose|r: int| 0 <= r < list.len() && list[r] == app;
            assert(is_before(names, ranks, list[0] as int, list[r] as int));
        }
    }
}

/// A launch leaves the uses of the other apps as they are, but drops those
/// that were not opened for too long.
pub proof fn launch_keeps_other_uses(state: SearchState, now: i64, other: Seq<char>)
    requires
        state.target() is Some,
        state.target() != Some(other),
    ensures
        ({
            let after = state.after_launch(now);
            &&& after.uses.contains_key(other) <==> state.uses.contains_key(other)
                && !state.uses[other].spec_is_stale(now)
            &&& after.uses.contains_key(other) ==> after.uses[other] == state.uses[other]
        }),
{
}

/// After a launch no app is in the history that was not opened for too long,
/// so that the history does not grow without limit.
pub proof fn launch_leaves_no_stale_use(state: SearchState, now: i64, path: Seq<char>)
    requires
        state.target() is Some,
        state.after_launch(now).uses.contains_key(path),
    ensures
        !state.after_launch(now).uses[path].spec_is_stale(now),
{
}

/// Dropping stale uses twice is dropping them once, and a later time drops at
/// least as much.
pub proof fn pruning_is_stable(uses: Map<Seq<char>, UsageEntry>, now: i64, later: i64)
    requires
        now <= later,
    ensures
        without_stale(without_stale(uses, now), now) == without_stale(uses, now),
        without_stale(without_stale(uses, now), later) == without_stale(uses, later),
{
    assert(without_stale(without_stale(uses, now), now) =~= without_stale(uses, now));
    assert(without_stale(without_stale(uses, now), later) =~= without_stale(uses, later));
}

/// Each of the entries stands among the others too.
pub open spec fn entries_are_among(
    entries: Seq<(String, UsageEntry)>,
    others: Seq<(String, UsageEntry)>,
) -> bool {
    forall|i: int|
        0 <= i < entries.len() ==> exists|j: int|
            0 <= j < others.len() && (#[trigger] entries[i]).0@ == (#[trigger] others[j]).0@
                && entries[i].1 == others[j].1
}

/// A history that is written out entry by entry and read back is the same, in
/// whatever order the entries come back.
pub proof fn entries_round_trip(
    written: Seq<(String, UsageEntry)>,
    read: Seq<(String, UsageEntry)>,
)
    requires
        paths_distinct(written),
        paths_distinct(read),
        entries_are_among(written, read),
        entries_are_among(read, written),
    ensures
        later_wins(read) == entry_map(written),
{
    distinct_entries_all_count(read);
    assert forall|path: Seq<char>| #[trigger]
        entry_map(written).contains_key(path) == entry_map(read).contains_key(path) by {
        if entry_map(written).contains_key(path) {
            let i = choose|i: int| is_entry_of(written, path, i);
            let j = choose|j: int|
                0 <= j < read.len() && written[i].0@ == (#[trigger] read[j]).0@ && written[i].1
                    == read[j].1;
            entry_in_map(read, j);
        }
        if entry_map(read).contains_key(path) {
            let j = choose|j: int| is_entry_of(read, path, j);
            let i = choose|i: int|
                0 <= i < written.len() && read[j].0@ == (#[trigger] written[i]).0@ && read[j].1
                    == written[i].1;
            entry_in_map(written, i);
        }
    }
    assert forall|path: Seq<char>| #[trigger]
        entry_map(written).contains_key(path) implies entry_map(written)[path] == entry_map(
        read,
    )[path] by {
        let i = choose|i: int| is_entry_of(written, path, i);
        let j = choose|j: int|
            0 <= j < read.len() && written[i].0@ == (#[trigger] read[j]).0@ && written[i].1
                == read[j].1;
        entry_in_map(written, i);
        entry_in_map(read, j);
    }
    assert(entry_map(written) =~= entry_map(read));
}

/// Where no path stands in two entries, every entry counts.
proof fn distinct_entries_all_count(entries: Seq<(String, UsageEntry)>)
    requires
        paths_distinct(entries),
    ensures
        later_wins(entries) == entry_map(entries),
    decreases entries.len(),
{
    if entries.len() == 0 {
        assert(entry_map(entries) =~= Map::<Seq<char>, UsageEntry>::empty());
    } else {
        let rest = entries.drop_last();
        let last = entries.len() - 1;
        assert forall|i: int, j: int| 0 <= i < j < rest.len() implies (#[trigger] rest[i]).0@ != (
        #[trigger] rest[j]).0@ by {
            assert(entries[i].0@ != entries[j].0@);
        }
        distinct_entries_all_count(rest);
        assert forall|path: Seq<char>| #[trigger]
            entry_map(entries).contains_key(path) == later_wins(entries).contains_key(path) by {
            if entry_map(entries).contains_key(path) {
                let i = choose|i: int| is_entry_of(entries, path, i);
                if i < last {
                    assert(is_entry_of(rest, path, i));
                }
            }
            if entry_map(rest).contains_key(path) {
                let i = choose|i: int| is_entry_of(rest, path, i);
                assert(is_entry_of(entries, path, i));
            }
            assert(is_entry_of(entries, entries[last].0@, last));
        }
        assert forall|path: Seq<char>| #[trigger]
            entry_map(entries).contains_key(path) implies entry_map(entries)[path] == later_wins(
            entries,
        )[path] by {
            let i = choose|i: int| is_entry_of(entries, path, i);
            if i < last {
                assert(entries[i].0@ != entries[last].0@);
                assert(is_entry_of(rest, path, i));
                let j = choose|j: int| is_entry_of(rest, path, j);
                if i < j {
                    assert(rest[i].0@ != rest[j].0@);
                } else if j < i {
                    assert(rest[j].0@ != rest[i].0@);
                }
            }
        }
        assert(entry_map(entries) =~= later_wins(entries));
    }
}

// The layout of the bar.

/// The clock is in the middle of the bar: as far from its one end as from the
/// other, to within the pixel that an odd width cannot split.
pub proof fn clock_is_centered(width: i32, height: i32)
    requires
        0 <= width,
    ensures
        ({
            let clock = clock_area(width, height);
            &&& clock.right - clock.left == CLOCK_WIDTH
            &&& clock.left <= width - clock.right <= clock.left + 1
        }),
{
}

/// The volume widget has its fixed width and its fixed distance from the right
/// end of the bar.
pub proof fn volume_is_at_the_right(width: i32, height: i32)
    requires
        width - VOLUME_RECT_WIDTH - VOLUME_MARGIN >= i32::MIN,
    ensures
        volume_area(width, height).right == width - VOLUME_MARGIN,
        volume_area(width, height).right - volume_area(width, height).left == VOLUME_RECT_WIDTH,
{
}

/// From left to right without overlap: the workspaces, the window title, the
/// clock and the volume. The title ends before the clock in any bar; the clock
/// ends before the volume in any bar that is wide enough for both.
pub proof fn widgets_do_not_overlap(width: i32, height: i32, i: int, j: int)
    requires
        width - VOLUME_RECT_WIDTH - VOLUME_MARGIN >= i32::MIN,
        0 <= i < j < WORKSPACE_COUNT,
    ensures
        workspace_area(i, height).right < workspace_area(j, height).left,
        workspace_area(j, height).right < title_area(width, height).left,
        title_area(width, height).right < clock_area(width, height).left,
        clock_area(width, height).right <= volume_area(width, height).left <==> width >= 379,
{
    assert((j - i) * 44 >= 44);
}

/// All rows that the list can have fit into the popup, one below the other and
/// below the text field.
pub proof fn rows_fit_into_the_popup(state: SearchState, row: int)
    requires
        state.valid(),
        0 <= row < state.listed.len(),
    ensures
        ({
            let area = row_area(row, POPUP_WIDTH);
            &&& 0 <= area.left < area.right <= POPUP_WIDTH
            &&& EDIT_HEIGHT <= area.top < area.bottom <= POPUP_HEIGHT
            &&& row_area(row + 1, POPUP_WIDTH).top == area.bottom
        }),
{
}

/// In the bar the accent marks the active workspace and nothing else; if the
/// active workspace is none of those shown, nothing is marked.
pub proof fn accent_marks_the_active_workspace(
    state: BarState,
    client: Rect,
    clock: Seq<char>,
)
    ensures
        ({
            let views = bar_views(state, client, clock);
            let height = (client.bottom - client.top) as i32;
            let mark = PaintView::Fill {
                area: workspace_area(state.active_workspace as int, height),
                color: ACCENT_COLOR,
            };
            &&& views.contains(mark) <==> state.active_workspace < WORKSPACE_COUNT
            &&& forall|i: int|
                0 <= i < views.len() && is_accent(#[trigger] views[i]) ==> views[i] == mark
        }),
{
    let height = (client.bottom - client.top) as i32;
    let width = (client.right - client.left) as i32;
    let active = state.active_workspace;
    let marks = workspaces_views(WORKSPACE_COUNT as int, active, height);
    workspace_accents(WORKSPACE_COUNT as int, active, height);
    let views = bar_views(state, client, clock);
    let mark = PaintView::Fill { area: workspace_area(active as int, height), color: ACCENT_COLOR };
    let title = title_views(state.title, width, height);
    assert forall|i: int| 0 <= i < views.len() && is_accent(#[trigger] views[i]) implies 1 <= i
        <= marks.len() && views[i] == marks[i - 1] by {
        if 1 <= i <= marks.len() {
        } else if marks.len() < i <= marks.len() + title.len() {
            assert(views[i] == title[i - 1 - marks.len()]);
        }
    }
    if active < WORKSPACE_COUNT {
        let i = choose|i: int| 0 <= i < marks.len() && marks[i] == mark;
        assert(views[i + 1] == mark);
    }
    if views.contains(mark) {
        let i = choose|i: int| 0 <= i < views.len() && views[i] == mark;
        assert(is_accent(views[i]));
        assert(marks[i - 1] == mark);
    }
}

/// A step that fills with the accent.
pub open spec fn is_accent(view: PaintView) -> bool {
    match view {
        PaintView::Fill { area, color } => color == ACCENT_COLOR,
        PaintView::Text { .. } => false,
    }
}

proof fn workspace_accents(count: int, active: usize, height: i32)
    ensures
        ({
            let views = workspaces_views(count, active, height);
            let mark = PaintView::Fill {
                area: workspace_area(active as int, height),
                color: ACCENT_COLOR,
            };
            &&& views.contains(mark) <==> active < count
            &&& forall|i: int|
                0 <= i < views.len() && is_accent(#[trigger] views[i]) ==> active < count
                    && views[i] == mark
        }),
    decreases count,
{
    if count > 0 {
        workspace_accents(count - 1, active, height);
        let front = workspaces_views(count - 1, active, height);
        let back = workspace_views(count - 1, active, height);
        let views = workspaces_views(count, active, height);
        let mark = PaintView::Fill {
            area: workspace_area(active as int, height),
            color: ACCENT_COLOR,
        };
        assert forall|i: int| 0 <= i < views.len() && is_accent(#[trigger] views[i]) implies active
            < count && views[i] == mark by {
            if i < front.len() {
                assert(views[i] == front[i]);
            } else {
                assert(views[i] == back[i - front.len()]);
            }
        }
        if active < count - 1 {
            let i = choose|i: int| 0 <= i < front.len() && front[i] == mark;
            assert(views[i] == mark);
        } else if active == count - 1 {
            assert(back[0] == mark);
            assert(views[front.len() as int] == mark);
        }
        if views.contains(mark) {
            let i = choose|i: int| 0 <= i < views.len() && views[i] == mark;
            assert(is_accent(views[i]));
        }
    }
}

/// In the popup the accent marks the selected row and nothing else.
pub proof fn accent_marks_the_selected_row(state: SearchState, client: Rect)
    requires
        state.valid(),
    ensures
        ({
            let views = popup_views(state, client);
            let width = (client.right - client.left) as i32;
            let mark = PaintView::Fill {
                area: row_area(state.selected, width),
                color: ACCENT_COLOR,
            };
            &&& views.contains(mark) <==> state.listed.len() > 0
            &&& forall|i: int|
                0 <= i < views.len() && is_accent(#[trigger] views[i]) ==> views[i] == mark
        }),
{
    let width = (client.right - client.left) as i32;
    let views = popup_views(state, client);
    let rows = list_views(state, state.listed.len() as int, width);
    let mark = PaintView::Fill { area: row_area(state.selected, width), color: ACCENT_COLOR };
    row_accents(state, state.listed.len() as int, width);
    assert forall|i: int| 0 <= i < views.len() && is_accent(#[trigger] views[i]) implies 1 <= i
        && views[i] == rows[i - 1] by {}
    if state.listed.len() > 0 {
        let i = choose|i: int| 0 <= i < rows.len() && rows[i] == mark;
        assert(views[i + 1] == mark);
    }
    if views.contains(mark) {
        let i = choose|i: int| 0 <= i < views.len() && views[i] == mark;
        assert(is_accent(views[i]));
        assert(rows[i - 1] == mark);
    }
}

proof fn row_accents(state: SearchState, count: int, width: i32)
    requires
        state.valid(),
    ensures
        ({
            let views = list_views(state, count, width);
            let mark = PaintView::Fill {
                area: row_area(state.selected, width),
                color: ACCENT_COLOR,
            };
            &&& views.contains(mark) <==> state.selected < count
            &&& forall|i: int|
                0 <= i < views.len() && is_accent(#[trigger] views[i]) ==> state.selected < count
                    && views[i] == mark
        }),
    decreases count,
{
    if count > 0 {
        row_accents(state, count - 1, width);
        let front = list_views(state, count - 1, width);
        let back = row_views(state, count - 1, width);
        let views = list_views(state, count, width);
        let mark = PaintView::Fill { area: row_area(state.selected, width), color: ACCENT_COLOR };
        assert forall|i: int| 0 <= i < views.len() && is_accent(
            #[trigger] views[i],
        ) implies state.selected < count && views[i] == mark by {
            if i < front.len() {
                assert(views[i] == front[i]);
            } else {
                assert(views[i] == back[i - front.len()]);
            }
        }
        if state.selected < count - 1 {
            let i = choose|i: int| 0 <= i < front.len() && front[i] == mark;
            assert(views[i] == mark);
        } else if state.selected == count - 1 {
            assert(back[0] == mark);
            assert(views[front.len() as int] == mark);
        }
        if views.contains(mark) {
            let i = choose|i: int| 0 <= i < views.len() && views[i] == mark;
            assert(is_accent(views[i]));
        }
    }
}

// The window manager, the windows in front and the sound device.

/// A notification that is repeated changes nothing and draws nothing.
pub proof fn repeated_notification_is_quiet(state: BarState, named: Option<u64>)
    ensures
        after_workspace(after_workspace(state, named), named) == after_workspace(state, named),
        !workspace_repaints(after_workspace(state, named), named),
        workspace_repaints(state, named) ==> after_workspace(state, named) != state,
{
}

/// The bar never gives up on komorebi: it listens to one connection after the
/// other, and whether the subscription is refused or komorebi closes the link,
/// it waits and subscribes again.
pub proof fn link_is_always_retried(event: LinkEvent)
    ensures
        next_link_step(LinkEvent::Started) == LinkStep::Subscribe,
        next_link_step(LinkEvent::Subscribed) == LinkStep::Listen,
        next_link_step(event) is Wait ==> next_link_step(event) == LinkStep::Wait(RETRY_SECONDS),
        next_link_step(event) is Wait <==> event is Refused || event is Closed,
        next_link_step(LinkEvent::Waited) == LinkStep::Subscribe,
        next_link_step(LinkEvent::ConnectionEnded) == LinkStep::Listen,
        next_link_step(LinkEvent::NotAccepted) == LinkStep::Listen,
{
}

/// The desktop covers the screen and is not full screen; any other window that
/// covers its monitor is, and stays so if it grows.
pub proof fn covering_the_monitor_is_fullscreen(
    class_name: Seq<char>,
    window: Rect,
    larger: Rect,
    monitor: Rect,
)
    requires
        larger.spec_covers(window),
    ensures
        is_desktop(class_name) ==> !shows_fullscreen(class_name, Some(window), Some(monitor)),
        !is_desktop(class_name) ==> shows_fullscreen(class_name, Some(monitor), Some(monitor)),
        shows_fullscreen(class_name, Some(window), Some(monitor)) ==> shows_fullscreen(
            class_name,
            Some(larger),
            Some(monitor),
        ),
{
}

/// The bar hides for another window exactly while that is in full screen, and
/// comes back when it is no longer.
pub proof fn bar_hides_for_fullscreen_only(bar: isize, window: isize)
    requires
        window != bar,
    ensures
        visibility_for(bar, window, true) == Some(Visibility::Hidden),
        visibility_for(bar, window, false) == Some(Visibility::Shown),
{
}

/// A use of the sound device that fails leaves nothing cached, so that the next
/// use asks for the device anew; one that goes well leaves the device that it
/// used.
pub proof fn failed_use_is_not_cached<
    T,
    R,
    A: FnOnce() -> Option<T>,
    F: FnOnce(&T) -> Option<R>,
>(
    before: Option<T>,
    after: Option<T>,
    acquire: A,
    use_it: F,
    resource: Option<T>,
    result: Option<R>,
)
    requires
        is_cached_use(before, after, acquire, use_it, resource, result),
    ensures
        result is None ==> after is None,
        result is Some ==> after == resource && after is Some,
        before is Some && result is Some ==> after == before,
{
}

// Text for Windows.

/// The UTF-16 units of two texts in a row are those of the one and then those
/// of the other.
pub proof fn utf16_of_concatenation(a: Seq<char>, b: Seq<char>)
    ensures
        utf16(a + b) == utf16(a) + utf16(b),
    decreases b.len(),
{
    if b.len() == 0 {
        assert(a + b =~= a);
        assert(utf16(a) + utf16(b) =~= utf16(a));
    } else {
        utf16_of_concatenation(a, b.drop_last());
        assert((a + b).drop_last() =~= a + b.drop_last());
        assert((a + b).last() == b.last());
        assert(utf16(a + b) =~= utf16(a) + utf16(b));
    }
}

/// A text that is written in UTF-16 and read back is the same.
pub proof fn utf16_round_trip(text: Seq<char>)
    ensures
        utf16_lossy(utf16(text)) == text,
    decreases text.len(),
{
    if text.len() > 0 {
        let first = seq![text[0]];
        let rest = text.skip(1);
        utf16_round_trip(rest);
        assert(text =~= first + rest);
        utf16_of_concatenation(first, rest);
        assert(first.drop_last() =~= Seq::<char>::empty());
        assert(utf16(first) =~= utf16_of_char(text[0])) by {
            assert(utf16(first.drop_last()) =~= Seq::<u16>::empty());
        }
        char_round_trip(text[0], utf16(rest));
    }
}

proof fn char_round_trip(c: char, rest: Seq<u16>)
    ensures
        utf16_lossy(utf16_of_char(c) + rest) == seq![c] + utf16_lossy(rest),
{
    let units = utf16_of_char(c) + rest;
    if (c as int) < 0x1_0000 {
        assert(units.skip(1) =~= rest);
    } else {
        assert(units.skip(2) =~= rest);
    }
}

/// The UTF-16 units of a text without NULs have no NUL, so that a terminator
/// behind them ends the whole text.
pub proof fn utf16_has_no_nul(text: Seq<char>)
    requires
        !text.contains('\0'),
    ensures
        !utf16(text).contains(0),
    decreases text.len(),
{
    if text.len() > 0 {
        let front = text.drop_last();
        assert forall|i: int| 0 <= i < front.len() implies front[i] != '\0' by {
            assert(text[i] != '\0');
        }
        utf16_has_no_nul(front);
        let last = utf16_of_char(text.last());
        assert(text[text.len() - 1] != '\0');
        char_has_no_nul(text.last());
        assert forall|i: int| 0 <= i < utf16(text).len() implies utf16(text)[i] != 0 by {
            if i < utf16(front).len() {
                assert(utf16(text)[i] == utf16(front)[i]);
            } else {
                assert(utf16(text)[i] == last[i - utf16(front).len()]);
            }
        }
    }
}

proof fn char_has_no_nul(c: char)
    requires
        c != '\0',
    ensures
        forall|i: int| 0 <= i < utf16_of_char(c).len() ==> utf16_of_char(c)[i] != 0,
{
}

/// A title is the front part of what was read that ends in something other than
/// a NUL.
pub proof fn title_has_no_trailing_nul(text: Seq<char>)
    ensures
        ({
            let title = without_trailing_nuls(text);
            &&& title.len() > 0 ==> title.last() != '\0'
            &&& title.len() <= text.len()
            &&& title == text.take(title.len() as int)
            &&& forall|i: int| title.len() <= i < text.len() ==> text[i] == '\0'
            &&& without_trailing_nuls(title) == title
        }),
    decreases text.len(),
{
    if text.len() > 0 && text.last() == '\0' {
        title_has_no_trailing_nul(text.drop_last());
        let title = without_trailing_nuls(text);
        assert(text.drop_last().take(title.len() as int) =~= text.take(title.len() as int));
        assert forall|i: int| title.len() <= i < text.len() implies text[i] == '\0' by {
            if i < text.len() - 1 {
                assert(text.drop_last()[i] == '\0');
            }
        }
    } else {
        assert(text.take(text.len() as int) =~= text);
    }
}

} // verus!
