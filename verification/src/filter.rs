//! Which apps the search popup lists for a query, and in what order.

use vstd::prelude::*;

use crate::text::{contains_chars, order_of, TextOrder};
use crate::text::{
    is_substring, text_precedes, text_precedes_irreflexive, text_precedes_total,
    text_precedes_transitive,
};

verus! {

/// The popup shows at most this many apps.
pub const MAX_RESULTS: usize = 10;

/// App `i` is one whose lower case name has the lower case query in it.
pub open spec fn is_match(names: Seq<Seq<char>>, query: Seq<char>, i: int) -> bool {
    0 <= i < names.len() && is_substring(query, names[i])
}

/// App `i` is listed before app `j`: the higher rank first, among equal ranks
/// the name that comes first in dictionary order, among equal names the one
/// that was indexed first.
pub open spec fn is_before(names: Seq<Seq<char>>, ranks: Seq<u64>, i: int, j: int) -> bool {
    ||| ranks[i] > ranks[j]
    ||| ranks[i] == ranks[j] && text_precedes(names[i], names[j])
    ||| ranks[i] == ranks[j] && names[i] == names[j] && i < j
}

/// `list` holds the first `limit` matches in listing order, or all of them if
/// there are no more than that.
pub open spec fn is_listing(
    list: Seq<usize>,
    names: Seq<Seq<char>>,
    ranks: Seq<u64>,
    query: Seq<char>,
    limit: nat,
) -> bool {
    &&& list.len() <= limit
    &&& forall|r: int| 0 <= r < list.len() ==> is_match(names, query, #[trigger] list[r] as int)
    &&& forall|r: int, s: int|
        0 <= r < s < list.len() ==> is_before(
            names,
            ranks,
            #[trigger] list[r] as int,
            #[trigger] list[s] as int,
        )
    &&& forall|i: usize| #[trigger]
        is_match(names, query, i as int) && !list.contains(i) ==> {
            &&& list.len() == limit
            &&& forall|r: int|
                0 <= r < list.len() ==> is_before(names, ranks, #[trigger] list[r] as int, i as int)
        }
}

/// Listing order is transitive.
pub proof fn is_before_transitive(
    names: Seq<Seq<char>>,
    ranks: Seq<u64>,
    i: int,
    j: int,
    k: int,
)
    requires
        is_before(names, ranks, i, j),
        is_before(names, ranks, j, k),
    ensures
        is_before(names, ranks, i, k),
{
    if text_precedes(names[i], names[j]) && text_precedes(names[j], names[k]) {
        text_precedes_transitive(names[i], names[j], names[k]);
    }
}

/// No two apps are listed before each other.
pub proof fn is_before_asymmetric(names: Seq<Seq<char>>, ranks: Seq<u64>, i: int, j: int)
    requires
        is_before(names, ranks, i, j),
    ensures
        !is_before(names, ranks, j, i),
{
    if text_precedes(names[i], names[j]) {
        text_precedes_irreflexive(names[i]);
        if text_precedes(names[j], names[i]) {
            text_precedes_transitive(names[i], names[j], names[i]);
        }
    }
    if text_precedes(names[j], names[i]) {
        text_precedes_irreflexive(names[j]);
    }
}

/// Of two apps one is listed before the other.
pub proof fn is_before_total(names: Seq<Seq<char>>, ranks: Seq<u64>, i: int, j: int)
    requires
        i != j,
    ensures
        is_before(names, ranks, i, j) || is_before(names, ranks, j, i),
{
    text_precedes_total(names[i], names[j]);
}

/// The names behind a vector of character vectors.
pub open spec fn name_views(names: Seq<Vec<char>>) -> Seq<Seq<char>> {
    Seq::new(names.len(), |i: int| names[i]@)
}

/// Is app `i` listed before app `j`?
fn comes_before(names: &Vec<Vec<char>>, ranks: &Vec<u64>, i: usize, j: usize) -> (before: bool)
    requires
        i < names@.len(),
        j < names@.len(),
        names@.len() == ranks@.len(),
    ensures
        before == is_before(name_views(names@), ranks@, i as int, j as int),
{
    if ranks[i] != ranks[j] {
        return ranks[i] > ranks[j];
    }
    match order_of(&names[i], &names[j]) {
        TextOrder::Before => true,
        TextOrder::After => {
            proof {
                text_precedes_irreflexive(names@[i as int]@);
            }
            false
        },
        TextOrder::Same => i < j,
    }
}

/// Puts app `next`, which was indexed behind all of `list`, into its place.
fn insert_ordered(
    list: &mut Vec<usize>,
    names: &Vec<Vec<char>>,
    ranks: &Vec<u64>,
    next: usize,
) -> (place: usize)
    requires
        next < names@.len(),
        names@.len() == ranks@.len(),
        forall|r: int| 0 <= r < old(list)@.len() ==> #[trigger] old(list)@[r] < next,
        forall|r: int, s: int|
            0 <= r < s < old(list)@.len() ==> is_before(
                name_views(names@),
                ranks@,
                #[trigger] old(list)@[r] as int,
                #[trigger] old(list)@[s] as int,
            ),
    ensures
        place <= old(list)@.len(),
        final(list)@ == old(list)@.insert(place as int, next),
        forall|r: int, s: int|
            0 <= r < s < final(list)@.len() ==> is_before(
                name_views(names@),
                ranks@,
                #[trigger] final(list)@[r] as int,
                #[trigger] final(list)@[s] as int,
            ),
{
    let ghost views = name_views(names@);
    let ghost before = list@;
    let mut place: usize = list.len();
    while place > 0 && comes_before(names, ranks, next, list[place - 1])
        invariant
            place <= list@.len(),
            list@ == before,
            views == name_views(names@),
            next < names@.len(),
            names@.len() == ranks@.len(),
            forall|r: int| 0 <= r < before.len() ==> #[trigger] before[r] < next,
            forall|r: int| #![trigger before[r]]
                place <= r < before.len() ==> is_before(views, ranks@, next as int, before[r] as int),
        decreases place,
    {
        place -= 1;
    }
    list.insert(place, next);
    proof {
        assert forall|r: int|
            0 <= r < place implies is_before(views, ranks@, #[trigger] before[r] as int, next as int) by {
            let nearest = before[place - 1] as int;
            is_before_total(views, ranks@, next as int, nearest);
            if r < place - 1 {
                is_before_transitive(views, ranks@, before[r] as int, nearest, next as int);
            }
        }
        assert forall|r: int, s: int| 0 <= r < s < list@.len() implies is_before(
            views,
            ranks@,
            #[trigger] list@[r] as int,
            #[trigger] list@[s] as int,
        ) by {
            let r0 = if r < place {
                r
            } else {
                r - 1
            };
            let s0 = if s < place {
                s
            } else {
                s - 1
            };
            if r != place {
                assert(list@[r] == before[r0]);
            }
            if s != place {
                assert(list@[s] == before[s0]);
            }
        }
    }
    place
}

/// Lists the apps whose lower case name has `query`, in lower case, in it:
/// the first [`MAX_RESULTS`] of them in listing order.
pub fn list_matches(names: &Vec<Vec<char>>, ranks: &Vec<u64>, query: &Vec<char>) -> (list: Vec<
    usize,
>)
    requires
        names@.len() == ranks@.len(),
    ensures
        is_listing(list@, name_views(names@), ranks@, query@, MAX_RESULTS as nat),
{
    let ghost views = name_views(names@);
    let mut list: Vec<usize> = Vec::new();
    let mut next: usize = 0;
    while next < names.len()
        invariant
            next <= names@.len(),
            names@.len() == ranks@.len(),
            views == name_views(names@),
            list@.len() <= MAX_RESULTS,
            forall|r: int|
                0 <= r < list@.len() ==> #[trigger] list@[r] < next && is_match(
                    views,
                    query@,
                    list@[r] as int,
                ),
            forall|r: int, s: int|
                0 <= r < s < list@.len() ==> is_before(
                    views,
                    ranks@,
                    #[trigger] list@[r] as int,
                    #[trigger] list@[s] as int,
                ),
            forall|i: usize|
                i < next && #[trigger] is_match(views, query@, i as int) && !list@.contains(i) ==> {
                    &&& list@.len() == MAX_RESULTS
                    &&& forall|r: int|
                        0 <= r < list@.len() ==> is_before(
                            views,
                            ranks@,
                            #[trigger] list@[r] as int,
                            i as int,
                        )
                },
        decreases names@.len() - next,
    {
        if contains_chars(query, &names[next]) {
            let ghost before = list@;
            let place = insert_ordered(&mut list, names, ranks, next);
            let ghost full = list@;
            assert(full[place as int] == next);
            assert forall|i: usize| before.contains(i) implies full.contains(i) by {
                let r = choose|r: int| 0 <= r < before.len() && before[r] == i;
                assert(full[if r < place {
                    r
                } else {
                    r + 1
                }] == i);
            }
            assert forall|r: int| 0 <= r < full.len() implies #[trigger] full[r] <= next
                && is_match(views, query@, full[r] as int) by {
                if r < place {
                    assert(full[r] == before[r]);
                } else if r > place {
                    assert(full[r] == before[r - 1]);
                }
            }
            if list.len() > MAX_RESULTS {
                list.pop();
                let ghost dropped = full[MAX_RESULTS as int];
                assert forall|i: usize|
                    i <= next && #[trigger] is_match(views, query@, i as int) && !list@.contains(
                        i,
                    ) implies {
                    &&& list@.len() == MAX_RESULTS
                    &&& forall|r: int|
                        0 <= r < list@.len() ==> is_before(
                            views,
                            ranks@,
                            #[trigger] list@[r] as int,
                            i as int,
                        )
                } by {
                    assert forall|r: int| 0 <= r < list@.len() implies is_before(
                        views,
                        ranks@,
                        #[trigger] list@[r] as int,
                        i as int,
                    ) by {
                        assert(list@[r] == full[r]);
                        if full.contains(i) {
                            let s = choose|s: int| 0 <= s < full.len() && full[s] == i;
                            assert(s == MAX_RESULTS) by {
                                if s < MAX_RESULTS {
                                    assert(list@[s] == i);
                                }
                            }
                        } else {
                            assert(i < next);
                            assert(!before.contains(i));
                            if r < place {
                                assert(full[r] == before[r]);
                            } else if r > place {
                                assert(full[r] == before[r - 1]);
                            } else {
                                // The new app stands before one that `i` comes behind.
                                let last = before[MAX_RESULTS - 1];
                                assert(full[MAX_RESULTS as int] == last);
                                assert(is_before(views, ranks@, full[r] as int, last as int));
                                is_before_transitive(
                                    views,
                                    ranks@,
                                    full[r] as int,
                                    last as int,
                                    i as int,
                                );
                            }
                        }
                    }
                }
            } else {
                assert forall|i: usize|
                    i <= next && #[trigger] is_match(views, query@, i as int) && !list@.contains(
                        i,
                    ) implies false by {
                    assert(i < next);
                    assert(!before.contains(i));
                }
            }
        }
        next += 1;
    }
    proof {
        assert forall|i: usize| #[trigger] is_match(views, query@, i as int) implies i < next by {}
    }
    list
}

} // verus!
