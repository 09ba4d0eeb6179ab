//! How often and how recently each app was launched.

use vstd::prelude::*;

verus! {

pub const SECONDS_PER_DAY: i64 = 86400;

/// An app that was not opened for longer than this many days is dropped from
/// the history, so that it does not grow without limit over the years.
pub const USAGE_PRUNE_AFTER_DAYS: i64 = 365;

/// The recorded use of one app.
#[derive(Clone, Copy, Debug, PartialEq, Eq, Structural)]
pub struct UsageEntry {
    /// How many times it was launched.
    pub count: u32,
    /// When it was launched last, in seconds since the Unix epoch.
    pub last_used: i64,
}

impl UsageEntry {
    /// The seconds for which the app was not opened, none if the last launch
    /// lies in the future of `now`.
    pub open spec fn spec_unused_seconds(self, now: i64) -> int {
        if now >= self.last_used {
            now - self.last_used
        } else {
            0
        }
    }

    /// The app was not opened for longer than the history goes back.
    pub open spec fn spec_is_stale(self, now: i64) -> bool {
        now - self.last_used > USAGE_PRUNE_AFTER_DAYS * SECONDS_PER_DAY
    }

    /// For how many seconds was the app not opened?
    pub fn unused_seconds(&self, now: i64) -> (seconds: u64)
        ensures
            seconds == self.spec_unused_seconds(now),
    {
        if now >= self.last_used {
            (now as i128 - self.last_used as i128) as u64
        } else {
            0
        }
    }

    /// Was the app not opened for longer than the history goes back?
    pub fn is_stale(&self, now: i64) -> (stale: bool)
        ensures
            stale == self.spec_is_stale(now),
    {
        now as i128 - self.last_used as i128 > (USAGE_PRUNE_AFTER_DAYS * SECONDS_PER_DAY) as i128
    }
}

/// The recorded uses, one entry for each path.
pub struct Usage {
    entries: Vec<(String, UsageEntry)>,
}

/// No path stands in two of the entries.
pub open spec fn paths_distinct(entries: Seq<(String, UsageEntry)>) -> bool {
    forall|i: int, j: int|
        0 <= i < j < entries.len() ==> (#[trigger] entries[i]).0@ != (#[trigger] entries[j]).0@
}

/// Entry `i` is the one of `path`.
pub open spec fn is_entry_of(
    entries: Seq<(String, UsageEntry)>,
    path: Seq<char>,
    i: int,
) -> bool {
    0 <= i < entries.len() && entries[i].0@ == path
}

/// The entries as a map from path to use.
pub open spec fn entry_map(entries: Seq<(String, UsageEntry)>) -> Map<Seq<char>, UsageEntry> {
    Map::new(
        |path: Seq<char>| exists|i: int| is_entry_of(entries, path, i),
        |path: Seq<char>| entries[choose|i: int| is_entry_of(entries, path, i)].1,
    )
}

/// The uses of the apps that were opened recently enough to be kept.
pub open spec fn without_stale(
    uses: Map<Seq<char>, UsageEntry>,
    now: i64,
) -> Map<Seq<char>, UsageEntry> {
    Map::new(
        |path: Seq<char>| uses.contains_key(path) && !uses[path].spec_is_stale(now),
        |path: Seq<char>| uses[path],
    )
}

/// The use of the app at `path`, with one launch more.
pub open spec fn one_more_use(
    uses: Map<Seq<char>, UsageEntry>,
    path: Seq<char>,
    now: i64,
) -> UsageEntry {
    UsageEntry { count: (use_count(uses, path) + 1) as u32, last_used: now }
}

/// How many times the app at `path` was launched.
pub open spec fn use_count(uses: Map<Seq<char>, UsageEntry>, path: Seq<char>) -> int {
    if uses.contains_key(path) {
        uses[path].count as int
    } else {
        0
    }
}

/// Where no path stands in two entries, an entry is the use of its path.
pub proof fn entry_in_map(entries: Seq<(String, UsageEntry)>, i: int)
    requires
        paths_distinct(entries),
        0 <= i < entries.len(),
    ensures
        entry_map(entries).contains_key(entries[i].0@),
        entry_map(entries)[entries[i].0@] == entries[i].1,
{
    let path = entries[i].0@;
    assert(is_entry_of(entries, path, i));
    let j = choose|j: int| is_entry_of(entries, path, j);
    assert(is_entry_of(entries, path, j));
    if i < j {
        assert(entries[i].0@ != entries[j].0@);
    } else if j < i {
        assert(entries[j].0@ != entries[i].0@);
    }
}

impl View for Usage {
    type V = Map<Seq<char>, UsageEntry>;

    closed spec fn view(&self) -> Map<Seq<char>, UsageEntry> {
        entry_map(self.entries@)
    }
}

impl Usage {
    /// Each path has one entry.
    pub closed spec fn wf(&self) -> bool {
        paths_distinct(self.entries@)
    }

    /// An empty history.
    pub fn new() -> (usage: Usage)
        ensures
            usage.wf(),
            usage@ == Map::<Seq<char>, UsageEntry>::empty(),
    {
        let usage = Usage { entries: Vec::new() };
        assert(usage@ =~= Map::<Seq<char>, UsageEntry>::empty());
        usage
    }

    /// Where the entry of `path` stands.
    fn find(&self, path: &String) -> (place: Option<usize>)
        ensures
            place matches Some(i) ==> is_entry_of(self.entries@, path@, i as int),
            place is None ==> forall|i: int| !is_entry_of(self.entries@, path@, i),
    {
        let mut i: usize = 0;
        while i < self.entries.len()
            invariant
                i <= self.entries@.len(),
                forall|j: int| 0 <= j < i ==> !is_entry_of(self.entries@, path@, j),
            decreases self.entries@.len() - i,
        {
            if self.entries[i].0 == *path {
                return Some(i);
            }
            i += 1;
        }
        None
    }

    /// The use of the app at `path`, if any is recorded.
    pub fn get(&self, path: &String) -> (entry: Option<UsageEntry>)
        requires
            self.wf(),
        ensures
            entry == (if self@.contains_key(path@) {
                Some(self@[path@])
            } else {
                None
            }),
    {
        match self.find(path) {
            Some(i) => {
                proof {
                    entry_in_map(self.entries@, i as int);
                }
                Some(self.entries[i].1)
            },
            None => None,
        }
    }

    /// Sets the use of the app at `path`.
    pub fn insert(&mut self, path: String, entry: UsageEntry)
        requires
            old(self).wf(),
        ensures
            final(self).wf(),
            final(self)@ == old(self)@.insert(path@, entry),
    {
        let ghost before = self.entries@;
        let ghost key = path@;
        match self.find(&path) {
            Some(i) => {
                self.entries.set(i, (path, entry));
                proof {
                    let after = self.entries@;
                    assert(after =~= before.update(i as int, (path, entry)));
                    assert(paths_distinct(after));
                    assert forall|p: Seq<char>| #[trigger]
                        entry_map(after).contains_key(p) == entry_map(before).insert(
                            key,
                            entry,
                        ).contains_key(p) by {
                        if entry_map(after).contains_key(p) {
                            let j = choose|j: int| is_entry_of(after, p, j);
                            assert(is_entry_of(before, p, j));
                        }
                        if entry_map(before).contains_key(p) {
                            let j = choose|j: int| is_entry_of(before, p, j);
                            assert(is_entry_of(after, p, j));
                        }
                        if p == key {
                            assert(is_entry_of(after, p, i as int));
                        }
                    }
                    assert forall|p: Seq<char>| #[trigger]
                        entry_map(after).contains_key(p) implies entry_map(after)[p] == entry_map(
                        before,
                    ).insert(key, entry)[p] by {
                        let j = choose|j: int| is_entry_of(after, p, j);
                        entry_in_map(after, j);
                        entry_in_map(before, j);
                        if j != i && p == key {
                            assert(is_entry_of(before, p, j));
                            if j < i {
                                assert(before[j].0@ != before[i as int].0@);
                            } else {
                                assert(before[i as int].0@ != before[j].0@);
                            }
                        }
                    }
                    assert(self@ =~= old(self)@.insert(key, entry));
                }
            },
            None => {
                self.entries.push((path, entry));
                proof {
                    let after = self.entries@;
                    assert(after =~= before.push((path, entry)));
                    assert forall|i: int, j: int| 0 <= i < j < after.len() implies (
                    #[trigger] after[i]).0@ != (#[trigger] after[j]).0@ by {
                        assert(!is_entry_of(before, key, i));
                    }
                    let last = before.len() as int;
                    assert(is_entry_of(after, key, last));
                    assert forall|p: Seq<char>| #[trigger]
                        entry_map(after).contains_key(p) == entry_map(before).insert(
                            key,
                            entry,
                        ).contains_key(p) by {
                        if entry_map(after).contains_key(p) {
                            let j = choose|j: int| is_entry_of(after, p, j);
                            if j < last {
                                assert(is_entry_of(before, p, j));
                            }
                        }
                        if entry_map(before).contains_key(p) {
                            let j = choose|j: int| is_entry_of(before, p, j);
                            assert(is_entry_of(after, p, j));
                        }
                    }
                    assert forall|p: Seq<char>| #[trigger]
                        entry_map(after).contains_key(p) implies entry_map(after)[p] == entry_map(
                        before,
                    ).insert(key, entry)[p] by {
                        let j = choose|j: int| is_entry_of(after, p, j);
                        entry_in_map(after, j);
                        if j < last {
                            entry_in_map(before, j);
                            assert(!is_entry_of(before, key, j));
                        }
                    }
                    assert(self@ =~= old(self)@.insert(key, entry));
                }
            },
        }
    }

    /// Counts a launch of the app at `path`.
    pub fn record(&mut self, path: String, now: i64)
        requires
            old(self).wf(),
            use_count(old(self)@, path@) < u32::MAX,
        ensures
            final(self).wf(),
            final(self)@ == old(self)@.insert(path@, one_more_use(old(self)@, path@, now)),
    {
        let count: u32 = match self.get(&path) {
            Some(entry) => entry.count,
            None => 0,
        };
        self.insert(path, UsageEntry { count: count + 1, last_used: now });
    }

    /// Drops the apps that were not opened for too long.
    pub fn prune_stale_usage(&mut self, now: i64)
        requires
            old(self).wf(),
        ensures
            final(self).wf(),
            final(self)@ == without_stale(old(self)@, now),
    {
        let ghost all = self.entries@;
        let mut kept: Vec<(String, UsageEntry)> = Vec::new();
        let mut i: usize = 0;
        while i < self.entries.len()
            invariant
                i <= self.entries@.len(),
                self.entries@ == all,
                paths_distinct(all),
                paths_distinct(kept@),
                forall|k: int|
                    0 <= k < kept@.len() ==> !(#[trigger] kept@[k]).1.spec_is_stale(now) && (exists|
                        j: int,
                    |
                        0 <= j < i && #[trigger] all[j] == kept@[k]),
                forall|j: int|
                    0 <= j < i && !(#[trigger] all[j]).1.spec_is_stale(now) ==> kept@.contains(
                        all[j],
                    ),
            decreases self.entries@.len() - i,
        {
            if !self.entries[i].1.is_stale(now) {
                let ghost before = kept@;
                let copy = (self.entries[i].0.clone(), self.entries[i].1);
                kept.push(copy);
                proof {
                    assert(copy == all[i as int]);
                    assert forall|a: int, b: int| 0 <= a < b < kept@.len() implies (
                    #[trigger] kept@[a]).0@ != (#[trigger] kept@[b]).0@ by {
                        if b == before.len() {
                            assert(kept@[a] == before[a]);
                            let j = choose|j: int| 0 <= j < i && #[trigger] all[j] == before[a];
                            assert(all[j].0@ != all[i as int].0@);
                        } else {
                            assert(kept@[a] == before[a] && kept@[b] == before[b]);
                        }
                    }
                    assert forall|k: int| 0 <= k < kept@.len() implies !(
                    #[trigger] kept@[k]).1.spec_is_stale(now) && (exists|j: int|
                        0 <= j < i + 1 && #[trigger] all[j] == kept@[k]) by {
                        if k < before.len() {
                            assert(kept@[k] == before[k]);
                            let j = choose|j: int| 0 <= j < i && #[trigger] all[j] == before[k];
                            assert(all[j] == kept@[k]);
                        } else {
                            assert(all[i as int] == kept@[k]);
                        }
                    }
                    assert forall|j: int|
                        0 <= j < i + 1 && !(
                        #[trigger] all[j]).1.spec_is_stale(now) implies kept@.contains(all[j]) by {
                        if j < i {
                            let k = choose|k: int| 0 <= k < before.len() && before[k] == all[j];
                            assert(kept@[k] == all[j]);
                        } else {
                            assert(kept@[before.len() as int] == all[j]);
                        }
                    }
                }
            }
            i += 1;
        }
        proof {
            let uses = entry_map(all);
            assert forall|p: Seq<char>| #[trigger]
                entry_map(kept@).contains_key(p) == without_stale(uses, now).contains_key(p) by {
                if entry_map(kept@).contains_key(p) {
                    let k = choose|k: int| is_entry_of(kept@, p, k);
                    assert(!kept@[k].1.spec_is_stale(now));
                    let j = choose|j: int| 0 <= j < i && #[trigger] all[j] == kept@[k];
                    entry_in_map(all, j);
                }
                if without_stale(uses, now).contains_key(p) {
                    let j = choose|j: int| is_entry_of(all, p, j);
                    entry_in_map(all, j);
                    assert(kept@.contains(all[j]));
                    let k = choose|k: int| 0 <= k < kept@.len() && kept@[k] == all[j];
                    assert(is_entry_of(kept@, p, k));
                }
            }
            assert forall|p: Seq<char>| #[trigger]
                entry_map(kept@).contains_key(p) implies entry_map(kept@)[p] == without_stale(
                uses,
                now,
            )[p] by {
                let k = choose|k: int| is_entry_of(kept@, p, k);
                entry_in_map(kept@, k);
                let j = choose|j: int| 0 <= j < i && #[trigger] all[j] == kept@[k];
                entry_in_map(all, j);
                assert(without_stale(uses, now).contains_key(p));
            }
            assert(entry_map(kept@) =~= without_stale(uses, now));
        }
        self.entries = kept;
    }

    /// A history from its entries: of two entries for one path the later one
    /// counts.
    pub fn from_entries(entries: Vec<(String, UsageEntry)>) -> (usage: Usage)
        ensures
            usage.wf(),
            usage@ == later_wins(entries@),
    {
        let mut usage = Usage::new();
        let mut i: usize = 0;
        assert(entries@.take(0) =~= Seq::<(String, UsageEntry)>::empty());
        while i < entries.len()
            invariant
                i <= entries@.len(),
                usage.wf(),
                usage@ == later_wins(entries@.take(i as int)),
            decreases entries@.len() - i,
        {
            assert(entries@.take(i + 1).drop_last() =~= entries@.take(i as int));
            usage.insert(entries[i].0.clone(), entries[i].1);
            i += 1;
        }
        assert(entries@.take(entries@.len() as int) =~= entries@);
        usage
    }

    /// The entries, in no particular order.
    pub fn entries(&self) -> (entries: &Vec<(String, UsageEntry)>)
        requires
            self.wf(),
        ensures
            paths_distinct(entries@),
            entry_map(entries@) == self@,
    {
        &self.entries
    }
}

/// The map that inserting the entries one after the other builds.
pub open spec fn later_wins(entries: Seq<(String, UsageEntry)>) -> Map<Seq<char>, UsageEntry>
    decreases entries.len(),
{
    if entries.len() == 0 {
        Map::empty()
    } else {
        later_wins(entries.drop_last()).insert(entries.last().0@, entries.last().1)
    }
}

} // verus!
