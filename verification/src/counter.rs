//! An in-memory per-application request counter with one-hour record
//! lifetimes: the quota state the admission guard reads and bumps.
//!
//! A record is created with count 1 and expires one hour later; an expired
//! record counts as absent and is replaced outright by the next request. The
//! store owns expiry — the guard never extends or shortens a window.

use vstd::prelude::*;

verus! {

/// What the store remembers for one application.
pub struct CounterRecord {
    /// Requests recorded since the record was created.
    pub count: int,
    /// The instant (Unix seconds) the record expires, one hour after creation.
    pub expires_at: int,
}

struct CounterEntry {
    app_id: u128,
    count: i32,
    expires_at: i64,
}

spec fn entry_record(e: CounterEntry) -> CounterRecord {
    CounterRecord { count: e.count as int, expires_at: e.expires_at as int }
}

spec fn entries_map(s: Seq<CounterEntry>) -> Map<u128, CounterRecord>
    decreases s.len(),
{
    if s.len() == 0 {
        Map::empty()
    } else {
        entries_map(s.drop_last()).insert(s.last().app_id, entry_record(s.last()))
    }
}

spec fn entries_unique(s: Seq<CounterEntry>) -> bool {
    forall|i: int, j: int|
        0 <= i < j < s.len() ==> (#[trigger] s[i]).app_id != (#[trigger] s[j]).app_id
}

/// Map-level validity: every record holds a positive count.
pub open spec fn counts_valid(m: Map<u128, CounterRecord>) -> bool {
    forall|k: u128| #[trigger] m.dom().contains(k) ==> m[k].count >= 1
}

/// The live request count an application has used: the record's count when
/// one exists and has not expired at `now`, and zero otherwise.
pub open spec fn spec_count(m: Map<u128, CounterRecord>, app_id: u128, now: int) -> int {
    if m.dom().contains(app_id) && now < m[app_id].expires_at {
        m[app_id].count
    } else {
        0
    }
}

/// A count one higher, saturating at the top of the counter's range.
pub open spec fn bumped(c: int) -> int {
    if c < i32::MAX {
        c + 1
    } else {
        c
    }
}

/// The store contents after recording one request at `now`: a live record is
/// incremented in place, keeping its expiry; otherwise a fresh record with
/// count 1 is created, expiring one hour from `now`.
pub open spec fn spec_add(m: Map<u128, CounterRecord>, app_id: u128, now: int) -> Map<
    u128,
    CounterRecord,
> {
    if m.dom().contains(app_id) && now < m[app_id].expires_at {
        m.insert(
            app_id,
            CounterRecord { count: bumped(m[app_id].count), expires_at: m[app_id].expires_at },
        )
    } else {
        m.insert(app_id, CounterRecord { count: 1, expires_at: now + 3600 })
    }
}

proof fn lemma_map_index(s: Seq<CounterEntry>, i: int)
    requires
        entries_unique(s),
        0 <= i < s.len(),
    ensures
        entries_map(s).dom().contains(s[i].app_id),
        entries_map(s)[s[i].app_id] == entry_record(s[i]),
    decreases s.len(),
{
    if i < s.len() - 1 {
        assert forall|a: int, b: int|
            0 <= a < b < s.drop_last().len() implies (#[trigger] s.drop_last()[a]).app_id != (
        #[trigger] s.drop_last()[b]).app_id by {
            assert(s.drop_last()[a] == s[a] && s.drop_last()[b] == s[b]);
        }
        lemma_map_index(s.drop_last(), i);
        assert(s.drop_last()[i] == s[i]);
        assert(s.last().app_id != s[i].app_id);
    }
}

proof fn lemma_map_absent(s: Seq<CounterEntry>, app_id: u128)
    requires
        forall|i: int| 0 <= i < s.len() ==> (#[trigger] s[i]).app_id != app_id,
    ensures
        !entries_map(s).dom().contains(app_id),
    decreases s.len(),
{
    if s.len() > 0 {
        assert forall|i: int|
            0 <= i < s.drop_last().len() implies (#[trigger] s.drop_last()[i]).app_id != app_id by {
            assert(s.drop_last()[i] == s[i]);
        }
        lemma_map_absent(s.drop_last(), app_id);
        assert(s.last().app_id != app_id);
    }
}

proof fn lemma_map_update(s: Seq<CounterEntry>, i: int, e: CounterEntry)
    requires
        entries_unique(s),
        0 <= i < s.len(),
        e.app_id == s[i].app_id,
    ensures
        entries_map(s.update(i, e)) == entries_map(s).insert(e.app_id, entry_record(e)),
    decreases s.len(),
{
    let t = s.update(i, e);
    if i == s.len() - 1 {
        assert(t.drop_last() =~= s.drop_last());
        assert(t.last() == e);
        assert(entries_map(t) == entries_map(s.drop_last()).insert(e.app_id, entry_record(e)));
        assert(entries_map(s.drop_last()).insert(e.app_id, entry_record(e)) =~= entries_map(
            s,
        ).insert(e.app_id, entry_record(e)));
    } else {
        assert forall|a: int, b: int|
            0 <= a < b < s.drop_last().len() implies (#[trigger] s.drop_last()[a]).app_id != (
        #[trigger] s.drop_last()[b]).app_id by {
            assert(s.drop_last()[a] == s[a] && s.drop_last()[b] == s[b]);
        }
        assert(t.drop_last() =~= s.drop_last().update(i, e));
        assert(t.last() == s.last());
        lemma_map_update(s.drop_last(), i, e);
        assert(s.last().app_id != e.app_id);
        assert(entries_map(t) == entries_map(s.drop_last()).insert(
            e.app_id,
            entry_record(e),
        ).insert(s.last().app_id, entry_record(s.last())));
        assert(entries_map(s.drop_last()).insert(e.app_id, entry_record(e)).insert(
            s.last().app_id,
            entry_record(s.last()),
        ) =~= entries_map(s).insert(e.app_id, entry_record(e)));
    }
}

/// The in-memory counter store.
pub struct CounterStore {
    entries: Vec<CounterEntry>,
}

impl View for CounterStore {
    type V = Map<u128, CounterRecord>;

    closed spec fn view(&self) -> Map<u128, CounterRecord> {
        entries_map(self.entries@)
    }
}

impl CounterStore {
    /// The store invariant: one record per application, positive counts.
    pub closed spec fn wf(self) -> bool {
        &&& entries_unique(self.entries@)
        &&& forall|i: int| 0 <= i < self.entries@.len() ==> (#[trigger] self.entries@[i]).count >= 1
    }

    /// A well-formed store only holds positive counts.
    pub proof fn lemma_wf_valid(self)
        requires
            self.wf(),
        ensures
            counts_valid(self@),
    {
        assert forall|k: u128| #[trigger] self@.dom().contains(k) implies self@[k].count >= 1 by {
            Self::lemma_contained_is_entry(self.entries@, k);
        }
    }

    proof fn lemma_contained_is_entry(s: Seq<CounterEntry>, k: u128)
        requires
            entries_map(s).dom().contains(k),
        ensures
            exists|i: int|
                0 <= i < s.len() && (#[trigger] s[i]).app_id == k && entries_map(s)[k]
                    == entry_record(s[i]),
        decreases s.len(),
    {
        if s.len() > 0 && s.last().app_id != k {
            Self::lemma_contained_is_entry(s.drop_last(), k);
            let i = choose|i: int|
                0 <= i < s.drop_last().len() && (#[trigger] s.drop_last()[i]).app_id == k
                    && entries_map(s.drop_last())[k] == entry_record(s.drop_last()[i]);
            assert(s[i] == s.drop_last()[i]);
        }
    }

    /// Creates an empty store.
    pub fn new() -> (r: CounterStore)
        ensures
            r.wf(),
            r@ == Map::<u128, CounterRecord>::empty(),
    {
        CounterStore { entries: Vec::new() }
    }

    /// Gets the hourly request count for the given application ID as of
    /// `now`.
    pub fn get_request_count(&self, app_id: u128, now: i64) -> (r: i32)
        requires
            self.wf(),
        ensures
            r == spec_count(self@, app_id, now as int),
            r >= 0,
    {
        let n = self.entries.len();
        let mut i: usize = 0;
        while i < n
            invariant
                0 <= i <= n,
                n == self.entries@.len(),
                self.wf(),
                forall|j: int| 0 <= j < i ==> (#[trigger] self.entries@[j]).app_id != app_id,
            decreases n - i,
        {
            if self.entries[i].app_id == app_id {
                proof {
                    lemma_map_index(self.entries@, i as int);
                }
                if now < self.entries[i].expires_at {
                    return self.entries[i].count;
                } else {
                    return 0;
                }
            }
            i = i + 1;
        }
        proof {
            lemma_map_absent(self.entries@, app_id);
        }
        0
    }

    /// Adds a request to the given application ID's counter as of `now`,
    /// creating the record with count 1 and a one-hour lifetime when no live
    /// record exists.
    pub fn add_request(&mut self, app_id: u128, now: i64)
        requires
            old(self).wf(),
            now + 3600 <= i64::MAX,
        ensures
            final(self).wf(),
            final(self)@ == spec_add(old(self)@, app_id, now as int),
    {
        let n = self.entries.len();
        let mut i: usize = 0;
        while i < n
            invariant
                0 <= i <= n,
                n == self.entries@.len(),
                self.wf(),
                *self == *old(self),
                now + 3600 <= i64::MAX,
                forall|j: int| 0 <= j < i ==> (#[trigger] self.entries@[j]).app_id != app_id,
            decreases n - i,
        {
            if self.entries[i].app_id == app_id {
                proof {
                    lemma_map_index(self.entries@, i as int);
                }
                let e = CounterEntry {
                    app_id,
                    count: if now < self.entries[i].expires_at {
                        if self.entries[i].count < i32::MAX {
                            self.entries[i].count + 1
                        } else {
                            self.entries[i].count
                        }
                    } else {
                        1
                    },
                    expires_at: if now < self.entries[i].expires_at {
                        self.entries[i].expires_at
                    } else {
                        now + 3600
                    },
                };
                proof {
                    lemma_map_update(self.entries@, i as int, e);
                }
                self.entries[i] = e;
                return ;
            }
            i = i + 1;
        }
        proof {
            lemma_map_absent(self.entries@, app_id);
            assert(self.entries@.push(
                CounterEntry { app_id, count: 1, expires_at: (now + 3600) as i64 },
            ).drop_last() =~= self.entries@);
        }
        self.entries.push(CounterEntry { app_id, count: 1, expires_at: now + 3600 });
    }
}

} // verus!
