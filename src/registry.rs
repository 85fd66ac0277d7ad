use vstd::prelude::*;

use crate::listener::ListenerId;

verus! {

/// How long a listener stays present after it was last seen, in nanoseconds.
pub const PRESENCE_TTL_NANOS: u64 = 5_000_000_000;

/// A listener seen at `now` (nanoseconds on the caller's monotonic clock) is
/// still present when less than the TTL has passed since `last_seen`.
pub open spec fn is_live(last_seen: u64, now: u64) -> bool {
    now - last_seen < PRESENCE_TTL_NANOS
}

/// What is left of a registry once every stale entry has been removed.
pub open spec fn swept(m: Map<Seq<char>, u64>, now: u64) -> Map<Seq<char>, u64> {
    Map::new(|k: Seq<char>| m.dom().contains(k) && is_live(m[k], now), |k: Seq<char>| m[k])
}

/// One listener and the time it was last seen.
pub struct PresenceEntry {
    pub id: ListenerId,
    pub last_seen: u64,
}

/// The listeners seen recently, each once, with the time of its latest visit.
pub struct PresenceRegistry {
    entries: Vec<PresenceEntry>,
}

/// The map that a sequence of entries stands for: later entries win.
pub open spec fn entries_map(s: Seq<PresenceEntry>) -> Map<Seq<char>, u64>
    decreases s.len(),
{
    if s.len() == 0 {
        Map::empty()
    } else {
        entries_map(s.drop_last()).insert(s.last().id@, s.last().last_seen)
    }
}

/// No listener occurs twice.
pub open spec fn keys_unique(s: Seq<PresenceEntry>) -> bool {
    forall|i: int, j: int| 0 <= i < j < s.len() ==> s[i].id@ != s[j].id@
}

proof fn lemma_entries_map_domain(s: Seq<PresenceEntry>)
    ensures
        entries_map(s).dom().finite(),
        forall|k: Seq<char>| #[trigger]
            entries_map(s).contains_key(k) <==> exists|i: int| 0 <= i < s.len() && s[i].id@ == k,
    decreases s.len(),
{
    if s.len() > 0 {
        lemma_entries_map_domain(s.drop_last());
        assert forall|k: Seq<char>| #[trigger]
            entries_map(s).contains_key(k) implies exists|i: int| 0 <= i < s.len() && s[i].id@ == k by {
            if k != s.last().id@ {
                let i = choose|i: int| 0 <= i < s.len() - 1 && s.drop_last()[i].id@ == k;
                assert(s[i].id@ == k);
            } else {
                assert(s[s.len() - 1].id@ == k);
            }
        }
        assert forall|k: Seq<char>|
            (exists|i: int| 0 <= i < s.len() && s[i].id@ == k) implies #[trigger] entries_map(
            s,
        ).contains_key(k) by {
            let i = choose|i: int| 0 <= i < s.len() && s[i].id@ == k;
            if i < s.len() - 1 {
                assert(s.drop_last()[i].id@ == k);
            }
        }
    }
}

proof fn lemma_entries_map_len(s: Seq<PresenceEntry>)
    requires
        keys_unique(s),
    ensures
        entries_map(s).dom().len() == s.len(),
    decreases s.len(),
{
    if s.len() > 0 {
        let p = s.drop_last();
        lemma_entries_map_len(p);
        lemma_entries_map_domain(p);
        assert(!entries_map(p).contains_key(s.last().id@)) by {
            if entries_map(p).contains_key(s.last().id@) {
                let i = choose|i: int| 0 <= i < p.len() && p[i].id@ == s.last().id@;
                assert(s[i].id@ == s[s.len() - 1].id@);
            }
        }
    }
}

proof fn lemma_entries_map_get(s: Seq<PresenceEntry>, i: int)
    requires
        keys_unique(s),
        0 <= i < s.len(),
    ensures
        entries_map(s).contains_key(s[i].id@),
        entries_map(s)[s[i].id@] == s[i].last_seen,
    decreases s.len(),
{
    lemma_entries_map_domain(s);
    if i < s.len() - 1 {
        lemma_entries_map_get(s.drop_last(), i);
    }
}

proof fn lemma_entries_map_update(s: Seq<PresenceEntry>, i: int, e: PresenceEntry)
    requires
        keys_unique(s),
        0 <= i < s.len(),
        s[i].id@ == e.id@,
    ensures
        entries_map(s.update(i, e)) == entries_map(s).insert(e.id@, e.last_seen),
        keys_unique(s.update(i, e)),
    decreases s.len(),
{
    let t = s.update(i, e);
    if i == s.len() - 1 {
        assert(t.drop_last() =~= s.drop_last());
        lemma_entries_map_domain(s.drop_last());
        assert(!entries_map(s.drop_last()).contains_key(e.id@)) by {
            if entries_map(s.drop_last()).contains_key(e.id@) {
                let j = choose|j: int| 0 <= j < s.len() - 1 && s.drop_last()[j].id@ == e.id@;
                assert(s[j].id@ == s[i].id@);
            }
        }
        assert(entries_map(t) =~= entries_map(s).insert(e.id@, e.last_seen));
    } else {
        lemma_entries_map_update(s.drop_last(), i, e);
        assert(t.drop_last() =~= s.drop_last().update(i, e));
        assert(s.last().id@ != e.id@) by {
            assert(s[i].id@ != s[s.len() - 1].id@);
        }
        assert(entries_map(t) =~= entries_map(s).insert(e.id@, e.last_seen));
    }
}

proof fn lemma_entries_map_prepend(e: PresenceEntry, s: Seq<PresenceEntry>)
    requires
        !entries_map(s).contains_key(e.id@),
    ensures
        entries_map(seq![e] + s) == entries_map(s).insert(e.id@, e.last_seen),
    decreases s.len(),
{
    let t = seq![e] + s;
    if s.len() == 0 {
        assert(t.drop_last() =~= Seq::<PresenceEntry>::empty());
        assert(t.last() == e);
        assert(entries_map(t.drop_last()) == Map::<Seq<char>, u64>::empty());
        assert(entries_map(s) == Map::<Seq<char>, u64>::empty());
        assert(entries_map(t) =~= entries_map(s).insert(e.id@, e.last_seen));
    } else {
        let p = s.drop_last();
        assert(t.drop_last() =~= seq![e] + p);
        assert(!entries_map(p).contains_key(e.id@)) by {
            if entries_map(p).contains_key(e.id@) {
                assert(entries_map(s).contains_key(e.id@));
            }
        }
        lemma_entries_map_prepend(e, p);
        assert(t.last() == s.last());
        assert(e.id@ != s.last().id@);
        assert(entries_map(t) =~= entries_map(s).insert(e.id@, e.last_seen));
    }
}

/// One more entry, whose listener is not held yet, taken into a sweep.
proof fn lemma_swept_insert_new(m: Map<Seq<char>, u64>, k: Seq<char>, t: u64, now: u64)
    requires
        !m.contains_key(k),
    ensures
        is_live(t, now) ==> swept(m.insert(k, t), now) == swept(m, now).insert(k, t),
        !is_live(t, now) ==> swept(m.insert(k, t), now) == swept(m, now),
{
    if is_live(t, now) {
        assert(swept(m.insert(k, t), now) =~= swept(m, now).insert(k, t));
    } else {
        assert(swept(m.insert(k, t), now) =~= swept(m, now));
    }
}

impl View for PresenceRegistry {
    type V = Map<Seq<char>, u64>;

    closed spec fn view(&self) -> Map<Seq<char>, u64> {
        entries_map(self.entries@)
    }
}

impl PresenceRegistry {
    /// Each listener is held once.
    pub closed spec fn wf(&self) -> bool {
        keys_unique(self.entries@)
    }

    /// A registry with nobody in it.
    pub fn new() -> (r: PresenceRegistry)
        ensures
            r.wf(),
            r@ == Map::<Seq<char>, u64>::empty(),
            r@.dom().finite(),
    {
        PresenceRegistry { entries: Vec::new() }
    }

    /// The number of listeners held, stale or not.
    pub fn len(&self) -> (r: usize)
        requires
            self.wf(),
        ensures
            r == self@.dom().len(),
    {
        proof {
            lemma_entries_map_len(self.entries@);
        }
        self.entries.len()
    }

    /// Records that `id` was seen at `now`, replacing any earlier time.
    pub fn touch(&mut self, id: ListenerId, now: u64)
        requires
            old(self).wf(),
        ensures
            final(self).wf(),
            final(self)@ == old(self)@.insert(id@, now),
            final(self)@.dom().finite(),
    {
        let mut i: usize = 0;
        while i < self.entries.len()
            invariant
                self.wf(),
                self@ == old(self)@,
                0 <= i <= self.entries.len(),
                forall|j: int| 0 <= j < i ==> self.entries@[j].id@ != id@,
            decreases self.entries.len() - i,
        {
            if self.entries[i].id.same_as(&id) {
                let e = PresenceEntry { id, last_seen: now };
                proof {
                    lemma_entries_map_update(self.entries@, i as int, e);
                }
                self.entries.set(i, e);
                proof {
                    lemma_entries_map_domain(self.entries@);
                }
                return;
            }
            i = i + 1;
        }
        let e = PresenceEntry { id, last_seen: now };
        proof {
            assert(self.entries@.push(e).drop_last() =~= self.entries@);
        }
        self.entries.push(e);
        proof {
            lemma_entries_map_domain(self.entries@);
        }
    }

    /// Removes every listener last seen a TTL or more before `now`, and
    /// returns how many remain.
    pub fn sweep(&mut self, now: u64) -> (r: usize)
        requires
            old(self).wf(),
        ensures
            final(self).wf(),
            final(self)@ == swept(old(self)@, now),
            final(self)@.dom().finite(),
            forall|k: Seq<char>| #[trigger]
                final(self)@.contains_key(k) ==> is_live(final(self)@[k], now),
            r == final(self)@.dom().len(),
    {
        let ghost orig = self.entries@;
        let mut rest: Vec<PresenceEntry> = Vec::new();
        std::mem::swap(&mut rest, &mut self.entries);
        let mut kept: Vec<PresenceEntry> = Vec::new();
        proof {
            assert(orig.subrange(orig.len() as int, orig.len() as int)
                =~= Seq::<PresenceEntry>::empty());
            assert(swept(Map::empty(), now) =~= Map::empty());
        }
        while rest.len() > 0
            invariant
                keys_unique(orig),
                keys_unique(kept@),
                rest.len() <= orig.len(),
                rest@ == orig.subrange(0, rest.len() as int),
                entries_map(kept@) == swept(
                    entries_map(orig.subrange(rest.len() as int, orig.len() as int)),
                    now,
                ),
            decreases rest.len(),
        {
            let ghost done = orig.subrange(rest.len() as int, orig.len() as int);
            let e = rest.pop().unwrap();
            let ghost i = rest.len() as int;
            proof {
                assert(e == orig[i]);
                assert(orig.subrange(i, orig.len() as int) =~= seq![e] + done);
                lemma_entries_map_domain(done);
                lemma_entries_map_domain(kept@);
                assert(!entries_map(done).contains_key(e.id@)) by {
                    if entries_map(done).contains_key(e.id@) {
                        let j = choose|j: int| 0 <= j < done.len() && done[j].id@ == e.id@;
                        assert(orig[i + 1 + j] == done[j]);
                    }
                }
                lemma_entries_map_prepend(e, done);
                lemma_swept_insert_new(entries_map(done), e.id@, e.last_seen, now);
            }
            if now < e.last_seen || now - e.last_seen < PRESENCE_TTL_NANOS {
                proof {
                    assert forall|j: int| 0 <= j < kept@.len() implies kept@[j].id@ != e.id@ by {
                        assert(entries_map(kept@).contains_key(kept@[j].id@));
                    }
                }
                let ghost before = kept@;
                kept.push(e);
                proof {
                    assert(kept@.drop_last() =~= before);
                }
            }
        }
        proof {
            assert(orig.subrange(0, orig.len() as int) =~= orig);
        }
        self.entries = kept;
        proof {
            lemma_entries_map_len(self.entries@);
            lemma_entries_map_domain(self.entries@);
        }
        self.entries.len()
    }

    /// The time `id` was last seen, if it is held.
    pub fn last_seen(&self, id: &ListenerId) -> (r: Option<u64>)
        requires
            self.wf(),
        ensures
            self@.contains_key(id@) ==> r == Some(self@[id@]),
            !self@.contains_key(id@) ==> r is None,
    {
        proof {
            lemma_entries_map_domain(self.entries@);
        }
        let mut i: usize = 0;
        while i < self.entries.len()
            invariant
                self.wf(),
                0 <= i <= self.entries.len(),
                forall|j: int| 0 <= j < i ==> self.entries@[j].id@ != id@,
            decreases self.entries.len() - i,
        {
            if self.entries[i].id.same_as(id) {
                proof {
                    lemma_entries_map_get(self.entries@, i as int);
                }
                return Some(self.entries[i].last_seen);
            }
            i = i + 1;
        }
        None
    }

    /// One request's visit: records its listener, if it names one, at `now`,
    /// then sweeps, and returns how many listeners remain.
    pub fn record_visit(&mut self, id: Option<ListenerId>, now: u64) -> (r: usize)
        requires
            old(self).wf(),
        ensures
            final(self).wf(),
            id matches Some(i) ==> final(self)@ == swept(old(self)@.insert(i@, now), now),
            id is None ==> final(self)@ == swept(old(self)@, now),
            final(self)@.dom().finite(),
            r == final(self)@.dom().len(),
    {
        match id {
            Some(i) => self.touch(i, now),
            None => {},
        }
        self.sweep(now)
    }
}

/// The registry that a run of visits leaves behind when started from `m`:
/// the `i`-th listener is touched at the `i`-th time, in order.
pub open spec fn after_touches(m: Map<Seq<char>, u64>, ids: Seq<Seq<char>>, times: Seq<u64>) -> Map<
    Seq<char>,
    u64,
>
    decreases ids.len(),
{
    if ids.len() == 0 || times.len() == 0 {
        m
    } else {
        after_touches(m, ids.drop_last(), times.drop_last()).insert(ids.last(), times.last())
    }
}

/// How many of `times` are recent enough to count at `now`.
pub open spec fn live_count(times: Seq<u64>, now: u64) -> nat
    decreases times.len(),
{
    if times.len() == 0 {
        0
    } else {
        live_count(times.drop_last(), now) + if is_live(times.last(), now) {
            1nat
        } else {
            0nat
        }
    }
}

proof fn lemma_swept_finite(m: Map<Seq<char>, u64>, now: u64)
    requires
        m.dom().finite(),
    ensures
        swept(m, now).dom().finite(),
        swept(m, now).dom().subset_of(m.dom()),
{
    vstd::set_lib::lemma_set_subset_finite(m.dom(), swept(m, now).dom());
}

/// Sweeping right after a run of visits by distinct listeners, starting from
/// an empty registry, leaves exactly those listeners whose visit lies within
/// the TTL of the sweep.
pub proof fn lemma_sweep_counts_recent_touches(ids: Seq<Seq<char>>, times: Seq<u64>, now: u64)
    requires
        ids.no_duplicates(),
        ids.len() == times.len(),
    ensures
        after_touches(Map::empty(), ids, times).dom().finite(),
        swept(after_touches(Map::empty(), ids, times), now).dom().finite(),
        swept(after_touches(Map::empty(), ids, times), now).dom().len() == live_count(times, now),
        forall|k: Seq<char>| #[trigger]
            after_touches(Map::empty(), ids, times).contains_key(k) ==> ids.contains(k),
    decreases ids.len(),
{
    let m = after_touches(Map::empty(), ids, times);
    if ids.len() == 0 {
        assert(swept(m, now) =~= Map::empty());
    } else {
        let ids0 = ids.drop_last();
        let times0 = times.drop_last();
        let m0 = after_touches(Map::empty(), ids0, times0);
        assert(ids0.no_duplicates()) by {
            assert forall|i: int, j: int| 0 <= i < ids0.len() && 0 <= j < ids0.len() && i != j
                implies ids0[i] != ids0[j] by {
                assert(ids0[i] == ids[i] && ids0[j] == ids[j]);
            }
        }
        lemma_sweep_counts_recent_touches(ids0, times0, now);
        let k = ids.last();
        assert(!m0.contains_key(k)) by {
            if m0.contains_key(k) {
                let i = choose|i: int| 0 <= i < ids0.len() && ids0[i] == k;
                assert(ids[i] == ids[ids.len() - 1]);
            }
        }
        lemma_swept_insert_new(m0, k, times.last(), now);
        lemma_swept_finite(m0, now);
        lemma_swept_finite(m, now);
        assert forall|x: Seq<char>| #[trigger] m.contains_key(x) implies ids.contains(x) by {
            if x == k {
                assert(ids[ids.len() - 1] == x);
            } else {
                let i = choose|i: int| 0 <= i < ids0.len() && ids0[i] == x;
                assert(ids[i] == x);
            }
        }
    }
}

/// A listener touched at `t` survives a sweep at `now` exactly when less
/// than the TTL separates the two: it is kept just before the TTL has
/// passed and gone once it has.
pub proof fn lemma_presence_boundary(m: Map<Seq<char>, u64>, id: Seq<char>, t: u64, now: u64)
    ensures
        now < t + PRESENCE_TTL_NANOS ==> swept(m.insert(id, t), now).contains_key(id),
        now >= t + PRESENCE_TTL_NANOS ==> !swept(m.insert(id, t), now).contains_key(id),
{
}

/// A second sweep at the same time changes nothing, so it reports the same
/// count as the first.
pub proof fn lemma_sweep_idempotent(m: Map<Seq<char>, u64>, now: u64)
    requires
        m.dom().finite(),
    ensures
        swept(swept(m, now), now) == swept(m, now),
        swept(swept(m, now), now).dom().len() == swept(m, now).dom().len(),
{
    assert(swept(swept(m, now), now) =~= swept(m, now));
}

proof fn lemma_live_count_all(times: Seq<u64>, now: u64)
    requires
        forall|i: int| 0 <= i < times.len() ==> is_live(#[trigger] times[i], now),
    ensures
        live_count(times, now) == times.len(),
    decreases times.len(),
{
    if times.len() > 0 {
        let t0 = times.drop_last();
        assert forall|i: int| 0 <= i < t0.len() implies is_live(#[trigger] t0[i], now) by {
            assert(t0[i] == times[i]);
        }
        lemma_live_count_all(t0, now);
        assert(is_live(times[times.len() - 1], now));
    }
}

/// Visits by `n` distinct listeners, in whatever order the registry's lock
/// lets them through, are all counted by a sweep that comes within the TTL
/// of each of them: none is lost.
pub proof fn lemma_no_visit_lost(ids: Seq<Seq<char>>, times: Seq<u64>, now: u64)
    requires
        ids.no_duplicates(),
        ids.len() == times.len(),
        forall|i: int| 0 <= i < times.len() ==> #[trigger] times[i] <= now && now - times[i] < PRESENCE_TTL_NANOS,
    ensures
        swept(after_touches(Map::empty(), ids, times), now).dom().len() == ids.len(),
{
    assert forall|i: int| 0 <= i < times.len() implies is_live(#[trigger] times[i], now) by {}
    lemma_live_count_all(times, now);
    lemma_sweep_counts_recent_touches(ids, times, now);
}

} // verus!
