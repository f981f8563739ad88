//! The update log: one append-only structure logically partitioned by
//! collection id, with a per-collection sequence counter that assigns
//! strictly increasing ids at registration and is never reset, so an
//! id, once assigned, is never reused — not even after Delete All.

use vstd::prelude::*;
use crate::update::{UpdateError, UpdateMeta, UpdateRecord, UpdateStatus};

verus! {

/// The next sequence id recorded for collection `c` in the counter
/// table, scanning from position `i`; `1` where no counter exists yet.
pub open spec fn next_from(cs: Seq<(u128, u64)>, c: u128, i: int) -> u64
    decreases cs.len() - i,
{
    if i < 0 || i >= cs.len() {
        1
    } else if cs[i].0 == c {
        cs[i].1
    } else {
        next_from(cs, c, i + 1)
    }
}

/// The next sequence id for collection `c` under counter table `cs`.
pub open spec fn next_in(cs: Seq<(u128, u64)>, c: u128) -> u64 {
    next_from(cs, c, 0)
}

/// The statuses registered for collection `c`, in registration order.
pub open spec fn records_of(log: Seq<(u128, UpdateStatus)>, c: u128) -> Seq<UpdateStatus>
    decreases log.len(),
{
    if log.len() == 0 {
        Seq::empty()
    } else {
        let rest = records_of(log.drop_last(), c);
        if log.last().0 == c {
            rest.push(log.last().1)
        } else {
            rest
        }
    }
}

/// The first status registered for collection `c` under sequence id
/// `id`, scanning from position `i`.
pub open spec fn find_from(log: Seq<(u128, UpdateStatus)>, c: u128, id: u64, i: int) -> Option<
    UpdateStatus,
>
    decreases log.len() - i,
{
    if i < 0 || i >= log.len() {
        None
    } else if log[i].0 == c && log[i].1.spec_id() == id {
        Some(log[i].1)
    } else {
        find_from(log, c, id, i + 1)
    }
}

/// The status registered for collection `c` under sequence id `id`.
pub open spec fn find_record(log: Seq<(u128, UpdateStatus)>, c: u128, id: u64) -> Option<
    UpdateStatus,
> {
    find_from(log, c, id, 0)
}

/// The log with every entry of collection `c` removed.
pub open spec fn without_collection(log: Seq<(u128, UpdateStatus)>, c: u128) -> Seq<
    (u128, UpdateStatus),
>
    decreases log.len(),
{
    if log.len() == 0 {
        Seq::empty()
    } else {
        let rest = without_collection(log.drop_last(), c);
        if log.last().0 == c {
            rest
        } else {
            rest.push(log.last())
        }
    }
}

/// The entries of the named collections, in registration order.
pub open spec fn entries_of(log: Seq<(u128, UpdateStatus)>, cs: Seq<u128>) -> Seq<
    (u128, UpdateStatus),
>
    decreases log.len(),
{
    if log.len() == 0 {
        Seq::empty()
    } else {
        let rest = entries_of(log.drop_last(), cs);
        if cs.contains(log.last().0) {
            rest.push(log.last())
        } else {
            rest
        }
    }
}

/// The blob ids referenced by collection `c`'s registered payloads.
pub open spec fn payload_ids(log: Seq<(u128, UpdateStatus)>, c: u128) -> Seq<u128>
    decreases log.len(),
{
    if log.len() == 0 {
        Seq::empty()
    } else {
        let rest = payload_ids(log.drop_last(), c);
        if log.last().0 == c {
            match log.last().1.spec_record().payload {
                Some(id) => rest.push(id),
                None => rest,
            }
        } else {
            rest
        }
    }
}

/// The number of entries whose status is still `Enqueued`.
pub open spec fn count_enqueued(log: Seq<(u128, UpdateStatus)>) -> int
    decreases log.len(),
{
    if log.len() == 0 {
        0int
    } else {
        count_enqueued(log.drop_last()) + (if log.last().1 is Enqueued {
            1int
        } else {
            0int
        })
    }
}

/// Sequence ids strictly increase along the sequence.
pub open spec fn ids_increasing(s: Seq<UpdateStatus>) -> bool {
    forall|i: int, j: int| 0 <= i < j < s.len() ==> s[i].spec_id() < s[j].spec_id()
}

/// Every sequence id lies below `bound`.
pub open spec fn ids_bounded(s: Seq<UpdateStatus>, bound: u64) -> bool {
    forall|i: int| 0 <= i < s.len() ==> s[i].spec_id() < bound
}

/// The persistent update log as this core observes it: the registered
/// entries in registration order, and the per-collection counters.
pub struct UpdateStore {
    entries: Vec<(u128, UpdateStatus)>,
    counters: Vec<(u128, u64)>,
}

impl UpdateStore {
    /// The registered entries, in registration order.
    pub closed spec fn log(self) -> Seq<(u128, UpdateStatus)> {
        self.entries@
    }

    /// The sequence id the next registration for `c` will receive.
    pub closed spec fn next_seq(self, c: u128) -> u64 {
        next_in(self.counters@, c)
    }

    /// Well-formedness: per collection, registered ids strictly
    /// increase and stay below the collection's next counter, and no
    /// counter ever falls back below `1`.
    pub closed spec fn wf(self) -> bool {
        &&& forall|c: u128|
            ids_increasing(#[trigger] records_of(self.entries@, c)) && ids_bounded(
                records_of(self.entries@, c),
                next_in(self.counters@, c),
            )
        &&& forall|i: int| 0 <= i < self.counters@.len() ==> (#[trigger] self.counters@[i]).1 >= 1
    }

    /// Opens an empty update log: nothing registered, every
    /// collection's first sequence id will be `1`.
    pub fn new() -> (r: UpdateStore)
        ensures
            r.wf(),
            r.log() == Seq::<(u128, UpdateStatus)>::empty(),
            forall|c: u128| r.next_seq(c) == 1,
    {
        let r = UpdateStore { entries: Vec::new(), counters: Vec::new() };
        proof {
            assert(forall|c: u128| #[trigger] records_of(r.entries@, c) == Seq::<
                UpdateStatus,
            >::empty());
        }
        r
    }

    /// First position of collection `c` in the counter table.
    fn counter_index(cs: &Vec<(u128, u64)>, c: u128) -> (r: Option<usize>)
        ensures
            r matches Some(k) ==> k < cs@.len() && cs@[k as int].0 == c && (forall|j: int|
                0 <= j < k ==> cs@[j].0 != c),
            r is None ==> forall|j: int| 0 <= j < cs@.len() ==> cs@[j].0 != c,
    {
        let mut i: usize = 0;
        while i < cs.len()
            invariant
                0 <= i <= cs@.len(),
                forall|j: int| 0 <= j < i ==> cs@[j].0 != c,
            decreases cs@.len() - i,
        {
            if cs[i].0 == c {
                return Some(i);
            }
            i += 1;
        }
        None
    }

    proof fn lemma_next_from_first_index(cs: Seq<(u128, u64)>, c: u128, k: int, i: int)
        requires
            0 <= i <= k < cs.len(),
            cs[k].0 == c,
            forall|j: int| i <= j < k ==> cs[j].0 != c,
        ensures
            next_from(cs, c, i) == cs[k].1,
        decreases k - i,
    {
        if i < k {
            Self::lemma_next_from_first_index(cs, c, k, i + 1);
        }
    }

    proof fn lemma_next_from_absent(cs: Seq<(u128, u64)>, c: u128, i: int)
        requires
            0 <= i,
            forall|j: int| i <= j < cs.len() ==> cs[j].0 != c,
        ensures
            next_from(cs, c, i) == 1,
        decreases cs.len() - i,
    {
        if i < cs.len() {
            Self::lemma_next_from_absent(cs, c, i + 1);
        }
    }

    proof fn lemma_next_from_update(cs: Seq<(u128, u64)>, k: int, c: u128, v: u64, c2: u128, i: int)
        requires
            0 <= i <= cs.len(),
            0 <= k < cs.len(),
            cs[k].0 == c,
            forall|j: int| 0 <= j < k ==> cs[j].0 != c,
        ensures
            i <= k ==> next_from(cs.update(k, (c, v)), c, i) == v,
            c2 != c ==> next_from(cs.update(k, (c, v)), c2, i) == next_from(cs, c2, i),
        decreases cs.len() - i,
    {
        if i < cs.len() {
            Self::lemma_next_from_update(cs, k, c, v, c2, i + 1);
        }
    }

    proof fn lemma_next_from_push(cs: Seq<(u128, u64)>, c: u128, v: u64, c2: u128, i: int)
        requires
            0 <= i <= cs.len(),
            forall|j: int| 0 <= j < cs.len() ==> cs[j].0 != c,
        ensures
            next_from(cs.push((c, v)), c, i) == v,
            c2 != c ==> next_from(cs.push((c, v)), c2, i) == next_from(cs, c2, i),
        decreases cs.len() - i,
    {
        if i < cs.len() {
            Self::lemma_next_from_push(cs, c, v, c2, i + 1);
        } else {
            assert(cs.push((c, v))[cs.len() as int] == (c, v));
            assert(next_from(cs.push((c, v)), c2, cs.len() as int + 1) == 1);
        }
    }

    proof fn lemma_records_of_push(log: Seq<(u128, UpdateStatus)>, e: (u128, UpdateStatus))
        ensures
            records_of(log.push(e), e.0) == records_of(log, e.0).push(e.1),
            forall|c: u128|
                c != e.0 ==> #[trigger] records_of(log.push(e), c) == records_of(log, c),
    {
        assert(log.push(e).drop_last() == log);
        assert(log.push(e).last() == e);
        assert forall|c: u128| c != e.0 implies #[trigger] records_of(log.push(e), c)
            == records_of(log, c) by {
            assert(log.push(e).drop_last() == log);
        }
    }

    /// Registers one update for `uuid`: the log assigns the
    /// collection's next sequence id, appends an `Enqueued` record
    /// carrying `meta` and the optional payload reference `content`,
    /// and advances the counter, so ids grow strictly, without gaps,
    /// and are never reused.
    pub fn register_update(
        &mut self,
        meta: UpdateMeta,
        content: Option<u128>,
        uuid: u128,
    ) -> (r: Result<UpdateRecord, UpdateError>)
        requires
            old(self).wf(),
        ensures
            final(self).wf(),
            r is Ok <==> old(self).next_seq(uuid) < u64::MAX,
            r is Err ==> r == Err::<UpdateRecord, UpdateError>(UpdateError::SequenceExhausted)
                && final(self).log() == old(self).log() && (forall|c: u128|
                final(self).next_seq(c) == old(self).next_seq(c)),
            r matches Ok(rec) ==> rec.update_id == old(self).next_seq(uuid) && rec.meta == meta
                && rec.payload == content,
            r matches Ok(rec) ==> final(self).log() == old(self).log().push(
                (uuid, UpdateStatus::Enqueued(rec)),
            ),
            r matches Ok(rec) ==> final(self).next_seq(uuid) == rec.update_id + 1 && (
            forall|c: u128| c != uuid ==> final(self).next_seq(c) == old(self).next_seq(c)),
    {
        let idx = Self::counter_index(&self.counters, uuid);
        let next: u64 = match idx {
            Some(k) => {
                proof {
                    Self::lemma_next_from_first_index(self.counters@, uuid, k as int, 0);
                }
                self.counters[k].1
            },
            None => {
                proof {
                    Self::lemma_next_from_absent(self.counters@, uuid, 0);
                }
                1
            },
        };
        if next == u64::MAX {
            return Err(UpdateError::SequenceExhausted);
        }
        let rec = UpdateRecord { update_id: next, meta, payload: content };
        let ghost old_entries = self.entries@;
        let ghost old_counters = self.counters@;
        self.entries.push((uuid, UpdateStatus::Enqueued(rec)));
        match idx {
            Some(k) => {
                self.counters.set(k, (uuid, next + 1));
                proof {
                    assert forall|c2: u128|
                        next_in(self.counters@, c2) == if c2 == uuid {
                            (next + 1) as u64
                        } else {
                            next_in(old_counters, c2)
                        } by {
                        Self::lemma_next_from_update(old_counters, k as int, uuid, (next + 1) as u64, c2, 0);
                    }
                }
            },
            None => {
                self.counters.push((uuid, next + 1));
                proof {
                    assert forall|c2: u128|
                        next_in(self.counters@, c2) == if c2 == uuid {
                            (next + 1) as u64
                        } else {
                            next_in(old_counters, c2)
                        } by {
                        Self::lemma_next_from_push(old_counters, uuid, (next + 1) as u64, c2, 0);
                    }
                }
            },
        }
        proof {
            Self::lemma_records_of_push(old_entries, (uuid, UpdateStatus::Enqueued(rec)));
            assert forall|c: u128| ids_increasing(#[trigger] records_of(self.entries@, c))
                && ids_bounded(records_of(self.entries@, c), next_in(self.counters@, c)) by {
                if c == uuid {
                    let olds = records_of(old_entries, c);
                    let news = records_of(self.entries@, c);
                    assert(news == olds.push(UpdateStatus::Enqueued(rec)));
                    assert forall|i: int, j: int| 0 <= i < j < news.len() implies news[i].spec_id()
                        < news[j].spec_id() by {
                        if j < olds.len() {
                        } else {
                            assert(news[j] == UpdateStatus::Enqueued(rec));
                        }
                    }
                }
            }
        }
        Ok(rec)
    }

    /// Lists every status registered for `uuid`, in registration
    /// order.
    pub fn list(&self, uuid: u128) -> (r: Result<Vec<UpdateStatus>, UpdateError>)
        ensures
            r matches Ok(v) && v@ == records_of(self.log(), uuid),
    {
        let mut out: Vec<UpdateStatus> = Vec::new();
        let mut i: usize = 0;
        while i < self.entries.len()
            invariant
                0 <= i <= self.entries@.len(),
                out@ == records_of(self.entries@.take(i as int), uuid),
            decreases self.entries@.len() - i,
        {
            let e = self.entries[i];
            proof {
                assert(self.entries@.take(i + 1).drop_last() == self.entries@.take(i as int));
                assert(self.entries@.take(i + 1).last() == self.entries@[i as int]);
            }
            if e.0 == uuid {
                out.push(e.1);
            }
            i += 1;
        }
        proof {
            assert(self.entries@.take(self.entries@.len() as int) == self.entries@);
        }
        Ok(out)
    }

    /// Looks up the status registered for `uuid` under sequence id
    /// `id`; `None` where that id was never assigned for `uuid`.
    pub fn meta(&self, uuid: u128, id: u64) -> (r: Option<UpdateStatus>)
        ensures
            r == find_record(self.log(), uuid, id),
    {
        let mut i: usize = 0;
        while i < self.entries.len()
            invariant
                0 <= i <= self.entries@.len(),
                find_from(self.entries@, uuid, id, 0) == find_from(self.entries@, uuid, id, i as int),
            decreases self.entries@.len() - i,
        {
            let e = self.entries[i];
            if e.0 == uuid {
                let rec = e.1.record();
                if rec.update_id == id {
                    return Some(e.1);
                }
            }
            i += 1;
        }
        None
    }

    /// Removes every record of collection `uuid` from the log; the
    /// collection's counter is kept, so later registrations continue
    /// with fresh ids. Never fails, also where nothing is removed.
    pub fn delete_all(&mut self, uuid: u128) -> (r: Result<(), UpdateError>)
        requires
            old(self).wf(),
        ensures
            final(self).wf(),
            r is Ok,
            final(self).log() == without_collection(old(self).log(), uuid),
            forall|c: u128| final(self).next_seq(c) == old(self).next_seq(c),
    {
        let mut kept: Vec<(u128, UpdateStatus)> = Vec::new();
        let mut i: usize = 0;
        while i < self.entries.len()
            invariant
                0 <= i <= self.entries@.len(),
                self.entries@ == old(self).entries@,
                self.counters@ == old(self).counters@,
                kept@ == without_collection(self.entries@.take(i as int), uuid),
            decreases self.entries@.len() - i,
        {
            let e = self.entries[i];
            proof {
                assert(self.entries@.take(i + 1).drop_last() == self.entries@.take(i as int));
                assert(self.entries@.take(i + 1).last() == self.entries@[i as int]);
            }
            if e.0 != uuid {
                kept.push(e);
            }
            i += 1;
        }
        proof {
            assert(self.entries@.take(self.entries@.len() as int) == self.entries@);
        }
        self.entries = kept;
        proof {
            assert forall|c: u128| ids_increasing(#[trigger] records_of(self.entries@, c))
                && ids_bounded(records_of(self.entries@, c), next_in(self.counters@, c)) by {
                lemma_records_of_without(old(self).entries@, uuid, c);
            }
        }
        Ok(())
    }

    /// The blob ids referenced by collection `uuid`'s registered
    /// payloads, in registration order.
    pub fn collection_payload_ids(&self, uuid: u128) -> (r: Vec<u128>)
        ensures
            r@ == payload_ids(self.log(), uuid),
    {
        let mut out: Vec<u128> = Vec::new();
        let mut i: usize = 0;
        while i < self.entries.len()
            invariant
                0 <= i <= self.entries@.len(),
                out@ == payload_ids(self.entries@.take(i as int), uuid),
            decreases self.entries@.len() - i,
        {
            let e = self.entries[i];
            proof {
                assert(self.entries@.take(i + 1).drop_last() == self.entries@.take(i as int));
                assert(self.entries@.take(i + 1).last() == self.entries@[i as int]);
            }
            if e.0 == uuid {
                let rec = e.1.record();
                match rec.payload {
                    Some(id) => out.push(id),
                    None => (),
                }
            }
            i += 1;
        }
        proof {
            assert(self.entries@.take(self.entries@.len() as int) == self.entries@);
        }
        out
    }

    /// The entries of the named collections, in registration order:
    /// the consistent copy of their update state that a snapshot or a
    /// dump persists.
    pub fn selected_entries(&self, uuids: &Vec<u128>) -> (r: Vec<(u128, UpdateStatus)>)
        ensures
            r@ == entries_of(self.log(), uuids@),
    {
        let mut out: Vec<(u128, UpdateStatus)> = Vec::new();
        let mut i: usize = 0;
        while i < self.entries.len()
            invariant
                0 <= i <= self.entries@.len(),
                out@ == entries_of(self.entries@.take(i as int), uuids@),
            decreases self.entries@.len() - i,
        {
            let e = self.entries[i];
            proof {
                assert(self.entries@.take(i + 1).drop_last() == self.entries@.take(i as int));
                assert(self.entries@.take(i + 1).last() == self.entries@[i as int]);
            }
            if contains_id(uuids, e.0) {
                out.push(e);
            }
            i += 1;
        }
        proof {
            assert(self.entries@.take(self.entries@.len() as int) == self.entries@);
        }
        out
    }

    /// The number of registered updates still waiting to be applied.
    pub fn pending_count(&self) -> (r: u64)
        ensures
            r == count_enqueued(self.log()),
    {
        let mut n: u64 = 0;
        let mut i: usize = 0;
        while i < self.entries.len()
            invariant
                0 <= i <= self.entries@.len(),
                n == count_enqueued(self.entries@.take(i as int)),
                n <= i,
            decreases self.entries@.len() - i,
        {
            let e = self.entries[i];
            proof {
                assert(self.entries@.take(i + 1).drop_last() == self.entries@.take(i as int));
                assert(self.entries@.take(i + 1).last() == self.entries@[i as int]);
            }
            match e.1 {
                UpdateStatus::Enqueued(_) => {
                    n += 1;
                },
                _ => (),
            }
            i += 1;
        }
        proof {
            assert(self.entries@.take(self.entries@.len() as int) == self.entries@);
        }
        n
    }
}

/// Decides whether `x` is one of the ids in `v`.
pub fn contains_id(v: &Vec<u128>, x: u128) -> (r: bool)
    ensures
        r == v@.contains(x),
{
    let mut i: usize = 0;
    while i < v.len()
        invariant
            0 <= i <= v@.len(),
            forall|j: int| 0 <= j < i ==> v@[j] != x,
        decreases v@.len() - i,
    {
        if v[i] == x {
            return true;
        }
        i += 1;
    }
    false
}

/// Removing a collection removes exactly its records: afterwards that
/// collection lists empty, and every other collection lists unchanged.
pub proof fn lemma_records_of_without(log: Seq<(u128, UpdateStatus)>, c: u128, c2: u128)
    ensures
        records_of(without_collection(log, c), c2) == if c2 == c {
            Seq::<UpdateStatus>::empty()
        } else {
            records_of(log, c2)
        },
    decreases log.len(),
{
    if log.len() == 0 {
    } else {
        lemma_records_of_without(log.drop_last(), c, c2);
        let rest = without_collection(log.drop_last(), c);
        if log.last().0 == c {
        } else {
            assert(rest.push(log.last()).drop_last() == rest);
            assert(rest.push(log.last()).last() == log.last());
        }
    }
}

/// Delete All is idempotent: deleting a collection's records twice in
/// a row leaves exactly the state the first deletion left, and the
/// deleted collection's record set and referenced blob ids are empty
/// both times.
pub proof fn lemma_delete_all_idempotent(log: Seq<(u128, UpdateStatus)>, c: u128)
    ensures
        without_collection(without_collection(log, c), c) == without_collection(log, c),
        records_of(without_collection(log, c), c) == Seq::<UpdateStatus>::empty(),
        payload_ids(without_collection(log, c), c) == Seq::<u128>::empty(),
    decreases log.len(),
{
    if log.len() == 0 {
    } else {
        lemma_delete_all_idempotent(log.drop_last(), c);
        let rest = without_collection(log.drop_last(), c);
        if log.last().0 == c {
        } else {
            assert(rest.push(log.last()).drop_last() == rest);
            assert(rest.push(log.last()).last() == log.last());
        }
    }
}

/// Sequence ids listed for one collection are strictly increasing: no
/// repeats, and never out of order, in every well-formed store.
pub proof fn lemma_listed_ids_strictly_increasing(s: UpdateStore, uuid: u128)
    requires
        s.wf(),
    ensures
        ids_increasing(records_of(s.log(), uuid)),
        ids_bounded(records_of(s.log(), uuid), s.next_seq(uuid)),
{
}

/// A registered record can be found again under its id: `find_record`
/// returns a registered status, never a default or placeholder one.
pub proof fn lemma_find_record_is_registered(log: Seq<(u128, UpdateStatus)>, c: u128, id: u64)
    ensures
        find_record(log, c, id) matches Some(st) ==> log.contains((c, st)) && st.spec_id() == id,
        find_record(log, c, id) is None <==> !(exists|i: int|
            0 <= i < log.len() && log[i].0 == c && log[i].1.spec_id() == id),
{
    lemma_find_from_characterizes(log, c, id, 0);
}

proof fn lemma_find_from_characterizes(log: Seq<(u128, UpdateStatus)>, c: u128, id: u64, i: int)
    requires
        0 <= i,
    ensures
        find_from(log, c, id, i) matches Some(st) ==> log.contains((c, st)) && st.spec_id() == id,
        find_from(log, c, id, i) is None <==> !(exists|j: int|
            i <= j < log.len() && log[j].0 == c && log[j].1.spec_id() == id),
    decreases log.len() - i,
{
    if i < log.len() {
        if log[i].0 == c && log[i].1.spec_id() == id {
            assert(log[i] == (c, log[i].1));
        } else {
            lemma_find_from_characterizes(log, c, id, i + 1);
        }
    }
}

} // verus!
