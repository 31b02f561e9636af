//! Chunk registry: the concurrency-safe bookkeeping (the caller holds
//! the lock) from an upload identifier to the ordered slot list of
//! chunk digests uploaded under it, together with the deadline after
//! which an unmerged entry may be reclaimed.
//!
//! Per identifier the lifecycle is absent, then active from the first
//! recorded chunk, and finally merged or expired, both of which remove
//! the entry; the identifier may then start a fresh lifecycle.

use vstd::prelude::*;

use crate::UploadError;

verus! {

/// Digest sentinel held by a slot that no chunk has filled yet.
pub open spec fn empty_slot() -> Seq<char> {
    "empty"@
}

/// A fresh slot list of `n` sentinel entries.
pub open spec fn empty_slots(n: nat) -> Seq<Seq<char>> {
    Seq::new(n, |i: int| empty_slot())
}

/// Mathematical content of one registry entry: the slot list and the
/// moment (seconds, caller's clock) at which the entry expires.
#[verifier::ext_equal]
pub struct EntryModel {
    pub slots: Seq<Seq<char>>,
    pub deadline: u64,
}

/// Whether writing slot `index` is within bounds: against the
/// existing slot list if `id` is active, else against the count the
/// first chunk declares.
pub open spec fn slot_in_range(
    pre: Map<Seq<char>, EntryModel>,
    id: Seq<char>,
    index: int,
    declared_count: int,
) -> bool {
    if pre.contains_key(id) {
        index < pre[id].slots.len()
    } else {
        index < declared_count
    }
}

/// The registry map after one in-range slot write: the digest lands in
/// slot `index` of the identifier's slot list, which is first
/// allocated (all sentinel, expiring at `deadline_if_new`) if the
/// identifier was absent.
pub open spec fn with_recorded_digest(
    pre: Map<Seq<char>, EntryModel>,
    id: Seq<char>,
    index: int,
    declared_count: int,
    digest: Seq<char>,
    deadline_if_new: u64,
) -> Map<Seq<char>, EntryModel> {
    if pre.contains_key(id) {
        pre.insert(
            id,
            EntryModel { slots: pre[id].slots.update(index, digest), deadline: pre[id].deadline },
        )
    } else {
        pre.insert(
            id,
            EntryModel {
                slots: empty_slots(declared_count as nat).update(index, digest),
                deadline: deadline_if_new,
            },
        )
    }
}

struct RegistryEntry {
    identifier: String,
    slots: Vec<String>,
    deadline: u64,
}

impl RegistryEntry {
    spec fn model(self) -> EntryModel {
        EntryModel { slots: self.slots.deep_view(), deadline: self.deadline }
    }
}

spec fn ids_unique(s: Seq<RegistryEntry>) -> bool {
    forall|i: int, j: int|
        0 <= i < j < s.len() ==> s[i].identifier@ != s[j].identifier@
}

spec fn entry_map(s: Seq<RegistryEntry>) -> Map<Seq<char>, EntryModel>
    decreases s.len(),
{
    if s.len() == 0 {
        Map::empty()
    } else {
        entry_map(s.drop_last()).insert(s.last().identifier@, s.last().model())
    }
}

proof fn lemma_entry_map_contains(s: Seq<RegistryEntry>, id: Seq<char>)
    ensures
        entry_map(s).contains_key(id) <==> exists|i: int|
            0 <= i < s.len() && s[i].identifier@ == id,
    decreases s.len(),
{
    if s.len() > 0 {
        lemma_entry_map_contains(s.drop_last(), id);
        if s.last().identifier@ == id {
            assert(s[s.len() - 1].identifier@ == id);
        } else if entry_map(s).contains_key(id) {
            let i = choose|i: int| 0 <= i < s.drop_last().len() && s.drop_last()[i].identifier@ == id;
            assert(s[i].identifier@ == id);
        } else if exists|i: int| 0 <= i < s.len() && s[i].identifier@ == id {
            let i = choose|i: int| 0 <= i < s.len() && s[i].identifier@ == id;
            assert(i < s.len() - 1);
            assert(s.drop_last()[i].identifier@ == id);
        }
    }
}

proof fn lemma_entry_map_index(s: Seq<RegistryEntry>, i: int)
    requires
        ids_unique(s),
        0 <= i < s.len(),
    ensures
        entry_map(s).contains_key(s[i].identifier@),
        entry_map(s)[s[i].identifier@] == s[i].model(),
    decreases s.len(),
{
    if i < s.len() - 1 {
        assert(s.drop_last()[i] == s[i]);
        lemma_entry_map_index(s.drop_last(), i);
        assert(s[i].identifier@ != s.last().identifier@);
    }
}

proof fn lemma_entry_map_update(s: Seq<RegistryEntry>, i: int, e: RegistryEntry)
    requires
        ids_unique(s),
        0 <= i < s.len(),
        e.identifier@ == s[i].identifier@,
    ensures
        entry_map(s.update(i, e)) == entry_map(s).insert(e.identifier@, e.model()),
        ids_unique(s.update(i, e)),
    decreases s.len(),
{
    let t = s.update(i, e);
    assert(t.last() == if i == s.len() - 1 { e } else { s.last() });
    if i == s.len() - 1 {
        assert(t.drop_last() =~= s.drop_last());
        assert(entry_map(t) =~= entry_map(s).insert(e.identifier@, e.model()));
    } else {
        assert(t.drop_last() =~= s.drop_last().update(i, e));
        lemma_entry_map_update(s.drop_last(), i, e);
        assert(e.identifier@ != s.last().identifier@);
        assert(entry_map(t) =~= entry_map(s).insert(e.identifier@, e.model()));
    }
}

proof fn lemma_entry_map_push(s: Seq<RegistryEntry>, e: RegistryEntry)
    requires
        ids_unique(s),
        forall|i: int| 0 <= i < s.len() ==> s[i].identifier@ != e.identifier@,
    ensures
        entry_map(s.push(e)) == entry_map(s).insert(e.identifier@, e.model()),
        ids_unique(s.push(e)),
{
    assert(s.push(e).drop_last() =~= s);
    assert(s.push(e).last() == e);
    assert(entry_map(s.push(e)) == entry_map(s).insert(e.identifier@, e.model()));
}

proof fn lemma_entry_map_remove(s: Seq<RegistryEntry>, i: int)
    requires
        ids_unique(s),
        0 <= i < s.len(),
    ensures
        entry_map(s.remove(i)) == entry_map(s).remove(s[i].identifier@),
        ids_unique(s.remove(i)),
    decreases s.len(),
{
    let t = s.remove(i);
    lemma_entry_map_contains(s.drop_last(), s[i].identifier@);
    if i == s.len() - 1 {
        assert(t =~= s.drop_last());
        assert(!entry_map(s.drop_last()).contains_key(s[i].identifier@));
        assert(entry_map(t) =~= entry_map(s).remove(s[i].identifier@));
    } else {
        assert(t.drop_last() =~= s.drop_last().remove(i));
        assert(t.last() == s.last());
        lemma_entry_map_remove(s.drop_last(), i);
        assert(s[i].identifier@ != s.last().identifier@);
        assert(entry_map(t) =~= entry_map(s).remove(s[i].identifier@));
    }
}

/// The registry map itself.  One lives behind one lock for the whole
/// process; every operation below is one critical section.
pub struct ChunkRegistry {
    entries: Vec<RegistryEntry>,
    survival_secs: u64,
}

impl View for ChunkRegistry {
    type V = Map<Seq<char>, EntryModel>;

    closed spec fn view(&self) -> Map<Seq<char>, EntryModel> {
        entry_map(self.entries@)
    }
}

impl ChunkRegistry {
    /// Seconds a newly created entry survives without a merge.
    pub closed spec fn survival(&self) -> u64 {
        self.survival_secs
    }

    /// Internal consistency: no identifier owns two entries.
    pub closed spec fn wf(&self) -> bool {
        ids_unique(self.entries@)
    }

    /// An empty registry whose entries survive `survival_secs` seconds.
    pub fn new(survival_secs: u64) -> (r: ChunkRegistry)
        ensures
            r.wf(),
            r@ == Map::<Seq<char>, EntryModel>::empty(),
            r.survival() == survival_secs,
    {
        ChunkRegistry { entries: Vec::new(), survival_secs }
    }

    /// Index of the entry owning `identifier`, if any.
    fn find_entry(&self, identifier: &str) -> (r: Option<usize>)
        ensures
            match r {
                Some(i) => i < self.entries@.len()
                    && self.entries@[i as int].identifier@ == identifier@,
                None => forall|j: int|
                    0 <= j < self.entries@.len() ==> self.entries@[j].identifier@ != identifier@,
            },
    {
        let wanted = String::from_str(identifier);
        let n = self.entries.len();
        let mut i: usize = 0;
        while i < n
            invariant
                n == self.entries@.len(),
                i <= n,
                wanted@ == identifier@,
                forall|j: int| 0 <= j < i ==> self.entries@[j].identifier@ != identifier@,
            decreases n - i,
        {
            if self.entries[i].identifier == wanted {
                return Some(i);
            }
            i = i + 1;
        }
        None
    }

    /// Whether `identifier` currently owns an entry.
    pub fn contains(&self, identifier: &str) -> (r: bool)
        ensures
            r == self@.contains_key(identifier@),
    {
        proof {
            lemma_entry_map_contains(self.entries@, identifier@);
        }
        self.find_entry(identifier).is_some()
    }

    /// Records that the chunk with `digest` fills slot `index`.
    ///
    /// On the first chunk of an unknown identifier the slot list is
    /// allocated with `declared_count` sentinel slots and the entry's
    /// expiry deadline is set `survival()` seconds past `now`; the
    /// returned flag says that this happened, so the caller can arm
    /// its reclamation timer once per entry.  Out-of-order and repeated
    /// indices are supported: the slot is overwritten in place,
    /// last write wins.  An index past the end of the slot list is
    /// rejected and mutates nothing.
    pub fn record_digest(
        &mut self,
        identifier: &str,
        index: usize,
        declared_count: usize,
        digest: &str,
        now: u64,
    ) -> (r: Result<bool, UploadError>)
        requires
            old(self).wf(),
            now + old(self).survival() <= u64::MAX,
        ensures
            final(self).wf(),
            final(self).survival() == old(self).survival(),
            match r {
                Ok(created) => {
                    &&& created == !old(self)@.contains_key(identifier@)
                    &&& slot_in_range(old(self)@, identifier@, index as int, declared_count as int)
                    &&& final(self)@ == with_recorded_digest(
                        old(self)@,
                        identifier@,
                        index as int,
                        declared_count as int,
                        digest@,
                        (now + old(self).survival()) as u64,
                    )
                },
                Err(e) => {
                    &&& e == UploadError::IndexOutOfRange
                    &&& final(self)@ == old(self)@
                    &&& !slot_in_range(old(self)@, identifier@, index as int, declared_count as int)
                },
            },
    {
        proof {
            lemma_entry_map_contains(self.entries@, identifier@);
        }
        match self.find_entry(identifier) {
            Some(i) => {
                proof {
                    lemma_entry_map_index(self.entries@, i as int);
                }
                let mut entry = self.entries.remove(i);
                if index >= entry.slots.len() {
                    self.entries.insert(i, entry);
                    assert(self.entries@ =~= old(self).entries@);
                    return Err(UploadError::IndexOutOfRange);
                }
                let ghost old_slots = entry.slots.deep_view();
                entry.slots.remove(index);
                entry.slots.insert(index, String::from_str(digest));
                assert(entry.slots.deep_view() =~= old_slots.update(index as int, digest@));
                self.entries.insert(i, entry);
                proof {
                    assert(self.entries@ =~= old(self).entries@.update(i as int, entry));
                    lemma_entry_map_update(old(self).entries@, i as int, entry);
                    assert(self@ =~~= old(self)@.insert(
                        identifier@,
                        EntryModel {
                            slots: old(self)@[identifier@].slots.update(index as int, digest@),
                            deadline: old(self)@[identifier@].deadline,
                        },
                    ));
                }
                Ok(false)
            },
            None => {
                if index >= declared_count {
                    return Err(UploadError::IndexOutOfRange);
                }
                let mut slots: Vec<String> = Vec::new();
                let mut k: usize = 0;
                while k < declared_count
                    invariant
                        k <= declared_count,
                        slots.deep_view() =~= empty_slots(k as nat),
                    decreases declared_count - k,
                {
                    slots.push(String::from_str("empty"));
                    assert(slots.deep_view() =~= empty_slots(k as nat).push(empty_slot()));
                    assert(empty_slots(k as nat).push(empty_slot()) =~= empty_slots((k + 1) as nat));
                    k = k + 1;
                }
                slots.remove(index);
                slots.insert(index, String::from_str(digest));
                assert(slots.deep_view() =~= empty_slots(declared_count as nat).update(
                    index as int,
                    digest@,
                ));
                let entry = RegistryEntry {
                    identifier: String::from_str(identifier),
                    slots,
                    deadline: now + self.survival_secs,
                };
                proof {
                    lemma_entry_map_push(self.entries@, entry);
                }
                self.entries.push(entry);
                assert(self@ =~~= old(self)@.insert(
                    identifier@,
                    EntryModel {
                        slots: empty_slots(declared_count as nat).update(index as int, digest@),
                        deadline: (now + old(self).survival()) as u64,
                    },
                ));
                Ok(true)
            },
        }
    }

    /// Read-only snapshot of the slot list for progress polling: the
    /// digests in slot order, or the empty vector for an identifier
    /// that is unknown (never an error, so clients can always poll).
    pub fn list_slots(&self, identifier: &str) -> (r: Vec<String>)
        requires
            self.wf(),
        ensures
            r.deep_view() == if self@.contains_key(identifier@) {
                self@[identifier@].slots
            } else {
                Seq::<Seq<char>>::empty()
            },
    {
        proof {
            lemma_entry_map_contains(self.entries@, identifier@);
        }
        match self.find_entry(identifier) {
            Some(i) => {
                proof {
                    lemma_entry_map_index(self.entries@, i as int);
                }
                clone_digests(&self.entries[i].slots)
            },
            None => {
                let r: Vec<String> = Vec::new();
                assert(r.deep_view() =~= Seq::<Seq<char>>::empty());
                r
            },
        }
    }

    /// The slot list handed to the reassembler, `None` for an unknown
    /// identifier.  Unfilled slots still hold the sentinel: merging
    /// anyway is a caller error that surfaces when no chunk exists
    /// under the sentinel key, deliberately not pre-validated here.
    pub fn take_for_merge(&self, identifier: &str) -> (r: Option<Vec<String>>)
        requires
            self.wf(),
        ensures
            match r {
                Some(v) => self@.contains_key(identifier@) && v.deep_view()
                    == self@[identifier@].slots,
                None => !self@.contains_key(identifier@),
            },
    {
        proof {
            lemma_entry_map_contains(self.entries@, identifier@);
        }
        match self.find_entry(identifier) {
            Some(i) => {
                proof {
                    lemma_entry_map_index(self.entries@, i as int);
                }
                Some(clone_digests(&self.entries[i].slots))
            },
            None => None,
        }
    }

    /// Deletes the entry; an absent identifier is an idempotent no-op.
    pub fn remove(&mut self, identifier: &str) -> (r: bool)
        requires
            old(self).wf(),
        ensures
            final(self).wf(),
            final(self).survival() == old(self).survival(),
            r == old(self)@.contains_key(identifier@),
            final(self)@ == old(self)@.remove(identifier@),
    {
        proof {
            lemma_entry_map_contains(self.entries@, identifier@);
        }
        match self.find_entry(identifier) {
            Some(i) => {
                proof {
                    lemma_entry_map_remove(self.entries@, i as int);
                }
                self.entries.remove(i);
                assert(self@ =~~= old(self)@.remove(identifier@));
                true
            },
            None => {
                assert(self@ =~~= old(self)@.remove(identifier@));
                false
            },
        }
    }

    /// Reclamation step for one identifier, run when its survival
    /// window may have elapsed.  Only an entry that still exists and
    /// whose deadline has passed is removed; the returned digests name
    /// the chunk files the caller must delete.  A merge that already
    /// removed the entry makes this a no-op, so the race between a
    /// late reclamation and a merge is settled by whoever holds the
    /// lock first.
    pub fn expire_entry(&mut self, identifier: &str, now: u64) -> (r: Option<Vec<String>>)
        requires
            old(self).wf(),
        ensures
            final(self).wf(),
            final(self).survival() == old(self).survival(),
            match r {
                Some(v) => {
                    &&& old(self)@.contains_key(identifier@)
                    &&& old(self)@[identifier@].deadline <= now
                    &&& v.deep_view() == old(self)@[identifier@].slots
                    &&& final(self)@ == old(self)@.remove(identifier@)
                },
                None => {
                    &&& final(self)@ == old(self)@
                    &&& old(self)@.contains_key(identifier@)
                        ==> old(self)@[identifier@].deadline > now
                },
            },
    {
        proof {
            lemma_entry_map_contains(self.entries@, identifier@);
        }
        match self.find_entry(identifier) {
            Some(i) => {
                proof {
                    lemma_entry_map_index(self.entries@, i as int);
                }
                if self.entries[i].deadline <= now {
                    let digests = clone_digests(&self.entries[i].slots);
                    proof {
                        lemma_entry_map_remove(self.entries@, i as int);
                    }
                    self.entries.remove(i);
                    assert(self@ =~~= old(self)@.remove(identifier@));
                    Some(digests)
                } else {
                    None
                }
            },
            None => None,
        }
    }
}

/// A slot list after a sequence of slot writes, each the pair of an
/// index and the digest written there, applied first to last.
pub open spec fn apply_slot_writes(
    init: Seq<Seq<char>>,
    writes: Seq<(int, Seq<char>)>,
) -> Seq<Seq<char>>
    decreases writes.len(),
{
    if writes.len() == 0 {
        init
    } else {
        apply_slot_writes(init, writes.drop_last()).update(writes.last().0, writes.last().1)
    }
}

/// Position in `writes` of the last write to slot `i`, `-1` when the
/// slot was never written.
pub open spec fn last_write_to(writes: Seq<(int, Seq<char>)>, i: int) -> int
    decreases writes.len(),
{
    if writes.len() == 0 {
        -1
    } else if writes.last().0 == i {
        writes.len() - 1
    } else {
        last_write_to(writes.drop_last(), i)
    }
}

/// Law: however chunk writes arrive — out of order, with repeats —
/// each slot ends up holding the digest of the last write to its
/// index, and the slot list keeps its length.  Each accepted chunk
/// performs exactly one such write (see `with_recorded_digest`), so
/// once every index has been written at least once, the slot list
/// handed to the reassembler holds the last-written digest at each
/// index, in index order.
pub proof fn lemma_slot_writes_last_wins(
    init: Seq<Seq<char>>,
    writes: Seq<(int, Seq<char>)>,
    i: int,
)
    requires
        forall|k: int| 0 <= k < writes.len() ==> 0 <= (#[trigger] writes[k]).0 < init.len(),
        0 <= i < init.len(),
    ensures
        apply_slot_writes(init, writes).len() == init.len(),
        apply_slot_writes(init, writes)[i] == if last_write_to(writes, i) >= 0 {
            writes[last_write_to(writes, i)].1
        } else {
            init[i]
        },
    decreases writes.len(),
{
    if writes.len() > 0 {
        let prev = writes.drop_last();
        assert(forall|k: int| 0 <= k < prev.len() ==> prev[k] == writes[k]);
        lemma_slot_writes_last_wins(init, prev, i);
        lemma_last_write_to_bounds(prev, i);
        let f = apply_slot_writes(init, writes);
        let p = apply_slot_writes(init, prev);
        if writes.last().0 == i {
            assert(last_write_to(writes, i) == writes.len() - 1);
            assert(f[i] == writes.last().1);
            assert(writes[writes.len() - 1] == writes.last());
        } else {
            assert(f[i] == p[i]);
            assert(last_write_to(writes, i) == last_write_to(prev, i));
            if last_write_to(prev, i) >= 0 {
                assert(writes[last_write_to(prev, i)] == prev[last_write_to(prev, i)]);
            }
        }
    }
}

/// Each accepted chunk of an active identifier performs exactly one
/// slot write, so runs of `record_digest` compose into
/// `apply_slot_writes` and fall under the law above.
pub proof fn lemma_record_is_one_write(
    pre: Map<Seq<char>, EntryModel>,
    id: Seq<char>,
    index: int,
    declared_count: int,
    digest: Seq<char>,
    deadline_if_new: u64,
)
    requires
        pre.contains_key(id),
    ensures
        with_recorded_digest(pre, id, index, declared_count, digest, deadline_if_new)[id].slots
            == apply_slot_writes(pre[id].slots, seq![(index, digest)]),
{
    let writes = seq![(index, digest)];
    assert(writes.len() == 1);
    assert(writes.last() == (index, digest));
    assert(writes.drop_last() =~= Seq::<(int, Seq<char>)>::empty());
    assert(apply_slot_writes(pre[id].slots, writes.drop_last()) == pre[id].slots);
    assert(apply_slot_writes(pre[id].slots, writes) == pre[id].slots.update(index, digest));
}

proof fn lemma_last_write_to_bounds(writes: Seq<(int, Seq<char>)>, i: int)
    ensures
        -1 <= last_write_to(writes, i) < writes.len(),
    decreases writes.len(),
{
    if writes.len() > 0 && writes.last().0 != i {
        lemma_last_write_to_bounds(writes.drop_last(), i);
    }
}

/// An exact element-for-element copy of a digest list.
fn clone_digests(v: &Vec<String>) -> (r: Vec<String>)
    ensures
        r.deep_view() == v.deep_view(),
{
    let n = v.len();
    let mut r: Vec<String> = Vec::new();
    let mut i: usize = 0;
    while i < n
        invariant
            n == v@.len(),
            i <= n,
            r.deep_view() =~= v.deep_view().take(i as int),
        decreases n - i,
    {
        let ghost prev = r.deep_view();
        let c = v[i].clone();
        assert(c@ == v.deep_view()[i as int]);
        r.push(c);
        assert(r.deep_view() =~= prev.push(c@));
        assert(r.deep_view() =~= v.deep_view().take(i + 1));
        i = i + 1;
    }
    assert(r.deep_view() =~= v.deep_view());
    r
}

} // verus!
