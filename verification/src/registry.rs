//! The connection registry: a table of pending uploads keyed by their
//! generated code, with admission control, exclusive claiming and
//! sequence-checked reaping.
//!
//! All mutations are meant to run under one exclusion domain (the caller
//! holds the registry behind a single lock), so the contracts here describe
//! single steps of a linearized history.

use vstd::prelude::*;

verus! {

/// Why an upload attempt was turned away.
#[derive(Clone, Copy, PartialEq, Eq, Structural, Debug)]
pub enum Overload {
    /// The registry already holds the configured maximum number of
    /// pending connections.
    AtCapacity,
    /// No fresh identifier was found within the bounded number of attempts.
    IdSpaceExhausted,
}

/// Bound on how many candidate identifiers one registration may draw before
/// the attempt is reported as overload.
pub const CODE_ATTEMPTS: u32 = 64;

/// One pending connection: a registered upload awaiting a matching download.
///
/// `payload` carries whatever the caller ties to the connection (typically
/// the inbound byte stream and the completion signal); the registry never
/// looks inside it.
pub struct Entry<T> {
    /// Generated identifier, unique among currently pending entries.
    pub id: String,
    /// Process-lifetime-unique sequence number, assigned at insertion.
    pub seq: u64,
    /// Client-supplied suggested filename, if any.
    pub display_name: Option<String>,
    /// The caller's data, handed back verbatim on claim.
    pub payload: T,
}

/// Registry of pending connections.
///
/// Invariant (`wf`): identifiers are pairwise distinct and every stored
/// sequence number was drawn from the counter, i.e. lies below `next_seq`.
pub struct Registry<T> {
    /// The pending entries, in insertion order. Mutate only through the
    /// methods below: they preserve `wf`.
    pub entries: Vec<Entry<T>>,
    /// Counter from which sequence numbers are drawn.
    pub next_seq: u64,
    /// Ceiling on the number of pending connections.
    pub max_connections: usize,
}

impl<T> Registry<T> {
    /// Number of pending connections.
    pub open spec fn len_spec(self) -> int {
        self.entries@.len() as int
    }

    /// Configured ceiling on pending connections.
    pub open spec fn max_spec(self) -> int {
        self.max_connections as int
    }

    /// The sequence number the next insertion will receive.
    pub open spec fn next_seq_spec(self) -> u64 {
        self.next_seq
    }

    /// The stored entries, in insertion order.
    pub open spec fn entries_spec(self) -> Seq<Entry<T>> {
        self.entries@
    }

    /// Whether some pending entry carries the identifier `id`.
    pub open spec fn contains(self, id: Seq<char>) -> bool {
        exists|i: int| 0 <= i < self.entries@.len() && self.entries@[i].id@ == id
    }

    /// Index of the entry carrying `id` (meaningful under `wf` when
    /// `contains(id)` holds; unique by distinctness of identifiers).
    pub open spec fn idx_of(self, id: Seq<char>) -> int {
        choose|i: int| 0 <= i < self.entries@.len() && self.entries@[i].id@ == id
    }

    /// The entry carrying `id` (meaningful under `wf` when `contains(id)`).
    pub open spec fn entry_for(self, id: Seq<char>) -> Entry<T> {
        self.entries@[self.idx_of(id)]
    }

    /// Well-formedness: distinct identifiers, and every stored sequence
    /// number lies strictly below the counter.
    pub open spec fn wf(self) -> bool {
        &&& forall|i: int, j: int|
            0 <= i < j < self.entries@.len() ==> self.entries@[i].id@ != self.entries@[j].id@
        &&& forall|i: int| 0 <= i < self.entries@.len() ==> self.entries@[i].seq < self.next_seq
    }

    /// Under `wf`, an index holding `id` is the index `idx_of` denotes, so
    /// `entry_for` is determined.
    pub proof fn lemma_idx_unique(self, id: Seq<char>, i: int)
        requires
            self.wf(),
            0 <= i < self.entries_spec().len(),
            self.entries_spec()[i].id@ == id,
        ensures
            self.contains(id),
            self.idx_of(id) == i,
            self.entry_for(id) == self.entries_spec()[i],
    {
        assert(self.contains(id));
        let j = self.idx_of(id);
        assert(0 <= j < self.entries@.len() && self.entries@[j].id@ == id);
        if i < j {
            assert(self.entries@[i].id@ != self.entries@[j].id@);
        } else if j < i {
            assert(self.entries@[j].id@ != self.entries@[i].id@);
        }
    }

    /// An empty registry with the given admission ceiling.
    pub fn new(max_connections: usize) -> (r: Registry<T>)
        ensures
            r.wf(),
            r.len_spec() == 0,
            r.max_spec() == max_connections,
            r.next_seq_spec() == 0,
            forall|id: Seq<char>| !r.contains(id),
    {
        Registry { entries: Vec::new(), next_seq: 0, max_connections }
    }

    /// Current number of pending connections.
    pub fn pending_count(&self) -> (n: usize)
        ensures
            n == self.len_spec(),
    {
        self.entries.len()
    }

    /// The configured ceiling.
    pub fn max_connections(&self) -> (n: usize)
        ensures
            n == self.max_spec(),
    {
        self.max_connections
    }

    /// The sequence number the next insertion would receive.
    pub fn next_sequence(&self) -> (n: u64)
        ensures
            n == self.next_seq_spec(),
    {
        self.next_seq
    }

    /// Admission control: true exactly when one more pending connection
    /// still fits under the ceiling.
    pub fn try_admit(&self) -> (admitted: bool)
        ensures
            admitted <==> self.len_spec() < self.max_spec(),
    {
        self.entries.len() < self.max_connections
    }

    /// Index of the entry carrying `id`, if any.
    fn find_index(&self, id: &String) -> (r: Option<usize>)
        ensures
            match r {
                Some(i) => i < self.entries_spec().len() && self.entries_spec()[i as int].id@ == id@,
                None => !self.contains(id@),
            },
    {
        let n = self.entries.len();
        let mut i: usize = 0;
        while i < n
            invariant
                n == self.entries@.len(),
                i <= n,
                forall|j: int| 0 <= j < i ==> self.entries@[j].id@ != id@,
            decreases n - i,
        {
            if self.entries[i].id == *id {
                return Some(i);
            }
            i = i + 1;
        }
        None
    }

    /// Whether `id` is currently pending.
    pub fn contains_code(&self, id: &String) -> (present: bool)
        ensures
            present == self.contains(id@),
    {
        match self.find_index(id) {
            Some(_) => true,
            None => false,
        }
    }

    /// Store a pending connection under a fresh, non-colliding identifier.
    ///
    /// The caller has already checked admission and collision; this is the
    /// single point where a sequence number is assigned.
    pub fn insert_fresh(&mut self, id: String, display_name: Option<String>, payload: T) -> (seq:
        u64)
        requires
            old(self).wf(),
            !old(self).contains(id@),
            old(self).len_spec() < old(self).max_spec(),
            old(self).next_seq_spec() < u64::MAX,
        ensures
            final(self).wf(),
            seq == old(self).next_seq_spec(),
            final(self).next_seq_spec() == old(self).next_seq_spec() + 1,
            final(self).max_spec() == old(self).max_spec(),
            final(self).len_spec() == old(self).len_spec() + 1,
            final(self).contains(id@),
            final(self).entry_for(id@) == (Entry { id, seq, display_name, payload }),
            forall|x: Seq<char>|
                x != id@ ==> (final(self).contains(x) <==> old(self).contains(x)),
            forall|x: Seq<char>|
                x != id@ && old(self).contains(x) ==> final(self).entry_for(x) == old(
                    self,
                ).entry_for(x),
    {
        let seq = self.next_seq;
        self.next_seq = self.next_seq + 1;
        let ghost pre = *self;
        let entry = Entry { id, seq, display_name, payload };
        let ghost e = entry;
        self.entries.push(entry);
        proof {
            let n = pre.entries@.len() as int;
            assert(self.entries@ == pre.entries@.push(e));
            assert(self.entries@[n] == e);
            assert forall|i: int| 0 <= i < n implies self.entries@[i] == pre.entries@[i] by {}
            self.lemma_idx_unique(e.id@, n);
            assert forall|x: Seq<char>| x != e.id@ implies (self.contains(x) <==> pre.contains(
                x,
            )) by {
                if self.contains(x) {
                    let i = choose|i: int|
                        0 <= i < self.entries@.len() && self.entries@[i].id@ == x;
                    assert(i < n && pre.entries@[i].id@ == x);
                }
                if pre.contains(x) {
                    let i = choose|i: int|
                        0 <= i < pre.entries@.len() && pre.entries@[i].id@ == x;
                    assert(self.entries@[i].id@ == x);
                }
            }
            assert forall|x: Seq<char>| x != e.id@ && pre.contains(x) implies self.entry_for(x)
                == pre.entry_for(x) by {
                let i = choose|i: int| 0 <= i < pre.entries@.len() && pre.entries@[i].id@ == x;
                pre.lemma_idx_unique(x, i);
                self.lemma_idx_unique(x, i);
            }
        }
        seq
    }

    /// Admit and register one upload: check the ceiling, then draw candidate
    /// identifiers (at most `CODE_ATTEMPTS` of them) until one does not
    /// collide with a pending entry, and store the connection under it.
    ///
    /// On success the returned identifier was not pending before this call,
    /// and the returned sequence number is the counter value at entry. The
    /// identifier draw is random, so success cannot be promised even below
    /// the ceiling; exhausting the attempts is reported as overload and
    /// leaves the registry untouched, exactly like a full registry.
    pub fn register(&mut self, display_name: Option<String>, payload: T) -> (r: Result<
        (String, u64),
        Overload,
    >)
        requires
            old(self).wf(),
            old(self).next_seq_spec() < u64::MAX,
        ensures
            final(self).wf(),
            match r {
                Ok(ok) => {
                    &&& old(self).len_spec() < old(self).max_spec()
                    &&& !old(self).contains(ok.0@)
                    &&& ok.1 == old(self).next_seq_spec()
                    &&& final(self).next_seq_spec() == old(self).next_seq_spec() + 1
                    &&& final(self).max_spec() == old(self).max_spec()
                    &&& final(self).len_spec() == old(self).len_spec() + 1
                    &&& final(self).contains(ok.0@)
                    &&& final(self).entry_for(ok.0@).id@ == ok.0@
                    &&& final(self).entry_for(ok.0@).seq == ok.1
                    &&& final(self).entry_for(ok.0@).display_name == display_name
                    &&& final(self).entry_for(ok.0@).payload == payload
                    &&& forall|x: Seq<char>|
                        x != ok.0@ ==> (final(self).contains(x) <==> old(self).contains(x))
                    &&& forall|x: Seq<char>|
                        x != ok.0@ && old(self).contains(x) ==> final(self).entry_for(x) == old(
                            self,
                        ).entry_for(x)
                },
                Err(Overload::AtCapacity) => {
                    &&& old(self).len_spec() >= old(self).max_spec()
                    &&& *final(self) == *old(self)
                },
                Err(Overload::IdSpaceExhausted) => {
                    &&& old(self).len_spec() < old(self).max_spec()
                    &&& *final(self) == *old(self)
                },
            },
    {
        if !self.try_admit() {
            return Err(Overload::AtCapacity);
        }
        let mut tries: u32 = 0;
        while tries < CODE_ATTEMPTS
            invariant
                *self == *old(self),
                old(self).wf(),
                old(self).next_seq_spec() < u64::MAX,
                old(self).len_spec() < old(self).max_spec(),
            decreases CODE_ATTEMPTS - tries,
        {
            tries = tries + 1;
            if let Some(code) = crate::codegen::generate_code() {
                if !self.contains_code(&code) {
                    let returned_id = code.clone();
                    let seq = self.insert_fresh(code, display_name, payload);
                    return Ok((returned_id, seq));
                }
            }
        }
        Err(Overload::IdSpaceExhausted)
    }

    /// One linearized step of `claim`: either the entry carrying `id` is
    /// removed and handed out, or nothing was pending under `id` and the
    /// registry is unchanged.
    pub open spec fn claim_spec(pre: Self, id: Seq<char>, post: Self, r: Option<Entry<T>>) -> bool {
        match r {
            Some(e) => {
                &&& pre.contains(id)
                &&& e == pre.entry_for(id)
                &&& e.id@ == id
                &&& !post.contains(id)
                &&& post.len_spec() == pre.len_spec() - 1
                &&& post.next_seq_spec() == pre.next_seq_spec()
                &&& post.max_spec() == pre.max_spec()
                &&& forall|x: Seq<char>| x != id ==> (post.contains(x) <==> pre.contains(x))
                &&& forall|x: Seq<char>|
                    x != id && pre.contains(x) ==> post.entry_for(x) == pre.entry_for(x)
            },
            None => {
                &&& !pre.contains(id)
                &&& post == pre
            },
        }
    }

    /// One linearized step of `reap_if_stale`: the entry is removed exactly
    /// when it is still present under `id` *and* still carries the sequence
    /// number `seq`; otherwise the registry is unchanged.
    pub open spec fn reap_spec(pre: Self, id: Seq<char>, seq: u64, post: Self, removed: bool) -> bool {
        if removed {
            &&& pre.contains(id)
            &&& pre.entry_for(id).seq == seq
            &&& !post.contains(id)
            &&& post.len_spec() == pre.len_spec() - 1
            &&& post.next_seq_spec() == pre.next_seq_spec()
            &&& post.max_spec() == pre.max_spec()
            &&& forall|x: Seq<char>| x != id ==> (post.contains(x) <==> pre.contains(x))
            &&& forall|x: Seq<char>|
                x != id && pre.contains(x) ==> post.entry_for(x) == pre.entry_for(x)
        } else {
            &&& (!pre.contains(id) || pre.entry_for(id).seq != seq)
            &&& post == pre
        }
    }

    /// Remove the entry at index `i` and relate the result to the maps of
    /// identifiers before and after.
    fn remove_at(&mut self, i: usize) -> (e: Entry<T>)
        requires
            old(self).wf(),
            i < old(self).entries_spec().len(),
        ensures
            final(self).wf(),
            e == old(self).entries_spec()[i as int],
            e == old(self).entry_for(e.id@),
            old(self).contains(e.id@),
            !final(self).contains(e.id@),
            final(self).len_spec() == old(self).len_spec() - 1,
            final(self).next_seq_spec() == old(self).next_seq_spec(),
            final(self).max_spec() == old(self).max_spec(),
            forall|x: Seq<char>|
                x != e.id@ ==> (final(self).contains(x) <==> old(self).contains(x)),
            forall|x: Seq<char>|
                x != e.id@ && old(self).contains(x) ==> final(self).entry_for(x) == old(
                    self,
                ).entry_for(x),
    {
        let ghost pre = *self;
        let e = self.entries.remove(i);
        proof {
            let n = pre.entries@.len() as int;
            let k = i as int;
            assert(self.entries@ == pre.entries@.remove(k));
            pre.lemma_idx_unique(e.id@, k);
            assert forall|a: int, b: int|
                0 <= a < b < self.entries@.len() implies self.entries@[a].id@
                != self.entries@[b].id@ by {
                let a0 = if a < k {
                    a
                } else {
                    a + 1
                };
                let b0 = if b < k {
                    b
                } else {
                    b + 1
                };
                assert(self.entries@[a] == pre.entries@[a0]);
                assert(self.entries@[b] == pre.entries@[b0]);
            }
            assert forall|a: int|
                0 <= a < self.entries@.len() implies self.entries@[a].seq
                < self.next_seq by {
                let a0 = if a < k {
                    a
                } else {
                    a + 1
                };
                assert(self.entries@[a] == pre.entries@[a0]);
            }
            assert forall|x: Seq<char>| self.contains(x) implies x == e.id@ || pre.contains(
                x,
            ) by {
                let a = choose|a: int| 0 <= a < self.entries@.len() && self.entries@[a].id@ == x;
                let a0 = if a < k {
                    a
                } else {
                    a + 1
                };
                assert(pre.entries@[a0].id@ == x);
            }
            assert(!self.contains(e.id@)) by {
                if self.contains(e.id@) {
                    let a = choose|a: int|
                        0 <= a < self.entries@.len() && self.entries@[a].id@ == e.id@;
                    let a0 = if a < k {
                        a
                    } else {
                        a + 1
                    };
                    assert(pre.entries@[a0].id@ == e.id@);
                    pre.lemma_idx_unique(e.id@, a0);
                }
            }
            assert forall|x: Seq<char>| x != e.id@ && pre.contains(x) implies self.contains(x)
                && self.entry_for(x) == pre.entry_for(x) by {
                let a0 = choose|a0: int|
                    0 <= a0 < pre.entries@.len() && pre.entries@[a0].id@ == x;
                pre.lemma_idx_unique(x, a0);
                if a0 < k {
                    assert(self.entries@[a0] == pre.entries@[a0]);
                    self.lemma_idx_unique(x, a0);
                } else {
                    assert(a0 > k);
                    assert(self.entries@[a0 - 1] == pre.entries@[a0]);
                    self.lemma_idx_unique(x, a0 - 1);
                }
            }
        }
        e
    }

    /// Claim the pending connection registered under `id`: atomically remove
    /// and return it, or report that nothing is pending under `id`.
    ///
    /// This is the single consumption point: once an entry has been handed
    /// out here, a later claim of the same identifier finds nothing.
    pub fn claim(&mut self, id: &String) -> (r: Option<Entry<T>>)
        requires
            old(self).wf(),
        ensures
            final(self).wf(),
            Self::claim_spec(*old(self), id@, *final(self), r),
    {
        match self.find_index(id) {
            Some(i) => {
                proof {
                    old(self).lemma_idx_unique(id@, i as int);
                }
                let e = self.remove_at(i);
                Some(e)
            },
            None => None,
        }
    }

    /// Reap the entry under `id` only if it is still present and still the
    /// very registration the reaper was scheduled for (same sequence
    /// number); a reused identifier with a newer sequence number is spared.
    pub fn reap_if_stale(&mut self, id: &String, seq: u64) -> (removed: bool)
        requires
            old(self).wf(),
        ensures
            final(self).wf(),
            Self::reap_spec(*old(self), id@, seq, *final(self), removed),
    {
        match self.find_index(id) {
            Some(i) => {
                proof {
                    old(self).lemma_idx_unique(id@, i as int);
                }
                if self.entries[i].seq == seq {
                    let _ = self.remove_at(i);
                    true
                } else {
                    false
                }
            },
            None => false,
        }
    }
}

/// At-most-one-claim: in a linearized history, of two claims of the same
/// identifier the second one always comes back empty-handed — once an entry
/// has been handed out, nothing is pending under its identifier any more,
/// and the failed claim changes nothing.
pub proof fn lemma_at_most_one_claim<T>(
    r0: Registry<T>,
    r1: Registry<T>,
    r2: Registry<T>,
    id: Seq<char>,
    first: Option<Entry<T>>,
    second: Option<Entry<T>>,
)
    requires
        Registry::claim_spec(r0, id, r1, first),
        Registry::claim_spec(r1, id, r2, second),
        first is Some,
    ensures
        second is None,
        r2 == r1,
{
}

/// A claim and a reap of the same registration cannot both succeed: once the
/// claim has removed the entry, the reaper scheduled for that registration
/// finds nothing to remove and leaves the registry unchanged.
pub proof fn lemma_claim_wins_over_reap<T>(
    r0: Registry<T>,
    r1: Registry<T>,
    r2: Registry<T>,
    id: Seq<char>,
    e: Entry<T>,
    removed: bool,
)
    requires
        Registry::claim_spec(r0, id, r1, Some(e)),
        Registry::reap_spec(r1, id, e.seq, r2, removed),
    ensures
        !removed,
        r2 == r1,
{
}

/// The mirror image: once the reaper has removed a registration, a later
/// claim of its identifier fails, so an expired upload can never be
/// downloaded.
pub proof fn lemma_reap_wins_over_claim<T>(
    r0: Registry<T>,
    r1: Registry<T>,
    r2: Registry<T>,
    id: Seq<char>,
    seq: u64,
    claimed: Option<Entry<T>>,
)
    requires
        Registry::reap_spec(r0, id, seq, r1, true),
        Registry::claim_spec(r1, id, r2, claimed),
    ensures
        claimed is None,
        r2 == r1,
{
}

/// Sequence protection: a reaper holding a stale sequence number never
/// removes an entry that reuses the same identifier under a newer
/// registration.
pub proof fn lemma_stale_reap_spares_reused_id<T>(
    r0: Registry<T>,
    r1: Registry<T>,
    id: Seq<char>,
    stale_seq: u64,
    removed: bool,
)
    requires
        r0.contains(id),
        r0.entry_for(id).seq != stale_seq,
        Registry::reap_spec(r0, id, stale_seq, r1, removed),
    ensures
        !removed,
        r1 == r0,
{
}

/// Capacity frees up by exactly one: a successful claim (or reap) from a
/// full registry makes room for exactly one more registration.
pub proof fn lemma_claim_frees_capacity<T>(
    r0: Registry<T>,
    r1: Registry<T>,
    id: Seq<char>,
    e: Entry<T>,
)
    requires
        Registry::claim_spec(r0, id, r1, Some(e)),
        r0.len_spec() <= r0.max_spec(),
    ensures
        r1.len_spec() < r1.max_spec(),
        r1.len_spec() == r0.len_spec() - 1,
{
}

/// The reap counterpart of `lemma_claim_frees_capacity`.
pub proof fn lemma_reap_frees_capacity<T>(
    r0: Registry<T>,
    r1: Registry<T>,
    id: Seq<char>,
    seq: u64,
)
    requires
        Registry::reap_spec(r0, id, seq, r1, true),
        r0.len_spec() <= r0.max_spec(),
    ensures
        r1.len_spec() < r1.max_spec(),
        r1.len_spec() == r0.len_spec() - 1,
{
}

} // verus!
