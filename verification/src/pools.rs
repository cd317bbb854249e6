//! Pools that keep the GPU fed: command encoders and timestamp queries.

use vstd::prelude::*;

verus! {

/// A bounded pool of encoders, used in turn.
///
/// Each slot holds an encoder that records. `acquire` hands out the encoder of
/// the next slot; `submit_and_recycle` puts a fresh one in the place of the one
/// that has been out longest.
#[derive(Debug)]
pub struct EncoderPool<E> {
    encoders: Vec<Option<E>>,
    next_idx: usize,
}

/// What an [`EncoderPool`] stands for.
#[verifier::ext_equal]
pub struct PoolModel<E> {
    pub slots: Seq<Option<E>>,
    /// The slot that is used next.
    pub next: int,
}

impl<E> PoolModel<E> {
    /// Whether every slot holds an encoder.
    pub open spec fn full(self) -> bool {
        forall|i: int| 0 <= i < self.slots.len() ==> #[trigger] self.slots[i] is Some
    }

    /// Whether the next slot holds an encoder.
    pub open spec fn ready(self) -> bool {
        0 <= self.next < self.slots.len() && self.slots[self.next] is Some
    }

    /// The slot that is used `k` turns behind the next one.
    pub open spec fn turn(self, k: int) -> int {
        if self.next + k < self.slots.len() {
            self.next + k
        } else {
            self.next + k - self.slots.len()
        }
    }

    /// The slot that was used last.
    pub open spec fn last_used(self) -> int {
        self.turn(self.slots.len() - 1)
    }

    /// The first slot without an encoder, `k` turns behind the next one or later.
    pub open spec fn empty_from(self, k: int) -> Option<int>
        decreases self.slots.len() - k,
    {
        if k >= self.slots.len() {
            None
        } else if self.slots[self.turn(k)] is None {
            Some(self.turn(k))
        } else {
            self.empty_from(k + 1)
        }
    }

    /// The slot whose encoder has been out longest. Slots are used in turn, so it
    /// is the empty one that is the first to be used again.
    pub open spec fn longest_out(self) -> Option<int> {
        self.empty_from(0)
    }

    /// Whether `out` encoders are out: those of the slots that were used last.
    pub open spec fn has_out(self, out: int) -> bool {
        &&& 0 <= out <= self.slots.len()
        &&& 0 <= self.next
        &&& self.next < self.slots.len() || self.slots.len() == 0 && self.next == 0
        &&& forall|k: int|
            0 <= k < self.slots.len() ==> (self.slots[#[trigger] self.turn(k)] is Some <==> k
                < self.slots.len() - out)
    }

    /// The pool once the encoder of the next slot is handed out.
    pub open spec fn acquired(self) -> Self {
        PoolModel {
            slots: self.slots.update(self.next, None),
            next: (self.next + 1) % self.slots.len() as int,
        }
    }

    /// The pool once `fresh` has taken the place of the encoder that has been out
    /// longest; with none out, that of the slot that was used last.
    pub open spec fn recycled(self, fresh: E) -> Self {
        let slot = match self.longest_out() {
            Some(i) => i,
            None => self.last_used(),
        };
        PoolModel { slots: self.slots.update(slot, Some(fresh)), ..self }
    }

    /// The pool without any encoder.
    pub open spec fn emptied(self) -> Self {
        PoolModel { slots: Seq::new(self.slots.len(), |i: int| None), ..self }
    }
}

/// The encoders in slots, in order.
pub open spec fn present<E>(slots: Seq<Option<E>>) -> Seq<E>
    decreases slots.len(),
{
    if slots.len() == 0 {
        Seq::empty()
    } else {
        match slots.last() {
            Some(e) => present(slots.drop_last()).push(e),
            None => present(slots.drop_last()),
        }
    }
}

/// The slot behind slot `next` of `n`, in turn.
proof fn lemma_turn(next: int, n: int)
    requires
        0 <= next < n,
    ensures
        (next + 1) % n == if next + 1 < n {
            next + 1
        } else {
            0
        },
{
    if next + 1 < n {
        vstd::arithmetic::div_mod::lemma_small_mod((next + 1) as nat, n as nat);
    } else {
        vstd::arithmetic::div_mod::lemma_mod_self_0(n);
    }
}

impl<E> View for EncoderPool<E> {
    type V = PoolModel<E>;

    closed spec fn view(&self) -> PoolModel<E> {
        PoolModel { slots: self.encoders@, next: self.next_idx as int }
    }
}

impl<E> EncoderPool<E> {
    #[verifier::type_invariant]
    spec fn next_is_a_slot(self) -> bool {
        self.next_idx < self.encoders@.len() || self.next_idx == 0
    }

    /// Makes a pool of these encoders, one per slot.
    pub fn new(encoders: Vec<E>) -> (p: Self)
        ensures
            p@.slots == encoders@.map_values(|e: E| Some(e)),
            p@.next == 0,
            encoders@.len() > 0 ==> p@.slots[p@.next] == Some(encoders@[0]),
    {
        let ghost goal = encoders@.map_values(|e: E| Some(e));
        let mut slots: Vec<Option<E>> = Vec::new();
        let mut left: Vec<E> = encoders;
        let ghost all = encoders@;
        while left.len() > 0
            invariant
                goal == all.map_values(|e: E| Some(e)),
                left@.len() <= all.len(),
                left@ == all.take(left@.len() as int),
                slots@ == goal.skip(left@.len() as int),
            decreases left.len(),
        {
            let ghost n = left@.len() as int;
            match left.pop() {
                Some(e) => {
                    slots.insert(0, Some(e));
                    proof {
                        assert(left@ =~= all.take(n - 1));
                        assert(goal[n - 1] == slots@[0]);
                        assert(slots@ =~= goal.skip(n - 1));
                    }
                },
                None => {},
            }
        }
        assert(goal.skip(0) =~= goal);
        EncoderPool { encoders: slots, next_idx: 0 }
    }

    /// How many encoders the pool has room for.
    pub fn max_pending(&self) -> (n: usize)
        ensures
            n == self@.slots.len(),
    {
        self.encoders.len()
    }

    /// Whether an encoder can be acquired.
    pub fn is_ready(&self) -> (r: bool)
        ensures
            r == self@.ready(),
    {
        proof {
            use_type_invariant(self);
        }
        self.next_idx < self.encoders.len() && self.encoders[self.next_idx].is_some()
    }

    /// Hands out the encoder of the next slot for recording. The slot has to hold
    /// one: what was acquired has to be recycled before all slots are used.
    pub fn acquire(&mut self) -> (e: E)
        requires
            old(self)@.ready(),
        ensures
            Some(e) == old(self)@.slots[old(self)@.next],
            final(self)@ == old(self)@.acquired(),
    {
        proof {
            use_type_invariant(&*self);
        }
        let idx: usize = self.next_idx;
        let n: usize = self.encoders.len();
        let mut taken: Option<E> = None;
        let mut slots: Vec<Option<E>> = Vec::new();
        self.next_idx = 0;
        std::mem::swap(&mut slots, &mut self.encoders);
        std::mem::swap(&mut taken, &mut slots[idx]);
        self.encoders = slots;
        self.next_idx = if idx + 1 < n {
            idx + 1
        } else {
            0
        };
        proof {
            lemma_turn(idx as int, n as int);
            assert(self@ =~= old(self)@.acquired());
        }
        taken.unwrap()
    }

    /// Puts a fresh encoder in the place of a submitted one: into the slot whose
    /// encoder has been out longest.
    pub fn submit_and_recycle(&mut self, fresh: E)
        requires
            old(self)@.slots.len() > 0,
        ensures
            final(self)@ == old(self)@.recycled(fresh),
    {
        proof {
            use_type_invariant(&*self);
        }
        let n: usize = self.encoders.len();
        let next: usize = self.next_idx;
        let ghost pool = self@;
        let mut slots: Vec<Option<E>> = Vec::new();
        self.next_idx = 0;
        std::mem::swap(&mut slots, &mut self.encoders);
        let mut idx: usize = next;
        let mut k: usize = 0;
        while k < n && slots[idx].is_some()
            invariant
                k <= n,
                n == slots@.len(),
                next < n,
                pool == (PoolModel { slots: slots@, next: next as int }),
                k < n ==> idx == pool.turn(k as int),
                pool.longest_out() == pool.empty_from(k as int),
            decreases n - k,
        {
            k += 1;
            idx = if idx + 1 < n {
                idx + 1
            } else {
                0
            };
        }
        if k == n {
            idx = if next == 0 {
                n - 1
            } else {
                next - 1
            };
        }
        slots.set(idx, Some(fresh));
        self.encoders = slots;
        self.next_idx = next;
        assert(self@ =~= old(self)@.recycled(fresh));
    }

    /// Takes out all encoders that wait, to submit them.
    pub fn drain(&mut self) -> (pending: Vec<E>)
        ensures
            pending@ == present(old(self)@.slots),
            final(self)@ == old(self)@.emptied(),
    {
        proof {
            use_type_invariant(&*self);
        }
        let mut pending: Vec<E> = Vec::new();
        let n: usize = self.encoders.len();
        let next: usize = self.next_idx;
        let mut slots: Vec<Option<E>> = Vec::new();
        self.next_idx = 0;
        std::mem::swap(&mut slots, &mut self.encoders);
        let ghost before = slots@;
        let mut i: usize = 0;
        assert(before.take(0) =~= Seq::empty());
        while i < n
            invariant
                i <= n,
                n == before.len(),
                slots@.len() == n,
                forall|j: int| i <= j < n ==> slots@[j] == before[j],
                forall|j: int| 0 <= j < i ==> slots@[j] is None,
                pending@ == present(before.take(i as int)),
            decreases n - i,
        {
            let mut taken: Option<E> = None;
            std::mem::swap(&mut taken, &mut slots[i]);
            proof {
                let some = before.take(i + 1);
                assert(some.drop_last() =~= before.take(i as int));
                assert(some.last() == before[i as int]);
            }
            match taken {
                Some(e) => pending.push(e),
                None => {},
            }
            i += 1;
        }
        self.encoders = slots;
        self.next_idx = next;
        proof {
            assert(before.take(n as int) =~= before);
            assert(self@ =~= old(self)@.emptied());
        }
        pending
    }

    /// Fills every slot with a fresh encoder.
    pub fn refill(&mut self, fresh: Vec<E>)
        requires
            fresh@.len() == old(self)@.slots.len(),
        ensures
            final(self)@.slots == fresh@.map_values(|e: E| Some(e)),
            final(self)@.next == old(self)@.next,
    {
        proof {
            use_type_invariant(&*self);
        }
        let next: usize = self.next_idx;
        let p = EncoderPool::new(fresh);
        proof {
            use_type_invariant(&p);
        }
        let EncoderPool { encoders, next_idx: _ } = p;
        self.next_idx = 0;
        self.encoders = encoders;
        self.next_idx = next;
    }
}

/// Where `out` encoders are out, the one that has been out longest is found.
proof fn lemma_longest_out<E>(pool: PoolModel<E>, out: int, k: int)
    requires
        pool.has_out(out),
        0 <= k <= pool.slots.len() - out,
    ensures
        pool.empty_from(k) == (if out == 0 {
            None
        } else {
            Some(pool.turn(pool.slots.len() - out))
        }),
    decreases pool.slots.len() - k,
{
    if k < pool.slots.len() - out {
        lemma_longest_out(pool, out, k + 1);
    }
}

/// Encoders are handed out and taken back in turn: while some are left the next
/// slot is ready, handing one out leaves one more out, a fresh one leaves one less
/// out, and draining leaves none in.
pub proof fn law_pool_is_used_in_turn<E>(pool: PoolModel<E>, out: int)
    requires
        pool.has_out(out),
    ensures
        pool.ready() <==> out < pool.slots.len(),
        pool.full() <==> out == 0,
        pool.ready() ==> pool.acquired().has_out(out + 1),
        out > 0 ==> forall|fresh: E| (#[trigger] pool.recycled(fresh)).has_out(out - 1),
        pool.emptied().has_out(pool.slots.len() as int),
{
    let n = pool.slots.len() as int;
    if n > 0 {
        lemma_turn(pool.next, n);
        assert(pool.turn(0) == pool.next);
        assert(pool.slots[pool.turn(0)] is Some <==> 0 < n - out);
    }
    assert(pool.full() <==> out == 0) by {
        if out == 0 {
            assert forall|i: int| 0 <= i < n implies #[trigger] pool.slots[i] is Some by {
                let k = if i >= pool.next {
                    i - pool.next
                } else {
                    i - pool.next + n
                };
                assert(pool.turn(k) == i);
            }
        } else {
            assert(pool.slots[pool.turn(n - 1)] is None);
        }
    }
    if pool.ready() {
        let after = pool.acquired();
        assert forall|k: int| 0 <= k < n implies (after.slots[#[trigger] after.turn(k)] is Some
            <==> k < n - (out + 1)) by {
            if k < n - 1 {
                assert(after.turn(k) == pool.turn(k + 1));
                assert(pool.turn(k + 1) != pool.next);
            } else {
                assert(after.turn(k) == pool.next);
            }
        }
    }
    if out > 0 {
        lemma_longest_out(pool, out, 0);
        assert forall|fresh: E| (#[trigger] pool.recycled(fresh)).has_out(out - 1) by {
            let after = pool.recycled(fresh);
            assert forall|k: int| 0 <= k < n implies (after.slots[#[trigger] after.turn(k)] is Some
                <==> k < n - (out - 1)) by {
                assert(after.turn(k) == pool.turn(k));
                assert(pool.turn(k) == pool.turn(n - out) <==> k == n - out);
            }
        }
    }
    let drained = pool.emptied();
    assert forall|k: int| 0 <= k < n implies (drained.slots[#[trigger] drained.turn(k)] is Some
        <==> k < n - n) by {}
}

/// A full pool has no encoder out.
proof fn lemma_full_pool<E>(pool: PoolModel<E>)
    requires
        pool.full(),
        0 <= pool.next < pool.slots.len(),
    ensures
        pool.has_out(0),
{
}

/// A pool that is recycled at once stays full: handing out an encoder and putting
/// a fresh one back changes one slot, and the next slot is ready again.
pub proof fn law_recycling_keeps_pool_full<E>(pool: PoolModel<E>, fresh: E)
    requires
        pool.full(),
        0 <= pool.next < pool.slots.len(),
    ensures
        pool.ready(),
        pool.acquired().longest_out() == Some(pool.next),
        pool.acquired().recycled(fresh).slots == pool.slots.update(pool.next, Some(fresh)),
        pool.acquired().recycled(fresh).full(),
        pool.acquired().recycled(fresh).ready(),
{
    let n = pool.slots.len() as int;
    let after = pool.acquired();
    lemma_full_pool(pool);
    law_pool_is_used_in_turn(pool, 0);
    law_pool_is_used_in_turn(after, 1);
    law_pool_is_used_in_turn(after.recycled(fresh), 0);
    lemma_longest_out(after, 1, 0);
    lemma_turn(pool.next, n);
    assert(after.recycled(fresh).slots =~= pool.slots.update(pool.next, Some(fresh)));
}

/// What can be done with a pool.
pub enum PoolUse<E> {
    Acquire,
    Recycle(E),
}

/// The pool after some uses.
pub open spec fn after_uses<E>(pool: PoolModel<E>, uses: Seq<PoolUse<E>>) -> PoolModel<E>
    decreases uses.len(),
{
    if uses.len() == 0 {
        pool
    } else {
        let before = after_uses(pool, uses.drop_last());
        match uses.last() {
            PoolUse::Acquire => before.acquired(),
            PoolUse::Recycle(fresh) => before.recycled(fresh),
        }
    }
}

/// How many more encoders some uses acquire than they recycle.
pub open spec fn taken<E>(uses: Seq<PoolUse<E>>) -> int
    decreases uses.len(),
{
    if uses.len() == 0 {
        0
    } else {
        taken(uses.drop_last()) + (match uses.last() {
            PoolUse::Acquire => 1int,
            PoolUse::Recycle(_) => -1int,
        })
    }
}

/// Whether at no time more encoders are out than the pool has, nor more are
/// recycled than are out.
pub open spec fn within<E>(uses: Seq<PoolUse<E>>, slots: nat) -> bool {
    forall|k: int| 0 <= k <= uses.len() ==> 0 <= #[trigger] taken(uses.take(k)) <= slots
}

proof fn lemma_after_uses<E>(pool: PoolModel<E>, uses: Seq<PoolUse<E>>)
    requires
        pool.has_out(0),
        within(uses, pool.slots.len()),
    ensures
        after_uses(pool, uses).has_out(taken(uses)),
        after_uses(pool, uses).slots.len() == pool.slots.len(),
    decreases uses.len(),
{
    assert(uses.take(uses.len() as int) =~= uses);
    if uses.len() > 0 {
        let rest = uses.drop_last();
        assert forall|k: int| 0 <= k <= rest.len() implies 0 <= #[trigger] taken(rest.take(k))
            <= pool.slots.len() by {
            assert(rest.take(k) =~= uses.take(k));
        }
        lemma_after_uses(pool, rest);
        let before = after_uses(pool, rest);
        law_pool_is_used_in_turn(before, taken(rest));
        assert(0 <= taken(uses.take(uses.len() as int)) <= pool.slots.len());
        match uses.last() {
            PoolUse::Acquire => {
                assert(before.acquired().has_out(taken(uses)));
            },
            PoolUse::Recycle(fresh) => {
                assert(before.recycled(fresh).has_out(taken(uses)));
                lemma_longest_out(before, taken(rest), 0);
            },
        }
    }
}

/// As many recycles as acquires give a full pool again, in whatever order they
/// come.
pub proof fn law_as_many_recycles_as_acquires_fill_pool<E>(
    pool: PoolModel<E>,
    uses: Seq<PoolUse<E>>,
)
    requires
        pool.full(),
        0 <= pool.next < pool.slots.len(),
        within(uses, pool.slots.len()),
        taken(uses) == 0,
    ensures
        after_uses(pool, uses).full(),
        after_uses(pool, uses).ready(),
{
    lemma_full_pool(pool);
    lemma_after_uses(pool, uses);
    law_pool_is_used_in_turn(after_uses(pool, uses), 0);
}

/// A pool hands out as many encoders as it has slots, and no more: the next one is
/// ready exactly where not all are out.
pub proof fn law_pool_is_bounded<E>(pool: PoolModel<E>, uses: Seq<PoolUse<E>>)
    requires
        pool.full(),
        0 <= pool.next < pool.slots.len(),
        within(uses, pool.slots.len()),
    ensures
        after_uses(pool, uses).ready() <==> taken(uses) < pool.slots.len(),
{
    lemma_full_pool(pool);
    lemma_after_uses(pool, uses);
    law_pool_is_used_in_turn(after_uses(pool, uses), taken(uses));
}

/// Timestamp queries arranged in pairs of start and end, one pair per dispatch.
#[derive(Debug, Clone, Copy, PartialEq, Eq, Structural)]
pub struct TimestampPool {
    /// Number of timestamp pairs allocated.
    pub pair_count: u32,
    /// Index of the next free pair.
    pub next_pair: u32,
    /// Whether timestamp queries are supported.
    pub supported: bool,
}

/// The query of a pair's start.
pub open spec fn start_query(pair: u32) -> int {
    pair * 2
}

/// The query of a pair's end.
pub open spec fn end_query(pair: u32) -> int {
    pair * 2 + 1
}

impl TimestampPool {
    /// Whether the queries can be numbered, and no more pairs are used than there
    /// are.
    pub open spec fn wf(self) -> bool {
        self.pair_count * 2 <= u32::MAX && self.next_pair <= self.pair_count
    }

    /// Makes a pool of `pair_count` pairs; `None` where the device supports no
    /// timestamps inside passes.
    pub fn new(supported: bool, pair_count: u32) -> (r: Option<Self>)
        requires
            pair_count * 2 <= u32::MAX,
        ensures
            r == (if supported {
                Some(TimestampPool { pair_count, next_pair: 0, supported: true })
            } else {
                None
            }),
    {
        if !supported {
            return None;
        }
        Some(TimestampPool { pair_count, next_pair: 0, supported: true })
    }

    /// Number of queries.
    pub fn query_count(&self) -> (n: u32)
        requires
            self.wf(),
        ensures
            n == self.pair_count * 2,
    {
        self.pair_count * 2
    }

    /// Bytes that hold all timestamps, of 8 bytes each.
    pub fn buffer_size(&self) -> (n: u64)
        ensures
            n == self.pair_count * 2 * 8,
    {
        self.pair_count as u64 * 2 * 8
    }

    /// Takes the next pair, whose start query is to be written; `None` where
    /// timestamps are not supported or all pairs are in use.
    pub fn write_start(&mut self) -> (r: Option<u32>)
        requires
            old(self).wf(),
        ensures
            final(self).wf(),
            r == (if old(self).supported && old(self).next_pair < old(self).pair_count {
                Some(old(self).next_pair)
            } else {
                None
            }),
            *final(self) == (TimestampPool {
                next_pair: if r is Some {
                    (old(self).next_pair + 1) as u32
                } else {
                    old(self).next_pair
                },
                ..*old(self)
            }),
            r matches Some(pair) ==> pair < final(self).next_pair <= final(self).pair_count,
    {
        if !self.supported {
            return None;
        }
        let idx: u32 = self.next_pair;
        if idx >= self.pair_count {
            return None;
        }
        self.next_pair = idx + 1;
        Some(idx)
    }

    /// The query that holds the end of a pair; `None` where timestamps are not
    /// supported.
    pub fn write_end(&self, pair_idx: u32) -> (r: Option<u32>)
        requires
            self.supported ==> end_query(pair_idx) <= u32::MAX,
        ensures
            r == (if self.supported {
                Some(end_query(pair_idx) as u32)
            } else {
                None
            }),
    {
        if !self.supported {
            return None;
        }
        Some(pair_idx * 2 + 1)
    }

    /// How many queries to resolve, and the bytes to copy for the host; `None`
    /// where timestamps are not supported.
    pub fn resolve(&self) -> (r: Option<(u32, u64)>)
        requires
            self.wf(),
        ensures
            r == (if self.supported {
                Some(((self.pair_count * 2) as u32, (self.pair_count * 2 * 8) as u64))
            } else {
                None
            }),
            r matches Some((queries, bytes)) ==> bytes == 8 * queries && queries == 2
                * self.pair_count,
    {
        if !self.supported {
            return None;
        }
        Some((self.query_count(), self.buffer_size()))
    }

    /// Ticks between the start and the end of a pair, 0 where the end is not
    /// behind the start; `None` where timestamps are not supported or there is no
    /// such pair.
    pub fn elapsed_ticks(&self, pair_idx: u32, data: &[u64]) -> (r: Option<u64>)
        requires
            self.supported && pair_idx < self.pair_count ==> end_query(pair_idx) < data@.len(),
        ensures
            r == (if self.supported && pair_idx < self.pair_count {
                let start = data@[start_query(pair_idx)];
                let end = data@[end_query(pair_idx)];
                Some(
                    if end <= start {
                        0u64
                    } else {
                        (end - start) as u64
                    },
                )
            } else {
                None
            }),
            r matches Some(ticks) ==> ticks == 0 || data@[start_query(pair_idx)] + ticks
                == data@[end_query(pair_idx)],
    {
        if !self.supported || pair_idx >= self.pair_count {
            return None;
        }
        let len: usize = data.len();
        assert(pair_idx * 2 + 1 < len);
        let at: usize = pair_idx as usize * 2;
        let start: u64 = data[at];
        let end: u64 = data[at + 1];
        if end <= start {
            return Some(0);
        }
        Some(end - start)
    }

    /// Starts a new frame: all pairs are free again.
    pub fn reset(&mut self)
        ensures
            *final(self) == (TimestampPool { next_pair: 0, ..*old(self) }),
    {
        self.next_pair = 0;
    }

    /// Whether timestamps are supported.
    pub fn is_supported(&self) -> (r: bool)
        ensures
            r == self.supported,
    {
        self.supported
    }

    /// Number of pairs.
    pub fn pair_count(&self) -> (r: u32)
        ensures
            r == self.pair_count,
    {
        self.pair_count
    }
}

/// No two pairs share a query, and every query of a pair exists.
pub proof fn law_pairs_do_not_share_queries(pool: TimestampPool, a: u32, b: u32)
    requires
        pool.wf(),
        a < b < pool.pair_count,
    ensures
        start_query(a) < end_query(a) < start_query(b) < end_query(b) < pool.pair_count * 2,
{
}

/// Draining takes the encoders of the slots in order, and all of them: what two runs
/// of slots hold is what the first holds and then what the second does.
pub proof fn law_draining_takes_slots_in_order<E>(a: Seq<Option<E>>, b: Seq<Option<E>>, e: E)
    ensures
        present(a + b) == present(a) + present(b),
        present(seq![Some(e)]) == seq![e],
        present(seq![None::<E>]) == Seq::<E>::empty(),
    decreases b.len(),
{
    reveal_with_fuel(present, 2);
    assert(seq![Some(e)].drop_last() =~= Seq::<Option<E>>::empty());
    assert(seq![None::<E>].drop_last() =~= Seq::<Option<E>>::empty());
    assert(present(seq![Some(e)]) =~= seq![e]);
    if b.len() == 0 {
        assert(a + b =~= a);
        assert(present(a) + present(b) =~= present(a));
    } else {
        law_draining_takes_slots_in_order(a, b.drop_last(), e);
        assert((a + b).drop_last() =~= a + b.drop_last());
        assert((a + b).last() == b.last());
        assert(present(a + b) =~= present(a) + present(b));
    }
}

/// Handing out moves on to the slot behind, and from the last to the first; a fresh
/// encoder stands in its slot and leaves all others and the turn as they are.
pub proof fn law_slots_are_used_in_turn<E>(pool: PoolModel<E>, fresh: E, i: int)
    requires
        0 <= pool.next < pool.slots.len(),
    ensures
        pool.next + 1 < pool.slots.len() ==> pool.acquired().next == pool.next + 1,
        pool.next + 1 == pool.slots.len() ==> pool.acquired().next == 0,
        pool.acquired().slots[pool.next] is None,
        0 <= i < pool.slots.len() && i != pool.next ==> pool.acquired().slots[i] == pool.slots[i],
        pool.recycled(fresh).next == pool.next,
        pool.longest_out() is Some ==> pool.recycled(fresh).slots == pool.slots.update(
            pool.longest_out()->0,
            Some(fresh),
        ),
        pool.emptied().next == pool.next,
        pool.emptied().slots.len() == pool.slots.len(),
        0 <= i < pool.slots.len() ==> pool.emptied().slots[i] is None,
{
    lemma_turn(pool.next, pool.slots.len() as int);
}

/// Where no encoder is out, a fresh one takes the place of the one that was used last.
pub proof fn law_recycling_a_full_pool_replaces_the_last_used<E>(pool: PoolModel<E>, fresh: E)
    requires
        pool.full(),
        0 <= pool.next < pool.slots.len(),
    ensures
        ({
            let last = if pool.next == 0 {
                pool.slots.len() - 1
            } else {
                pool.next - 1
            };
            pool.recycled(fresh).slots == pool.slots.update(last, Some(fresh))
        }),
{
    lemma_full_pool(pool);
    lemma_longest_out(pool, 0, 0);
}

} // verus!
