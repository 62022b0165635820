//! First-in first-out pool of host ports handed out to exposed containers.

use vstd::prelude::*;
use std::collections::VecDeque;
use std::ops::RangeInclusive;

verus! {

/// `lo, lo + 1, ..., hi` (empty when `lo > hi`).
pub open spec fn port_range_seq(lo: u16, hi: u16) -> Seq<u16> {
    Seq::new(
        if lo <= hi { (hi - lo + 1) as nat } else { 0 },
        |i: int| (lo + i) as u16,
    )
}

/// Lower and upper bound of an inclusive range.
#[verifier::external_body]
fn range_bounds(range: RangeInclusive<u16>) -> (res: (u16, u16))
    ensures
        res == (range@.start, range@.end),
{
    range.into_inner()
}

/// `RangeInclusive::is_empty`: whether the range yields no item.
#[verifier::external_body]
fn range_is_empty(range: &RangeInclusive<u16>) -> (res: bool)
    ensures
        res == (range@.exhausted || range@.start > range@.end),
{
    range.is_empty()
}

pub struct PortAllocator {
    ports: VecDeque<u16>,
}

impl View for PortAllocator {
    type V = Seq<u16>;

    /// The free ports, in the order they will be handed out.
    closed spec fn view(&self) -> Seq<u16> {
        self.ports@
    }
}

impl PortAllocator {
    /// A pool holding the ports of `range` in ascending order (none for an
    /// empty or already exhausted range).
    pub fn new(range: RangeInclusive<u16>) -> (res: Self)
        ensures
            range@.exhausted || range@.start > range@.end ==> res@ == Seq::<u16>::empty(),
            !(range@.exhausted || range@.start > range@.end) ==> res@ == port_range_seq(
                range@.start,
                range@.end,
            ),
            !range@.exhausted ==> pool_partition(res@, Set::empty(), range@.start, range@.end),
    {
        let empty = range_is_empty(&range);
        let (lo, hi) = range_bounds(range);
        let mut ports: VecDeque<u16> = VecDeque::new();
        if empty {
            assert(ports@ =~= Seq::<u16>::empty());
            return Self { ports };
        }
        let mut p: u16 = lo;
        let ghost all = port_range_seq(lo, hi);
        loop
            invariant_except_break
                lo <= p <= hi,
                all == port_range_seq(lo, hi),
                ports@ == all.take((p - lo) as int),
            ensures
                ports@ == port_range_seq(lo, hi),
            decreases hi - p,
        {
            ports.push_back(p);
            assert(ports@ =~= all.take((p - lo + 1) as int));
            if p == hi {
                assert(ports@ =~= all);
                break;
            }
            p = p + 1;
        }
        proof {
            lemma_pool_partition(lo, hi, Seq::empty());
        }
        Self { ports }
    }

    /// Hands out the port that has been free the longest.
    pub fn allocate_next(&mut self) -> (res: Option<u16>)
        ensures
            old(self)@.len() == 0 ==> res is None && final(self)@ == old(self)@,
            old(self)@.len() > 0 ==> res == Some(old(self)@[0]) && final(self)@ == old(
                self,
            )@.drop_first(),
            forall|out: Set<u16>, lo: u16, hi: u16|
                #[trigger] pool_partition(old(self)@, out, lo, hi) ==> pool_partition(
                    final(self)@,
                    match res {
                        Some(p) => out.insert(p),
                        None => out,
                    },
                    lo,
                    hi,
                ),
    {
        let res = self.ports.pop_front();
        proof {
            assert forall|out: Set<u16>, lo: u16, hi: u16|
                #[trigger] pool_partition(old(self)@, out, lo, hi) implies pool_partition(
                    self@,
                    match res {
                        Some(p) => out.insert(p),
                        None => out,
                    },
                    lo,
                    hi,
                ) by {
                lemma_pool_step_keeps_partition(old(self)@, out, lo, hi, None);
            }
        }
        res
    }

    /// Returns a port to the back of the pool.
    pub fn deallocate(&mut self, port: u16)
        ensures
            final(self)@ == old(self)@.push(port),
            forall|out: Set<u16>, lo: u16, hi: u16|
                #[trigger] pool_partition(old(self)@, out, lo, hi) && out.contains(port)
                    ==> pool_partition(final(self)@, out.remove(port), lo, hi),
    {
        self.ports.push_back(port);
        proof {
            assert forall|out: Set<u16>, lo: u16, hi: u16|
                #[trigger] pool_partition(old(self)@, out, lo, hi) && out.contains(port)
                    implies pool_partition(self@, out.remove(port), lo, hi) by {
                lemma_pool_step_keeps_partition(old(self)@, out, lo, hi, Some(port));
            }
        }
    }

    /// Number of free ports.
    pub fn available(&self) -> (res: usize)
        ensures
            res == self@.len(),
    {
        self.ports.len()
    }
}

/// Handing a port out and taking it back leaves the same ports free, the
/// handed-out one now last in line.
pub proof fn lemma_allocate_then_deallocate(pool: Seq<u16>)
    requires
        pool.len() > 0,
    ensures
        pool.drop_first().push(pool[0]).to_multiset() == pool.to_multiset(),
        pool.drop_first().push(pool[0]).len() == pool.len(),
{
    broadcast use vstd::seq_lib::group_to_multiset_ensures;
    assert(pool =~= seq![pool[0]] + pool.drop_first());
    vstd::seq_lib::lemma_multiset_commutative(seq![pool[0]], pool.drop_first());
    assert(pool.drop_first().push(pool[0]) =~= pool.drop_first() + seq![pool[0]]);
}

/// A fresh pool over `lo..=hi` hands out `lo` first, and never holds a
/// port twice.
pub proof fn lemma_fresh_pool(lo: u16, hi: u16)
    requires
        lo <= hi,
    ensures
        port_range_seq(lo, hi)[0] == lo,
        port_range_seq(lo, hi).no_duplicates(),
        forall|p: u16| port_range_seq(lo, hi).contains(p) <==> lo <= p <= hi,
{
    let s = port_range_seq(lo, hi);
    assert forall|p: u16| lo <= p <= hi implies s.contains(p) by {
        assert(s[p - lo] == p);
    }
}

/// What one call does to the free ports `free` and the ports handed out
/// `out`: `None` stands for `allocate_next`, `Some(p)` for `deallocate(p)`.
pub open spec fn pool_step(free: Seq<u16>, out: Set<u16>, op: Option<u16>) -> (Seq<u16>, Set<u16>) {
    match op {
        None => if free.len() > 0 {
            (free.drop_first(), out.insert(free[0]))
        } else {
            (free, out)
        },
        Some(p) => (free.push(p), out.remove(p)),
    }
}

/// The free and handed-out ports after the calls `ops`, in order.
pub open spec fn pool_after(free: Seq<u16>, out: Set<u16>, ops: Seq<Option<u16>>) -> (Seq<u16>, Set<u16>)
    decreases ops.len(),
{
    if ops.len() == 0 {
        (free, out)
    } else {
        let prev = pool_after(free, out, ops.drop_last());
        pool_step(prev.0, prev.1, ops.last())
    }
}

/// Every port given back in `ops` was handed out and not given back since.
pub open spec fn returns_handed_out(free: Seq<u16>, out: Set<u16>, ops: Seq<Option<u16>>) -> bool
    decreases ops.len(),
{
    if ops.len() == 0 {
        true
    } else {
        &&& returns_handed_out(free, out, ops.drop_last())
        &&& match ops.last() {
            Some(p) => pool_after(free, out, ops.drop_last()).1.contains(p),
            None => true,
        }
    }
}

/// No free port occurs twice, no free port is handed out, and the free and
/// handed-out ports together are exactly `lo..=hi`.
pub open spec fn pool_partition(free: Seq<u16>, out: Set<u16>, lo: u16, hi: u16) -> bool {
    &&& free.no_duplicates()
    &&& forall|i: int| 0 <= i < free.len() ==> !out.contains(#[trigger] free[i])
    &&& forall|p: u16|
        #![trigger free.contains(p)]
        #![trigger out.contains(p)]
        (free.contains(p) || out.contains(p)) <==> (lo <= p && p <= hi)
}

/// Each call keeps the partition, given that a returned port was handed out.
pub proof fn lemma_pool_step_keeps_partition(
    free: Seq<u16>,
    out: Set<u16>,
    lo: u16,
    hi: u16,
    op: Option<u16>,
)
    requires
        pool_partition(free, out, lo, hi),
        op matches Some(p) ==> out.contains(p),
    ensures
        pool_partition(pool_step(free, out, op).0, pool_step(free, out, op).1, lo, hi),
{
    let (f2, o2) = pool_step(free, out, op);
    match op {
        None => {
            if free.len() > 0 {
                assert forall|i: int, j: int| 0 <= i < f2.len() && 0 <= j < f2.len() && i != j implies f2[i]
                    != f2[j] by {
                    assert(f2[i] == free[i + 1] && f2[j] == free[j + 1]);
                }
                assert forall|i: int| 0 <= i < f2.len() implies !o2.contains(#[trigger] f2[i]) by {
                    assert(f2[i] == free[i + 1]);
                    assert(free[i + 1] != free[0]);
                }
                assert forall|p: u16| (f2.contains(p) || o2.contains(p)) <==> (lo <= p && p <= hi) by {
                    if free.contains(p) && p != free[0] {
                        let i = choose|i: int| 0 <= i < free.len() && free[i] == p;
                        assert(f2[i - 1] == p);
                    }
                    if f2.contains(p) {
                        let i = choose|i: int| 0 <= i < f2.len() && f2[i] == p;
                        assert(free[i + 1] == p);
                    }
                    if free.contains(p) {
                    }
                }
            }
        },
        Some(q) => {
            assert(!free.contains(q));
            assert forall|i: int, j: int| 0 <= i < f2.len() && 0 <= j < f2.len() && i != j implies f2[i]
                != f2[j] by {
                if i < free.len() && j < free.len() {
                } else if i < free.len() {
                    assert(f2[i] == free[i]);
                } else {
                    assert(f2[j] == free[j]);
                }
            }
            assert forall|i: int| 0 <= i < f2.len() implies !o2.contains(#[trigger] f2[i]) by {
                if i < free.len() {
                    assert(f2[i] == free[i]);
                }
            }
            assert forall|p: u16| (f2.contains(p) || o2.contains(p)) <==> (lo <= p && p <= hi) by {
                if free.contains(p) {
                    let i = choose|i: int| 0 <= i < free.len() && free[i] == p;
                    assert(f2[i] == p);
                }
                if f2.contains(p) {
                    let i = choose|i: int| 0 <= i < f2.len() && f2[i] == p;
                    if i < free.len() {
                        assert(free[i] == p);
                    }
                }
                if p == q {
                    assert(f2[free.len() as int] == q);
                }
            }
        },
    }
}

/// Over any sequence of calls on a fresh pool over `lo..=hi` in which every
/// port given back had been handed out and not given back since, no free
/// port occurs twice, none is handed out, and the free and handed-out ports
/// together are exactly `lo..=hi`.
pub proof fn lemma_pool_partition(lo: u16, hi: u16, ops: Seq<Option<u16>>)
    requires
        returns_handed_out(port_range_seq(lo, hi), Set::empty(), ops),
    ensures
        pool_partition(
            pool_after(port_range_seq(lo, hi), Set::empty(), ops).0,
            pool_after(port_range_seq(lo, hi), Set::empty(), ops).1,
            lo,
            hi,
        ),
    decreases ops.len(),
{
    if ops.len() == 0 {
        let s = port_range_seq(lo, hi);
        if lo <= hi {
            lemma_fresh_pool(lo, hi);
        }
        assert forall|p: u16| (s.contains(p) || Set::<u16>::empty().contains(p)) <==> (lo <= p && p
            <= hi) by {
            if lo <= p && p <= hi {
                lemma_fresh_pool(lo, hi);
            }
        }
    } else {
        lemma_pool_partition(lo, hi, ops.drop_last());
        let prev = pool_after(port_range_seq(lo, hi), Set::empty(), ops.drop_last());
        lemma_pool_step_keeps_partition(prev.0, prev.1, lo, hi, ops.last());
    }
}

} // verus!
