//! The UDP connection-tracking table, keyed by connection tuple.

use vstd::prelude::*;
use crate::bpf_map::{BpfHashMap, bpf_update_spec};
use crate::common::{ConnectionTuple, FlowState};
use vstd::relations::injective_on;
use vstd::set_lib::lemma_map_size;

verus! {

broadcast use {vstd::std_specs::hash::group_hash_axioms, vstd::set::group_set_axioms};

/// Maximum number of conntrack entries.
pub const CONNTRACK_MAX_ENTRIES: usize = 65536;

/// The 96 bits of a tuple packed into one integer.
pub open spec fn tuple_key(t: ConnectionTuple) -> u128 {
    ((t.src_addr as u128) << 64u128) | ((t.dst_addr as u128) << 32u128) | ((t.src_port as u128)
        << 16u128) | (t.dst_port as u128)
}

proof fn lemma_pack_injective(a1: u32, b1: u32, c1: u16, d1: u16, a2: u32, b2: u32, c2: u16, d2: u16)
    by (bit_vector)
    requires
        ((a1 as u128) << 64u128) | ((b1 as u128) << 32u128) | ((c1 as u128) << 16u128) | (d1 as u128)
            == ((a2 as u128) << 64u128) | ((b2 as u128) << 32u128) | ((c2 as u128) << 16u128) | (
        d2 as u128),
    ensures
        a1 == a2 && b1 == b2 && c1 == c2 && d1 == d2,
{
}

proof fn lemma_tuple_key_injective(t1: ConnectionTuple, t2: ConnectionTuple)
    ensures
        tuple_key(t1) == tuple_key(t2) ==> t1 == t2,
{
    if tuple_key(t1) == tuple_key(t2) {
        lemma_pack_injective(
            t1.src_addr,
            t1.dst_addr,
            t1.src_port,
            t1.dst_port,
            t2.src_addr,
            t2.dst_addr,
            t2.src_port,
            t2.dst_port,
        );
    }
}

/// The tuple a packed key stands for.
pub open spec fn unpack_key(k: u128) -> ConnectionTuple {
    ConnectionTuple {
        src_addr: (k >> 64u128) as u32,
        dst_addr: (k >> 32u128) as u32,
        src_port: (k >> 16u128) as u16,
        dst_port: k as u16,
    }
}

proof fn lemma_unpack_fields(a: u32, b: u32, c: u16, d: u16)
    by (bit_vector)
    ensures
        ((((a as u128) << 64u128) | ((b as u128) << 32u128) | ((c as u128) << 16u128) | (d as u128))
            >> 64u128) as u32 == a,
        ((((a as u128) << 64u128) | ((b as u128) << 32u128) | ((c as u128) << 16u128) | (d as u128))
            >> 32u128) as u32 == b,
        ((((a as u128) << 64u128) | ((b as u128) << 32u128) | ((c as u128) << 16u128) | (d as u128))
            >> 16u128) as u16 == c,
        (((a as u128) << 64u128) | ((b as u128) << 32u128) | ((c as u128) << 16u128) | (d as u128))
            as u16 == d,
{
}

proof fn lemma_unpack_tuple_key(t: ConnectionTuple)
    ensures
        unpack_key(tuple_key(t)) == t,
{
    lemma_unpack_fields(t.src_addr, t.dst_addr, t.src_port, t.dst_port);
}

fn pack_tuple(t: &ConnectionTuple) -> (res: u128)
    ensures
        res == tuple_key(*t),
{
    ((t.src_addr as u128) << 64u128) | ((t.dst_addr as u128) << 32u128) | ((t.src_port as u128)
        << 16u128) | (t.dst_port as u128)
}

/// The conntrack table.
pub struct ConntrackMap {
    entries: BpfHashMap<u128, FlowState>,
}

impl View for ConntrackMap {
    type V = Map<ConnectionTuple, FlowState>;

    closed spec fn view(&self) -> Map<ConnectionTuple, FlowState> {
        Map::new(
            |t: ConnectionTuple| self.entries.contents().contains_key(tuple_key(t)),
            |t: ConnectionTuple| self.entries.contents()[tuple_key(t)],
        )
    }
}

impl ConntrackMap {
    /// Number of entries held; a new entry is refused once it reaches
    /// `CONNTRACK_MAX_ENTRIES`.
    pub closed spec fn count(&self) -> nat {
        self.entries.contents().len()
    }

    pub closed spec fn wf(&self) -> bool {
        &&& self.entries.wf()
        &&& self.entries.max() == CONNTRACK_MAX_ENTRIES
        &&& forall|k: u128| #[trigger]
            self.entries.contents().contains_key(k) ==> tuple_key(unpack_key(k)) == k
    }

    /// The table never holds more than `CONNTRACK_MAX_ENTRIES` entries.
    pub proof fn lemma_count_bounded(&self)
        requires
            self.wf(),
        ensures
            self.count() <= CONNTRACK_MAX_ENTRIES,
    {
    }

    /// The entry count is the number of flows in the table.
    pub proof fn lemma_count_is_len(&self)
        requires
            self.wf(),
        ensures
            self@.dom().finite(),
            self.count() == self@.len(),
    {
        let d = self.entries.contents().dom();
        let f = |k: u128| unpack_key(k);
        assert(injective_on(f, d)) by {
            assert forall|k1: u128, k2: u128|
                d.contains(k1) && d.contains(k2) && #[trigger] f(k1) == #[trigger] f(k2) implies k1
                == k2 by {
                assert(self.entries.contents().contains_key(k1));
                assert(self.entries.contents().contains_key(k2));
            }
        }
        assert(d.map(f) =~= self@.dom()) by {
            assert forall|t: ConnectionTuple| self@.dom().contains(t) implies #[trigger] d.map(
                f,
            ).contains(t) by {
                lemma_unpack_tuple_key(t);
                assert(d.contains(tuple_key(t)) && t == f(tuple_key(t)));
            }
            assert forall|t: ConnectionTuple| #[trigger] d.map(f).contains(t) implies self@.dom().contains(
                t,
            ) by {
                let k = choose|k: u128| d.contains(k) && t == f(k);
                assert(self.entries.contents().contains_key(k));
            }
        }
        lemma_map_size(d, self@.dom(), f);
    }

    /// An empty table.
    pub fn new() -> (res: Self)
        ensures
            res.wf(),
            res@ == Map::<ConnectionTuple, FlowState>::empty(),
            res.count() == 0,
    {
        let res = ConntrackMap { entries: BpfHashMap::with_max_entries(CONNTRACK_MAX_ENTRIES) };
        assert(res@ =~= Map::<ConnectionTuple, FlowState>::empty());
        res
    }

    /// Number of entries held.
    pub fn count_entries(&self) -> (res: usize)
        requires
            self.wf(),
        ensures
            res == self.count(),
    {
        self.entries.len()
    }

    /// The entry of `key`.
    pub fn get(&self, key: &ConnectionTuple) -> (res: Option<FlowState>)
        requires
            self.wf(),
        ensures
            self@.contains_key(*key) ==> res == Some(self@[*key]),
            !self@.contains_key(*key) ==> res is None,
    {
        let k = pack_tuple(key);
        self.entries.get(&k)
    }

    proof fn lemma_view_insert(self, post: Self, t: ConnectionTuple, v: FlowState)
        requires
            post.entries.contents() == self.entries.contents().insert(tuple_key(t), v),
        ensures
            post@ == self@.insert(t, v),
    {
        assert forall|t2: ConnectionTuple| #[trigger] post@.contains_key(t2) == self@.insert(
            t,
            v,
        ).contains_key(t2) by {
            lemma_tuple_key_injective(t, t2);
        }
        assert forall|t2: ConnectionTuple| post@.contains_key(t2) implies #[trigger] post@[t2]
            == self@.insert(t, v)[t2] by {
            lemma_tuple_key_injective(t, t2);
        }
        assert(post@ =~= self@.insert(t, v));
    }

    proof fn lemma_view_remove(self, post: Self, t: ConnectionTuple)
        requires
            post.entries.contents() == self.entries.contents().remove(tuple_key(t)),
        ensures
            post@ == self@.remove(t),
    {
        assert forall|t2: ConnectionTuple| #[trigger] post@.contains_key(t2) == self@.remove(
            t,
        ).contains_key(t2) by {
            lemma_tuple_key_injective(t, t2);
        }
        assert forall|t2: ConnectionTuple| post@.contains_key(t2) implies #[trigger] post@[t2]
            == self@.remove(t)[t2] by {
            lemma_tuple_key_injective(t, t2);
        }
        assert(post@ =~= self@.remove(t));
    }

    /// Stores `value` under `key` with BPF update `flags`; on success the
    /// entry count grows by one exactly when the key was new.
    pub fn insert(&mut self, key: &ConnectionTuple, value: FlowState, flags: u64) -> (res: Result<
        (),
        i64,
    >)
        requires
            old(self).wf(),
        ensures
            final(self).wf(),
            match bpf_update_spec(
                old(self)@,
                old(self).count(),
                CONNTRACK_MAX_ENTRIES as nat,
                *key,
                value,
                flags,
            ) {
                Ok(m) => {
                    &&& res is Ok
                    &&& final(self)@ == m
                    &&& old(self)@.contains_key(*key) ==> final(self).count() == old(self).count()
                    &&& !old(self)@.contains_key(*key) ==> final(self).count() == old(self).count() + 1
                },
                Err(e) => {
                    &&& res == Err::<(), i64>(e)
                    &&& final(self)@ == old(self)@
                    &&& final(self).count() == old(self).count()
                },
            },
    {
        let k = pack_tuple(key);
        let ghost pre = *self;
        let res = self.entries.insert(k, value, flags);
        proof {
            assert(pre@.contains_key(*key) == pre.entries.contents().contains_key(k));
            if res is Ok {
                pre.lemma_view_insert(*self, *key, value);
                lemma_unpack_tuple_key(*key);
            }
        }
        res
    }

    /// Deletes the entry of `key`.
    pub fn remove(&mut self, key: &ConnectionTuple) -> (res: Result<(), i64>)
        requires
            old(self).wf(),
        ensures
            final(self).wf(),
            final(self)@ == old(self)@.remove(*key),
            res is Ok <==> old(self)@.contains_key(*key),
            old(self)@.contains_key(*key) ==> final(self).count() == old(self).count() - 1,
            !old(self)@.contains_key(*key) ==> final(self).count() == old(self).count(),
    {
        let k = pack_tuple(key);
        let ghost pre = *self;
        let res = self.entries.remove(&k);
        proof {
            assert(pre@.contains_key(*key) == pre.entries.contents().contains_key(k));
            pre.lemma_view_remove(*self, *key);
        }
        res
    }
}

} // verus!
