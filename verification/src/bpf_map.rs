//! The BPF hash maps shared by the XDP program and the control plane,
//! modelled with the kernel's update semantics: bounded size, and update
//! flags that make an insert create-only or update-only.

use vstd::prelude::*;
use std::collections::HashMap;
use std::hash::Hash;
use vstd::std_specs::hash::obeys_key_model;

verus! {

broadcast use vstd::std_specs::hash::group_hash_axioms;

/// Create a new element or update an existing one.
pub const BPF_ANY: u64 = 0;

/// Create a new element only if it does not exist.
pub const BPF_NOEXIST: u64 = 1;

/// Update an existing element only.
pub const BPF_EXIST: u64 = 2;

/// No such entry.
pub const ENOENT: i64 = 2;

/// Map is full.
pub const E2BIG: i64 = 7;

/// Entry already exists.
pub const EEXIST: i64 = 17;

/// Invalid update flags.
pub const EINVAL: i64 = 22;

/// What a BPF map update does to the contents `m`, holding `count`
/// entries, of a map bounded by `max` entries: the error code, or the new
/// contents.
pub open spec fn bpf_update_spec<K, V>(
    m: Map<K, V>,
    count: nat,
    max: nat,
    key: K,
    value: V,
    flags: u64,
) -> Result<
    Map<K, V>,
    i64,
> {
    if flags > BPF_EXIST {
        Err(EINVAL)
    } else if m.contains_key(key) && flags == BPF_NOEXIST {
        Err(EEXIST)
    } else if !m.contains_key(key) && flags == BPF_EXIST {
        Err(ENOENT)
    } else if !m.contains_key(key) && count >= max {
        Err(E2BIG)
    } else {
        Ok(m.insert(key, value))
    }
}

/// A BPF hash map holding at most `max_entries` elements.
pub struct BpfHashMap<K, V> {
    map: HashMap<K, V>,
    max_entries: usize,
}

impl<K: Hash + Eq + Copy, V: Copy> BpfHashMap<K, V> {
    /// The current contents.
    pub closed spec fn contents(&self) -> Map<K, V> {
        self.map@
    }

    /// The size bound the map was created with.
    pub closed spec fn max(&self) -> nat {
        self.max_entries as nat
    }

    /// Well-formed: within its bound, over a key type with a sound hash.
    pub open spec fn wf(&self) -> bool {
        &&& obeys_key_model::<K>()
        &&& self.contents().dom().finite()
        &&& self.contents().len() <= self.max()
    }

    /// An empty map bounded by `max_entries`.
    pub fn with_max_entries(max_entries: usize) -> (res: Self)
        requires
            obeys_key_model::<K>(),
        ensures
            res.wf(),
            res.contents() == Map::<K, V>::empty(),
            res.max() == max_entries,
    {
        BpfHashMap { map: HashMap::new(), max_entries }
    }

    /// The value stored under `key`.
    pub fn get(&self, key: &K) -> (res: Option<V>)
        requires
            self.wf(),
        ensures
            self.contents().contains_key(*key) ==> res == Some(self.contents()[*key]),
            !self.contents().contains_key(*key) ==> res is None,
    {
        match self.map.get(key) {
            Some(v) => Some(*v),
            None => None,
        }
    }

    /// Whether `key` is present.
    pub fn contains_key(&self, key: &K) -> (res: bool)
        requires
            self.wf(),
        ensures
            res == self.contents().contains_key(*key),
    {
        self.map.contains_key(key)
    }

    /// Number of elements.
    pub fn len(&self) -> (res: usize)
        requires
            self.wf(),
        ensures
            res == self.contents().len(),
    {
        self.map.len()
    }

    /// Creates or updates the element under `key` as the kernel does for
    /// `bpf_map_update_elem` with the given flags.
    pub fn insert(&mut self, key: K, value: V, flags: u64) -> (res: Result<(), i64>)
        requires
            old(self).wf(),
        ensures
            final(self).wf(),
            final(self).max() == old(self).max(),
            match bpf_update_spec(
                old(self).contents(),
                old(self).contents().len(),
                old(self).max(),
                key,
                value,
                flags,
            ) {
                Ok(m) => res is Ok && final(self).contents() == m,
                Err(e) => res == Err::<(), i64>(e) && final(self).contents() == old(self).contents(),
            },
    {
        if flags > BPF_EXIST {
            return Err(EINVAL);
        }
        let present = self.map.contains_key(&key);
        if present && flags == BPF_NOEXIST {
            return Err(EEXIST);
        }
        if !present && flags == BPF_EXIST {
            return Err(ENOENT);
        }
        if !present && self.map.len() >= self.max_entries {
            return Err(E2BIG);
        }
        self.map.insert(key, value);
        Ok(())
    }

    /// Deletes the element under `key`; `ENOENT` when there is none.
    pub fn remove(&mut self, key: &K) -> (res: Result<(), i64>)
        requires
            old(self).wf(),
        ensures
            final(self).wf(),
            final(self).max() == old(self).max(),
            final(self).contents() == old(self).contents().remove(*key),
            res is Ok <==> old(self).contents().contains_key(*key),
            res is Err ==> res == Err::<(), i64>(ENOENT),
    {
        match self.map.remove(key) {
            Some(_) => Ok(()),
            None => Err(ENOENT),
        }
    }
}

} // verus!
