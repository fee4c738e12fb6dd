//! Maps from keys to values, both held by pointer. Keys are compared by the
//! equality function of their type, which is compiled code: the caller hands
//! in the means to call it.
use vstd::prelude::*;
use crate::memory::{Memory, ObjectAllocator, bytes_at, round_up, store_bytes, word_at, zeros,
    ADDRESS_LIMIT};
use crate::type_id::{TypeId, TYPE_INFO_IS_EQUAL};
use crate::ObjectPtr;

verus! {

/// The position of the first entry of `entries` whose key is equal to `key`,
/// or the number of entries if there is none.
pub open spec fn find_entry(
    entries: Seq<(ObjectPtr, ObjectPtr)>,
    eq: spec_fn(ObjectPtr, ObjectPtr) -> bool,
    key: ObjectPtr,
) -> int
    decreases entries.len(),
{
    if entries.len() == 0 {
        0
    } else if eq(entries[0].0, key) {
        0
    } else {
        1 + find_entry(entries.skip(1), eq, key)
    }
}

/// The value that `entries` hold under `key`, if any.
pub open spec fn lookup(
    entries: Seq<(ObjectPtr, ObjectPtr)>,
    eq: spec_fn(ObjectPtr, ObjectPtr) -> bool,
    key: ObjectPtr,
) -> Option<ObjectPtr> {
    if find_entry(entries, eq, key) < entries.len() {
        Some(entries[find_entry(entries, eq, key)].1)
    } else {
        None
    }
}

/// The entries after `value` was set under `key`: the entry with an equal key
/// gets the value and keeps its key; if there is none, a new entry follows
/// the others.
pub open spec fn inserted(
    entries: Seq<(ObjectPtr, ObjectPtr)>,
    eq: spec_fn(ObjectPtr, ObjectPtr) -> bool,
    key: ObjectPtr,
    value: ObjectPtr,
) -> Seq<(ObjectPtr, ObjectPtr)> {
    if find_entry(entries, eq, key) < entries.len() {
        entries.update(
            find_entry(entries, eq, key),
            (entries[find_entry(entries, eq, key)].0, value),
        )
    } else {
        entries.push((key, value))
    }
}

/// The entries after the entry under `key` was deleted, if there was one.
pub open spec fn deleted(
    entries: Seq<(ObjectPtr, ObjectPtr)>,
    eq: spec_fn(ObjectPtr, ObjectPtr) -> bool,
    key: ObjectPtr,
) -> Seq<(ObjectPtr, ObjectPtr)> {
    if find_entry(entries, eq, key) < entries.len() {
        entries.remove(find_entry(entries, eq, key))
    } else {
        entries
    }
}

/// `eq` is symmetric and transitive where it holds.
pub open spec fn is_equivalence(eq: spec_fn(ObjectPtr, ObjectPtr) -> bool) -> bool {
    &&& forall|a: ObjectPtr, b: ObjectPtr| #[trigger] eq(a, b) ==> eq(b, a)
    &&& forall|a: ObjectPtr, b: ObjectPtr, c: ObjectPtr|
        #[trigger] eq(a, b) && #[trigger] eq(b, c) ==> eq(a, c)
}

/// No two entries have equal keys.
pub open spec fn unique_keys(
    entries: Seq<(ObjectPtr, ObjectPtr)>,
    eq: spec_fn(ObjectPtr, ObjectPtr) -> bool,
) -> bool {
    forall|i: int, j: int|
        0 <= i < j < entries.len() ==> !eq((#[trigger] entries[i]).0, (#[trigger] entries[j]).0)
}

/// `find_entry` is the least position with an equal key, and is the number of
/// entries exactly when no key is equal.
pub proof fn lemma_find_entry(
    entries: Seq<(ObjectPtr, ObjectPtr)>,
    eq: spec_fn(ObjectPtr, ObjectPtr) -> bool,
    key: ObjectPtr,
)
    ensures
        0 <= find_entry(entries, eq, key) <= entries.len(),
        forall|j: int| 0 <= j < find_entry(entries, eq, key) ==> !eq(entries[j].0, key),
        find_entry(entries, eq, key) < entries.len() ==> eq(
            entries[find_entry(entries, eq, key)].0,
            key,
        ),
    decreases entries.len(),
{
    if entries.len() > 0 && !eq(entries[0].0, key) {
        lemma_find_entry(entries.skip(1), eq, key);
        let k = find_entry(entries.skip(1), eq, key);
        assert forall|j: int| 0 <= j < 1 + k implies !eq(entries[j].0, key) by {
            if j > 0 {
                assert(entries.skip(1)[j - 1] == entries[j]);
            }
        }
    }
}

/// The least position with an equal key is the one that `find_entry` yields.
pub proof fn lemma_find_entry_is(
    entries: Seq<(ObjectPtr, ObjectPtr)>,
    eq: spec_fn(ObjectPtr, ObjectPtr) -> bool,
    key: ObjectPtr,
    i: int,
)
    requires
        0 <= i <= entries.len(),
        forall|j: int| 0 <= j < i ==> !eq(entries[j].0, key),
        i < entries.len() ==> eq(entries[i].0, key),
    ensures
        find_entry(entries, eq, key) == i,
{
    lemma_find_entry(entries, eq, key);
}

/// A value that was set under a key is the value that is found under an
/// equal key.
pub proof fn lemma_get_after_set(
    entries: Seq<(ObjectPtr, ObjectPtr)>,
    eq: spec_fn(ObjectPtr, ObjectPtr) -> bool,
    stored_key: ObjectPtr,
    value: ObjectPtr,
    key: ObjectPtr,
)
    requires
        is_equivalence(eq),
        eq(stored_key, key),
    ensures
        lookup(inserted(entries, eq, stored_key, value), eq, key) == Some(value),
{
    lemma_find_entry(entries, eq, stored_key);
    let i = find_entry(entries, eq, stored_key);
    let after = inserted(entries, eq, stored_key, value);
    assert forall|j: int| 0 <= j < i implies !eq(after[j].0, key) by {
    }
    lemma_find_entry_is(after, eq, key, i);
}

/// Of two values set under equal keys, the second is the one that is found.
pub proof fn lemma_get_after_set_twice(
    entries: Seq<(ObjectPtr, ObjectPtr)>,
    eq: spec_fn(ObjectPtr, ObjectPtr) -> bool,
    first_key: ObjectPtr,
    first_value: ObjectPtr,
    second_key: ObjectPtr,
    second_value: ObjectPtr,
    key: ObjectPtr,
)
    requires
        is_equivalence(eq),
        eq(first_key, key),
        eq(second_key, key),
    ensures
        lookup(
            inserted(
                inserted(entries, eq, first_key, first_value),
                eq,
                second_key,
                second_value,
            ),
            eq,
            key,
        ) == Some(second_value),
{
    lemma_get_after_set(
        inserted(entries, eq, first_key, first_value),
        eq,
        second_key,
        second_value,
        key,
    );
}

/// Setting a value keeps the keys unique.
pub proof fn lemma_set_keeps_unique(
    entries: Seq<(ObjectPtr, ObjectPtr)>,
    eq: spec_fn(ObjectPtr, ObjectPtr) -> bool,
    key: ObjectPtr,
    value: ObjectPtr,
)
    requires
        is_equivalence(eq),
        unique_keys(entries, eq),
    ensures
        unique_keys(inserted(entries, eq, key, value), eq),
{
    lemma_find_entry(entries, eq, key);
    let after = inserted(entries, eq, key, value);
    assert forall|i: int, j: int| 0 <= i < j < after.len() implies !eq(
        (#[trigger] after[i]).0,
        (#[trigger] after[j]).0,
    ) by {
    }
}

/// Deleting a key keeps the keys unique.
pub proof fn lemma_delete_keeps_unique(
    entries: Seq<(ObjectPtr, ObjectPtr)>,
    eq: spec_fn(ObjectPtr, ObjectPtr) -> bool,
    key: ObjectPtr,
)
    requires
        unique_keys(entries, eq),
    ensures
        unique_keys(deleted(entries, eq, key), eq),
{
    lemma_find_entry(entries, eq, key);
    let at = find_entry(entries, eq, key);
    let after = deleted(entries, eq, key);
    if at < entries.len() {
        assert forall|i: int, j: int| 0 <= i < j < after.len() implies !eq(
            (#[trigger] after[i]).0,
            (#[trigger] after[j]).0,
        ) by {
        }
    }
}

/// A key that was deleted from a map of unique keys is no longer found.
pub proof fn lemma_get_after_delete(
    entries: Seq<(ObjectPtr, ObjectPtr)>,
    eq: spec_fn(ObjectPtr, ObjectPtr) -> bool,
    key: ObjectPtr,
)
    requires
        is_equivalence(eq),
        unique_keys(entries, eq),
    ensures
        lookup(deleted(entries, eq, key), eq, key) is None,
{
    lemma_find_entry(entries, eq, key);
    let after = deleted(entries, eq, key);
    assert forall|j: int| 0 <= j < after.len() implies !eq(after[j].0, key) by {
    }
    lemma_find_entry_is(after, eq, key, after.len() as int);
}

/// The function that calls a compiled equality function always returns, and
/// returns one answer for the same store and the same pointers.
pub open spec fn decides<F: Fn(u64, &Memory, ObjectPtr, ObjectPtr) -> bool>(f: &F) -> bool {
    &&& forall|func: u64, mem: &Memory, a: ObjectPtr, b: ObjectPtr|
        #[trigger] call_requires(*f, (func, mem, a, b))
    &&& forall|func: u64, mem: &Memory, a: ObjectPtr, b: ObjectPtr|
        !(#[trigger] call_ensures(*f, (func, mem, a, b), true) && #[trigger] call_ensures(
            *f,
            (func, mem, a, b),
            false,
        ))
}

/// The equality that the compiled function at `func` computes in `mem`, as
/// `f` calls it.
pub open spec fn key_relation<F: Fn(u64, &Memory, ObjectPtr, ObjectPtr) -> bool>(
    f: &F,
    func: u64,
    mem: &Memory,
) -> spec_fn(ObjectPtr, ObjectPtr) -> bool {
    |a: ObjectPtr, b: ObjectPtr| call_ensures(*f, (func, mem, a, b), true)
}

/// A map as a value: its entries in the order in which their keys were first
/// set, and the types of its keys and values.
pub struct MapView {
    pub entries: Seq<(ObjectPtr, ObjectPtr)>,
    pub key_type: TypeId,
    pub value_type: TypeId,
}

/// A map whose keys are compared by the equality of their type.
pub struct MapObject {
    entries: Vec<(ObjectPtr, ObjectPtr)>,
    key_type: TypeId,
    value_type: TypeId,
}

impl View for MapObject {
    type V = MapView;

    closed spec fn view(&self) -> MapView {
        MapView {
            entries: self.entries@,
            key_type: self.key_type,
            value_type: self.value_type,
        }
    }
}

impl MapObject {
    /// An empty map.
    pub fn new(key_type: TypeId, value_type: TypeId) -> (map: Self)
        ensures
            map@ == (MapView { entries: Seq::empty(), key_type, value_type }),
    {
        MapObject { entries: Vec::new(), key_type, value_type }
    }

    /// The number of entries.
    pub fn len(&self) -> (len: usize)
        ensures
            len == self@.entries.len(),
    {
        self.entries.len()
    }

    /// The equality of keys in `mem`, as `is_equal` calls it.
    pub open spec fn relation<F: Fn(u64, &Memory, ObjectPtr, ObjectPtr) -> bool>(
        &self,
        is_equal: &F,
        mem: &Memory,
    ) -> spec_fn(ObjectPtr, ObjectPtr) -> bool {
        key_relation(is_equal, word_at(mem@, self@.key_type.0 + TYPE_INFO_IS_EQUAL), mem)
    }

    /// No two keys of the map are equal in `mem`, as `is_equal` compares them.
    /// A map without entries is so, `delete` keeps a map so, and `set` keeps
    /// it so where the equality is symmetric and transitive.
    pub open spec fn wf<F: Fn(u64, &Memory, ObjectPtr, ObjectPtr) -> bool>(
        &self,
        is_equal: &F,
        mem: &Memory,
    ) -> bool {
        unique_keys(self@.entries, self.relation(is_equal, mem))
    }

    /// The equality of keys in `mem`, as `is_equal` calls it, is symmetric and
    /// transitive.
    pub open spec fn compares_well<F: Fn(u64, &Memory, ObjectPtr, ObjectPtr) -> bool>(
        &self,
        is_equal: &F,
        mem: &Memory,
    ) -> bool {
        is_equivalence(self.relation(is_equal, mem))
    }

    /// Finds the position of the first entry whose key is equal to `key`.
    pub fn find<F: Fn(u64, &Memory, ObjectPtr, ObjectPtr) -> bool>(
        &self,
        mem: &Memory,
        key: ObjectPtr,
        is_equal: &F,
    ) -> (at: usize)
        requires
            decides(is_equal),
            self@.key_type.readable(mem),
        ensures
            at == find_entry(self@.entries, self.relation(is_equal, mem), key),
            at <= self@.entries.len(),
    {
        let func = self.key_type.is_equal_func(mem);
        let ghost eq = self.relation(is_equal, mem);
        let mut i: usize = 0;
        while i < self.entries.len()
            invariant
                i <= self.entries@.len(),
                decides(is_equal),
                func == word_at(mem@, self@.key_type.0 + TYPE_INFO_IS_EQUAL),
                eq == self.relation(is_equal, mem),
                forall|j: int| 0 <= j < i ==> !eq(self@.entries[j].0, key),
            decreases self.entries.len() - i,
        {
            if is_equal(func, mem, self.entries[i].0, key) {
                proof {
                    lemma_find_entry_is(self@.entries, eq, key, i as int);
                }
                return i;
            }
            i = i + 1;
        }
        proof {
            lemma_find_entry_is(self@.entries, eq, key, i as int);
        }
        i
    }

    /// `get` can run: the types can be read, the place for the value can be
    /// written, and the value that is found can be read.
    pub open spec fn gettable<F: Fn(u64, &Memory, ObjectPtr, ObjectPtr) -> bool>(
        &self,
        mem: &Memory,
        key: ObjectPtr,
        value: ObjectPtr,
        is_equal: &F,
    ) -> bool {
        &&& self@.key_type.readable(mem)
        &&& self@.value_type.readable(mem)
        &&& mem.accessible(value.0, self@.value_type.size_in(mem@))
        &&& lookup(self@.entries, self.relation(is_equal, mem), key) matches Some(found)
            ==> mem.accessible(found.0, self@.value_type.size_in(mem@))
    }

    /// Tells whether `get` can run.
    pub fn is_gettable<F: Fn(u64, &Memory, ObjectPtr, ObjectPtr) -> bool>(
        &self,
        mem: &Memory,
        key: ObjectPtr,
        value: ObjectPtr,
        is_equal: &F,
    ) -> (ok: Option<bool>)
        requires
            decides(is_equal),
        ensures
            ok is Some == self.gettable(mem, key, value, is_equal),
            ok matches Some(found) ==> found == lookup(
                self@.entries,
                self.relation(is_equal, mem),
                key,
            ) is Some,
    {
        if !self.key_type.is_readable(mem) || !self.value_type.is_readable(mem) {
            return None;
        }
        let size = self.value_type.size(mem);
        if !mem.is_accessible(value.0, size) {
            return None;
        }
        let at = self.find(mem, key, is_equal);
        if at < self.entries.len() {
            if mem.is_accessible(self.entries[at].1.0, size) {
                Some(true)
            } else {
                None
            }
        } else {
            Some(false)
        }
    }

    /// Tells whether `set` can run.
    pub fn is_settable(&self, mem: &Memory, key: ObjectPtr, value: ObjectPtr) -> (ok: bool)
        ensures
            ok == self.settable(mem, key, value),
    {
        if !mem.check_wf() || !self.key_type.is_readable(mem) || !self.value_type.is_readable(
            mem,
        ) {
            return false;
        }
        let key_size = self.key_type.size(mem);
        let value_size = self.value_type.size(mem);
        if !mem.is_accessible(key.0, key_size) || !mem.is_accessible(value.0, value_size) {
            return false;
        }
        let needed: u128 = mem.size() as u128 + (key_size as u128 + 7) / 8 * 8 + (
        value_size as u128 + 7) / 8 * 8;
        needed < ADDRESS_LIMIT as u128
    }

    /// Tells whether `nth` can run.
    pub fn is_nth_readable(&self, mem: &Memory, key: ObjectPtr, value: ObjectPtr, nth: u64) -> (ok:
        bool)
        ensures
            ok == self.nth_readable(mem, key, value, nth),
    {
        let len = self.entries.len();
        if nth >= len as u64 {
            return true;
        }
        if !self.key_type.is_readable(mem) || !self.value_type.is_readable(mem) {
            return false;
        }
        let entry = self.entries[nth as usize];
        let key_size = self.key_type.size(mem);
        let value_size = self.value_type.size(mem);
        mem.is_accessible(key.0, key_size) && mem.is_accessible(entry.0.0, key_size)
            && mem.is_accessible(value.0, value_size) && mem.is_accessible(entry.1.0, value_size)
    }

    /// The type of the keys.
    pub fn key_type(&self) -> (key_type: TypeId)
        ensures
            key_type == self@.key_type,
    {
        self.key_type
    }

    /// Looks `key` up. If it is found, the bytes of its value are copied to
    /// `value`; if not, `value` is zeroed. Tells whether it was found.
    pub fn get<F: Fn(u64, &Memory, ObjectPtr, ObjectPtr) -> bool>(
        &self,
        mem: &mut Memory,
        key: ObjectPtr,
        value: ObjectPtr,
        is_equal: &F,
    ) -> (found: bool)
        requires
            decides(is_equal),
            self.gettable(old(mem), key, value, is_equal),
        ensures
            final(mem).guards() == old(mem).guards(),
            final(mem)@.len() == old(mem)@.len(),
            found == lookup(self@.entries, self.relation(is_equal, old(mem)), key) is Some,
            final(mem)@ == store_bytes(
                old(mem)@,
                value.0 as int,
                match lookup(self@.entries, self.relation(is_equal, old(mem)), key) {
                    Some(stored) => bytes_at(
                        old(mem)@,
                        stored.0 as int,
                        self@.value_type.size_in(old(mem)@) as int,
                    ),
                    None => zeros(self@.value_type.size_in(old(mem)@) as int),
                },
            ),
    {
        let object_size = self.value_type.size(mem);
        let at = self.find(mem, key, is_equal);
        if at < self.entries.len() {
            mem.copy(value.0, self.entries[at].1.0, object_size);
            true
        } else {
            mem.fill_zero(value.0, object_size);
            false
        }
    }

    /// The store after copies of the key at `key` and the value at `value`
    /// were placed in fresh storage at its end, the key first.
    pub open spec fn copied_store(&self, m: Seq<u8>, key: ObjectPtr, value: ObjectPtr) -> Seq<u8> {
        let key_size = self@.key_type.size_in(m);
        let with_key = store_bytes(
            m + zeros(round_up(key_size as int)),
            m.len() as int,
            bytes_at(m, key.0 as int, key_size as int),
        );
        let value_size = self@.value_type.size_in(m);
        store_bytes(
            with_key + zeros(round_up(value_size as int)),
            with_key.len() as int,
            bytes_at(m, value.0 as int, value_size as int),
        )
    }

    /// `set` can run: the types, the key and the value can be read, and there
    /// is room for their copies.
    pub open spec fn settable(&self, mem: &Memory, key: ObjectPtr, value: ObjectPtr) -> bool {
        &&& mem.wf()
        &&& self@.key_type.readable(mem)
        &&& self@.value_type.readable(mem)
        &&& mem.accessible(key.0, self@.key_type.size_in(mem@))
        &&& mem.accessible(value.0, self@.value_type.size_in(mem@))
        &&& mem@.len() + round_up(self@.key_type.size_in(mem@) as int) + round_up(
            self@.value_type.size_in(mem@) as int,
        ) < ADDRESS_LIMIT
    }

    /// Sets the value under `key`. The key and the value are copied to fresh
    /// storage. If the map has an equal key, its value is replaced by the
    /// copy; if not, the copies become a new entry.
    pub fn set<F: Fn(u64, &Memory, ObjectPtr, ObjectPtr) -> bool>(
        &mut self,
        mem: &mut Memory,
        key: ObjectPtr,
        value: ObjectPtr,
        is_equal: &F,
    )
        requires
            decides(is_equal),
            old(self).settable(old(mem), key, value),
        ensures
            final(mem).wf(),
            final(mem).guards() == old(mem).guards(),
            final(mem)@ == old(self).copied_store(old(mem)@, key, value),
            final(self)@.key_type == old(self)@.key_type,
            final(self)@.value_type == old(self)@.value_type,
            final(self)@.entries == inserted(
                old(self)@.entries,
                old(self).relation(is_equal, final(mem)),
                ObjectPtr(old(mem)@.len() as u64),
                ObjectPtr(
                    (old(mem)@.len() + round_up(
                        old(self)@.key_type.size_in(old(mem)@) as int,
                    )) as u64,
                ),
            ),
            old(self).compares_well(is_equal, final(mem)) && old(self).wf(is_equal, final(mem))
                ==> final(self).wf(is_equal, final(mem)),
    {
        let key_object_size = self.key_type.size(mem);
        let value_object_size = self.value_type.size(mem);
        let key_ptr = mem.allocate(key_object_size, 0);
        mem.copy(key_ptr, key.0, key_object_size);
        let value_ptr = mem.allocate(value_object_size, 0);
        mem.copy(value_ptr, value.0, value_object_size);
        let at = self.find(mem, ObjectPtr(key_ptr), is_equal);
        proof {
            let eq = self.relation(is_equal, mem);
            if is_equivalence(eq) && unique_keys(self@.entries, eq) {
                lemma_set_keeps_unique(
                    self@.entries,
                    eq,
                    ObjectPtr(key_ptr),
                    ObjectPtr(value_ptr),
                );
            }
        }
        if at < self.entries.len() {
            let stored_key = self.entries[at].0;
            self.entries.set(at, (stored_key, ObjectPtr(value_ptr)));
        } else {
            self.entries.push((ObjectPtr(key_ptr), ObjectPtr(value_ptr)));
        }
    }

    /// Deletes the entry under `key`, if there is one.
    pub fn delete<F: Fn(u64, &Memory, ObjectPtr, ObjectPtr) -> bool>(
        &mut self,
        mem: &Memory,
        key: ObjectPtr,
        is_equal: &F,
    )
        requires
            decides(is_equal),
            old(self)@.key_type.readable(mem),
        ensures
            final(self)@.key_type == old(self)@.key_type,
            final(self)@.value_type == old(self)@.value_type,
            final(self)@.entries == deleted(
                old(self)@.entries,
                old(self).relation(is_equal, mem),
                key,
            ),
            old(self).wf(is_equal, mem) ==> final(self).wf(is_equal, mem),
    {
        let at = self.find(mem, key, is_equal);
        proof {
            let eq = self.relation(is_equal, mem);
            if unique_keys(self@.entries, eq) {
                lemma_delete_keeps_unique(self@.entries, eq, key);
            }
        }
        if at < self.entries.len() {
            self.entries.remove(at);
        }
    }

    /// The store after the key and the value of the entry `entry` were copied
    /// to `key` and `value`.
    pub open spec fn entry_copied(
        &self,
        m: Seq<u8>,
        entry: (ObjectPtr, ObjectPtr),
        key: ObjectPtr,
        value: ObjectPtr,
    ) -> Seq<u8> {
        let with_key = store_bytes(
            m,
            key.0 as int,
            bytes_at(m, entry.0.0 as int, self@.key_type.size_in(m) as int),
        );
        store_bytes(
            with_key,
            value.0 as int,
            bytes_at(with_key, entry.1.0 as int, self@.value_type.size_in(m) as int),
        )
    }

    /// `nth` can run: if there is an entry at that position, the types and
    /// the entry can be read and the places for the key and the value written.
    pub open spec fn nth_readable(
        &self,
        mem: &Memory,
        key: ObjectPtr,
        value: ObjectPtr,
        nth: u64,
    ) -> bool {
        nth < self@.entries.len() ==> {
            let m = mem@;
            &&& self@.key_type.readable(mem)
            &&& self@.value_type.readable(mem)
            &&& mem.accessible(key.0, self@.key_type.size_in(m))
            &&& mem.accessible(self@.entries[nth as int].0.0, self@.key_type.size_in(m))
            &&& mem.accessible(value.0, self@.value_type.size_in(m))
            &&& mem.accessible(self@.entries[nth as int].1.0, self@.value_type.size_in(m))
        }
    }

    /// Reads the entry at position `nth` in the order in which the keys were
    /// first set. If there is one, the bytes of its key and of its value are
    /// copied to `key` and `value`. Tells whether there is one.
    pub fn nth(&self, mem: &mut Memory, key: ObjectPtr, value: ObjectPtr, nth: u64) -> (found:
        bool)
        requires
            self.nth_readable(old(mem), key, value, nth),
        ensures
            final(mem).guards() == old(mem).guards(),
            final(mem)@.len() == old(mem)@.len(),
            found == (nth < self@.entries.len()),
            found ==> nth < u64::MAX,
            found ==> final(mem)@ == self.entry_copied(
                old(mem)@,
                self@.entries[nth as int],
                key,
                value,
            ),
            !found ==> final(mem)@ == old(mem)@,
    {
        let len = self.entries.len();
        if nth >= len as u64 {
            return false;
        }
        let entry = self.entries[nth as usize];
        let key_size = self.key_type.size(mem);
        let value_size = self.value_type.size(mem);
        mem.copy(key.0, entry.0.0, key_size);
        mem.copy(value.0, entry.1.0, value_size);
        true
    }
}

} // verus!
