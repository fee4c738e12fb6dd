//! Slices: an address, a number of elements, and a capacity.
use vstd::prelude::*;
use crate::memory::{Memory, bytes_at, store_word, word_at};

verus! {

/// A slice of elements of one size, which the slice does not record.
#[derive(Clone, Copy, Debug, PartialEq, Eq, Structural)]
pub struct SliceObject {
    pub ptr: u64,
    pub size: u64,
    pub capacity: u64,
}

/// The slice stored at `addr`.
pub open spec fn slice_at(m: Seq<u8>, addr: int) -> SliceObject {
    SliceObject {
        ptr: word_at(m, addr),
        size: word_at(m, addr + 8),
        capacity: word_at(m, addr + 16),
    }
}

/// The store after the slice `slice` was written at `addr`.
pub open spec fn store_slice(m: Seq<u8>, addr: int, slice: SliceObject) -> Seq<u8> {
    store_word(
        store_word(store_word(m, addr, slice.ptr), addr + 8, slice.size),
        addr + 16,
        slice.capacity,
    )
}

impl SliceObject {
    /// A slice of `size` elements at `ptr` with room for `capacity`.
    pub fn new(ptr: u64, size: u64, capacity: u64) -> (slice: Self)
        ensures
            slice == (SliceObject { ptr, size, capacity }),
    {
        SliceObject { ptr, size, capacity }
    }

    /// The same storage with `addition` more elements.
    pub fn duplicate_extend(&self, addition: u64) -> (slice: Self)
        requires
            self.size + addition <= self.capacity,
        ensures
            slice == (SliceObject {
                ptr: self.ptr,
                size: (self.size + addition) as u64,
                capacity: self.capacity,
            }),
    {
        Self::new(self.ptr, self.size + addition, self.capacity)
    }

    /// The number of elements.
    pub fn size(&self) -> (size: u64)
        ensures
            size == self.size,
    {
        self.size
    }

    /// The number of elements for which there is room.
    pub fn capacity(&self) -> (capacity: u64)
        ensures
            capacity == self.capacity,
    {
        self.capacity
    }

    /// A slice without storage has no elements and no room.
    pub open spec fn wf(&self) -> bool {
        self.ptr == 0 ==> self.capacity == 0 && self.size == 0
    }

    /// The bytes of the elements of the slice in `m`, for elements of
    /// `elem_size` bytes.
    pub open spec fn contents(&self, m: Seq<u8>, elem_size: u64) -> Seq<u8> {
        if self.ptr == 0 {
            Seq::empty()
        } else {
            bytes_at(m, self.ptr as int, self.size * elem_size)
        }
    }

    /// The elements of a slice with storage can be read.
    pub open spec fn readable(&self, mem: &Memory, elem_size: u64) -> bool {
        &&& self.wf()
        &&& self.ptr != 0 ==> {
            &&& self.size * elem_size <= u64::MAX
            &&& mem.accessible(self.ptr, (self.size * elem_size) as u64)
        }
    }

    /// Tells whether the elements of the slice can be read.
    pub fn is_readable(&self, mem: &Memory, elem_size: u64) -> (ok: bool)
        ensures
            ok == self.readable(mem, elem_size),
    {
        if self.ptr == 0 {
            return self.capacity == 0 && self.size == 0;
        }
        match self.size.checked_mul(elem_size) {
            Some(len) => mem.is_accessible(self.ptr, len),
            None => false,
        }
    }

    /// Reads the bytes of the elements of the slice.
    pub fn as_bytes(&self, mem: &Memory, elem_size_in_bytes: u64) -> (bytes: Vec<u8>)
        requires
            self.readable(mem, elem_size_in_bytes),
        ensures
            bytes@ == self.contents(mem@, elem_size_in_bytes),
    {
        if self.ptr == 0 {
            Vec::new()
        } else {
            mem.read_bytes(self.ptr, self.size * elem_size_in_bytes)
        }
    }

    /// Reads the slice at `addr`.
    pub fn load(mem: &Memory, addr: u64) -> (slice: Self)
        requires
            mem.accessible(addr, 24),
        ensures
            slice == slice_at(mem@, addr as int),
    {
        SliceObject {
            ptr: mem.read_word(addr),
            size: mem.read_word(addr + 8),
            capacity: mem.read_word(addr + 16),
        }
    }

    /// Writes the slice at `addr`.
    pub fn store(&self, mem: &mut Memory, addr: u64)
        requires
            old(mem).accessible(addr, 24),
        ensures
            final(mem)@ == store_slice(old(mem)@, addr as int, *self),
            final(mem)@.len() == old(mem)@.len(),
            final(mem).guards() == old(mem).guards(),
    {
        mem.write_word(addr, self.ptr);
        mem.write_word(addr + 8, self.size);
        mem.write_word(addr + 16, self.capacity);
    }
}

} // verus!
