//! Type descriptors that the compiler emits, read through their address.
use vstd::prelude::*;
use crate::memory::{Memory, word_at};
use crate::object::interface::InterfaceTableEntry;
use crate::object::string::StringObject;
use crate::FunctionObject;

verus! {

/// Offset of the name in a type descriptor.
pub const TYPE_INFO_NAME: u64 = 0;

/// Offset of the number of methods in a type descriptor.
pub const TYPE_INFO_NUM_METHODS: u64 = 8;

/// Offset of the address of the method table in a type descriptor.
pub const TYPE_INFO_INTERFACE_TABLE: u64 = 16;

/// Offset of the address of the equality function in a type descriptor.
pub const TYPE_INFO_IS_EQUAL: u64 = 24;

/// Offset of the address of the hash function in a type descriptor.
pub const TYPE_INFO_HASH: u64 = 32;

/// Offset of the size of a value in a type descriptor.
pub const TYPE_INFO_SIZE: u64 = 40;

/// Size of a type descriptor in bytes.
pub const TYPE_INFO_BYTES: u64 = 48;

/// The address of a type descriptor. Zero is the invalid type id.
#[derive(Debug, Clone, Copy, PartialEq, Eq, Structural)]
pub struct TypeId(pub u64);

impl TypeId {
    /// The type id of the nil interface.
    pub fn new_invalid() -> (t: TypeId)
        ensures
            t.0 == 0,
    {
        TypeId(0)
    }

    /// The descriptor lies in readable memory.
    pub open spec fn readable(&self, mem: &Memory) -> bool {
        self.0 + TYPE_INFO_BYTES <= u64::MAX && mem.accessible(self.0, TYPE_INFO_BYTES)
    }

    /// Tells whether the descriptor lies in readable memory.
    pub fn is_readable(&self, mem: &Memory) -> (ok: bool)
        ensures
            ok == self.readable(mem),
    {
        self.0 <= u64::MAX - TYPE_INFO_BYTES && mem.is_accessible(self.0, TYPE_INFO_BYTES)
    }

    /// The size in bytes of a value of this type, as the descriptor gives it in `m`.
    pub open spec fn size_in(&self, m: Seq<u8>) -> u64 {
        word_at(m, self.0 + TYPE_INFO_SIZE)
    }

    /// The number of methods of this type, as the descriptor gives it in `m`.
    pub open spec fn num_methods_in(&self, m: Seq<u8>) -> u64 {
        word_at(m, self.0 + TYPE_INFO_NUM_METHODS)
    }

    /// The address of the method table of this type, as the descriptor gives it in `m`.
    pub open spec fn table_ptr_in(&self, m: Seq<u8>) -> u64 {
        word_at(m, self.0 + TYPE_INFO_INTERFACE_TABLE)
    }

    /// The method table of this type in `m`: `num_methods` pairs of a name and a function.
    pub open spec fn table_in(&self, m: Seq<u8>) -> Seq<InterfaceTableEntry> {
        Seq::new(
            self.num_methods_in(m) as nat,
            |i: int|
                InterfaceTableEntry {
                    method_name: StringObject(word_at(m, self.table_ptr_in(m) + 16 * i)),
                    method: FunctionObject(word_at(m, self.table_ptr_in(m) + 16 * i + 8)),
                },
        )
    }

    /// The descriptor and the whole method table lie in readable memory.
    pub open spec fn table_readable(&self, mem: &Memory) -> bool {
        &&& self.readable(mem)
        &&& 16 * self.num_methods_in(mem@) <= u64::MAX
        &&& mem.accessible(self.table_ptr_in(mem@), (16 * self.num_methods_in(mem@)) as u64)
    }

    /// Tells whether the descriptor and the whole method table lie in
    /// readable memory.
    pub fn is_table_readable(&self, mem: &Memory) -> (ok: bool)
        ensures
            ok == self.table_readable(mem),
    {
        if !self.is_readable(mem) {
            return false;
        }
        let n = mem.read_word(self.0 + TYPE_INFO_NUM_METHODS);
        let base = mem.read_word(self.0 + TYPE_INFO_INTERFACE_TABLE);
        if n > u64::MAX / 16 {
            return false;
        }
        mem.is_accessible(base, 16 * n)
    }

    /// Reads the method table of this type.
    pub fn interface_table(&self, mem: &Memory) -> (table: Vec<InterfaceTableEntry>)
        requires
            self.table_readable(mem),
        ensures
            table@ == self.table_in(mem@),
    {
        let n = mem.read_word(self.0 + TYPE_INFO_NUM_METHODS);
        let base = mem.read_word(self.0 + TYPE_INFO_INTERFACE_TABLE);
        let mut table: Vec<InterfaceTableEntry> = Vec::new();
        let mut i: u64 = 0;
        while i < n
            invariant
                i <= n,
                n == self.num_methods_in(mem@),
                base == self.table_ptr_in(mem@),
                16 * n <= u64::MAX,
                mem.accessible(base, (16 * n) as u64),
                table@ == self.table_in(mem@).subrange(0, i as int),
            decreases n - i,
        {
            let name = mem.read_word(base + 16 * i);
            let method = mem.read_word(base + 16 * i + 8);
            table.push(
                InterfaceTableEntry {
                    method_name: StringObject(name),
                    method: FunctionObject(method),
                },
            );
            i = i + 1;
        }
        table
    }

    /// Reads the name of this type.
    pub fn name(&self, mem: &Memory) -> (name: StringObject)
        requires
            self.readable(mem),
        ensures
            name.0 == word_at(mem@, self.0 + TYPE_INFO_NAME),
    {
        StringObject(mem.read_word(self.0 + TYPE_INFO_NAME))
    }

    /// Reads the size in bytes of a value of this type.
    pub fn size(&self, mem: &Memory) -> (size: u64)
        requires
            self.readable(mem),
        ensures
            size == self.size_in(mem@),
    {
        mem.read_word(self.0 + TYPE_INFO_SIZE)
    }

    /// Reads the address of the function that compares two values of this type.
    pub fn is_equal_func(&self, mem: &Memory) -> (func: u64)
        requires
            self.readable(mem),
        ensures
            func == word_at(mem@, self.0 + TYPE_INFO_IS_EQUAL),
    {
        mem.read_word(self.0 + TYPE_INFO_IS_EQUAL)
    }

    /// Reads the address of the function that hashes a value of this type.
    pub fn hash_func(&self, mem: &Memory) -> (func: u64)
        requires
            self.readable(mem),
        ensures
            func == word_at(mem@, self.0 + TYPE_INFO_HASH),
    {
        mem.read_word(self.0 + TYPE_INFO_HASH)
    }
}

} // verus!
