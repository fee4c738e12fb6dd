//! Interface values: a receiver and the type id that selects its methods.
use vstd::prelude::*;
use vstd::string::StringSliceAdditionalSpecFns;
use crate::memory::Memory;
use crate::object::string::StringObject;
use crate::type_id::TypeId;
use crate::FunctionObject;
use crate::ObjectPtr;

verus! {

/// One entry of a method table.
#[derive(Clone, Copy, Debug, PartialEq, Eq, Structural)]
pub struct InterfaceTableEntry {
    pub method_name: StringObject,
    pub method: FunctionObject,
}

impl InterfaceTableEntry {
    /// The name under which the method is found.
    pub fn method_name(&self) -> (name: StringObject)
        ensures
            name == self.method_name,
    {
        self.method_name
    }
}

/// The position of the first entry of `table` named `name`, or the length of
/// the table if there is none.
pub open spec fn first_match(table: Seq<InterfaceTableEntry>, name: StringObject) -> int
    decreases table.len(),
{
    if table.len() == 0 {
        0
    } else if table[0].method_name == name {
        0
    } else {
        1 + first_match(table.skip(1), name)
    }
}

/// What a search of `table` for `name` yields: the method of the first entry
/// with that name.
pub open spec fn search_table(table: Seq<InterfaceTableEntry>, name: StringObject) -> Option<
    FunctionObject,
> {
    if first_match(table, name) < table.len() {
        Some(table[first_match(table, name)].method)
    } else {
        None
    }
}

/// `first_match` is the least position with the name, and is the length of the
/// table exactly when no entry has the name.
pub proof fn lemma_first_match(table: Seq<InterfaceTableEntry>, name: StringObject)
    ensures
        0 <= first_match(table, name) <= table.len(),
        forall|j: int| 0 <= j < first_match(table, name) ==> table[j].method_name != name,
        first_match(table, name) < table.len() ==> table[first_match(table, name)].method_name
            == name,
    decreases table.len(),
{
    if table.len() > 0 && table[0].method_name != name {
        lemma_first_match(table.skip(1), name);
        let k = first_match(table.skip(1), name);
        assert forall|j: int| 0 <= j < 1 + k implies table[j].method_name != name by {
            if j > 0 {
                assert(table.skip(1)[j - 1] == table[j]);
            }
        }
    }
}

/// A receiver together with the type id that says what it is.
#[derive(Clone, Copy, Debug, PartialEq, Eq, Structural)]
pub struct Interface {
    pub receiver: ObjectPtr,
    pub type_id: TypeId,
}

impl Interface {
    /// An interface value of the given receiver and type.
    pub fn new(receiver: ObjectPtr, type_id: TypeId) -> (i: Interface)
        ensures
            i.receiver == receiver,
            i.type_id == type_id,
    {
        Interface { receiver, type_id }
    }

    /// The nil interface: a null receiver of the invalid type.
    pub fn nil() -> (i: Interface)
        ensures
            i.receiver.0 == 0,
            i.type_id.0 == 0,
    {
        Interface { receiver: ObjectPtr(0), type_id: TypeId::new_invalid() }
    }

    /// The receiver.
    pub fn receiver(&self) -> (r: ObjectPtr)
        ensures
            r == self.receiver,
    {
        self.receiver
    }

    /// The type id.
    pub fn type_id(&self) -> (t: TypeId)
        ensures
            t == self.type_id,
    {
        self.type_id
    }

    /// Looks `method_name` up in the method table of the receiver's type and
    /// returns the first method of that name.
    pub fn search(&self, mem: &Memory, method_name: StringObject) -> (method: Option<
        FunctionObject,
    >)
        requires
            self.type_id.table_readable(mem),
        ensures
            method == search_table(self.type_id.table_in(mem@), method_name),
    {
        let table = self.type_id.interface_table(mem);
        let mut i: usize = 0;
        proof {
            lemma_first_match(table@, method_name);
        }
        while i < table.len()
            invariant
                i <= table.len(),
                i <= first_match(table@, method_name) <= table@.len(),
                table@ == self.type_id.table_in(mem@),
                forall|j: int|
                    0 <= j < first_match(table@, method_name) ==> table@[j].method_name
                        != method_name,
                first_match(table@, method_name) < table@.len() ==> table@[first_match(
                    table@,
                    method_name,
                )].method_name == method_name,
            decreases table.len() - i,
        {
            if table[i].method_name.0 == method_name.0 {
                return Some(table[i].method);
            }
            i = i + 1;
        }
        None
    }

    /// The text that reports an uncaught panic with this payload, as bytes.
    pub fn panic_message(&self) -> (message: Vec<u8>)
        ensures
            message@ == panic_text(*self),
    {
        if self.receiver.0 == 0 {
            return "panic: nil".as_bytes_vec();
        }
        let mut message = "panic: (0x".as_bytes_vec();
        append_hex_digits(&mut message, self.type_id.0);
        let mut separator = ",0x".as_bytes_vec();
        message.append(&mut separator);
        append_hex_digits(&mut message, self.receiver.0);
        let mut end = ")".as_bytes_vec();
        message.append(&mut end);
        message
    }
}

/// The hexadecimal digit for `nibble`, which is below sixteen, in ASCII.
pub open spec fn hex_digit(nibble: u64) -> u8 {
    if nibble < 10 {
        ('0' as u8 + nibble) as u8
    } else {
        ('a' as u8 + nibble - 10) as u8
    }
}

/// The sixteen hexadecimal digits of `word`, the most significant first.
pub open spec fn hex_digits(word: u64) -> Seq<u8> {
    Seq::new(16, |i: int| hex_digit((word >> ((60 - 4 * i) as u64)) & 0xf))
}

/// The text that reports an uncaught panic with the payload `payload`:
/// `panic: nil` for a payload without a receiver, and otherwise the type id
/// and the receiver of the payload, each with its sixteen hexadecimal digits.
pub open spec fn panic_text(payload: Interface) -> Seq<u8> {
    if payload.receiver.0 == 0 {
        "panic: nil".spec_bytes()
    } else {
        "panic: (0x".spec_bytes() + hex_digits(payload.type_id.0) + ",0x".spec_bytes()
            + hex_digits(payload.receiver.0) + ")".spec_bytes()
    }
}

/// Appends the sixteen hexadecimal digits of `word` to `text`.
pub fn append_hex_digits(text: &mut Vec<u8>, word: u64)
    ensures
        final(text)@ == old(text)@ + hex_digits(word),
{
    let mut i: u64 = 0;
    while i < 16
        invariant
            i <= 16,
            text@ == old(text)@ + hex_digits(word).subrange(0, i as int),
        decreases 16 - i,
    {
        let shift: u64 = 60 - 4 * i;
        let nibble: u64 = (word >> shift) & 0xf;
        assert(nibble < 16) by (bit_vector)
            requires
                nibble == (word >> shift) & 0xf,
        ;
        let digit: u8 = if nibble < 10 {
            '0' as u8 + nibble as u8
        } else {
            'a' as u8 + (nibble - 10) as u8
        };
        text.push(digit);
        assert(text@ =~= old(text)@ + hex_digits(word).subrange(0, i + 1));
        i = i + 1;
    }
    assert(hex_digits(word).subrange(0, 16) =~= hex_digits(word));
}

} // verus!
