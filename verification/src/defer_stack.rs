//! The stack of deferred calls of a frame: a linked list of entries, newest first.
use vstd::prelude::*;
use crate::memory::{Memory, store_word, store_words, word_at};
use crate::word_chunk::{WordChunk, chunk_count, chunk_words};
use crate::FunctionObject;

verus! {

/// Offset of the address of the next entry in an entry.
pub const DEFER_ENTRY_NEXT: u64 = 0;

/// Offset of the deferred function in an entry.
pub const DEFER_ENTRY_FUNC: u64 = 8;

/// Offset of the size of the result in an entry.
pub const DEFER_ENTRY_RESULT_SIZE: u64 = 16;

/// Offset of the address of the argument chunk in an entry.
pub const DEFER_ENTRY_ARGS: u64 = 24;

/// Size of an entry in bytes.
pub const DEFER_ENTRY_SIZE: u64 = 32;

/// One deferred call: the function, the size of its result, and the address
/// of a word chunk that holds a copy of its arguments.
#[derive(Clone, Copy, Debug, PartialEq, Eq, Structural)]
pub struct DeferStackEntry {
    pub next: u64,
    pub func: FunctionObject,
    pub result_size: u64,
    pub args: WordChunk,
}

/// The entry stored at `addr`.
pub open spec fn entry_at(m: Seq<u8>, addr: int) -> DeferStackEntry {
    DeferStackEntry {
        next: word_at(m, addr),
        func: FunctionObject(word_at(m, addr + 8)),
        result_size: word_at(m, addr + 16),
        args: WordChunk(word_at(m, addr + 24)),
    }
}

impl DeferStackEntry {
    /// An entry that is not linked yet.
    pub fn new(func: FunctionObject, result_size: u64, args: WordChunk) -> (entry: Self)
        ensures
            entry == (DeferStackEntry { next: 0, func, result_size, args }),
    {
        DeferStackEntry { next: 0, func, result_size, args }
    }

    /// The words of the entry, in the order in which they are stored.
    pub open spec fn words(&self) -> Seq<u64> {
        seq![self.next, self.func.0, self.result_size, self.args.0]
    }

    /// Reads the entry at `addr`.
    pub fn load(mem: &Memory, addr: u64) -> (entry: Self)
        requires
            mem.accessible(addr, DEFER_ENTRY_SIZE),
        ensures
            entry == entry_at(mem@, addr as int),
    {
        DeferStackEntry {
            next: mem.read_word(addr + DEFER_ENTRY_NEXT),
            func: FunctionObject(mem.read_word(addr + DEFER_ENTRY_FUNC)),
            result_size: mem.read_word(addr + DEFER_ENTRY_RESULT_SIZE),
            args: WordChunk(mem.read_word(addr + DEFER_ENTRY_ARGS)),
        }
    }

    /// Writes the entry at `addr`.
    pub fn store(&self, mem: &mut Memory, addr: u64)
        requires
            old(mem).accessible(addr, DEFER_ENTRY_SIZE),
        ensures
            final(mem)@ == store_words(old(mem)@, addr as int, self.words()),
            final(mem)@.len() == old(mem)@.len(),
            final(mem).guards() == old(mem).guards(),
    {
        let mut words: Vec<u64> = Vec::new();
        words.push(self.next);
        words.push(self.func.0);
        words.push(self.result_size);
        words.push(self.args.0);
        assert(words@ =~= self.words());
        mem.write_words(addr, &words);
    }

    /// The deferred function.
    pub fn func(&self) -> (func: FunctionObject)
        ensures
            func == self.func,
    {
        self.func
    }

    /// The size in bytes of the result of the deferred function.
    pub fn result_size(&self) -> (size: u64)
        ensures
            size == self.result_size,
    {
        self.result_size
    }

    /// Reads the arguments of the deferred call.
    pub fn args(&self, mem: &Memory) -> (args: Vec<u64>)
        requires
            self.args.readable(mem),
        ensures
            args@ == chunk_words(mem@, self.args.0 as int),
    {
        self.args.as_slice(mem)
    }
}

/// The head of a defer stack: the address of the newest entry, or zero.
#[derive(Clone, Copy, Debug, PartialEq, Eq, Structural)]
pub struct DeferStack(pub u64);

impl DeferStack {
    /// The empty defer stack.
    pub fn new() -> (stack: Self)
        ensures
            stack.0 == 0,
    {
        DeferStack(0)
    }

    /// Puts the entry at `entry` on the stack: the entry is linked to the
    /// head, and becomes the head.
    pub fn push(&mut self, mem: &mut Memory, entry: u64)
        requires
            old(mem).accessible(entry, 8),
        ensures
            final(self).0 == entry,
            final(mem)@ == store_word(old(mem)@, entry as int, old(self).0),
            final(mem).guards() == old(mem).guards(),
    {
        mem.write_word(entry, self.0);
        self.0 = entry;
    }

    /// Takes the newest entry off the stack, if there is one: the entry that it
    /// was linked to becomes the head, and the entry is unlinked.
    pub fn pop(&mut self, mem: &mut Memory) -> (entry: Option<u64>)
        requires
            old(self).0 != 0 ==> old(mem).accessible(old(self).0, 8),
        ensures
            final(mem).guards() == old(mem).guards(),
            old(self).0 == 0 ==> entry is None && final(self).0 == 0 && final(mem)@ == old(mem)@,
            old(self).0 != 0 ==> entry == Some(old(self).0) && final(self).0 == word_at(
                old(mem)@,
                old(self).0 as int,
            ) && final(mem)@ == store_word(old(mem)@, old(self).0 as int, 0),
    {
        if self.0 == 0 {
            return None;
        }
        let entry = self.0;
        self.0 = mem.read_word(entry);
        mem.write_word(entry, 0);
        Some(entry)
    }
}

/// A deferred call as a value: the function, the size of its result, and
/// its arguments.
pub struct DeferredCall {
    pub func: FunctionObject,
    pub result_size: u64,
    pub args: Seq<u64>,
}

/// The deferred call that the entry at `entry` holds.
pub open spec fn call_at(m: Seq<u8>, entry: int) -> DeferredCall {
    DeferredCall {
        func: entry_at(m, entry).func,
        result_size: entry_at(m, entry).result_size,
        args: chunk_words(m, entry_at(m, entry).args.0 as int),
    }
}

/// The entries from `head` on form a stack: each lies in the store, above its
/// arguments and above the entry that it is linked to.
pub open spec fn chain_ok(m: Seq<u8>, head: u64) -> bool
    decreases head,
{
    head != 0 ==> {
        &&& head + DEFER_ENTRY_SIZE <= m.len()
        &&& entry_at(m, head as int).next + DEFER_ENTRY_SIZE <= head
        &&& entry_at(m, head as int).args.0 + 8 + 8 * chunk_count(
            m,
            entry_at(m, head as int).args.0 as int,
        ) <= head
        &&& chain_ok(m, entry_at(m, head as int).next)
    }
}

/// No entry from `head` on, and none of their arguments, lies in the bytes
/// from `lo` up to `hi`.
pub open spec fn chain_avoids(m: Seq<u8>, head: u64, lo: int, hi: int) -> bool
    decreases head,
{
    head != 0 && entry_at(m, head as int).next < head ==> {
        &&& head + DEFER_ENTRY_SIZE <= lo || hi <= head
        &&& entry_at(m, head as int).args.0 + 8 + 8 * chunk_count(
            m,
            entry_at(m, head as int).args.0 as int,
        ) <= lo || hi <= entry_at(m, head as int).args.0
        &&& chain_avoids(m, entry_at(m, head as int).next, lo, hi)
    }
}

/// The deferred calls of the stack whose head is `head`, newest first.
pub open spec fn chain(m: Seq<u8>, head: u64) -> Seq<DeferredCall>
    decreases head,
{
    if head == 0 || entry_at(m, head as int).next >= head {
        Seq::empty()
    } else {
        seq![call_at(m, head as int)] + chain(m, entry_at(m, head as int).next)
    }
}

/// Words that lie in bytes on which two stores agree are the same in both.
pub proof fn lemma_word_at_agrees(m: Seq<u8>, other: Seq<u8>, addr: int)
    requires
        0 <= addr,
        addr + 8 <= m.len(),
        addr + 8 <= other.len(),
        forall|i: int| addr <= i < addr + 8 ==> other[i] == m[i],
    ensures
        word_at(other, addr) == word_at(m, addr),
{
    assert(other.subrange(addr, addr + 8) =~= m.subrange(addr, addr + 8));
}

/// A stack of deferred calls is untouched by changes to the store that spare
/// the bytes below `bound` outside the bytes from `lo` up to `hi`, when the
/// stack lies below `bound` and avoids those bytes.
pub proof fn lemma_chain_framed(
    m: Seq<u8>,
    other: Seq<u8>,
    head: u64,
    lo: int,
    hi: int,
    bound: int,
)
    requires
        chain_ok(m, head),
        chain_avoids(m, head, lo, hi),
        head != 0 ==> head + DEFER_ENTRY_SIZE <= bound,
        bound <= m.len() <= other.len(),
        forall|i: int| 0 <= i < bound && !(lo <= i < hi) ==> other[i] == m[i],
    ensures
        chain_ok(other, head),
        chain_avoids(other, head, lo, hi),
        chain(other, head) == chain(m, head),
    decreases head,
{
    if head != 0 {
        let entry = entry_at(m, head as int);
        lemma_word_at_agrees(m, other, head as int);
        lemma_word_at_agrees(m, other, head + 8);
        lemma_word_at_agrees(m, other, head + 16);
        lemma_word_at_agrees(m, other, head + 24);
        let args = entry.args.0 as int;
        lemma_word_at_agrees(m, other, args);
        let count = chunk_count(m, args);
        assert forall|k: int| 0 <= k < count implies #[trigger] chunk_words(other, args)[k]
            == chunk_words(m, args)[k] by {
            lemma_word_at_agrees(m, other, args + 8 + 8 * k);
        }
        assert(chunk_words(other, args) =~= chunk_words(m, args));
        lemma_chain_framed(m, other, entry.next, lo, hi, bound);
    }
}

} // verus!
