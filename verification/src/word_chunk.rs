//! Word chunks: a count followed by that many words.
use vstd::prelude::*;
use crate::memory::{Memory, ObjectAllocator, lemma_store_words_len,
    lemma_word_at_store_words_inside, range_accessible, store_words, word_at, words_at, zeros};

verus! {

/// The address of a word chunk.
#[derive(Clone, Copy, Debug, PartialEq, Eq, Structural)]
pub struct WordChunk(pub u64);

/// The number of words of the chunk at `addr`.
pub open spec fn chunk_count(m: Seq<u8>, addr: int) -> u64 {
    word_at(m, addr)
}

/// The words of the chunk at `addr`.
pub open spec fn chunk_words(m: Seq<u8>, addr: int) -> Seq<u64> {
    words_at(m, addr + 8, chunk_count(m, addr) as int)
}

/// In the store `m` with guard pages at `guards`, the count and all the words
/// of the chunk at `addr` can be read.
pub open spec fn chunk_readable(m: Seq<u8>, guards: Seq<u64>, addr: u64) -> bool {
    &&& range_accessible(m.len(), guards, addr, 8)
    &&& 8 + 8 * chunk_count(m, addr as int) <= u64::MAX
    &&& range_accessible(m.len(), guards, addr, (8 + 8 * chunk_count(m, addr as int)) as u64)
}

impl WordChunk {
    /// The count and all the words of the chunk can be read.
    pub open spec fn readable(&self, mem: &Memory) -> bool {
        chunk_readable(mem@, mem.guards(), self.0)
    }

    /// Tells whether the count and all the words of the chunk can be read.
    pub fn is_readable(&self, mem: &Memory) -> (ok: bool)
        ensures
            ok == self.readable(mem),
    {
        if !mem.is_accessible(self.0, 8) {
            return false;
        }
        let count = mem.read_word(self.0);
        if count > (u64::MAX - 8) / 8 {
            return false;
        }
        mem.is_accessible(self.0, 8 + 8 * count)
    }

    /// There is room for a copy of the chunk.
    pub open spec fn copyable(&self, mem: &Memory) -> bool {
        &&& mem.wf()
        &&& self.readable(mem)
        &&& mem.can_allocate((8 + 8 * chunk_count(mem@, self.0 as int)) as u64)
    }

    /// Reads the words of the chunk.
    pub fn as_slice(&self, mem: &Memory) -> (words: Vec<u64>)
        requires
            self.readable(mem),
        ensures
            words@ == chunk_words(mem@, self.0 as int),
    {
        let count = mem.read_word(self.0);
        mem.read_words(self.0 + 8, count)
    }

    /// Copies the chunk to fresh storage and returns the copy.
    pub fn duplicate(&self, mem: &mut Memory) -> (copy: WordChunk)
        requires
            self.copyable(old(mem)),
        ensures
            final(mem).wf(),
            final(mem).guards() == old(mem).guards(),
            copy.0 == old(mem)@.len(),
            final(mem)@ == chunk_duplicated(old(mem)@, self.0 as int),
            final(mem)@.len() == old(mem)@.len() + 8 + 8 * chunk_count(old(mem)@, self.0 as int),
            chunk_count(final(mem)@, copy.0 as int) == chunk_count(old(mem)@, self.0 as int),
            chunk_words(final(mem)@, copy.0 as int) == chunk_words(old(mem)@, self.0 as int),
            copy.readable(final(mem)),
    {
        let count = mem.read_word(self.0);
        let words = mem.read_words(self.0 + 8, count);
        let size = 8 + 8 * count;
        let ptr = mem.allocate(size, 0);
        let mut all: Vec<u64> = Vec::new();
        all.push(count);
        let n = words.len();
        let mut i: usize = 0;
        while i < n
            invariant
                i <= n,
                n == words@.len(),
                all@ == seq![count] + words@.subrange(0, i as int),
            decreases n - i,
        {
            all.push(words[i]);
            i = i + 1;
        }
        assert(words@.subrange(0, n as int) =~= words@);
        let ghost grown = mem@;
        mem.write_words(ptr, &all);
        proof {
            lemma_store_words_len(grown, ptr as int, all@);
            lemma_word_at_store_words_inside(grown, ptr as int, all@, 0);
            assert forall|k: int| 0 <= k < n implies word_at(mem@, ptr + 8 + 8 * k)
                == words@[k] by {
                lemma_word_at_store_words_inside(grown, ptr as int, all@, k + 1);
            }
        }
        WordChunk(ptr)
    }
}

/// The store after the chunk at `addr` was copied to fresh storage at its end.
pub open spec fn chunk_duplicated(m: Seq<u8>, addr: int) -> Seq<u8> {
    store_words(
        m + zeros(8 + 8 * chunk_count(m, addr)),
        m.len() as int,
        seq![chunk_count(m, addr)] + chunk_words(m, addr),
    )
}

} // verus!
