//! The address space of the runtime: a flat, byte-addressed store.
//!
//! Every pointer that the runtime handles is an offset into one `Memory`.
//! Stacks, frames, strings, slices and boxed values all live here, so each
//! runtime operation can be stated as a function from one byte sequence to
//! the next.
use vstd::prelude::*;
use vstd::bytes::*;

verus! {

/// Size of a machine word in bytes.
pub const WORD_SIZE: u64 = 8;

/// Size of a page in bytes.
pub const PAGE_SIZE: u64 = 4096;

/// The first address whose top bit is set. No object is placed at or above it,
/// which leaves the top bit of every pointer free for tagging.
pub const ADDRESS_LIMIT: u64 = 0x8000_0000_0000_0000;

/// `size` rounded up to the next multiple of the word size.
pub open spec fn round_up(size: int) -> int {
    ((size + 7) / 8) * 8
}

/// Rounds `size` up to the next multiple of the word size.
pub fn round_up_to_word(size: u64) -> (r: u64)
    requires
        round_up(size as int) <= u64::MAX,
    ensures
        r == round_up(size as int),
{
    if size % 8 == 0 {
        size
    } else {
        size / 8 * 8 + 8
    }
}

/// The little-endian word stored at `addr`.
pub open spec fn word_at(m: Seq<u8>, addr: int) -> u64 {
    spec_u64_from_le_bytes(m.subrange(addr, addr + 8))
}

/// The `len` bytes stored from `addr` on.
pub open spec fn bytes_at(m: Seq<u8>, addr: int, len: int) -> Seq<u8> {
    m.subrange(addr, addr + len)
}

/// `m` with the bytes `bs` written from `addr` on.
pub open spec fn store_bytes(m: Seq<u8>, addr: int, bs: Seq<u8>) -> Seq<u8> {
    Seq::new(
        m.len(),
        |i: int|
            if addr <= i < addr + bs.len() {
                bs[i - addr]
            } else {
                m[i]
            },
    )
}

/// `m` with the word `v` written at `addr`, little-endian.
pub open spec fn store_word(m: Seq<u8>, addr: int, v: u64) -> Seq<u8> {
    store_bytes(m, addr, spec_u64_to_le_bytes(v))
}

/// `len` zero bytes.
pub open spec fn zeros(len: int) -> Seq<u8> {
    Seq::new(len as nat, |i: int| 0u8)
}

/// The `n` words stored from `addr` on.
pub open spec fn words_at(m: Seq<u8>, addr: int, n: int) -> Seq<u64> {
    Seq::new(n as nat, |i: int| word_at(m, addr + 8 * i))
}

/// `m` with the words `ws` written from `addr` on.
pub open spec fn store_words(m: Seq<u8>, addr: int, ws: Seq<u64>) -> Seq<u8>
    decreases ws.len(),
{
    if ws.len() == 0 {
        m
    } else {
        store_word(store_words(m, addr, ws.drop_last()), addr + 8 * (ws.len() - 1), ws.last())
    }
}

/// A word that was stored is the word that is read back.
pub proof fn lemma_word_at_store_word_same(m: Seq<u8>, addr: int, v: u64)
    requires
        0 <= addr,
        addr + 8 <= m.len(),
    ensures
        word_at(store_word(m, addr, v), addr) == v,
        store_word(m, addr, v).len() == m.len(),
{
    lemma_auto_spec_u64_to_from_le_bytes();
    assert(store_word(m, addr, v).subrange(addr, addr + 8) =~= spec_u64_to_le_bytes(v));
}

/// Storing bytes leaves every word outside the stored range as it was.
pub proof fn lemma_word_at_store_bytes_other(m: Seq<u8>, addr: int, bs: Seq<u8>, other: int)
    requires
        0 <= other,
        other + 8 <= m.len(),
        other + 8 <= addr || addr + bs.len() <= other,
    ensures
        word_at(store_bytes(m, addr, bs), other) == word_at(m, other),
{
    assert(store_bytes(m, addr, bs).subrange(other, other + 8) =~= m.subrange(other, other + 8));
}

/// Appending bytes leaves every word that was in bounds as it was.
pub proof fn lemma_word_at_append(m: Seq<u8>, tail: Seq<u8>, addr: int)
    requires
        0 <= addr,
        addr + 8 <= m.len(),
    ensures
        word_at(m + tail, addr) == word_at(m, addr),
{
    assert((m + tail).subrange(addr, addr + 8) =~= m.subrange(addr, addr + 8));
}

/// Appending bytes leaves every byte range that was in bounds as it was.
pub proof fn lemma_bytes_at_append(m: Seq<u8>, tail: Seq<u8>, addr: int, len: int)
    requires
        0 <= addr,
        0 <= len,
        addr + len <= m.len(),
    ensures
        bytes_at(m + tail, addr, len) == bytes_at(m, addr, len),
{
}

/// Storing words keeps the length of the store.
pub proof fn lemma_store_words_len(m: Seq<u8>, addr: int, ws: Seq<u64>)
    ensures
        store_words(m, addr, ws).len() == m.len(),
    decreases ws.len(),
{
    if ws.len() > 0 {
        lemma_store_words_len(m, addr, ws.drop_last());
    }
}

/// Storing words leaves every byte outside the stored range as it was.
pub proof fn lemma_store_words_byte_other(m: Seq<u8>, addr: int, ws: Seq<u64>, i: int)
    requires
        0 <= i < m.len(),
        i < addr || addr + 8 * ws.len() <= i,
    ensures
        store_words(m, addr, ws)[i] == m[i],
    decreases ws.len(),
{
    if ws.len() > 0 {
        lemma_store_words_len(m, addr, ws.drop_last());
        lemma_store_words_byte_other(m, addr, ws.drop_last(), i);
        lemma_auto_spec_u64_to_from_le_bytes();
    }
}

/// Each word that was stored is the word that is read back.
pub proof fn lemma_word_at_store_words_inside(m: Seq<u8>, addr: int, ws: Seq<u64>, i: int)
    requires
        0 <= addr,
        addr + 8 * ws.len() <= m.len(),
        0 <= i < ws.len(),
    ensures
        word_at(store_words(m, addr, ws), addr + 8 * i) == ws[i],
    decreases ws.len(),
{
    let prefix = store_words(m, addr, ws.drop_last());
    lemma_store_words_len(m, addr, ws.drop_last());
    if i == ws.len() - 1 {
        lemma_word_at_store_word_same(prefix, addr + 8 * i, ws.last());
    } else {
        lemma_word_at_store_words_inside(m, addr, ws.drop_last(), i);
        lemma_word_at_store_bytes_other(
            prefix,
            addr + 8 * (ws.len() - 1),
            spec_u64_to_le_bytes(ws.last()),
            addr + 8 * i,
        );
    }
}

/// Size of the null word at the start of the store, which is never accessed.
pub const NULL_WORD_SIZE: u64 = 8;

/// In a store of `size` bytes with guard pages at `guards`, the `len` bytes
/// from `addr` on are in bounds, do not touch the null word, and touch no
/// guard page.
pub open spec fn range_accessible(size: nat, guards: Seq<u64>, addr: u64, len: u64) -> bool {
    &&& addr + len <= size <= u64::MAX
    &&& len > 0 ==> addr >= NULL_WORD_SIZE
    &&& forall|i: int|
        0 <= i < guards.len() ==> (addr + len <= #[trigger] guards[i] || guards[i] + PAGE_SIZE
            <= addr)
}

/// The address space. Address zero is the null pointer and is never handed out.
pub struct Memory {
    bytes: Vec<u8>,
    guard_pages: Vec<u64>,
}

impl View for Memory {
    type V = Seq<u8>;

    closed spec fn view(&self) -> Seq<u8> {
        self.bytes@
    }
}

impl Memory {
    /// The start addresses of the pages that must never be touched.
    pub closed spec fn guards(&self) -> Seq<u64> {
        self.guard_pages@
    }

    /// The store is word-aligned, keeps the null word, stays below the tag bit,
    /// and every guard page lies inside it.
    pub open spec fn wf(&self) -> bool {
        &&& 8 <= self@.len() < ADDRESS_LIMIT
        &&& self@.len() % 8 == 0
        &&& forall|i: int|
            0 <= i < self.guards().len() ==> #[trigger] self.guards()[i] + PAGE_SIZE <= self@.len()
    }

    /// The `len` bytes from `addr` on are in bounds and touch neither the null
    /// word nor a guard page.
    pub open spec fn accessible(&self, addr: u64, len: u64) -> bool {
        range_accessible(self@.len(), self.guards(), addr, len)
    }

    /// `size` more bytes, rounded up to whole words, fit below the tag bit.
    pub open spec fn can_allocate(&self, size: u64) -> bool {
        self@.len() + round_up(size as int) < ADDRESS_LIMIT
    }

    /// An address space that holds the null word only.
    pub fn new() -> (m: Memory)
        ensures
            m.wf(),
            m@ == zeros(8),
            m.guards() == Seq::<u64>::empty(),
    {
        let mut bytes: Vec<u8> = Vec::new();
        let mut i: u64 = 0;
        while i < 8
            invariant
                i <= 8,
                bytes@ == zeros(i as int),
            decreases 8 - i,
        {
            bytes.push(0u8);
            i = i + 1;
        }
        Memory { bytes, guard_pages: Vec::new() }
    }

    /// The number of bytes in the store, which is also the next address to be handed out.
    pub fn size(&self) -> (n: u64)
        ensures
            n == self@.len(),
    {
        self.bytes.len() as u64
    }

    /// Tells whether an access of `len` bytes at `addr` is allowed.
    pub fn is_accessible(&self, addr: u64, len: u64) -> (ok: bool)
        ensures
            ok == self.accessible(addr, len),
    {
        assert(self.bytes.len() == self@.len());
        self.is_accessible_after_growth(addr, len, 0)
    }

    /// Tells whether the store is well-formed.
    pub fn check_wf(&self) -> (ok: bool)
        ensures
            ok == self.wf(),
    {
        let size = self.bytes.len() as u64;
        if size < 8 || size >= ADDRESS_LIMIT || size % 8 != 0 {
            return false;
        }
        let mut i: usize = 0;
        while i < self.guard_pages.len()
            invariant
                i <= self.guard_pages.len(),
                size == self@.len(),
                forall|j: int| 0 <= j < i ==> #[trigger] self.guards()[j] + PAGE_SIZE <= size,
            decreases self.guard_pages.len() - i,
        {
            let g = self.guard_pages[i];
            if g > size || size - g < PAGE_SIZE {
                assert(!(self.guards()[i as int] + PAGE_SIZE <= size));
                return false;
            }
            i = i + 1;
        }
        true
    }

    /// Reads the byte at `addr`, wherever it lies in the store, to look at
    /// the store from outside. Nothing is read beyond the end of the store.
    pub fn peek(&self, addr: u64) -> (b: Option<u8>)
        ensures
            self@.len() <= u64::MAX,
            addr < self@.len() ==> b == Some(self@[addr as int]),
            addr >= self@.len() ==> b is None,
    {
        let size = self.bytes.len();
        if addr < size as u64 {
            Some(self.bytes[addr as usize])
        } else {
            None
        }
    }

    /// Tells whether an access of `len` bytes at `addr` is allowed once the
    /// store has grown by `growth` bytes.
    pub fn is_accessible_after_growth(&self, addr: u64, len: u64, growth: u64) -> (ok: bool)
        requires
            self@.len() + growth <= u64::MAX,
        ensures
            ok == range_accessible((self@.len() + growth) as nat, self.guards(), addr, len),
    {
        let size = self.bytes.len() as u64 + growth;
        if addr > size || len > size - addr || (len > 0 && addr < NULL_WORD_SIZE) {
            return false;
        }
        let mut i: usize = 0;
        while i < self.guard_pages.len()
            invariant
                i <= self.guard_pages.len(),
                addr + len <= size <= u64::MAX,
                forall|j: int|
                    0 <= j < i ==> (addr + len <= #[trigger] self.guards()[j] || self.guards()[j]
                        + PAGE_SIZE <= addr),
            decreases self.guard_pages.len() - i,
        {
            let g = self.guard_pages[i];
            let clear = addr + len <= g || (g <= u64::MAX - PAGE_SIZE && g + PAGE_SIZE <= addr);
            if !clear {
                return false;
            }
            i = i + 1;
        }
        true
    }

    /// Tells whether `size` more bytes can be handed out.
    pub fn has_room(&self, size: u64) -> (ok: bool)
        ensures
            ok == self.can_allocate(size),
    {
        let len = self.bytes.len() as u64;
        if size > ADDRESS_LIMIT {
            return false;
        }
        let rounded = (size + 7) / 8 * 8;
        len < ADDRESS_LIMIT && rounded < ADDRESS_LIMIT - len
    }

    /// Reads the byte at `addr`.
    pub fn read_byte(&self, addr: u64) -> (b: u8)
        requires
            self.accessible(addr, 1),
        ensures
            b == self@[addr as int],
    {
        assert(self.bytes.len() == self@.len());
        self.bytes[addr as usize]
    }

    /// Writes the byte `b` at `addr`.
    pub fn write_byte(&mut self, addr: u64, b: u8)
        requires
            old(self).accessible(addr, 1),
        ensures
            final(self)@ == old(self)@.update(addr as int, b),
            final(self).guards() == old(self).guards(),
    {
        assert(self.bytes.len() == self@.len());
        self.bytes.set(addr as usize, b);
    }

    /// Reads `len` bytes from `addr` on.
    pub fn read_bytes(&self, addr: u64, len: u64) -> (out: Vec<u8>)
        requires
            self.accessible(addr, len),
        ensures
            out@ == bytes_at(self@, addr as int, len as int),
    {
        assert(self.bytes.len() == self@.len());
        let mut out: Vec<u8> = Vec::new();
        let mut i: u64 = 0;
        while i < len
            invariant
                i <= len,
                addr + len <= self@.len() <= usize::MAX,
                out@ == bytes_at(self@, addr as int, i as int),
            decreases len - i,
        {
            out.push(self.bytes[(addr + i) as usize]);
            i = i + 1;
        }
        out
    }

    /// Writes `data` from `addr` on.
    pub fn write_bytes(&mut self, addr: u64, data: &Vec<u8>)
        requires
            old(self).accessible(addr, data@.len() as u64),
        ensures
            final(self)@ == store_bytes(old(self)@, addr as int, data@),
            final(self).guards() == old(self).guards(),
    {
        let n = data.len();
        assert(self.bytes.len() == self@.len());
        let mut i: usize = 0;
        while i < n
            invariant
                i <= n,
                n == data@.len(),
                addr + n <= old(self)@.len() <= usize::MAX,
                self@.len() == old(self)@.len(),
                self.guards() == old(self).guards(),
                self@ == store_bytes(old(self)@, addr as int, data@.subrange(0, i as int)),
            decreases n - i,
        {
            self.bytes.set(addr as usize + i, data[i]);
            i = i + 1;
        }
    }

    /// Reads the word at `addr`.
    pub fn read_word(&self, addr: u64) -> (w: u64)
        requires
            self.accessible(addr, 8),
        ensures
            w == word_at(self@, addr as int),
    {
        let bytes = self.read_bytes(addr, 8);
        u64_from_le_bytes(bytes.as_slice())
    }

    /// Writes the word `w` at `addr`.
    pub fn write_word(&mut self, addr: u64, w: u64)
        requires
            old(self).accessible(addr, 8),
        ensures
            final(self)@ == store_word(old(self)@, addr as int, w),
            final(self).guards() == old(self).guards(),
    {
        let bytes = u64_to_le_bytes(w);
        self.write_bytes(addr, &bytes);
    }

    /// Reads `n` words from `addr` on.
    pub fn read_words(&self, addr: u64, n: u64) -> (out: Vec<u64>)
        requires
            8 * n <= u64::MAX,
            self.accessible(addr, (8 * n) as u64),
        ensures
            out@ == words_at(self@, addr as int, n as int),
    {
        assert(self.bytes.len() == self@.len());
        let mut out: Vec<u64> = Vec::new();
        let mut i: u64 = 0;
        while i < n
            invariant
                i <= n,
                8 * n <= u64::MAX,
                self.accessible(addr, (8 * n) as u64),
                self@.len() <= usize::MAX,
                out@ == words_at(self@, addr as int, i as int),
            decreases n - i,
        {
            let w = self.read_word(addr + 8 * i);
            out.push(w);
            i = i + 1;
        }
        out
    }

    /// Writes the words `ws` from `addr` on.
    pub fn write_words(&mut self, addr: u64, ws: &Vec<u64>)
        requires
            8 * ws@.len() <= u64::MAX,
            old(self).accessible(addr, (8 * ws@.len()) as u64),
        ensures
            final(self)@ == store_words(old(self)@, addr as int, ws@),
            final(self)@.len() == old(self)@.len(),
            final(self).guards() == old(self).guards(),
    {
        let n = ws.len();
        assert(self.bytes.len() == self@.len());
        let mut i: usize = 0;
        while i < n
            invariant
                i <= n,
                n == ws@.len(),
                self@.len() <= usize::MAX,
                8 * n <= u64::MAX,
                old(self).accessible(addr, (8 * n) as u64),
                self.guards() == old(self).guards(),
                self@.len() == old(self)@.len(),
                self@ == store_words(old(self)@, addr as int, ws@.subrange(0, i as int)),
            decreases n - i,
        {
            self.write_word(addr + 8 * (i as u64), ws[i]);
            proof {
                let next = ws@.subrange(0, i + 1);
                assert(next.drop_last() =~= ws@.subrange(0, i as int));
            }
            i = i + 1;
        }
        assert(ws@.subrange(0, n as int) =~= ws@);
    }

    /// Copies `len` bytes from `src` to `dst`. The source is read whole before
    /// the first byte is written, so the ranges may overlap.
    pub fn copy(&mut self, dst: u64, src: u64, len: u64)
        requires
            old(self).accessible(src, len),
            old(self).accessible(dst, len),
        ensures
            final(self)@ == store_bytes(
                old(self)@,
                dst as int,
                bytes_at(old(self)@, src as int, len as int),
            ),
            final(self).guards() == old(self).guards(),
    {
        let data = self.read_bytes(src, len);
        self.write_bytes(dst, &data);
    }

    /// Sets `len` bytes from `addr` on to zero.
    pub fn fill_zero(&mut self, addr: u64, len: u64)
        requires
            old(self).accessible(addr, len),
        ensures
            final(self)@ == store_bytes(old(self)@, addr as int, zeros(len as int)),
            final(self).guards() == old(self).guards(),
    {
        assert(self.bytes.len() == self@.len());
        let mut i: u64 = 0;
        while i < len
            invariant
                i <= len,
                addr + len <= old(self)@.len() <= usize::MAX,
                self@.len() == old(self)@.len(),
                self.guards() == old(self).guards(),
                self@ == store_bytes(old(self)@, addr as int, zeros(i as int)),
            decreases len - i,
        {
            self.bytes.set((addr + i) as usize, 0u8);
            i = i + 1;
        }
    }

    /// Appends `n` zero bytes.
    fn extend_zeroed(&mut self, n: u64)
        requires
            old(self)@.len() + n < ADDRESS_LIMIT,
        ensures
            final(self)@ == old(self)@ + zeros(n as int),
            final(self).guards() == old(self).guards(),
    {
        let mut i: u64 = 0;
        while i < n
            invariant
                i <= n,
                self.guards() == old(self).guards(),
                self@ == old(self)@ + zeros(i as int),
            decreases n - i,
        {
            self.bytes.push(0u8);
            i = i + 1;
        }
    }
}

/// What the runtime asks of an allocator of objects and stacks. An allocator
/// does not promise that what it hands out is zeroed.
pub trait ObjectAllocator {
    /// The bytes that the allocator manages.
    spec fn store(&self) -> Seq<u8>;

    /// The allocator can hand out `size` more bytes.
    spec fn has_space(&self, size: u64) -> bool;

    /// Hands out `size` bytes, rounded up to whole words, word-aligned and
    /// behind all that was handed out before, which stays as it was.
    /// `destructor` is the address of a function to run when the object is
    /// reclaimed, or zero; an allocator may ignore it.
    fn allocate(&mut self, size: u64, destructor: u64) -> (ptr: u64)
        requires
            old(self).has_space(size),
        ensures
            ptr == old(self).store().len(),
            ptr % 8 == 0,
            final(self).store().len() == old(self).store().len() + round_up(size as int),
            final(self).store().subrange(0, old(self).store().len() as int) == old(self).store(),
    ;

    /// Hands out `num_pages` pages for a stack, preceded by one page that must
    /// never be touched. All that was handed out before stays as it was.
    fn allocate_guarded_pages(&mut self, num_pages: u64) -> (ptr: u64)
        requires
            num_pages < 0x1_0000_0000,
            old(self).has_space(((num_pages + 1) * PAGE_SIZE) as u64),
        ensures
            ptr == old(self).store().len() + PAGE_SIZE,
            ptr % 8 == 0,
            final(self).store().len() == old(self).store().len() + (num_pages + 1) * PAGE_SIZE,
            final(self).store().subrange(0, old(self).store().len() as int) == old(self).store(),
    ;
}

impl ObjectAllocator for Memory {
    open spec fn store(&self) -> Seq<u8> {
        self@
    }

    open spec fn has_space(&self, size: u64) -> bool {
        self.wf() && self.can_allocate(size)
    }

    /// Appends `size` zero bytes, rounded up to whole words, and returns their address.
    fn allocate(&mut self, size: u64, destructor: u64) -> (ptr: u64)
        ensures
            final(self).wf(),
            final(self).guards() == old(self).guards(),
            final(self)@ == old(self)@ + zeros(round_up(size as int)),
    {
        let ptr = self.size();
        let rounded = round_up_to_word(size);
        self.extend_zeroed(rounded);
        ptr
    }

    /// Appends a guard page and `num_pages` zeroed pages, and returns the
    /// address of the first page behind the guard page.
    fn allocate_guarded_pages(&mut self, num_pages: u64) -> (ptr: u64)
        ensures
            final(self).wf(),
            final(self).guards() == old(self).guards().push(old(self)@.len() as u64),
            final(self)@ == old(self)@ + zeros((num_pages + 1) * PAGE_SIZE),
    {
        let guard = self.size();
        let total = (num_pages + 1) * PAGE_SIZE;
        self.extend_zeroed(total);
        self.guard_pages.push(guard);
        guard + PAGE_SIZE
    }
}

} // verus!
