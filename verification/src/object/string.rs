//! Strings: null-terminated bytes in the address space, and their builder.
use vstd::prelude::*;
use vstd::utf8::{decode_first_scalar, encode_scalar, is_scalar, pop_first_scalar, valid_utf8};
use crate::memory::{Memory, ObjectAllocator, bytes_at, range_accessible, round_up, store_bytes,
    zeros};

verus! {

/// The number of bytes from `ptr` up to the first zero byte or the end of the store.
pub open spec fn c_strlen(m: Seq<u8>, ptr: int) -> int
    decreases m.len() - ptr,
{
    if ptr < 0 || ptr >= m.len() || m[ptr] == 0 {
        0
    } else {
        1 + c_strlen(m, ptr + 1)
    }
}

/// The bytes of the string at `ptr`, without the zero byte that ends it.
pub open spec fn string_bytes(m: Seq<u8>, ptr: int) -> Seq<u8> {
    bytes_at(m, ptr, c_strlen(m, ptr))
}

/// In the store `m` with guard pages at `guards`, the string at `ptr` ends
/// with a zero byte, and all of it can be read.
pub open spec fn string_readable(m: Seq<u8>, guards: Seq<u64>, ptr: u64) -> bool {
    &&& ptr + c_strlen(m, ptr as int) < m.len()
    &&& range_accessible(m.len(), guards, ptr, (c_strlen(m, ptr as int) + 1) as u64)
}

/// The length counts the bytes before the first zero byte, none of which is zero.
pub proof fn lemma_c_strlen(m: Seq<u8>, ptr: int)
    requires
        0 <= ptr,
    ensures
        0 <= c_strlen(m, ptr),
        ptr + c_strlen(m, ptr) <= m.len() || c_strlen(m, ptr) == 0,
        forall|i: int| ptr <= i < ptr + c_strlen(m, ptr) ==> m[i] != 0,
        ptr + c_strlen(m, ptr) < m.len() ==> m[ptr + c_strlen(m, ptr)] == 0,
    decreases m.len() - ptr,
{
    if ptr < m.len() && m[ptr] != 0 {
        lemma_c_strlen(m, ptr + 1);
    }
}

/// Bytes without a zero byte that are followed by a zero byte are a string of
/// exactly those bytes.
pub proof fn lemma_c_strlen_of_terminated(m: Seq<u8>, ptr: int, len: int)
    requires
        0 <= ptr,
        0 <= len,
        ptr + len < m.len(),
        forall|i: int| ptr <= i < ptr + len ==> m[i] != 0,
        m[ptr + len] == 0,
    ensures
        c_strlen(m, ptr) == len,
    decreases len,
{
    if len > 0 {
        lemma_c_strlen_of_terminated(m, ptr + 1, len - 1);
    }
}

/// The address of the first byte of a null-terminated string. Two string
/// objects are equal when they name the same address.
#[derive(Clone, Copy, PartialEq, Eq, Debug, Structural)]
pub struct StringObject(pub u64);

impl StringObject {
    /// The string ends with a zero byte, and all of it can be read.
    pub open spec fn readable(&self, mem: &Memory) -> bool {
        string_readable(mem@, mem.guards(), self.0)
    }

    /// Tells whether the string ends with a zero byte and all of it can be read.
    pub fn is_readable(&self, mem: &Memory) -> (ok: bool)
        ensures
            ok == self.readable(mem),
    {
        let mut len: u64 = 0;
        proof {
            lemma_c_strlen(mem@, self.0 as int);
        }
        loop
            invariant
                self.0 + len <= u64::MAX,
                0 <= len <= c_strlen(mem@, self.0 as int),
                c_strlen(mem@, self.0 as int) == len + c_strlen(mem@, self.0 + len),
            ensures
                len == c_strlen(mem@, self.0 as int),
                self.0 + len < mem@.len() <= u64::MAX,
            decreases mem@.len() - (self.0 + len),
        {
            match mem.peek(self.0 + len) {
                None => {
                    return false;
                },
                Some(b) => {
                    if b == 0 {
                        break ;
                    }
                },
            }
            proof {
                lemma_c_strlen(mem@, self.0 + len + 1);
            }
            len = len + 1;
        }
        mem.is_accessible(self.0, len + 1)
    }

    /// A builder for a string of `len_in_bytes` bytes in fresh storage.
    pub fn builder(len_in_bytes: u64, mem: &mut Memory) -> (builder: StringObjectBuilder)
        requires
            old(mem).wf(),
            len_in_bytes < u64::MAX,
            old(mem).can_allocate((len_in_bytes + 1) as u64),
        ensures
            final(mem).wf(),
            final(mem).guards() == old(mem).guards(),
            final(mem)@ == old(mem)@ + zeros(round_up(len_in_bytes + 1)),
            builder.ptr == old(mem)@.len(),
            builder.len_in_bytes == len_in_bytes,
            builder.cursor == 0,
            builder.wf(final(mem)),
    {
        StringObjectBuilder::new(len_in_bytes, mem)
    }

    /// The number of bytes of the string, without the zero byte that ends it.
    pub fn len_in_bytes(&self, mem: &Memory) -> (len: u64)
        requires
            self.readable(mem),
        ensures
            len == c_strlen(mem@, self.0 as int),
    {
        let mut len: u64 = 0;
        proof {
            lemma_c_strlen(mem@, self.0 as int);
        }
        loop
            invariant
                self.readable(mem),
                0 <= len <= c_strlen(mem@, self.0 as int),
                c_strlen(mem@, self.0 as int) == len + c_strlen(mem@, self.0 + len),
            ensures
                len == c_strlen(mem@, self.0 as int),
            decreases c_strlen(mem@, self.0 as int) - len,
        {
            let b = mem.read_byte(self.0 + len);
            if b == 0 {
                break ;
            }
            proof {
                lemma_c_strlen(mem@, self.0 + len + 1);
            }
            len = len + 1;
        }
        len
    }

    /// Reads the bytes of the string, without the zero byte that ends it.
    pub fn as_bytes(&self, mem: &Memory) -> (bytes: Vec<u8>)
        requires
            self.readable(mem),
        ensures
            bytes@ == string_bytes(mem@, self.0 as int),
    {
        let len = self.len_in_bytes(mem);
        mem.read_bytes(self.0, len)
    }
}

/// The number of bytes of the UTF-8 encoding of the scalar value `scalar`.
pub fn scalar_len_utf8(scalar: u32) -> (len: u64)
    requires
        is_scalar(scalar),
    ensures
        len == encode_scalar(scalar).len(),
        1 <= len <= 4,
{
    if scalar <= 0x7F {
        1
    } else if scalar <= 0x7FF {
        2
    } else if scalar <= 0xFFFF {
        3
    } else {
        4
    }
}

/// The UTF-8 encoding of the scalar value `scalar`.
pub fn encode_scalar_utf8(scalar: u32) -> (bytes: Vec<u8>)
    requires
        is_scalar(scalar),
    ensures
        bytes@ == encode_scalar(scalar),
{
    let mut bytes: Vec<u8> = Vec::new();
    if scalar <= 0x7F {
        bytes.push((scalar & 0x7F) as u8);
    } else if scalar <= 0x7FF {
        bytes.push(0xC0 | ((scalar >> 6) & 0x1F) as u8);
        bytes.push(0x80 | (scalar & 0x3F) as u8);
    } else if scalar <= 0xFFFF {
        bytes.push(0xE0 | ((scalar >> 12) & 0x0F) as u8);
        bytes.push(0x80 | ((scalar >> 6) & 0x3F) as u8);
        bytes.push(0x80 | (scalar & 0x3F) as u8);
    } else {
        bytes.push(0xF0 | ((scalar >> 18) & 0x07) as u8);
        bytes.push(0x80 | ((scalar >> 12) & 0x3F) as u8);
        bytes.push(0x80 | ((scalar >> 6) & 0x3F) as u8);
        bytes.push(0x80 | (scalar & 0x3F) as u8);
    }
    bytes
}

/// The scalar values that the UTF-8 bytes `bytes` encode, in order.
pub open spec fn utf8_scalars(bytes: Seq<u8>) -> Seq<u32>
    decreases bytes.len(),
    when valid_utf8(bytes)
{
    if bytes.len() == 0 {
        Seq::empty()
    } else {
        seq![decode_first_scalar(bytes)] + utf8_scalars(pop_first_scalar(bytes))
    }
}

/// Decodes valid UTF-8 bytes into the scalar values that they encode.
pub fn decode_utf8_scalars(bytes: &Vec<u8>) -> (scalars: Vec<u32>)
    requires
        valid_utf8(bytes@),
    ensures
        scalars@ == utf8_scalars(bytes@),
{
    let n = bytes.len();
    let mut scalars: Vec<u32> = Vec::new();
    let mut i: usize = 0;
    assert(bytes@.subrange(0, n as int) =~= bytes@);
    while i < n
        invariant
            i <= n,
            n == bytes@.len(),
            valid_utf8(bytes@.subrange(i as int, n as int)),
            scalars@ + utf8_scalars(bytes@.subrange(i as int, n as int)) == utf8_scalars(bytes@),
        decreases n - i,
    {
        let ghost rest = bytes@.subrange(i as int, n as int);
        let b0 = bytes[i];
        let (scalar, width): (u32, usize) = if b0 <= 0x7f {
            ((b0 & 0x7F) as u32, 1)
        } else if b0 <= 0xdf {
            ((((b0 & 0x1F) as u32) << 6) | ((bytes[i + 1] & 0x3f) as u32), 2)
        } else if b0 <= 0xef {
            (
                (((b0 & 0x0F) as u32) << 12) | (((bytes[i + 1] & 0x3f) as u32) << 6) | ((bytes[i
                    + 2] & 0x3f) as u32),
                3,
            )
        } else {
            (
                (((b0 & 0x07) as u32) << 18) | (((bytes[i + 1] & 0x3f) as u32) << 12) | (((bytes[i
                    + 2] & 0x3f) as u32) << 6) | ((bytes[i + 3] & 0x3f) as u32),
                4,
            )
        };
        assert(pop_first_scalar(rest) =~= bytes@.subrange(i + width, n as int));
        scalars.push(scalar);
        i = i + width;
    }
    scalars
}

/// Tells whether `bytes` are valid UTF-8.
pub fn is_valid_utf8(bytes: &Vec<u8>) -> (ok: bool)
    ensures
        ok == valid_utf8(bytes@),
{
    let n = bytes.len();
    let mut i: usize = 0;
    assert(bytes@.subrange(0, n as int) =~= bytes@);
    while i < n
        invariant
            i <= n,
            n == bytes@.len(),
            valid_utf8(bytes@) == valid_utf8(bytes@.subrange(i as int, n as int)),
        decreases n - i,
    {
        let ghost rest = bytes@.subrange(i as int, n as int);
        let b0 = bytes[i];
        let width: usize = if b0 <= 0x7f {
            1
        } else if 0xc0 <= b0 && b0 <= 0xdf {
            2
        } else if 0xe0 <= b0 && b0 <= 0xef {
            3
        } else if 0xf0 <= b0 && b0 <= 0xf7 {
            4
        } else {
            return false;
        };
        if n - i < width {
            return false;
        }
        let mut k: usize = 1;
        while k < width
            invariant
                1 <= k <= width <= 4,
                i + width <= n,
                n == bytes@.len(),
                rest == bytes@.subrange(i as int, n as int),
                forall|j: int| 1 <= j < k ==> 0x80 <= #[trigger] rest[j] <= 0xbf,
                b0 == rest[0],
                rest.len() >= width,
                valid_utf8(bytes@) == valid_utf8(rest),
                width == 1 ==> b0 <= 0x7f,
                width == 2 ==> 0xc0 <= b0 <= 0xdf,
                width == 3 ==> 0xe0 <= b0 <= 0xef,
                width == 4 ==> 0xf0 <= b0 <= 0xf7,
            decreases width - k,
        {
            let b = bytes[i + k];
            if b < 0x80 || b > 0xbf {
                return false;
            }
            k = k + 1;
        }
        let scalar: u32 = if width == 1 {
            (b0 & 0x7F) as u32
        } else if width == 2 {
            (((b0 & 0x1F) as u32) << 6) | ((bytes[i + 1] & 0x3f) as u32)
        } else if width == 3 {
            (((b0 & 0x0F) as u32) << 12) | (((bytes[i + 1] & 0x3f) as u32) << 6) | ((bytes[i
                + 2] & 0x3f) as u32)
        } else {
            (((b0 & 0x07) as u32) << 18) | (((bytes[i + 1] & 0x3f) as u32) << 12) | (((bytes[i
                + 2] & 0x3f) as u32) << 6) | ((bytes[i + 3] & 0x3f) as u32)
        };
        let overlong = (width == 2 && scalar < 0x80) || (width == 3 && scalar < 0x800) || (width
            == 4 && (scalar < 0x10000 || scalar > 0x10ffff));
        let surrogate = 0xD800 <= scalar && scalar <= 0xDFFF;
        if overlong || surrogate {
            return false;
        }
        assert(pop_first_scalar(rest) =~= bytes@.subrange(i + width, n as int));
        i = i + width;
    }
    true
}

/// A string under construction: storage for `len_in_bytes` bytes and the zero
/// byte that ends them, of which `cursor` bytes are written.
pub struct StringObjectBuilder {
    pub ptr: u64,
    pub len_in_bytes: u64,
    pub cursor: u64,
}

impl StringObjectBuilder {
    /// The storage of the builder lies in `mem`, and the cursor inside it.
    pub open spec fn wf(&self, mem: &Memory) -> bool {
        &&& self.cursor <= self.len_in_bytes < u64::MAX
        &&& self.ptr + self.len_in_bytes + 1 <= u64::MAX
        &&& mem.accessible(self.ptr, (self.len_in_bytes + 1) as u64)
    }

    fn new(len_in_bytes: u64, mem: &mut Memory) -> (builder: Self)
        requires
            old(mem).wf(),
            len_in_bytes < u64::MAX,
            old(mem).can_allocate((len_in_bytes + 1) as u64),
        ensures
            final(mem).wf(),
            final(mem).guards() == old(mem).guards(),
            final(mem)@ == old(mem)@ + zeros(round_up(len_in_bytes + 1)),
            builder.ptr == old(mem)@.len(),
            builder.len_in_bytes == len_in_bytes,
            builder.cursor == 0,
            builder.wf(final(mem)),
    {
        let ptr = mem.allocate(len_in_bytes + 1, 0);
        StringObjectBuilder { ptr, len_in_bytes, cursor: 0 }
    }

    /// Writes `src` at the cursor and moves the cursor behind it.
    pub fn append_bytes(&mut self, mem: &mut Memory, src: &Vec<u8>)
        requires
            old(self).wf(old(mem)),
            old(self).cursor + src@.len() <= old(self).len_in_bytes,
        ensures
            final(self).wf(final(mem)),
            final(self).ptr == old(self).ptr,
            final(self).len_in_bytes == old(self).len_in_bytes,
            final(self).cursor == old(self).cursor + src@.len(),
            final(mem)@ == store_bytes(old(mem)@, old(self).ptr + old(self).cursor, src@),
            final(mem).guards() == old(mem).guards(),
    {
        mem.write_bytes(self.ptr + self.cursor, src);
        self.cursor = self.cursor + src.len() as u64;
    }

    /// Writes the UTF-8 encoding of the scalar value `scalar` at the cursor
    /// and moves the cursor behind it.
    pub fn append_scalar(&mut self, mem: &mut Memory, scalar: u32)
        requires
            is_scalar(scalar),
            old(self).wf(old(mem)),
            old(self).cursor + encode_scalar(scalar).len() <= old(self).len_in_bytes,
        ensures
            final(self).wf(final(mem)),
            final(self).ptr == old(self).ptr,
            final(self).len_in_bytes == old(self).len_in_bytes,
            final(self).cursor == old(self).cursor + encode_scalar(scalar).len(),
            final(mem)@ == store_bytes(
                old(mem)@,
                old(self).ptr + old(self).cursor,
                encode_scalar(scalar),
            ),
            final(mem).guards() == old(mem).guards(),
    {
        let bytes = encode_scalar_utf8(scalar);
        self.append_bytes(mem, &bytes);
    }

    /// Writes the UTF-8 encoding of `src` at the cursor and moves the cursor
    /// behind it.
    pub fn append_char(&mut self, mem: &mut Memory, src: char)
        requires
            old(self).wf(old(mem)),
            old(self).cursor + encode_scalar(src as u32).len() <= old(self).len_in_bytes,
        ensures
            final(self).wf(final(mem)),
            final(self).ptr == old(self).ptr,
            final(self).len_in_bytes == old(self).len_in_bytes,
            final(self).cursor == old(self).cursor + encode_scalar(src as u32).len(),
            final(mem)@ == store_bytes(
                old(mem)@,
                old(self).ptr + old(self).cursor,
                encode_scalar(src as u32),
            ),
            final(mem).guards() == old(mem).guards(),
    {
        self.append_scalar(mem, src as u32);
    }

    /// Ends the string, which must be complete, with a zero byte.
    pub fn build(self, mem: &mut Memory) -> (string: StringObject)
        requires
            self.wf(old(mem)),
            self.cursor == self.len_in_bytes,
        ensures
            string.0 == self.ptr,
            final(mem)@ == old(mem)@.update(self.ptr + self.len_in_bytes, 0u8),
            final(mem).guards() == old(mem).guards(),
    {
        mem.write_byte(self.ptr + self.cursor, 0);
        StringObject(self.ptr)
    }
}

} // verus!
