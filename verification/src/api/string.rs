//! String operations as compiled code calls them.
use vstd::prelude::*;
use vstd::bytes::{spec_u32_from_le_bytes, spec_u32_to_le_bytes, u32_from_le_bytes, u32_to_le_bytes};
use vstd::utf8::{encode_scalar, is_scalar, valid_utf8};
use crate::global_context::GlobalContext;
use crate::light_weight_thread::{LightWeightThreadContext, frame_word};
use crate::memory::{Memory, round_up, store_bytes, store_word, word_at, zeros};
use crate::object::slice::{SliceObject, slice_at};
use crate::object::string::{StringObject, c_strlen, decode_utf8_scalars, encode_scalar_utf8,
    string_bytes, utf8_scalars};
use crate::FunctionObject;

verus! {

/// The store after a string of the bytes `bytes` was built in fresh storage
/// at its end.
pub open spec fn string_stored(m: Seq<u8>, bytes: Seq<u8>) -> Seq<u8> {
    store_bytes(m + zeros(round_up(bytes.len() as int + 1)), m.len() as int, bytes).update(
        m.len() as int + bytes.len(),
        0u8,
    )
}

/// There is room in `mem` for a string of `len` bytes.
pub open spec fn string_buildable(mem: &Memory, len: int) -> bool {
    &&& mem.wf()
    &&& 0 <= len < u64::MAX
    &&& mem.can_allocate((len + 1) as u64)
}

/// Builds a string of the bytes `bytes` in fresh storage.
pub fn build_string(mem: &mut Memory, bytes: &Vec<u8>) -> (string: StringObject)
    requires
        string_buildable(old(mem), bytes@.len() as int),
    ensures
        final(mem).wf(),
        final(mem).guards() == old(mem).guards(),
        string.0 == old(mem)@.len(),
        final(mem)@ == string_stored(old(mem)@, bytes@),
        final(mem)@.len() == old(mem)@.len() + round_up(bytes@.len() as int + 1),
{
    let mut builder = StringObject::builder(bytes.len() as u64, mem);
    builder.append_bytes(mem, bytes);
    builder.build(mem)
}

/// The frame of `ctx` and the state `gc` are such that `gox5_string_new_from_byte_slice` can run.
pub open spec fn string_new_from_byte_slice_ready(
    ctx: &LightWeightThreadContext,
    gc: &GlobalContext,
) -> bool {
    &&& gc.wf()
    &&& ctx.frame_accessible(&gc.allocator, 8)
    &&& ({
        let m = gc.allocator@;
        let sp = ctx.stack_pointer;
        let slice = slice_at(m, sp + 40);
        &&& slice.readable(&gc.allocator, 1)
        &&& string_buildable(&gc.allocator, slice.contents(m, 1).len() as int)
        &&& gc.allocator.accessible(frame_word(m, sp, 4), 8)
    })
}

/// `gox5_string_new_from_byte_slice` ran from the frame of `ctx` and left `ctx_after` and `next`.
pub open spec fn string_new_from_byte_slice_done(
    ctx: &LightWeightThreadContext,
    gc: &GlobalContext,
    ctx_after: &LightWeightThreadContext,
    gc_after: &GlobalContext,
    next: FunctionObject,
) -> bool {
    &&& gc_after.wf()
    &&& gc_after.same_tables(gc)
    &&& gc_after.allocator.guards() == gc.allocator.guards()
    &&& gc_after.allocator@ == store_word(
        string_stored(
            gc.allocator@,
            slice_at(gc.allocator@, ctx.stack_pointer + 40).contents(
                gc.allocator@,
                1,
            ),
        ),
        frame_word(gc.allocator@, ctx.stack_pointer, 4) as int,
        gc.allocator@.len() as u64,
    )
    &&& *ctx_after == ctx.left(gc_after.allocator@)
    &&& next == ctx.resume_func_in(gc_after.allocator@)
}

/// Makes a string from a slice of bytes. The frame holds the address for the
/// result and the slice. A string of the bytes of the slice is built in fresh
/// storage, its address is written to the result address, and the frame is
/// left.
pub fn gox5_string_new_from_byte_slice(
    ctx: &mut LightWeightThreadContext,
    gc: &mut GlobalContext,
) -> (next: FunctionObject)
    requires
        string_new_from_byte_slice_ready(old(ctx), old(gc)),
    ensures
        string_new_from_byte_slice_done(old(ctx), old(gc), final(ctx), final(gc), next),
{
    let result_ptr = ctx.frame_word(&gc.allocator, 4);
    let byte_slice = SliceObject::load(&gc.allocator, ctx.stack_pointer + 40);
    let src_bytes = byte_slice.as_bytes(&gc.allocator, 1);
    let string = build_string(&mut gc.allocator, &src_bytes);
    gc.allocator.write_word(result_ptr, string.0);
    ctx.leave(&gc.allocator)
}

/// The frame of `ctx` and the state `gc` are such that `gox5_string_new_from_rune` can run.
pub open spec fn string_new_from_rune_ready(
    ctx: &LightWeightThreadContext,
    gc: &GlobalContext,
) -> bool {
    &&& gc.wf()
    &&& ctx.frame_accessible(&gc.allocator, 6)
    &&& frame_word(gc.allocator@, ctx.stack_pointer, 5) <= u32::MAX
    &&& is_scalar(frame_word(gc.allocator@, ctx.stack_pointer, 5) as u32)
    &&& string_buildable(&gc.allocator, 4)
    &&& gc.allocator.accessible(
        frame_word(gc.allocator@, ctx.stack_pointer, 4),
        8,
    )
}

/// `gox5_string_new_from_rune` ran from the frame of `ctx` and left `ctx_after` and `next`.
pub open spec fn string_new_from_rune_done(
    ctx: &LightWeightThreadContext,
    gc: &GlobalContext,
    ctx_after: &LightWeightThreadContext,
    gc_after: &GlobalContext,
    next: FunctionObject,
) -> bool {
    &&& gc_after.wf()
    &&& gc_after.same_tables(gc)
    &&& gc_after.allocator.guards() == gc.allocator.guards()
    &&& gc_after.allocator@ == store_word(
        string_stored(
            gc.allocator@,
            encode_scalar(frame_word(gc.allocator@, ctx.stack_pointer, 5) as u32),
        ),
        frame_word(gc.allocator@, ctx.stack_pointer, 4) as int,
        gc.allocator@.len() as u64,
    )
    &&& *ctx_after == ctx.left(gc_after.allocator@)
    &&& next == ctx.resume_func_in(gc_after.allocator@)
}

/// Makes a string from a rune. The frame holds the address for the result
/// and the rune, a scalar value. A string of its UTF-8 encoding is built in
/// fresh storage, its address is written to the result address, and the frame
/// is left.
pub fn gox5_string_new_from_rune(
    ctx: &mut LightWeightThreadContext,
    gc: &mut GlobalContext,
) -> (next:
    FunctionObject)
    requires
        string_new_from_rune_ready(old(ctx), old(gc)),
    ensures
        string_new_from_rune_done(old(ctx), old(gc), final(ctx), final(gc), next),
{
    let result_ptr = ctx.frame_word(&gc.allocator, 4);
    let rune = ctx.frame_word(&gc.allocator, 5);
    let bytes = encode_scalar_utf8(rune as u32);
    let string = build_string(&mut gc.allocator, &bytes);
    gc.allocator.write_word(result_ptr, string.0);
    ctx.leave(&gc.allocator)
}

/// The scalar values that `bytes` hold, four bytes each and little-endian.
pub open spec fn le_scalars(bytes: Seq<u8>) -> Seq<u32> {
    Seq::new(
        (bytes.len() / 4) as nat,
        |k: int| spec_u32_from_le_bytes(bytes.subrange(4 * k, 4 * k + 4)),
    )
}

/// Every value of `scalars` is a scalar value.
pub open spec fn all_scalars(scalars: Seq<u32>) -> bool {
    forall|k: int| 0 <= k < scalars.len() ==> is_scalar(#[trigger] scalars[k])
}

/// The UTF-8 encodings of the scalar values `scalars`, one after the other.
pub open spec fn scalars_utf8(scalars: Seq<u32>) -> Seq<u8>
    decreases scalars.len(),
{
    if scalars.len() == 0 {
        Seq::empty()
    } else {
        scalars_utf8(scalars.drop_last()) + encode_scalar(scalars.last())
    }
}

/// Reads scalar values from `bytes`, four bytes each and little-endian.
pub fn decode_scalars_le(bytes: &Vec<u8>) -> (scalars: Vec<u32>)
    ensures
        scalars@ == le_scalars(bytes@),
{
    let n = bytes.len() / 4;
    let mut scalars: Vec<u32> = Vec::new();
    let mut k: usize = 0;
    while k < n
        invariant
            k <= n,
            n == bytes@.len() / 4,
            4 * n <= bytes@.len() <= usize::MAX,
            scalars@ == le_scalars(bytes@).subrange(0, k as int),
        decreases n - k,
    {
        let mut word: Vec<u8> = Vec::new();
        word.push(bytes[4 * k]);
        word.push(bytes[4 * k + 1]);
        word.push(bytes[4 * k + 2]);
        word.push(bytes[4 * k + 3]);
        assert(word@ =~= bytes@.subrange(4 * k, 4 * k + 4));
        scalars.push(u32_from_le_bytes(word.as_slice()));
        k = k + 1;
    }
    scalars
}

/// The UTF-8 encodings of the scalar values `scalars`, one after the other.
pub fn encode_scalars_utf8(scalars: &Vec<u32>) -> (bytes: Vec<u8>)
    requires
        all_scalars(scalars@),
    ensures
        bytes@ == scalars_utf8(scalars@),
{
    let mut bytes: Vec<u8> = Vec::new();
    let n = scalars.len();
    let mut i: usize = 0;
    while i < n
        invariant
            i <= n,
            n == scalars@.len(),
            all_scalars(scalars@),
            bytes@ == scalars_utf8(scalars@.subrange(0, i as int)),
        decreases n - i,
    {
        let mut encoded = encode_scalar_utf8(scalars[i]);
        bytes.append(&mut encoded);
        proof {
            let next = scalars@.subrange(0, i + 1);
            assert(next.drop_last() =~= scalars@.subrange(0, i as int));
        }
        i = i + 1;
    }
    assert(scalars@.subrange(0, n as int) =~= scalars@);
    bytes
}

/// The frame of `ctx` and the state `gc` are such that `gox5_string_new_from_rune_slice` can run.
pub open spec fn string_new_from_rune_slice_ready(
    ctx: &LightWeightThreadContext,
    gc: &GlobalContext,
) -> bool {
    &&& gc.wf()
    &&& ctx.frame_accessible(&gc.allocator, 8)
    &&& ({
        let m = gc.allocator@;
        let sp = ctx.stack_pointer;
        let slice = slice_at(m, sp + 40);
        let scalars = le_scalars(slice.contents(m, 4));
        &&& slice.readable(&gc.allocator, 4)
        &&& all_scalars(scalars)
        &&& string_buildable(&gc.allocator, scalars_utf8(scalars).len() as int)
        &&& gc.allocator.accessible(frame_word(m, sp, 4), 8)
    })
}

/// `gox5_string_new_from_rune_slice` ran from the frame of `ctx` and left `ctx_after` and `next`.
pub open spec fn string_new_from_rune_slice_done(
    ctx: &LightWeightThreadContext,
    gc: &GlobalContext,
    ctx_after: &LightWeightThreadContext,
    gc_after: &GlobalContext,
    next: FunctionObject,
) -> bool {
    &&& gc_after.wf()
    &&& gc_after.same_tables(gc)
    &&& gc_after.allocator.guards() == gc.allocator.guards()
    &&& gc_after.allocator@ == store_word(
        string_stored(
            gc.allocator@,
            scalars_utf8(
                le_scalars(
                    slice_at(gc.allocator@, ctx.stack_pointer + 40).contents(
                        gc.allocator@,
                        4,
                    ),
                ),
            ),
        ),
        frame_word(gc.allocator@, ctx.stack_pointer, 4) as int,
        gc.allocator@.len() as u64,
    )
    &&& *ctx_after == ctx.left(gc_after.allocator@)
    &&& next == ctx.resume_func_in(gc_after.allocator@)
}

/// Makes a string from a slice of runes. The frame holds the address for the
/// result and the slice, whose elements are scalar values of four bytes,
/// little-endian. A string of their UTF-8 encodings is built in fresh
/// storage, its address is written to the result address, and the frame is
/// left.
pub fn gox5_string_new_from_rune_slice(
    ctx: &mut LightWeightThreadContext,
    gc: &mut GlobalContext,
) -> (next: FunctionObject)
    requires
        string_new_from_rune_slice_ready(old(ctx), old(gc)),
    ensures
        string_new_from_rune_slice_done(old(ctx), old(gc), final(ctx), final(gc), next),
{
    let result_ptr = ctx.frame_word(&gc.allocator, 4);
    let rune_slice = SliceObject::load(&gc.allocator, ctx.stack_pointer + 40);
    let src_bytes = rune_slice.as_bytes(&gc.allocator, 4);
    let scalars = decode_scalars_le(&src_bytes);
    let bytes = encode_scalars_utf8(&scalars);
    let string = build_string(&mut gc.allocator, &bytes);
    gc.allocator.write_word(result_ptr, string.0);
    ctx.leave(&gc.allocator)
}

/// The frame of `ctx` and the state `gc` are such that `gox5_string_append` can run.
pub open spec fn string_append_ready(ctx: &LightWeightThreadContext, gc: &GlobalContext) -> bool {
    &&& gc.wf()
    &&& ctx.frame_accessible(&gc.allocator, 7)
    &&& ({
        let m = gc.allocator@;
        let sp = ctx.stack_pointer;
        let lhs = StringObject(frame_word(m, sp, 5));
        let rhs = StringObject(frame_word(m, sp, 6));
        &&& lhs.readable(&gc.allocator)
        &&& rhs.readable(&gc.allocator)
        &&& string_buildable(
            &gc.allocator,
            c_strlen(m, lhs.0 as int) + c_strlen(m, rhs.0 as int),
        )
        &&& gc.allocator.accessible(frame_word(m, sp, 4), 8)
    })
}

/// `gox5_string_append` ran from the frame of `ctx` and left `ctx_after` and `next`.
pub open spec fn string_append_done(
    ctx: &LightWeightThreadContext,
    gc: &GlobalContext,
    ctx_after: &LightWeightThreadContext,
    gc_after: &GlobalContext,
    next: FunctionObject,
) -> bool {
    &&& gc_after.wf()
    &&& gc_after.same_tables(gc)
    &&& gc_after.allocator.guards() == gc.allocator.guards()
    &&& gc_after.allocator@ == store_word(
        string_stored(
            gc.allocator@,
            string_bytes(
                gc.allocator@,
                frame_word(gc.allocator@, ctx.stack_pointer, 5) as int,
            ) + string_bytes(
                gc.allocator@,
                frame_word(gc.allocator@, ctx.stack_pointer, 6) as int,
            ),
        ),
        frame_word(gc.allocator@, ctx.stack_pointer, 4) as int,
        gc.allocator@.len() as u64,
    )
    &&& *ctx_after == ctx.left(gc_after.allocator@)
    &&& next == ctx.resume_func_in(gc_after.allocator@)
}

/// Joins two strings. The frame holds the address for the result and the two
/// strings. A string of the bytes of the first followed by those of the
/// second is built in fresh storage, its address is written to the result
/// address, and the frame is left.
pub fn gox5_string_append(ctx: &mut LightWeightThreadContext, gc: &mut GlobalContext) -> (next:
    FunctionObject)
    requires
        string_append_ready(old(ctx), old(gc)),
    ensures
        string_append_done(old(ctx), old(gc), final(ctx), final(gc), next),
{
    let result_ptr = ctx.frame_word(&gc.allocator, 4);
    let lhs = StringObject(ctx.frame_word(&gc.allocator, 5));
    let rhs = StringObject(ctx.frame_word(&gc.allocator, 6));
    let lhs_bytes = lhs.as_bytes(&gc.allocator);
    let rhs_bytes = rhs.as_bytes(&gc.allocator);
    proof {
        crate::object::string::lemma_c_strlen(gc.allocator@, lhs.0 as int);
        crate::object::string::lemma_c_strlen(gc.allocator@, rhs.0 as int);
    }
    let len = lhs_bytes.len() as u64 + rhs_bytes.len() as u64;
    let ghost m = gc.allocator@;
    let mut builder = StringObject::builder(len, &mut gc.allocator);
    builder.append_bytes(&mut gc.allocator, &lhs_bytes);
    builder.append_bytes(&mut gc.allocator, &rhs_bytes);
    let string = builder.build(&mut gc.allocator);
    assert(gc.allocator@ =~= string_stored(m, lhs_bytes@ + rhs_bytes@));
    gc.allocator.write_word(result_ptr, string.0);
    ctx.leave(&gc.allocator)
}

/// The frame of `ctx` and the state `gc` are such that `gox5_string_length` can run.
pub open spec fn string_length_ready(ctx: &LightWeightThreadContext, gc: &GlobalContext) -> bool {
    &&& ctx.frame_accessible(&gc.allocator, 6)
    &&& StringObject(frame_word(gc.allocator@, ctx.stack_pointer, 5)).readable(
        &gc.allocator,
    )
    &&& gc.allocator.accessible(
        frame_word(gc.allocator@, ctx.stack_pointer, 4),
        8,
    )
}

/// `gox5_string_length` ran from the frame of `ctx` and left `ctx_after` and `next`.
pub open spec fn string_length_done(
    ctx: &LightWeightThreadContext,
    gc: &GlobalContext,
    ctx_after: &LightWeightThreadContext,
    gc_after: &GlobalContext,
    next: FunctionObject,
) -> bool {
    &&& gc_after.same_tables(gc)
    &&& gc_after.allocator.guards() == gc.allocator.guards()
    &&& gc.wf() ==> gc_after.wf()
    &&& gc_after.allocator@ == store_word(
        gc.allocator@,
        frame_word(gc.allocator@, ctx.stack_pointer, 4) as int,
        c_strlen(
            gc.allocator@,
            frame_word(gc.allocator@, ctx.stack_pointer, 5) as int,
        ) as u64,
    )
    &&& *ctx_after == ctx.left(gc_after.allocator@)
    &&& next == ctx.resume_func_in(gc_after.allocator@)
}

/// Tells the length of a string. The frame holds the address for the result
/// and the string. The number of bytes of the string is written to the result
/// address, and the frame is left.
pub fn gox5_string_length(ctx: &mut LightWeightThreadContext, gc: &mut GlobalContext) -> (next:
    FunctionObject)
    requires
        string_length_ready(old(ctx), old(gc)),
    ensures
        string_length_done(old(ctx), old(gc), final(ctx), final(gc), next),
{
    let result_ptr = ctx.frame_word(&gc.allocator, 4);
    let string = StringObject(ctx.frame_word(&gc.allocator, 5));
    let result = string.len_in_bytes(&gc.allocator);
    gc.allocator.write_word(result_ptr, result);
    ctx.leave(&gc.allocator)
}

/// The store after a step of the iteration over the scalar values `scalars`
/// of a string: with `count`, the number of steps made so far, read through
/// `count_ptr`. If there is a scalar value at that position, the position is
/// written through `index_ptr` and the value through `rune_ptr`, each unless
/// null, the flag through `found_ptr` is set, and the count is raised by one.
/// If there is none, the flag is cleared.
pub open spec fn string_stepped(
    m: Seq<u8>,
    scalars: Seq<u32>,
    index_ptr: u64,
    rune_ptr: u64,
    found_ptr: u64,
    count_ptr: u64,
) -> Seq<u8> {
    let index = word_at(m, count_ptr as int);
    let m1 = if index_ptr != 0 {
        store_word(m, index_ptr as int, index)
    } else {
        m
    };
    let m2 = if rune_ptr != 0 {
        store_bytes(m1, rune_ptr as int, spec_u32_to_le_bytes(scalars[index as int]))
    } else {
        m1
    };
    if index < scalars.len() {
        store_word(m2.update(found_ptr as int, 1u8), count_ptr as int, (index + 1) as u64)
    } else {
        m.update(found_ptr as int, 0u8)
    }
}

/// The frame of `ctx` and the state `gc` are such that `gox5_string_next` can run.
pub open spec fn string_next_ready(ctx: &LightWeightThreadContext, gc: &GlobalContext) -> bool {
    &&& ctx.frame_accessible(&gc.allocator, 9)
    &&& ({
        let m = gc.allocator@;
        let sp = ctx.stack_pointer;
        let string = StringObject(frame_word(m, sp, 4));
        let scalars = utf8_scalars(string_bytes(m, string.0 as int));
        let found = word_at(m, frame_word(m, sp, 8) as int) < scalars.len();
        &&& string.readable(&gc.allocator)
        &&& valid_utf8(string_bytes(m, string.0 as int))
        &&& gc.allocator.accessible(frame_word(m, sp, 8), 8)
        &&& gc.allocator.accessible(frame_word(m, sp, 7), 1)
        &&& found && frame_word(m, sp, 5) != 0 ==> gc.allocator.accessible(
            frame_word(m, sp, 5),
            8,
        )
        &&& found && frame_word(m, sp, 6) != 0 ==> gc.allocator.accessible(
            frame_word(m, sp, 6),
            4,
        )
    })
}

/// `gox5_string_next` ran from the frame of `ctx` and left `ctx_after` and `next`.
pub open spec fn string_next_done(
    ctx: &LightWeightThreadContext,
    gc: &GlobalContext,
    ctx_after: &LightWeightThreadContext,
    gc_after: &GlobalContext,
    next: FunctionObject,
) -> bool {
    &&& gc_after.same_tables(gc)
    &&& gc_after.allocator.guards() == gc.allocator.guards()
    &&& gc.wf() ==> gc_after.wf()
    &&& gc_after.allocator@ == string_stepped(
        gc.allocator@,
        utf8_scalars(
            string_bytes(
                gc.allocator@,
                frame_word(gc.allocator@, ctx.stack_pointer, 4) as int,
            ),
        ),
        frame_word(gc.allocator@, ctx.stack_pointer, 5),
        frame_word(gc.allocator@, ctx.stack_pointer, 6),
        frame_word(gc.allocator@, ctx.stack_pointer, 7),
        frame_word(gc.allocator@, ctx.stack_pointer, 8),
    )
    &&& *ctx_after == ctx.left(gc_after.allocator@)
    &&& next == ctx.resume_func_in(gc_after.allocator@)
}

/// Steps through the scalar values of a string. The frame holds the string,
/// which is valid UTF-8, the addresses for the position and for the value,
/// each of which may be null, the address for a flag, and the address of the
/// count of steps made so far. If the string has a scalar value at the
/// position that the count gives, the position and the value are written, the
/// flag is set, and the count is raised by one; if not, the flag is cleared.
/// The frame is left.
pub fn gox5_string_next(ctx: &mut LightWeightThreadContext, gc: &mut GlobalContext) -> (next:
    FunctionObject)
    requires
        string_next_ready(old(ctx), old(gc)),
    ensures
        string_next_done(old(ctx), old(gc), final(ctx), final(gc), next),
{
    let string = StringObject(ctx.frame_word(&gc.allocator, 4));
    let index_ptr = ctx.frame_word(&gc.allocator, 5);
    let rune_ptr = ctx.frame_word(&gc.allocator, 6);
    let found_ptr = ctx.frame_word(&gc.allocator, 7);
    let count_ptr = ctx.frame_word(&gc.allocator, 8);
    let bytes = string.as_bytes(&gc.allocator);
    let scalars = decode_utf8_scalars(&bytes);
    let index = gc.allocator.read_word(count_ptr);
    if index < scalars.len() as u64 {
        if index_ptr != 0 {
            gc.allocator.write_word(index_ptr, index);
        }
        if rune_ptr != 0 {
            let word = u32_to_le_bytes(scalars[index as usize]);
            gc.allocator.write_bytes(rune_ptr, &word);
        }
        gc.allocator.write_byte(found_ptr, 1);
        gc.allocator.write_word(count_ptr, index + 1);
    } else {
        gc.allocator.write_byte(found_ptr, 0);
    }
    ctx.leave(&gc.allocator)
}

/// The bound that the word `bound` stands for in a string of `len` bytes:
/// itself, or `default` if it is minus one.
pub open spec fn substr_bound(bound: u64, default: int) -> int {
    if bound == u64::MAX {
        default
    } else {
        bound as int
    }
}

/// The frame of `ctx` and the state `gc` are such that `gox5_string_substr` can run.
pub open spec fn string_substr_ready(ctx: &LightWeightThreadContext, gc: &GlobalContext) -> bool {
    &&& gc.wf()
    &&& ctx.frame_accessible(&gc.allocator, 8)
    &&& ({
        let m = gc.allocator@;
        let sp = ctx.stack_pointer;
        let base = StringObject(frame_word(m, sp, 5));
        let len = c_strlen(m, base.0 as int);
        let low = substr_bound(frame_word(m, sp, 6), 0);
        let high = substr_bound(frame_word(m, sp, 7), len);
        &&& base.readable(&gc.allocator)
        &&& low <= high <= len
        &&& string_buildable(&gc.allocator, high - low)
        &&& gc.allocator.accessible(frame_word(m, sp, 4), 8)
    })
}

/// `gox5_string_substr` ran from the frame of `ctx` and left `ctx_after` and `next`.
pub open spec fn string_substr_done(
    ctx: &LightWeightThreadContext,
    gc: &GlobalContext,
    ctx_after: &LightWeightThreadContext,
    gc_after: &GlobalContext,
    next: FunctionObject,
) -> bool {
    &&& gc_after.wf()
    &&& gc_after.same_tables(gc)
    &&& gc_after.allocator.guards() == gc.allocator.guards()
    &&& ({
        let m = gc.allocator@;
        let sp = ctx.stack_pointer;
        let base = frame_word(m, sp, 5);
        let low = substr_bound(frame_word(m, sp, 6), 0);
        let high = substr_bound(frame_word(m, sp, 7), c_strlen(m, base as int));
        gc_after.allocator@ == store_word(
            string_stored(m, string_bytes(m, base as int).subrange(low, high)),
            frame_word(m, sp, 4) as int,
            m.len() as u64,
        )
    })
    &&& *ctx_after == ctx.left(gc_after.allocator@)
    &&& next == ctx.resume_func_in(gc_after.allocator@)
}

/// Takes a part of a string. The frame holds the address for the result, the
/// string, and the bounds of the part in bytes, where minus one stands for
/// the start of the string as the lower bound and for its end as the upper
/// bound. A string of the bytes between the bounds is built in fresh storage,
/// its address is written to the result address, and the frame is left.
pub fn gox5_string_substr(ctx: &mut LightWeightThreadContext, gc: &mut GlobalContext) -> (next:
    FunctionObject)
    requires
        string_substr_ready(old(ctx), old(gc)),
    ensures
        string_substr_done(old(ctx), old(gc), final(ctx), final(gc), next),
{
    let result_ptr = ctx.frame_word(&gc.allocator, 4);
    let base = StringObject(ctx.frame_word(&gc.allocator, 5));
    let low_word = ctx.frame_word(&gc.allocator, 6);
    let high_word = ctx.frame_word(&gc.allocator, 7);
    let bytes = base.as_bytes(&gc.allocator);
    let len = bytes.len();
    let low = if low_word == u64::MAX {
        0
    } else {
        low_word as usize
    };
    let high = if high_word == u64::MAX {
        len
    } else {
        high_word as usize
    };
    let mut part: Vec<u8> = Vec::new();
    let mut i: usize = low;
    while i < high
        invariant
            low <= i <= high <= bytes@.len(),
            part@ == bytes@.subrange(low as int, i as int),
        decreases high - i,
    {
        part.push(bytes[i]);
        i = i + 1;
    }
    let string = build_string(&mut gc.allocator, &part);
    gc.allocator.write_word(result_ptr, string.0);
    ctx.leave(&gc.allocator)
}

/// Tells whether there is room in `mem` for a string of `len` bytes.
pub fn can_build_string(mem: &Memory, len: u64) -> (ok: bool)
    ensures
        ok == string_buildable(mem, len as int),
{
    mem.check_wf() && len < u64::MAX && mem.has_room(len + 1)
}

/// Tells whether the value is a scalar value: a code point that is no surrogate.
pub fn is_scalar_value(value: u32) -> (ok: bool)
    ensures
        ok == is_scalar(value),
{
    value <= 0x10FFFF && !(0xD800 <= value && value <= 0xDFFF)
}

/// Tells whether all of `scalars` are scalar values, and if so, the number of
/// bytes of their UTF-8 encodings.
pub fn utf8_len_of_scalars(scalars: &Vec<u32>) -> (len: Option<u64>)
    requires
        4 * scalars@.len() <= u64::MAX,
    ensures
        len is Some == all_scalars(scalars@),
        len matches Some(n) ==> n == scalars_utf8(scalars@).len(),
{
    let n = scalars.len();
    let mut total: u64 = 0;
    let mut i: usize = 0;
    while i < n
        invariant
            i <= n,
            n == scalars@.len(),
            all_scalars(scalars@.subrange(0, i as int)),
            total == scalars_utf8(scalars@.subrange(0, i as int)).len(),
            total <= 4 * i,
            4 * n <= u64::MAX,
        decreases n - i,
    {
        if !is_scalar_value(scalars[i]) {
            return None;
        }
        proof {
            let next = scalars@.subrange(0, i + 1);
            assert(next.drop_last() =~= scalars@.subrange(0, i as int));
            assert forall|k: int| 0 <= k < next.len() implies is_scalar(#[trigger] next[k]) by {
            }
        }
        total = total + crate::object::string::scalar_len_utf8(scalars[i]);
        i = i + 1;
    }
    assert(scalars@.subrange(0, n as int) =~= scalars@);
    Some(total)
}

/// Tells whether `gox5_string_new_from_byte_slice` can run from the frame of
/// `ctx` in the state `gc`.
pub fn check_string_new_from_byte_slice(ctx: &LightWeightThreadContext, gc: &GlobalContext) -> (ok:
    bool)
    ensures
        ok == string_new_from_byte_slice_ready(ctx, gc),
{
    if !gc.check_wf() || !ctx.is_frame_accessible(&gc.allocator, 8) {
        return false;
    }
    let result_ptr = ctx.frame_word(&gc.allocator, 4);
    let slice = SliceObject::load(&gc.allocator, ctx.stack_pointer + 40);
    if !slice.is_readable(&gc.allocator, 1) {
        return false;
    }
    let len = crate::api::slice::contents_len(&slice, 1);
    can_build_string(&gc.allocator, len) && gc.allocator.is_accessible(result_ptr, 8)
}

/// Tells whether `gox5_string_new_from_rune` can run from the frame of `ctx`
/// in the state `gc`.
pub fn check_string_new_from_rune(ctx: &LightWeightThreadContext, gc: &GlobalContext) -> (ok: bool)
    ensures
        ok == string_new_from_rune_ready(ctx, gc),
{
    if !gc.check_wf() || !ctx.is_frame_accessible(&gc.allocator, 6) {
        return false;
    }
    let result_ptr = ctx.frame_word(&gc.allocator, 4);
    let rune = ctx.frame_word(&gc.allocator, 5);
    rune <= u32::MAX as u64 && is_scalar_value(rune as u32) && can_build_string(
        &gc.allocator,
        4,
    ) && gc.allocator.is_accessible(result_ptr, 8)
}

/// Tells whether `gox5_string_new_from_rune_slice` can run from the frame of
/// `ctx` in the state `gc`.
pub fn check_string_new_from_rune_slice(ctx: &LightWeightThreadContext, gc: &GlobalContext) -> (ok:
    bool)
    ensures
        ok == string_new_from_rune_slice_ready(ctx, gc),
{
    if !gc.check_wf() || !ctx.is_frame_accessible(&gc.allocator, 8) {
        return false;
    }
    let result_ptr = ctx.frame_word(&gc.allocator, 4);
    let slice = SliceObject::load(&gc.allocator, ctx.stack_pointer + 40);
    if !slice.is_readable(&gc.allocator, 4) {
        return false;
    }
    let bytes = slice.as_bytes(&gc.allocator, 4);
    let scalars = decode_scalars_le(&bytes);
    match utf8_len_of_scalars(&scalars) {
        Some(len) => can_build_string(&gc.allocator, len) && gc.allocator.is_accessible(
            result_ptr,
            8,
        ),
        None => false,
    }
}

/// Tells whether `gox5_string_append` can run from the frame of `ctx` in the
/// state `gc`.
pub fn check_string_append(ctx: &LightWeightThreadContext, gc: &GlobalContext) -> (ok: bool)
    ensures
        ok == string_append_ready(ctx, gc),
{
    if !gc.check_wf() || !ctx.is_frame_accessible(&gc.allocator, 7) {
        return false;
    }
    let result_ptr = ctx.frame_word(&gc.allocator, 4);
    let lhs = StringObject(ctx.frame_word(&gc.allocator, 5));
    let rhs = StringObject(ctx.frame_word(&gc.allocator, 6));
    if !lhs.is_readable(&gc.allocator) || !rhs.is_readable(&gc.allocator) {
        return false;
    }
    let len = lhs.len_in_bytes(&gc.allocator) as u128 + rhs.len_in_bytes(&gc.allocator) as u128;
    len < u64::MAX as u128 && can_build_string(&gc.allocator, len as u64)
        && gc.allocator.is_accessible(result_ptr, 8)
}

/// Tells whether `gox5_string_length` can run from the frame of `ctx` in the
/// state `gc`.
pub fn check_string_length(ctx: &LightWeightThreadContext, gc: &GlobalContext) -> (ok: bool)
    ensures
        ok == string_length_ready(ctx, gc),
{
    if !ctx.is_frame_accessible(&gc.allocator, 6) {
        return false;
    }
    let result_ptr = ctx.frame_word(&gc.allocator, 4);
    let string = StringObject(ctx.frame_word(&gc.allocator, 5));
    string.is_readable(&gc.allocator) && gc.allocator.is_accessible(result_ptr, 8)
}

/// Tells whether `gox5_string_next` can run from the frame of `ctx` in the
/// state `gc`.
pub fn check_string_next(ctx: &LightWeightThreadContext, gc: &GlobalContext) -> (ok: bool)
    ensures
        ok == string_next_ready(ctx, gc),
{
    if !ctx.is_frame_accessible(&gc.allocator, 9) {
        return false;
    }
    let string = StringObject(ctx.frame_word(&gc.allocator, 4));
    let index_ptr = ctx.frame_word(&gc.allocator, 5);
    let rune_ptr = ctx.frame_word(&gc.allocator, 6);
    let found_ptr = ctx.frame_word(&gc.allocator, 7);
    let count_ptr = ctx.frame_word(&gc.allocator, 8);
    if !string.is_readable(&gc.allocator) {
        return false;
    }
    let bytes = string.as_bytes(&gc.allocator);
    if !crate::object::string::is_valid_utf8(&bytes) {
        return false;
    }
    if !gc.allocator.is_accessible(count_ptr, 8) || !gc.allocator.is_accessible(found_ptr, 1) {
        return false;
    }
    let scalars = decode_utf8_scalars(&bytes);
    let index = gc.allocator.read_word(count_ptr);
    if index < scalars.len() as u64 {
        (index_ptr == 0 || gc.allocator.is_accessible(index_ptr, 8)) && (rune_ptr == 0
            || gc.allocator.is_accessible(rune_ptr, 4))
    } else {
        true
    }
}

/// Tells whether `gox5_string_substr` can run from the frame of `ctx` in the
/// state `gc`.
pub fn check_string_substr(ctx: &LightWeightThreadContext, gc: &GlobalContext) -> (ok: bool)
    ensures
        ok == string_substr_ready(ctx, gc),
{
    if !gc.check_wf() || !ctx.is_frame_accessible(&gc.allocator, 8) {
        return false;
    }
    let result_ptr = ctx.frame_word(&gc.allocator, 4);
    let base = StringObject(ctx.frame_word(&gc.allocator, 5));
    let low_word = ctx.frame_word(&gc.allocator, 6);
    let high_word = ctx.frame_word(&gc.allocator, 7);
    if !base.is_readable(&gc.allocator) {
        return false;
    }
    let len = base.len_in_bytes(&gc.allocator);
    let low = if low_word == u64::MAX {
        0
    } else {
        low_word
    };
    let high = if high_word == u64::MAX {
        len
    } else {
        high_word
    };
    low <= high && high <= len && can_build_string(&gc.allocator, high - low)
        && gc.allocator.is_accessible(result_ptr, 8)
}

} // verus!
