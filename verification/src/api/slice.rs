//! Slice operations as compiled code calls them.
use vstd::prelude::*;
use vstd::bytes::{spec_u32_to_le_bytes, u32_to_le_bytes};
use vstd::utf8::valid_utf8;
use crate::global_context::GlobalContext;
use crate::light_weight_thread::{LightWeightThreadContext, frame_word};
use crate::memory::{Memory, ObjectAllocator, round_up, store_bytes, store_word, zeros,
    ADDRESS_LIMIT};
use crate::object::slice::{SliceObject, slice_at, store_slice};
use crate::object::string::{StringObject, c_strlen, decode_utf8_scalars, string_bytes,
    utf8_scalars};
use crate::type_id::TypeId;
use crate::FunctionObject;

verus! {

/// The number of elements of `elem_size` bytes that `extend_len` bytes hold.
pub open spec fn added_elements(extend_len: int, elem_size: u64) -> int {
    extend_len / (elem_size as int)
}

/// Whether `base` has no room for `added` more elements.
pub open spec fn slice_grows(base: SliceObject, added: int) -> bool {
    base.size + added > base.capacity
}

/// The slice that holds the elements of `base` followed by `added` more: the
/// storage of `base` where they fit, and fresh storage at the end of a store
/// of `store_len` bytes, with room for twice as many, where they do not.
pub open spec fn appended_slice(base: SliceObject, added: int, store_len: nat) -> SliceObject {
    if slice_grows(base, added) {
        SliceObject {
            ptr: store_len as u64,
            size: (base.size + added) as u64,
            capacity: (2 * (base.size + added)) as u64,
        }
    } else {
        SliceObject { ptr: base.ptr, size: (base.size + added) as u64, capacity: base.capacity }
    }
}

/// The store after `extend` was appended to `base`, a slice of elements of
/// `elem_size` bytes: where the slice grows, its elements are copied to fresh
/// zeroed storage first; then `extend` is written behind the elements.
pub open spec fn appended_store(m: Seq<u8>, base: SliceObject, elem_size: u64, extend: Seq<u8>)
    -> Seq<u8> {
    let added = added_elements(extend.len() as int, elem_size);
    let result = appended_slice(base, added, m.len());
    let moved = if slice_grows(base, added) {
        store_bytes(
            m + zeros(round_up(result.capacity * elem_size)),
            m.len() as int,
            base.contents(m, elem_size),
        )
    } else {
        m
    };
    store_bytes(moved, result.ptr + base.size * elem_size, extend)
}

/// `extend_len` bytes can be appended to `base`: the sizes fit in a word, and
/// there is room for fresh storage where the slice grows, and the place
/// behind the elements can be written where it does not.
pub open spec fn appendable(mem: &Memory, base: SliceObject, elem_size: u64, extend_len: int)
    -> bool {
    let added = added_elements(extend_len, elem_size);
    &&& mem.wf()
    &&& elem_size > 0
    &&& extend_len % (elem_size as int) == 0
    &&& base.readable(mem, elem_size)
    &&& base.size * elem_size <= u64::MAX
    &&& 2 * (base.size + added) * elem_size <= u64::MAX
    &&& 2 * (base.size + added) <= u64::MAX
    &&& slice_grows(base, added) ==> mem@.len() + round_up(2 * (base.size + added) * elem_size)
        < ADDRESS_LIMIT
    &&& !slice_grows(base, added) ==> base.ptr + base.size * elem_size + extend_len <= u64::MAX
        && mem.accessible(
        (base.ptr + base.size * elem_size) as u64,
        extend_len as u64,
    )
}

/// Appending nothing to a slice yields the slice itself, in the same storage,
/// and changes nothing.
pub proof fn lemma_append_nothing_aliases(m: Seq<u8>, base: SliceObject, elem_size: u64)
    requires
        elem_size > 0,
        base.size <= base.capacity,
    ensures
        appended_slice(base, added_elements(0, elem_size), m.len()) == base,
        appended_store(m, base, elem_size, Seq::empty()) == m,
{
}

/// The slice that an append yields holds the elements of the slice that was
/// appended to, followed by the elements that were appended. So its last
/// element is the last that was appended.
pub proof fn lemma_append_contents(m: Seq<u8>, base: SliceObject, elem_size: u64, extend: Seq<u8>)
    requires
        m.len() > 0,
        elem_size > 0,
        extend.len() as int % (elem_size as int) == 0,
        base.wf(),
        base.ptr + base.size * elem_size <= m.len() <= u64::MAX,
        2 * (base.size + added_elements(extend.len() as int, elem_size)) <= u64::MAX,
        !slice_grows(base, added_elements(extend.len() as int, elem_size)) ==> base.ptr
            + base.size * elem_size + extend.len() <= m.len(),
    ensures
        ({
            let result = appended_slice(
                base,
                added_elements(extend.len() as int, elem_size),
                m.len(),
            );
            result.contents(appended_store(m, base, elem_size, extend), elem_size)
                == base.contents(m, elem_size) + extend
        }),
{
    let added = added_elements(extend.len() as int, elem_size);
    let result = appended_slice(base, added, m.len());
    assert(extend.len() == added * elem_size && (base.size + added) * elem_size == base.size
        * elem_size + added * elem_size && base.size * elem_size >= 0 && added >= 0 && 2 * (
    base.size + added) * elem_size >= (base.size + added) * elem_size) by (nonlinear_arith)
        requires
            elem_size > 0,
            base.size >= 0,
            extend.len() as int % (elem_size as int) == 0,
            added == extend.len() as int / (elem_size as int),
    ;
    if slice_grows(base, added) {
        assert(result.capacity * elem_size >= (base.size + added) * elem_size)
            by (nonlinear_arith)
            requires
                result.capacity >= base.size + added,
                base.size + added >= 0,
                elem_size > 0,
        ;
    }
}

/// Appends `extend_bytes` to `base`, a slice of elements of `elem_size` bytes.
/// The result holds the elements of `base` followed by those of
/// `extend_bytes`. It shares the storage of `base` if they fit there, and has
/// fresh storage with room for twice as many elements if not.
pub fn reallocate_slice(
    base: &SliceObject,
    elem_size: u64,
    extend_bytes: &Vec<u8>,
    mem: &mut Memory,
) -> (result: SliceObject)
    requires
        appendable(old(mem), *base, elem_size, extend_bytes@.len() as int),
    ensures
        final(mem).wf(),
        final(mem).guards() == old(mem).guards(),
        result == appended_slice(
            *base,
            added_elements(extend_bytes@.len() as int, elem_size),
            old(mem)@.len(),
        ),
        final(mem)@ == appended_store(old(mem)@, *base, elem_size, extend_bytes@),
        final(mem)@.len() >= old(mem)@.len(),
{
    let added = extend_bytes.len() as u64 / elem_size;
    assert(base.size * elem_size >= 0 && (base.size + added) * elem_size >= 0
        && 2 * (base.size + added) * elem_size == 2 * ((base.size + added) * elem_size)
        && (base.size + added) * elem_size == base.size * elem_size + added * elem_size)
        by (nonlinear_arith)
        requires
            base.size >= 0,
            added >= 0,
            elem_size > 0,
    ;
    assert(extend_bytes@.len() == added * elem_size) by (nonlinear_arith)
        requires
            elem_size > 0,
            extend_bytes@.len() as int % (elem_size as int) == 0,
            added == extend_bytes@.len() as int / (elem_size as int),
    ;
    let new_size = base.size() + added;
    let result = if new_size > base.capacity() {
        let new_capacity = new_size * 2;
        let buffer_size = new_capacity * elem_size;
        let ptr = mem.allocate(buffer_size, 0);
        mem.fill_zero(ptr, buffer_size);
        let result = SliceObject::new(ptr, new_size, new_capacity);
        if base.ptr != 0 {
            let lhs_len = base.size() * elem_size;
            mem.copy(ptr, base.ptr, lhs_len);
        }
        result
    } else {
        base.duplicate_extend(added)
    };
    let base_len = base.size() * elem_size;
    mem.write_bytes(result.ptr + base_len, extend_bytes);
    result
}

/// The number of elements that a copy into `dst` takes from `src_len` bytes
/// of elements of `elem_size` bytes: as many as there are, but no more than
/// `dst` holds.
pub open spec fn copied_elements(dst: SliceObject, elem_size: u64, src_len: int) -> int {
    if src_len / (elem_size as int) <= dst.size {
        src_len / (elem_size as int)
    } else {
        dst.size as int
    }
}

/// Copies elements of `elem_size` bytes from `src` into `dst`: as many as
/// `src` has, but no more than `dst` holds. Returns their number.
pub fn copy_slice(dst: &SliceObject, elem_size: u64, src: &Vec<u8>, mem: &mut Memory) -> (count:
    u64)
    requires
        elem_size > 0,
        src@.len() as int % (elem_size as int) == 0,
        dst.wf(),
        old(mem).accessible(
            dst.ptr,
            (elem_size * copied_elements(*dst, elem_size, src@.len() as int)) as u64,
        ),
    ensures
        count == copied_elements(*dst, elem_size, src@.len() as int),
        final(mem).guards() == old(mem).guards(),
        final(mem)@ == store_bytes(
            old(mem)@,
            dst.ptr as int,
            src@.subrange(0, elem_size * count),
        ),
{
    let available = src.len() as u64 / elem_size;
    let copy_count = if available <= dst.size() {
        available
    } else {
        dst.size()
    };
    assert(0 <= elem_size * copy_count <= elem_size * available <= src@.len())
        by (nonlinear_arith)
        requires
            0 <= copy_count <= available,
            elem_size > 0,
            available == src@.len() as int / (elem_size as int),
    ;
    let len = (elem_size * copy_count) as usize;
    let mut data: Vec<u8> = Vec::new();
    let mut i: usize = 0;
    while i < len
        invariant
            i <= len <= src@.len(),
            data@ == src@.subrange(0, i as int),
        decreases len - i,
    {
        data.push(src[i]);
        i = i + 1;
    }
    mem.write_bytes(dst.ptr, &data);
    copy_count
}

/// The frame of `ctx` and the state `gc` are such that `gox5_slice_append` can run.
pub open spec fn slice_append_ready(ctx: &LightWeightThreadContext, gc: &GlobalContext) -> bool {
    &&& gc.wf()
    &&& ctx.frame_accessible(&gc.allocator, 12)
    &&& ({
        let m = gc.allocator@;
        let sp = ctx.stack_pointer;
        let type_id = TypeId(frame_word(m, sp, 5));
        let lhs = slice_at(m, sp + 48);
        let rhs = slice_at(m, sp + 72);
        &&& type_id.readable(&gc.allocator)
        &&& rhs.readable(&gc.allocator, type_id.size_in(m))
        &&& appendable(
            &gc.allocator,
            lhs,
            type_id.size_in(m),
            rhs.contents(m, type_id.size_in(m)).len() as int,
        )
        &&& gc.allocator.accessible(frame_word(m, sp, 4), 24)
    })
}

/// `gox5_slice_append` ran from the frame of `ctx` and left `ctx_after` and `next`.
pub open spec fn slice_append_done(
    ctx: &LightWeightThreadContext,
    gc: &GlobalContext,
    ctx_after: &LightWeightThreadContext,
    gc_after: &GlobalContext,
    next: FunctionObject,
) -> bool {
    &&& gc_after.wf()
    &&& gc_after.same_tables(gc)
    &&& gc_after.allocator.guards() == gc.allocator.guards()
    &&& ({
        let m = gc.allocator@;
        let sp = ctx.stack_pointer;
        let elem_size = TypeId(frame_word(m, sp, 5)).size_in(m);
        let lhs = slice_at(m, sp + 48);
        let extend = slice_at(m, sp + 72).contents(m, elem_size);
        gc_after.allocator@ == store_slice(
            appended_store(m, lhs, elem_size, extend),
            frame_word(m, sp, 4) as int,
            appended_slice(lhs, added_elements(extend.len() as int, elem_size), m.len()),
        )
    })
    &&& *ctx_after == ctx.left(gc_after.allocator@)
    &&& next == ctx.resume_func_in(gc_after.allocator@)
}

/// Appends a slice to a slice. The frame holds the address for the result,
/// the type id of the elements, and the two slices. The result, which holds
/// the elements of the first followed by those of the second, is written to
/// the result address, and the frame is left.
pub fn gox5_slice_append(ctx: &mut LightWeightThreadContext, gc: &mut GlobalContext) -> (next:
    FunctionObject)
    requires
        slice_append_ready(old(ctx), old(gc)),
    ensures
        slice_append_done(old(ctx), old(gc), final(ctx), final(gc), next),
{
    let result_ptr = ctx.frame_word(&gc.allocator, 4);
    let type_id = TypeId(ctx.frame_word(&gc.allocator, 5));
    let lhs = SliceObject::load(&gc.allocator, ctx.stack_pointer + 48);
    let rhs = SliceObject::load(&gc.allocator, ctx.stack_pointer + 72);
    let elem_size = type_id.size(&gc.allocator);
    let extend = rhs.as_bytes(&gc.allocator, elem_size);
    let result = reallocate_slice(&lhs, elem_size, &extend, &mut gc.allocator);
    result.store(&mut gc.allocator, result_ptr);
    ctx.leave(&gc.allocator)
}

/// The frame of `ctx` and the state `gc` are such that `gox5_slice_append_string` can run.
pub open spec fn slice_append_string_ready(
    ctx: &LightWeightThreadContext,
    gc: &GlobalContext,
) -> bool {
    &&& gc.wf()
    &&& ctx.frame_accessible(&gc.allocator, 9)
    &&& ({
        let m = gc.allocator@;
        let sp = ctx.stack_pointer;
        let string = StringObject(frame_word(m, sp, 8));
        &&& string.readable(&gc.allocator)
        &&& appendable(
            &gc.allocator,
            slice_at(m, sp + 40),
            1,
            c_strlen(m, string.0 as int),
        )
        &&& gc.allocator.accessible(frame_word(m, sp, 4), 24)
    })
}

/// `gox5_slice_append_string` ran from the frame of `ctx` and left `ctx_after` and `next`.
pub open spec fn slice_append_string_done(
    ctx: &LightWeightThreadContext,
    gc: &GlobalContext,
    ctx_after: &LightWeightThreadContext,
    gc_after: &GlobalContext,
    next: FunctionObject,
) -> bool {
    &&& gc_after.wf()
    &&& gc_after.same_tables(gc)
    &&& gc_after.allocator.guards() == gc.allocator.guards()
    &&& ({
        let m = gc.allocator@;
        let sp = ctx.stack_pointer;
        let slice = slice_at(m, sp + 40);
        let extend = string_bytes(m, frame_word(m, sp, 8) as int);
        gc_after.allocator@ == store_slice(
            appended_store(m, slice, 1, extend),
            frame_word(m, sp, 4) as int,
            appended_slice(slice, added_elements(extend.len() as int, 1), m.len()),
        )
    })
    &&& *ctx_after == ctx.left(gc_after.allocator@)
    &&& next == ctx.resume_func_in(gc_after.allocator@)
}

/// Appends the bytes of a string to a slice of bytes. The frame holds the
/// address for the result, the slice, and the string. The result, which holds
/// the bytes of the slice followed by those of the string, is written to the
/// result address, and the frame is left.
pub fn gox5_slice_append_string(
    ctx: &mut LightWeightThreadContext,
    gc: &mut GlobalContext,
) -> (next:
    FunctionObject)
    requires
        slice_append_string_ready(old(ctx), old(gc)),
    ensures
        slice_append_string_done(old(ctx), old(gc), final(ctx), final(gc), next),
{
    let result_ptr = ctx.frame_word(&gc.allocator, 4);
    let slice = SliceObject::load(&gc.allocator, ctx.stack_pointer + 40);
    let string = StringObject(ctx.frame_word(&gc.allocator, 8));
    let extend = string.as_bytes(&gc.allocator);
    proof {
        crate::object::string::lemma_c_strlen(gc.allocator@, string.0 as int);
    }
    let result = reallocate_slice(&slice, 1, &extend, &mut gc.allocator);
    result.store(&mut gc.allocator, result_ptr);
    ctx.leave(&gc.allocator)
}

/// The frame of `ctx` and the state `gc` are such that `gox5_slice_copy` can run.
pub open spec fn slice_copy_ready(ctx: &LightWeightThreadContext, gc: &GlobalContext) -> bool {
    &&& ctx.frame_accessible(&gc.allocator, 12)
    &&& ({
        let m = gc.allocator@;
        let sp = ctx.stack_pointer;
        let type_id = TypeId(frame_word(m, sp, 5));
        let elem_size = type_id.size_in(m);
        let src = slice_at(m, sp + 48);
        let dst = slice_at(m, sp + 72);
        &&& type_id.readable(&gc.allocator)
        &&& elem_size > 0
        &&& src.readable(&gc.allocator, elem_size)
        &&& dst.wf()
        &&& gc.allocator.accessible(
            dst.ptr,
            (elem_size * copied_elements(
                dst,
                elem_size,
                src.contents(m, elem_size).len() as int,
            )) as u64,
        )
        &&& gc.allocator.accessible(frame_word(m, sp, 4), 8)
    })
}

/// `gox5_slice_copy` ran from the frame of `ctx` and left `ctx_after` and `next`.
pub open spec fn slice_copy_done(
    ctx: &LightWeightThreadContext,
    gc: &GlobalContext,
    ctx_after: &LightWeightThreadContext,
    gc_after: &GlobalContext,
    next: FunctionObject,
) -> bool {
    &&& gc_after.same_tables(gc)
    &&& gc_after.allocator.guards() == gc.allocator.guards()
    &&& gc.wf() ==> gc_after.wf()
    &&& ({
        let m = gc.allocator@;
        let sp = ctx.stack_pointer;
        let elem_size = TypeId(frame_word(m, sp, 5)).size_in(m);
        let source = slice_at(m, sp + 48).contents(m, elem_size);
        let dst = slice_at(m, sp + 72);
        let count = copied_elements(dst, elem_size, source.len() as int);
        gc_after.allocator@ == store_word(
            store_bytes(m, dst.ptr as int, source.subrange(0, elem_size * count)),
            frame_word(m, sp, 4) as int,
            count as u64,
        )
    })
    &&& *ctx_after == ctx.left(gc_after.allocator@)
    &&& next == ctx.resume_func_in(gc_after.allocator@)
}

/// Copies elements from one slice into another. The frame holds the address
/// for the result, the type id of the elements, the source, and the
/// destination. As many elements are copied as the smaller of the two holds;
/// their number is written to the result address, and the frame is left.
pub fn gox5_slice_copy(ctx: &mut LightWeightThreadContext, gc: &mut GlobalContext) -> (next:
    FunctionObject)
    requires
        slice_copy_ready(old(ctx), old(gc)),
    ensures
        slice_copy_done(old(ctx), old(gc), final(ctx), final(gc), next),
{
    let result_ptr = ctx.frame_word(&gc.allocator, 4);
    let type_id = TypeId(ctx.frame_word(&gc.allocator, 5));
    let src = SliceObject::load(&gc.allocator, ctx.stack_pointer + 48);
    let dst = SliceObject::load(&gc.allocator, ctx.stack_pointer + 72);
    let elem_size = type_id.size(&gc.allocator);
    let source = src.as_bytes(&gc.allocator, elem_size);
    proof {
        if src.ptr != 0 {
            assert((src.size * elem_size) % (elem_size as int) == 0) by (nonlinear_arith)
                requires
                    elem_size > 0,
            ;
        }
    }
    let copy_count = copy_slice(&dst, elem_size, &source, &mut gc.allocator);
    gc.allocator.write_word(result_ptr, copy_count);
    ctx.leave(&gc.allocator)
}

/// The frame of `ctx` and the state `gc` are such that `gox5_slice_capacity` can run.
pub open spec fn slice_capacity_ready(ctx: &LightWeightThreadContext, gc: &GlobalContext) -> bool {
    &&& ctx.frame_accessible(&gc.allocator, 8)
    &&& gc.allocator.accessible(
        frame_word(gc.allocator@, ctx.stack_pointer, 4),
        8,
    )
}

/// `gox5_slice_capacity` ran from the frame of `ctx` and left `ctx_after` and `next`.
pub open spec fn slice_capacity_done(
    ctx: &LightWeightThreadContext,
    gc: &GlobalContext,
    ctx_after: &LightWeightThreadContext,
    gc_after: &GlobalContext,
    next: FunctionObject,
) -> bool {
    &&& gc_after.same_tables(gc)
    &&& gc_after.allocator.guards() == gc.allocator.guards()
    &&& gc.wf() ==> gc_after.wf()
    &&& gc_after.allocator@ == store_word(
        gc.allocator@,
        frame_word(gc.allocator@, ctx.stack_pointer, 4) as int,
        slice_at(gc.allocator@, ctx.stack_pointer + 40).capacity,
    )
    &&& *ctx_after == ctx.left(gc_after.allocator@)
    &&& next == ctx.resume_func_in(gc_after.allocator@)
}

/// Tells the capacity of a slice. The frame holds the address for the result
/// and the slice. The capacity is written to the result address, and the
/// frame is left.
pub fn gox5_slice_capacity(ctx: &mut LightWeightThreadContext, gc: &mut GlobalContext) -> (next:
    FunctionObject)
    requires
        slice_capacity_ready(old(ctx), old(gc)),
    ensures
        slice_capacity_done(old(ctx), old(gc), final(ctx), final(gc), next),
{
    let result_ptr = ctx.frame_word(&gc.allocator, 4);
    let slice = SliceObject::load(&gc.allocator, ctx.stack_pointer + 40);
    gc.allocator.write_word(result_ptr, slice.capacity());
    ctx.leave(&gc.allocator)
}

/// The frame of `ctx` and the state `gc` are such that `gox5_slice_size` can run.
pub open spec fn slice_size_ready(ctx: &LightWeightThreadContext, gc: &GlobalContext) -> bool {
    &&& ctx.frame_accessible(&gc.allocator, 8)
    &&& gc.allocator.accessible(
        frame_word(gc.allocator@, ctx.stack_pointer, 4),
        8,
    )
}

/// `gox5_slice_size` ran from the frame of `ctx` and left `ctx_after` and `next`.
pub open spec fn slice_size_done(
    ctx: &LightWeightThreadContext,
    gc: &GlobalContext,
    ctx_after: &LightWeightThreadContext,
    gc_after: &GlobalContext,
    next: FunctionObject,
) -> bool {
    &&& gc_after.same_tables(gc)
    &&& gc_after.allocator.guards() == gc.allocator.guards()
    &&& gc.wf() ==> gc_after.wf()
    &&& gc_after.allocator@ == store_word(
        gc.allocator@,
        frame_word(gc.allocator@, ctx.stack_pointer, 4) as int,
        slice_at(gc.allocator@, ctx.stack_pointer + 40).size,
    )
    &&& *ctx_after == ctx.left(gc_after.allocator@)
    &&& next == ctx.resume_func_in(gc_after.allocator@)
}

/// Tells the size of a slice. The frame holds the address for the result and
/// the slice. The size is written to the result address, and the frame is left.
pub fn gox5_slice_size(ctx: &mut LightWeightThreadContext, gc: &mut GlobalContext) -> (next:
    FunctionObject)
    requires
        slice_size_ready(old(ctx), old(gc)),
    ensures
        slice_size_done(old(ctx), old(gc), final(ctx), final(gc), next),
{
    let result_ptr = ctx.frame_word(&gc.allocator, 4);
    let slice = SliceObject::load(&gc.allocator, ctx.stack_pointer + 40);
    gc.allocator.write_word(result_ptr, slice.size());
    ctx.leave(&gc.allocator)
}

/// The little-endian bytes of the scalar values `scalars`, four bytes each.
pub open spec fn scalars_le_bytes(scalars: Seq<u32>) -> Seq<u8>
    decreases scalars.len(),
{
    if scalars.len() == 0 {
        Seq::empty()
    } else {
        scalars_le_bytes(scalars.drop_last()) + spec_u32_to_le_bytes(scalars.last())
    }
}

/// Four bytes for each scalar value.
pub proof fn lemma_scalars_le_bytes_len(scalars: Seq<u32>)
    ensures
        scalars_le_bytes(scalars).len() == 4 * scalars.len(),
    decreases scalars.len(),
{
    if scalars.len() > 0 {
        lemma_scalars_le_bytes_len(scalars.drop_last());
        vstd::bytes::lemma_auto_spec_u32_to_from_le_bytes();
    }
}

/// The little-endian bytes of `scalars`, four bytes each.
pub fn encode_scalars_le(scalars: &Vec<u32>) -> (bytes: Vec<u8>)
    ensures
        bytes@ == scalars_le_bytes(scalars@),
{
    let mut bytes: Vec<u8> = Vec::new();
    let n = scalars.len();
    let mut i: usize = 0;
    while i < n
        invariant
            i <= n,
            n == scalars@.len(),
            bytes@ == scalars_le_bytes(scalars@.subrange(0, i as int)),
        decreases n - i,
    {
        let mut word = u32_to_le_bytes(scalars[i]);
        bytes.append(&mut word);
        proof {
            let next = scalars@.subrange(0, i + 1);
            assert(next.drop_last() =~= scalars@.subrange(0, i as int));
        }
        i = i + 1;
    }
    assert(scalars@.subrange(0, n as int) =~= scalars@);
    bytes
}

/// The bytes that make the elements of a slice from the bytes of a string:
/// the bytes themselves for elements of one byte, and the scalar values that
/// they encode, four bytes each and little-endian, for elements of four.
pub open spec fn string_elements(bytes: Seq<u8>, elem_size: u64) -> Seq<u8> {
    if elem_size == 1 {
        bytes
    } else {
        scalars_le_bytes(utf8_scalars(bytes))
    }
}

/// The number of elements of a slice that is made from the bytes of a string:
/// the bytes for elements of one byte, and the scalar values that they encode
/// for elements of four.
pub open spec fn string_element_count(bytes: Seq<u8>, elem_size: u64) -> nat {
    if elem_size == 1 {
        bytes.len()
    } else {
        utf8_scalars(bytes).len()
    }
}

/// The scalar values that valid UTF-8 bytes encode are no more than the bytes.
pub proof fn lemma_utf8_scalars_len(bytes: Seq<u8>)
    requires
        valid_utf8(bytes),
    ensures
        utf8_scalars(bytes).len() <= bytes.len(),
    decreases bytes.len(),
{
    if bytes.len() > 0 {
        lemma_utf8_scalars_len(vstd::utf8::pop_first_scalar(bytes));
    }
}

/// The store after a slice was made from the string at `string` with
/// elements of `elem_size` bytes.
pub open spec fn slice_from_string_store(m: Seq<u8>, string: u64, elem_size: u64) -> Seq<u8> {
    store_bytes(
        m + zeros(
            round_up(string_element_count(string_bytes(m, string as int), elem_size) * elem_size),
        ),
        m.len() as int,
        string_elements(string_bytes(m, string as int), elem_size),
    )
}

/// The slice that is made from the string at `string` in the store `m` with
/// elements of `elem_size` bytes: it is full, and has one element for each
/// byte of the string, or for each scalar value that the string encodes.
pub open spec fn slice_from_string_slice(m: Seq<u8>, string: u64, elem_size: u64) -> SliceObject {
    SliceObject {
        ptr: m.len() as u64,
        size: string_element_count(string_bytes(m, string as int), elem_size) as u64,
        capacity: string_element_count(string_bytes(m, string as int), elem_size) as u64,
    }
}

/// Bytes that hold no zero byte, made into a string and back into a slice of
/// bytes, come out as they went in.
pub proof fn lemma_bytes_to_string_and_back(m: Seq<u8>, bytes: Seq<u8>, result_ptr: u64)
    requires
        m.len() > 0,
        result_ptr + 8 <= m.len(),
        m.len() + 2 * round_up(bytes.len() as int + 1) <= u64::MAX,
        forall|i: int| 0 <= i < bytes.len() ==> bytes[i] != 0,
    ensures
        ({
            let made = store_word(
                crate::api::string::string_stored(m, bytes),
                result_ptr as int,
                m.len() as u64,
            );
            let string = crate::memory::word_at(made, result_ptr as int);
            &&& string == m.len()
            &&& string_bytes(made, string as int) == bytes
            &&& slice_from_string_slice(made, string, 1).contents(
                slice_from_string_store(made, string, 1),
                1,
            ) == bytes
        }),
{
    let stored = crate::api::string::string_stored(m, bytes);
    let made = store_word(stored, result_ptr as int, m.len() as u64);
    let start = m.len() as int;
    vstd::bytes::lemma_auto_spec_u64_to_from_le_bytes();
    crate::memory::lemma_word_at_store_word_same(stored, result_ptr as int, m.len() as u64);
    assert forall|i: int| start <= i < start + bytes.len() implies made[i] != 0 by {
    }
    crate::object::string::lemma_c_strlen_of_terminated(made, start, bytes.len() as int);
}

/// The frame of `ctx` and the state `gc` are such that `gox5_slice_from_string` can run.
pub open spec fn slice_from_string_ready(
    ctx: &LightWeightThreadContext,
    gc: &GlobalContext,
) -> bool {
    &&& gc.wf()
    &&& ctx.frame_accessible(&gc.allocator, 7)
    &&& ({
        let m = gc.allocator@;
        let sp = ctx.stack_pointer;
        let type_id = TypeId(frame_word(m, sp, 5));
        let string = StringObject(frame_word(m, sp, 6));
        &&& type_id.readable(&gc.allocator)
        &&& type_id.size_in(m) == 1 || type_id.size_in(m) == 4
        &&& string.readable(&gc.allocator)
        &&& type_id.size_in(m) == 4 ==> valid_utf8(string_bytes(m, string.0 as int))
        &&& m.len() + round_up(
            string_element_count(string_bytes(m, string.0 as int), type_id.size_in(m))
                * type_id.size_in(m),
        ) < ADDRESS_LIMIT
        &&& gc.allocator.accessible(frame_word(m, sp, 4), 24)
    })
}

/// `gox5_slice_from_string` ran from the frame of `ctx` and left `ctx_after` and `next`.
pub open spec fn slice_from_string_done(
    ctx: &LightWeightThreadContext,
    gc: &GlobalContext,
    ctx_after: &LightWeightThreadContext,
    gc_after: &GlobalContext,
    next: FunctionObject,
) -> bool {
    &&& gc_after.wf()
    &&& gc_after.same_tables(gc)
    &&& gc_after.allocator.guards() == gc.allocator.guards()
    &&& ({
        let m = gc.allocator@;
        let sp = ctx.stack_pointer;
        let elem_size = TypeId(frame_word(m, sp, 5)).size_in(m);
        let string = frame_word(m, sp, 6);
        gc_after.allocator@ == store_slice(
            slice_from_string_store(m, string, elem_size),
            frame_word(m, sp, 4) as int,
            slice_from_string_slice(m, string, elem_size),
        )
    })
    &&& *ctx_after == ctx.left(gc_after.allocator@)
    &&& next == ctx.resume_func_in(gc_after.allocator@)
}

/// Makes a slice from a string. The frame holds the address for the result,
/// the type id of the elements, which take one byte or four, and the string.
/// The slice has fresh storage and is full. For elements of one byte they are
/// the bytes of the string. For elements of four bytes they are the scalar
/// values that the string encodes, one per element and little-endian. The
/// slice is written to the result address, and the frame is left.
pub fn gox5_slice_from_string(ctx: &mut LightWeightThreadContext, gc: &mut GlobalContext) -> (next:
    FunctionObject)
    requires
        slice_from_string_ready(old(ctx), old(gc)),
    ensures
        slice_from_string_done(old(ctx), old(gc), final(ctx), final(gc), next),
{
    let result_ptr = ctx.frame_word(&gc.allocator, 4);
    let type_id = TypeId(ctx.frame_word(&gc.allocator, 5));
    let string = StringObject(ctx.frame_word(&gc.allocator, 6));
    let elem_size = type_id.size(&gc.allocator);
    let source = string.as_bytes(&gc.allocator);
    let elements = if elem_size == 1 {
        source
    } else {
        let scalars = decode_utf8_scalars(&source);
        proof {
            lemma_utf8_scalars_len(source@);
            lemma_scalars_le_bytes_len(scalars@);
        }
        encode_scalars_le(&scalars)
    };
    let len: u64 = elements.len() as u64 / elem_size;
    let ptr = gc.allocator.allocate(len * elem_size, 0);
    let result = SliceObject::new(ptr, len, len);
    gc.allocator.write_bytes(ptr, &elements);
    result.store(&mut gc.allocator, result_ptr);
    ctx.leave(&gc.allocator)
}

/// Tells whether `extend_len` bytes can be appended to `base`.
pub fn is_appendable(mem: &Memory, base: &SliceObject, elem_size: u64, extend_len: u64) -> (ok:
    bool)
    ensures
        ok == appendable(mem, *base, elem_size, extend_len as int),
{
    if !mem.check_wf() || elem_size == 0 || extend_len % elem_size != 0 {
        return false;
    }
    if !base.is_readable(mem, elem_size) {
        return false;
    }
    let added = extend_len / elem_size;
    assert(extend_len == added * elem_size) by (nonlinear_arith)
        requires
            elem_size > 0,
            extend_len as int % (elem_size as int) == 0,
            added == extend_len as int / (elem_size as int),
    ;
    let base_len = match base.size.checked_mul(elem_size) {
        Some(len) => len,
        None => {
            return false;
        },
    };
    let new_size = match base.size.checked_add(added) {
        Some(n) => n,
        None => {
            return false;
        },
    };
    let doubled = match new_size.checked_mul(2) {
        Some(n) => n,
        None => {
            return false;
        },
    };
    let buffer = match doubled.checked_mul(elem_size) {
        Some(n) => n,
        None => {
            assert(2 * (base.size + added) * elem_size == doubled * elem_size)
                by (nonlinear_arith)
                requires
                    doubled == 2 * (base.size + added),
            ;
            return false;
        },
    };
    assert(2 * (base.size + added) * elem_size == buffer) by (nonlinear_arith)
        requires
            doubled == 2 * (base.size + added),
            buffer == doubled * elem_size,
    ;
    if new_size > base.capacity {
        mem.has_room(buffer)
    } else {
        match base.ptr.checked_add(base_len) {
            Some(end) => end <= u64::MAX - extend_len && mem.is_accessible(end, extend_len),
            None => false,
        }
    }
}

/// The number of bytes of the elements of `slice`.
pub fn contents_len(slice: &SliceObject, elem_size: u64) -> (len: u64)
    requires
        slice.ptr != 0 ==> slice.size * elem_size <= u64::MAX,
    ensures
        forall|m: Seq<u8>|
            slice.ptr != 0 ==> slice.ptr + slice.size * elem_size <= m.len() ==> len
                == (#[trigger] slice.contents(m, elem_size)).len(),
        slice.ptr == 0 ==> len == 0,
        slice.ptr != 0 ==> len == slice.size * elem_size,
{
    if slice.ptr == 0 {
        0
    } else {
        slice.size * elem_size
    }
}

/// Tells whether `gox5_slice_append` can run from the frame of `ctx` in the
/// state `gc`.
pub fn check_slice_append(ctx: &LightWeightThreadContext, gc: &GlobalContext) -> (ok: bool)
    ensures
        ok == slice_append_ready(ctx, gc),
{
    if !gc.check_wf() || !ctx.is_frame_accessible(&gc.allocator, 12) {
        return false;
    }
    let result_ptr = ctx.frame_word(&gc.allocator, 4);
    let type_id = TypeId(ctx.frame_word(&gc.allocator, 5));
    let lhs = SliceObject::load(&gc.allocator, ctx.stack_pointer + 48);
    let rhs = SliceObject::load(&gc.allocator, ctx.stack_pointer + 72);
    if !type_id.is_readable(&gc.allocator) {
        return false;
    }
    let elem_size = type_id.size(&gc.allocator);
    if !rhs.is_readable(&gc.allocator, elem_size) {
        return false;
    }
    let extend_len = contents_len(&rhs, elem_size);
    is_appendable(&gc.allocator, &lhs, elem_size, extend_len) && gc.allocator.is_accessible(
        result_ptr,
        24,
    )
}

/// Tells whether `gox5_slice_append_string` can run from the frame of `ctx`
/// in the state `gc`.
pub fn check_slice_append_string(ctx: &LightWeightThreadContext, gc: &GlobalContext) -> (ok: bool)
    ensures
        ok == slice_append_string_ready(ctx, gc),
{
    if !gc.check_wf() || !ctx.is_frame_accessible(&gc.allocator, 9) {
        return false;
    }
    let result_ptr = ctx.frame_word(&gc.allocator, 4);
    let slice = SliceObject::load(&gc.allocator, ctx.stack_pointer + 40);
    let string = StringObject(ctx.frame_word(&gc.allocator, 8));
    if !string.is_readable(&gc.allocator) {
        return false;
    }
    let len = string.len_in_bytes(&gc.allocator);
    is_appendable(&gc.allocator, &slice, 1, len) && gc.allocator.is_accessible(result_ptr, 24)
}

/// Tells whether `gox5_slice_copy` can run from the frame of `ctx` in the
/// state `gc`.
pub fn check_slice_copy(ctx: &LightWeightThreadContext, gc: &GlobalContext) -> (ok: bool)
    ensures
        ok == slice_copy_ready(ctx, gc),
{
    if !ctx.is_frame_accessible(&gc.allocator, 12) {
        return false;
    }
    let result_ptr = ctx.frame_word(&gc.allocator, 4);
    let type_id = TypeId(ctx.frame_word(&gc.allocator, 5));
    let src = SliceObject::load(&gc.allocator, ctx.stack_pointer + 48);
    let dst = SliceObject::load(&gc.allocator, ctx.stack_pointer + 72);
    if !type_id.is_readable(&gc.allocator) {
        return false;
    }
    let elem_size = type_id.size(&gc.allocator);
    if elem_size == 0 || !src.is_readable(&gc.allocator, elem_size) {
        return false;
    }
    if dst.ptr == 0 && (dst.capacity != 0 || dst.size != 0) {
        return false;
    }
    let source_len = contents_len(&src, elem_size);
    let available = source_len / elem_size;
    let count = if available <= dst.size {
        available
    } else {
        dst.size
    };
    assert(0 <= elem_size * count <= source_len) by (nonlinear_arith)
        requires
            0 <= count <= available,
            elem_size > 0,
            available == source_len as int / (elem_size as int),
    ;
    gc.allocator.is_accessible(dst.ptr, elem_size * count) && gc.allocator.is_accessible(
        result_ptr,
        8,
    )
}

/// Tells whether `gox5_slice_capacity` can run from the frame of `ctx` in the
/// state `gc`.
pub fn check_slice_capacity(ctx: &LightWeightThreadContext, gc: &GlobalContext) -> (ok: bool)
    ensures
        ok == slice_capacity_ready(ctx, gc),
{
    if !ctx.is_frame_accessible(&gc.allocator, 8) {
        return false;
    }
    gc.allocator.is_accessible(ctx.frame_word(&gc.allocator, 4), 8)
}

/// Tells whether `gox5_slice_size` can run from the frame of `ctx` in the
/// state `gc`.
pub fn check_slice_size(ctx: &LightWeightThreadContext, gc: &GlobalContext) -> (ok: bool)
    ensures
        ok == slice_size_ready(ctx, gc),
{
    if !ctx.is_frame_accessible(&gc.allocator, 8) {
        return false;
    }
    gc.allocator.is_accessible(ctx.frame_word(&gc.allocator, 4), 8)
}

/// Tells whether `gox5_slice_from_string` can run from the frame of `ctx` in
/// the state `gc`.
pub fn check_slice_from_string(ctx: &LightWeightThreadContext, gc: &GlobalContext) -> (ok: bool)
    ensures
        ok == slice_from_string_ready(ctx, gc),
{
    if !gc.check_wf() || !ctx.is_frame_accessible(&gc.allocator, 7) {
        return false;
    }
    let result_ptr = ctx.frame_word(&gc.allocator, 4);
    let type_id = TypeId(ctx.frame_word(&gc.allocator, 5));
    let string = StringObject(ctx.frame_word(&gc.allocator, 6));
    if !type_id.is_readable(&gc.allocator) {
        return false;
    }
    let elem_size = type_id.size(&gc.allocator);
    if (elem_size != 1 && elem_size != 4) || !string.is_readable(&gc.allocator) {
        return false;
    }
    let bytes = string.as_bytes(&gc.allocator);
    if elem_size == 4 && !crate::object::string::is_valid_utf8(&bytes) {
        return false;
    }
    let len: u64 = if elem_size == 1 {
        bytes.len() as u64
    } else {
        proof {
            lemma_utf8_scalars_len(bytes@);
        }
        decode_utf8_scalars(&bytes).len() as u64
    };
    let wide: u128 = if elem_size == 1 {
        len as u128
    } else {
        4 * (len as u128)
    };
    let needed: u128 = gc.allocator.size() as u128 + (wide + 7) / 8 * 8;
    needed < crate::memory::ADDRESS_LIMIT as u128 && gc.allocator.is_accessible(result_ptr, 24)
}

} // verus!
