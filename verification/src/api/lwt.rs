//! Light-weight threads as compiled code starts and parks them.
use vstd::prelude::*;
use crate::api::RuntimeFunction;
use crate::create_light_weight_thread_context;
use crate::global_context::{GlobalContext, GlobalContextPtr};
use crate::light_weight_thread::{LightWeightThreadContext, frame_word, pushed_frame,
    CONTEXT_MARKER, FLAG_SUSPENDED};
use crate::memory::{round_up, zeros};
use crate::object::interface::Interface;
use crate::type_id::TypeId;
use crate::word_chunk::{WordChunk, chunk_count, chunk_words};
use crate::FunctionObject;
use crate::ObjectPtr;
use crate::UserFunction;
use crate::STACK_BYTES;
use crate::STACK_REGION_BYTES;

verus! {

/// The thread that a spawn makes in a store of `start` bytes, in a process
/// that has created `created` threads: it starts with `entry_func` on a fresh
/// stack, with room for a result of `result_size` bytes below a first frame
/// that ends the thread when it is left.
pub open spec fn spawned_thread(
    start: nat,
    entry_func: FunctionObject,
    result_size: u64,
    created: usize,
    handle: GlobalContextPtr,
) -> LightWeightThreadContext {
    LightWeightThreadContext {
        stack_pointer: (start + 4096 + round_up(result_size as int)) as u64,
        prev_func: UserFunction(RuntimeFunction::Terminate.spec_address()),
        marker: CONTEXT_MARKER,
        id: created,
        global_context: handle,
        current_func: entry_func,
        control_flags: 0,
        panic_data: Interface { receiver: ObjectPtr(0), type_id: TypeId(0) },
        initial_stack_pointer: (start + 4096) as u64,
    }
}

/// The store after a spawn made its thread: a guard page and a stack are
/// added, and the first frame of the thread holds the arguments `args` behind
/// a pointer to the room for the result, if the result takes any.
pub open spec fn spawned_store(m: Seq<u8>, result_size: u64, args: Seq<u64>) -> Seq<u8> {
    pushed_frame(
        m + zeros(STACK_REGION_BYTES as int),
        m.len() + 4096 + round_up(result_size as int),
        FunctionObject(RuntimeFunction::Terminate.spec_address()),
        (m.len() + 4096) as u64,
        if result_size > 0 {
            Some((m.len() + 4096) as u64)
        } else {
            None
        },
        args,
    )
}

/// A thread with a result of `result_size` bytes and `n_args` argument words
/// can be spawned from the frame of `ctx` in the state `gc`.
pub open spec fn spawn_ready(
    ctx: &LightWeightThreadContext,
    gc: &GlobalContext,
    result_size: u64,
    n_args: int,
) -> bool {
    &&& gc.wf()
    &&& ctx.frame_accessible(&gc.allocator, 2)
    &&& gc.created_light_weight_thread_count < usize::MAX
    &&& gc.handle_count < usize::MAX
    &&& gc.allocator.can_allocate(STACK_REGION_BYTES)
    &&& round_up(result_size as int) + 8 * (n_args + 5) <= STACK_BYTES
}

/// `spawn` ran from the frame of `ctx` and left `ctx_after`, `gc_after` and `next`.
pub open spec fn spawn_done(
    ctx: &LightWeightThreadContext,
    gc: &GlobalContext,
    ctx_after: &LightWeightThreadContext,
    gc_after: &GlobalContext,
    next: FunctionObject,
    entry_func: FunctionObject,
    result_size: u64,
    args: Seq<u64>,
) -> bool {
    &&& gc_after.wf()
    &&& gc_after.allocator.guards() == gc.allocator.guards().push(gc.allocator@.len() as u64)
    &&& gc_after.allocator@ == spawned_store(gc.allocator@, result_size, args)
    &&& gc_after.created_light_weight_thread_count == gc.created_light_weight_thread_count + 1
    &&& gc_after.handle_count == gc.handle_count + 1
    &&& gc_after.ready_queue@ == gc.ready_queue@.push(
        spawned_thread(
            gc.allocator@.len(),
            entry_func,
            result_size,
            gc.created_light_weight_thread_count,
            ctx.global_context,
        ),
    )
    &&& gc_after.channel_views() == gc.channel_views()
    &&& gc_after.maps@ == gc.maps@
    &&& *ctx_after == (LightWeightThreadContext {
        control_flags: ctx.control_flags | FLAG_SUSPENDED,
        ..ctx.left(gc_after.allocator@)
    })
    &&& next == ctx.resume_func_in(gc_after.allocator@)
}

/// Starts a thread that runs `entry_func` with the arguments `args` and a
/// result of `result_size` bytes. The new thread, with a stack of its own, is
/// put at the back of the ready queue, the caller is suspended, and its frame
/// is left.
pub fn spawn(
    ctx: &mut LightWeightThreadContext,
    gc: &mut GlobalContext,
    entry_func: FunctionObject,
    result_size: u64,
    args: &Vec<u64>,
) -> (next: FunctionObject)
    requires
        spawn_ready(old(ctx), old(gc), result_size, args@.len() as int),
    ensures
        spawn_done(old(ctx), old(gc), final(ctx), final(gc), next, entry_func, result_size, args@),
{
    let global_context = ctx.global_context().dupulicate(gc);
    let mut new_ctx = create_light_weight_thread_context(gc, global_context, entry_func);
    let prev_stack_pointer = new_ctx.stack_pointer();
    let result_pointer = if result_size > 0 {
        Some(prev_stack_pointer)
    } else {
        None
    };
    new_ctx.grow_stack(result_size);
    new_ctx.push_frame(
        &mut gc.allocator,
        prev_stack_pointer,
        result_pointer,
        args,
        RuntimeFunction::Terminate.function_object(),
    );
    gc.push_light_weight_thread(new_ctx);
    ctx.suspend();
    ctx.leave(&gc.allocator)
}

/// The frame of `ctx` and the state `gc` are such that `gox5_lwt_spawn` can run.
pub open spec fn lwt_spawn_ready(ctx: &LightWeightThreadContext, gc: &GlobalContext) -> bool {
    &&& ctx.frame_accessible(&gc.allocator, 7)
    &&& WordChunk((ctx.stack_pointer + 48) as u64).readable(&gc.allocator)
    &&& spawn_ready(
        ctx,
        gc,
        frame_word(gc.allocator@, ctx.stack_pointer, 5),
        chunk_count(gc.allocator@, ctx.stack_pointer + 48) as int,
    )
}

/// `gox5_lwt_spawn` ran from the frame of `ctx` and left `ctx_after` and `next`.
pub open spec fn lwt_spawn_done(
    ctx: &LightWeightThreadContext,
    gc: &GlobalContext,
    ctx_after: &LightWeightThreadContext,
    gc_after: &GlobalContext,
    next: FunctionObject,
) -> bool {
    spawn_done(
        ctx,
        gc,
        ctx_after,
        gc_after,
        next,
        FunctionObject(frame_word(gc.allocator@, ctx.stack_pointer, 4)),
        frame_word(gc.allocator@, ctx.stack_pointer, 5),
        chunk_words(gc.allocator@, ctx.stack_pointer + 48),
    )
}

/// Starts a thread. The frame holds the function, the size of its result, and
/// a word chunk of its arguments. A new thread with a stack of its own is put
/// at the back of the ready queue, the caller is suspended, and the frame is
/// left.
pub fn gox5_lwt_spawn(ctx: &mut LightWeightThreadContext, gc: &mut GlobalContext) -> (next:
    FunctionObject)
    requires
        lwt_spawn_ready(old(ctx), old(gc)),
    ensures
        lwt_spawn_done(old(ctx), old(gc), final(ctx), final(gc), next),
{
    let entry_func = FunctionObject(ctx.frame_word(&gc.allocator, 4));
    let result_size = ctx.frame_word(&gc.allocator, 5);
    let args = WordChunk(ctx.stack_pointer + 48).as_slice(&gc.allocator);
    spawn(ctx, gc, entry_func, result_size, &args)
}

/// The frame of `ctx` and the state `gc` are such that `gox5_lwt_yield` can run.
pub open spec fn lwt_yield_ready(ctx: &LightWeightThreadContext, gc: &GlobalContext) -> bool {
    &&& ctx.frame_accessible(&gc.allocator, 2)
}

/// `gox5_lwt_yield` ran from the frame of `ctx` and left `ctx_after` and `next`.
pub open spec fn lwt_yield_done(
    ctx: &LightWeightThreadContext,
    gc: &GlobalContext,
    ctx_after: &LightWeightThreadContext,
    next: FunctionObject,
) -> bool {
    &&& *ctx_after == (LightWeightThreadContext {
        control_flags: ctx.control_flags | FLAG_SUSPENDED,
        ..ctx.left(gc.allocator@)
    })
    &&& ctx_after.suspended()
    &&& next == ctx.resume_func_in(gc.allocator@)
}

/// Gives way to the other threads: the caller is suspended, and the frame is left.
pub fn gox5_lwt_yield(ctx: &mut LightWeightThreadContext, gc: &GlobalContext) -> (next:
    FunctionObject)
    requires
        lwt_yield_ready(old(ctx), gc),
    ensures
        lwt_yield_done(old(ctx), gc, final(ctx), next),
{
    ctx.suspend();
    ctx.leave(&gc.allocator)
}

/// Tells whether `gox5_lwt_spawn` can run from the frame of `ctx` in the
/// state `gc`.
pub fn check_lwt_spawn(ctx: &LightWeightThreadContext, gc: &GlobalContext) -> (ok: bool)
    ensures
        ok == lwt_spawn_ready(ctx, gc),
{
    if !ctx.is_frame_accessible(&gc.allocator, 7) {
        return false;
    }
    let result_size = ctx.frame_word(&gc.allocator, 5);
    let chunk = WordChunk(ctx.stack_pointer + 48);
    if !chunk.is_readable(&gc.allocator) {
        return false;
    }
    let count = gc.allocator.read_word(chunk.0);
    if !gc.check_wf() || gc.created_light_weight_thread_count == usize::MAX
        || gc.handle_count == usize::MAX
        || !gc.allocator.has_room(STACK_REGION_BYTES) {
        return false;
    }
    (result_size as u128 + 7) / 8 * 8 + 8 * (count as u128 + 5) <= STACK_BYTES as u128
}

/// Tells whether `gox5_lwt_yield` can run from the frame of `ctx` in the
/// state `gc`.
pub fn check_lwt_yield(ctx: &LightWeightThreadContext, gc: &GlobalContext) -> (ok: bool)
    ensures
        ok == lwt_yield_ready(ctx, gc),
{
    ctx.is_frame_accessible(&gc.allocator, 2)
}

} // verus!
