//! Panics: raising, unwinding through deferred calls, and recovering.
use vstd::prelude::*;
use crate::api::defer::{call_deferred, check_deferred_call, defer_head, deferred_call_ready,
    deferred_called, popped_entry};
use crate::api::{Control, RuntimeFunction};
use crate::global_context::GlobalContext;
use crate::light_weight_thread::{LightWeightThreadContext, call_stack_pointer, frame_word,
    FLAG_PANICKING};
use crate::memory::{range_accessible, store_word};
use crate::object::interface::Interface;
use crate::type_id::TypeId;
use crate::FunctionObject;
use crate::ObjectPtr;

verus! {

/// Size of the frame of a raised panic: the header and the payload.
pub const PANIC_FRAME_SIZE: u64 = 48;

/// The frame of `ctx` and the state `gc` are such that `gox5_panic_raise` can run.
pub open spec fn panic_raise_ready(ctx: &LightWeightThreadContext, gc: &GlobalContext) -> bool {
    &&& ctx.frame_accessible(&gc.allocator, 6)
}

/// `gox5_panic_raise` ran from the frame of `ctx` and left `ctx_after` and `next`.
pub open spec fn panic_raise_done(
    ctx: &LightWeightThreadContext,
    gc: &GlobalContext,
    ctx_after: &LightWeightThreadContext,
    next: FunctionObject,
) -> bool {
    &&& *ctx_after == (LightWeightThreadContext {
        control_flags: ctx.control_flags | FLAG_PANICKING,
        panic_data: Interface {
            receiver: ObjectPtr(frame_word(gc.allocator@, ctx.stack_pointer, 4)),
            type_id: TypeId(frame_word(gc.allocator@, ctx.stack_pointer, 5)),
        },
        ..*ctx
    })
    &&& ctx_after.panicking()
    &&& next.0 == RuntimeFunction::PanicUnwind.spec_address()
}

/// Raises a panic. The frame holds the payload, an interface value. The thread
/// starts to unwind with that payload, and the function that unwinds runs
/// next, on the same frame.
pub fn gox5_panic_raise(ctx: &mut LightWeightThreadContext, gc: &GlobalContext) -> (next:
    FunctionObject)
    requires
        panic_raise_ready(old(ctx), gc),
    ensures
        panic_raise_done(old(ctx), gc, final(ctx), next),
{
    let receiver = ObjectPtr(ctx.frame_word(&gc.allocator, 4));
    let type_id = TypeId(ctx.frame_word(&gc.allocator, 5));
    let data = Interface::new(receiver, type_id);
    ctx.enter_panic(data);
    RuntimeFunction::PanicUnwind.function_object()
}

/// One step of unwinding can be made from the frame of `ctx`.
pub open spec fn unwind_ready(
    ctx: &LightWeightThreadContext,
    m: Seq<u8>,
    guards: Seq<u64>,
) -> bool {
    &&& deferred_call_ready(m, guards, ctx.stack_pointer, PANIC_FRAME_SIZE)
    &&& defer_head(m, ctx.stack_pointer) == 0 ==> {
        &&& ctx.panicking() ==> ctx.initial_stack_pointer <= ctx.left(m).stack_pointer
        &&& !ctx.panicking() ==> range_accessible(m.len(), guards, ctx.left(m).stack_pointer, 16)
    }
}

/// The frame of `ctx` and the state `gc` are such that `panic_raise_body` can run.
pub open spec fn panic_raise_body_ready(
    ctx: &LightWeightThreadContext,
    gc: &GlobalContext,
) -> bool {
    &&& unwind_ready(ctx, gc.allocator@, gc.allocator.guards())
}

/// `panic_raise_body` ran from the frame of `ctx` and left `ctx_after` and `next`.
pub open spec fn panic_raise_body_done(
    ctx: &LightWeightThreadContext,
    gc: &GlobalContext,
    ctx_after: &LightWeightThreadContext,
    gc_after: &GlobalContext,
    next: Control,
) -> bool {
    &&& gc_after.same_tables(gc)
    &&& gc_after.allocator.guards() == gc.allocator.guards()
    &&& gc.wf() ==> gc_after.wf()
    &&& ({
        let m = gc.allocator@;
        let sp = ctx.stack_pointer;
        let unwinder = FunctionObject(RuntimeFunction::PanicUnwind.spec_address());
        &&& defer_head(m, sp) != 0 ==> {
            &&& gc_after.allocator@ == deferred_called(m, sp, PANIC_FRAME_SIZE, unwinder)
            &&& *ctx_after == (LightWeightThreadContext {
                stack_pointer: call_stack_pointer(
                    sp,
                    PANIC_FRAME_SIZE,
                    popped_entry(m, sp).result_size,
                ) as u64,
                ..*ctx
            })
            &&& next == Control::Next(popped_entry(m, sp).func)
        }
        &&& defer_head(m, sp) == 0 ==> gc_after.allocator@ == m
        &&& defer_head(m, sp) == 0 && ctx.panicking() && ctx.left(m).stack_pointer
            != ctx.initial_stack_pointer ==> {
            &&& *ctx_after == ctx.left(m)
            &&& next == Control::Next(unwinder)
        }
        &&& defer_head(m, sp) == 0 && ctx.panicking() && ctx.left(m).stack_pointer
            == ctx.initial_stack_pointer ==> {
            &&& *ctx_after == (LightWeightThreadContext {
                control_flags: ctx.control_flags & !FLAG_PANICKING,
                ..ctx.left(m)
            })
            &&& next == Control::UncaughtPanic(ctx.panic_data)
        }
        &&& defer_head(m, sp) == 0 && !ctx.panicking() ==> {
            &&& *ctx_after == ctx.left(m).left(m)
            &&& next == Control::Next(ctx.left(m).resume_func_in(m))
        }
    })
}

/// Unwinds one step of a panic. If the calling frame has a deferred call, the
/// newest is taken off and called with this function as the function to
/// resume, so that it can recover. If it has none, the frame is left. Then, if
/// the thread still panics, the process ends with the payload when the stack
/// is empty, and this function runs again on the calling frame when it is not.
/// If the thread no longer panics, the calling frame is left as well, and its
/// caller goes on.
pub fn panic_raise_body(ctx: &mut LightWeightThreadContext, gc: &mut GlobalContext) -> (next:
    Control)
    requires
        panic_raise_body_ready(old(ctx), old(gc)),
    ensures
        panic_raise_body_done(old(ctx), old(gc), final(ctx), final(gc), next),
{
    let resume_func = RuntimeFunction::PanicUnwind.function_object();
    let func = call_deferred(ctx, &mut gc.allocator, PANIC_FRAME_SIZE, resume_func);
    match func {
        Some(func) => Control::Next(func),
        None => {
            ctx.leave(&gc.allocator);
            if ctx.is_panicking() {
                if ctx.is_stack_empty() {
                    let data = ctx.exit_panic();
                    return Control::UncaughtPanic(data);
                }
                Control::Next(RuntimeFunction::PanicUnwind.function_object())
            } else {
                Control::Next(ctx.leave(&gc.allocator))
            }
        },
    }
}

/// The frame of `ctx` and the state `gc` are such that `gox5_panic_recover` can run.
pub open spec fn panic_recover_ready(ctx: &LightWeightThreadContext, gc: &GlobalContext) -> bool {
    &&& ctx.frame_accessible(&gc.allocator, 5)
    &&& frame_word(gc.allocator@, ctx.stack_pointer, 4) + 16 <= u64::MAX
    &&& gc.allocator.accessible(
        frame_word(gc.allocator@, ctx.stack_pointer, 4),
        16,
    )
}

/// `gox5_panic_recover` ran from the frame of `ctx` and left `ctx_after` and `next`.
pub open spec fn panic_recover_done(
    ctx: &LightWeightThreadContext,
    gc: &GlobalContext,
    ctx_after: &LightWeightThreadContext,
    gc_after: &GlobalContext,
    next: FunctionObject,
) -> bool {
    &&& gc_after.same_tables(gc)
    &&& gc_after.allocator.guards() == gc.allocator.guards()
    &&& gc.wf() ==> gc_after.wf()
    &&& ({
        let m = gc.allocator@;
        let sp = ctx.stack_pointer;
        let result_ptr = frame_word(m, sp, 4);
        let result = if ctx.panicking() {
            ctx.panic_data
        } else {
            Interface { receiver: ObjectPtr(0), type_id: TypeId(0) }
        };
        &&& gc_after.allocator@ == store_word(
            store_word(m, result_ptr as int, result.receiver.0),
            result_ptr + 8,
            result.type_id.0,
        )
        &&& !ctx_after.panicking()
        &&& *ctx_after == (LightWeightThreadContext {
            control_flags: if ctx.panicking() {
                ctx.control_flags & !FLAG_PANICKING
            } else {
                ctx.control_flags
            },
            ..ctx.left(gc_after.allocator@)
        })
        &&& next == ctx.resume_func_in(gc_after.allocator@)
    })
}

/// Recovers from a panic. The frame holds the address for the result, an
/// interface value. If the thread panics, it stops panicking and the result is
/// the payload; if not, the result is the nil interface. The frame is left.
pub fn gox5_panic_recover(ctx: &mut LightWeightThreadContext, gc: &mut GlobalContext) -> (next:
    FunctionObject)
    requires
        panic_recover_ready(old(ctx), old(gc)),
    ensures
        panic_recover_done(old(ctx), old(gc), final(ctx), final(gc), next),
{
    let result = if ctx.is_panicking() {
        ctx.exit_panic()
    } else {
        Interface::nil()
    };
    let result_ptr = ctx.frame_word(&gc.allocator, 4);
    gc.allocator.write_word(result_ptr, result.receiver.0);
    gc.allocator.write_word(result_ptr + 8, result.type_id.0);
    ctx.leave(&gc.allocator)
}

/// Tells whether `gox5_panic_raise` can run from the frame of `ctx` in the
/// state `gc`.
pub fn check_panic_raise(ctx: &LightWeightThreadContext, gc: &GlobalContext) -> (ok: bool)
    ensures
        ok == panic_raise_ready(ctx, gc),
{
    ctx.is_frame_accessible(&gc.allocator, 6)
}

/// Tells whether `panic_raise_body` can run from the frame of `ctx` in the
/// state `gc`.
pub fn check_panic_raise_body(ctx: &LightWeightThreadContext, gc: &GlobalContext) -> (ok: bool)
    ensures
        ok == panic_raise_body_ready(ctx, gc),
{
    if !check_deferred_call(ctx, &gc.allocator, PANIC_FRAME_SIZE) {
        return false;
    }
    let prev = ctx.frame_word(&gc.allocator, 1);
    let head = gc.allocator.read_word(prev + 24);
    if head != 0 {
        return true;
    }
    if ctx.is_panicking() {
        ctx.initial_stack_pointer <= prev
    } else {
        gc.allocator.is_accessible(prev, 16)
    }
}

/// Tells whether `gox5_panic_recover` can run from the frame of `ctx` in the
/// state `gc`.
pub fn check_panic_recover(ctx: &LightWeightThreadContext, gc: &GlobalContext) -> (ok: bool)
    ensures
        ok == panic_recover_ready(ctx, gc),
{
    if !ctx.is_frame_accessible(&gc.allocator, 5) {
        return false;
    }
    let result_ptr = ctx.frame_word(&gc.allocator, 4);
    result_ptr <= u64::MAX - 16 && gc.allocator.is_accessible(result_ptr, 16)
}

} // verus!
