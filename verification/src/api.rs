//! The functions of the runtime that compiled code calls, and their addresses.
pub mod new;
pub mod closure;
pub mod channel;
pub mod defer;
pub mod panic;
pub mod lwt;
pub mod interface;
pub mod slice;
pub mod string;
pub mod map;

use vstd::prelude::*;
use crate::global_context::GlobalContext;
use crate::light_weight_thread::{LightWeightThreadContext, frame_word};
use crate::memory::{Memory, ObjectAllocator, round_up, store_word, zeros};
use crate::object::map::decides;
use crate::ObjectPtr;
use crate::object::interface::Interface;
use crate::FunctionObject;
use crate::UserFunction;

verus! {

/// The code address of the first runtime function. The addresses from here up
/// to the tag bit belong to the runtime; compiled functions lie below.
pub const RUNTIME_CODE_BASE: u64 = 0x7fff_ffff_ffff_0000;

/// The functions of the runtime that can stand in a function object.
#[derive(Clone, Copy, Debug, PartialEq, Eq, Structural)]
pub enum RuntimeFunction {
    Terminate,
    EnterMain,
    PanicUnwind,
    New,
    ClosureNew,
    InterfaceNew,
    InterfaceConvertToConcreteType,
    InterfaceConvertToInterface,
    InterfaceInvoke,
    ChannelNew,
    ChannelSelect,
    ChannelClose,
    ChannelReceive,
    ChannelSend,
    DeferRegister,
    DeferExecute,
    PanicRaise,
    PanicRecover,
    LwtSpawn,
    LwtYield,
    MapNew,
    MapDelete,
    MapGet,
    MapLen,
    MapNext,
    MapSet,
    SliceFromString,
    SliceAppend,
    SliceAppendString,
    SliceCopy,
    SliceCapacity,
    SliceSize,
    StringNewFromByteSlice,
    StringNewFromRune,
    StringNewFromRuneSlice,
    StringAppend,
    StringLength,
    StringNext,
    StringSubstr,
}

impl RuntimeFunction {
    /// The position of the function among the runtime functions.
    pub open spec fn index(self) -> u64 {
        match self {
            RuntimeFunction::Terminate => 0,
            RuntimeFunction::EnterMain => 1,
            RuntimeFunction::PanicUnwind => 2,
            RuntimeFunction::New => 3,
            RuntimeFunction::ClosureNew => 4,
            RuntimeFunction::InterfaceNew => 5,
            RuntimeFunction::InterfaceConvertToConcreteType => 6,
            RuntimeFunction::InterfaceConvertToInterface => 7,
            RuntimeFunction::InterfaceInvoke => 8,
            RuntimeFunction::ChannelNew => 9,
            RuntimeFunction::ChannelSelect => 10,
            RuntimeFunction::ChannelClose => 11,
            RuntimeFunction::ChannelReceive => 12,
            RuntimeFunction::ChannelSend => 13,
            RuntimeFunction::DeferRegister => 14,
            RuntimeFunction::DeferExecute => 15,
            RuntimeFunction::PanicRaise => 16,
            RuntimeFunction::PanicRecover => 17,
            RuntimeFunction::LwtSpawn => 18,
            RuntimeFunction::LwtYield => 19,
            RuntimeFunction::MapNew => 20,
            RuntimeFunction::MapDelete => 21,
            RuntimeFunction::MapGet => 22,
            RuntimeFunction::MapLen => 23,
            RuntimeFunction::MapNext => 24,
            RuntimeFunction::MapSet => 25,
            RuntimeFunction::SliceFromString => 26,
            RuntimeFunction::SliceAppend => 27,
            RuntimeFunction::SliceAppendString => 28,
            RuntimeFunction::SliceCopy => 29,
            RuntimeFunction::SliceCapacity => 30,
            RuntimeFunction::SliceSize => 31,
            RuntimeFunction::StringNewFromByteSlice => 32,
            RuntimeFunction::StringNewFromRune => 33,
            RuntimeFunction::StringNewFromRuneSlice => 34,
            RuntimeFunction::StringAppend => 35,
            RuntimeFunction::StringLength => 36,
            RuntimeFunction::StringNext => 37,
            RuntimeFunction::StringSubstr => 38,
        }
    }

    /// The code address of the function.
    pub open spec fn spec_address(self) -> u64 {
        (RUNTIME_CODE_BASE + self.index()) as u64
    }

    /// The code address of the function.
    #[verifier::when_used_as_spec(spec_address)]
    pub fn address(self) -> (addr: u64)
        ensures
            addr == self.spec_address(),
    {
        let index: u64 = match self {
            RuntimeFunction::Terminate => 0,
            RuntimeFunction::EnterMain => 1,
            RuntimeFunction::PanicUnwind => 2,
            RuntimeFunction::New => 3,
            RuntimeFunction::ClosureNew => 4,
            RuntimeFunction::InterfaceNew => 5,
            RuntimeFunction::InterfaceConvertToConcreteType => 6,
            RuntimeFunction::InterfaceConvertToInterface => 7,
            RuntimeFunction::InterfaceInvoke => 8,
            RuntimeFunction::ChannelNew => 9,
            RuntimeFunction::ChannelSelect => 10,
            RuntimeFunction::ChannelClose => 11,
            RuntimeFunction::ChannelReceive => 12,
            RuntimeFunction::ChannelSend => 13,
            RuntimeFunction::DeferRegister => 14,
            RuntimeFunction::DeferExecute => 15,
            RuntimeFunction::PanicRaise => 16,
            RuntimeFunction::PanicRecover => 17,
            RuntimeFunction::LwtSpawn => 18,
            RuntimeFunction::LwtYield => 19,
            RuntimeFunction::MapNew => 20,
            RuntimeFunction::MapDelete => 21,
            RuntimeFunction::MapGet => 22,
            RuntimeFunction::MapLen => 23,
            RuntimeFunction::MapNext => 24,
            RuntimeFunction::MapSet => 25,
            RuntimeFunction::SliceFromString => 26,
            RuntimeFunction::SliceAppend => 27,
            RuntimeFunction::SliceAppendString => 28,
            RuntimeFunction::SliceCopy => 29,
            RuntimeFunction::SliceCapacity => 30,
            RuntimeFunction::SliceSize => 31,
            RuntimeFunction::StringNewFromByteSlice => 32,
            RuntimeFunction::StringNewFromRune => 33,
            RuntimeFunction::StringNewFromRuneSlice => 34,
            RuntimeFunction::StringAppend => 35,
            RuntimeFunction::StringLength => 36,
            RuntimeFunction::StringNext => 37,
            RuntimeFunction::StringSubstr => 38,
        };
        RUNTIME_CODE_BASE + index
    }

    /// The function as a compiled function would name it.
    pub fn user_function(self) -> (f: UserFunction)
        ensures
            f.0 == self.spec_address(),
            f.is_valid(),
    {
        UserFunction::new(self.address())
    }

    /// The function object of the function.
    pub fn function_object(self) -> (f: FunctionObject)
        ensures
            f.0 == self.spec_address(),
            !f.is_closure(),
    {
        FunctionObject::from_user_function(self.user_function())
    }

    /// The runtime function at the code address `addr`, if there is one.
    pub fn from_address(addr: u64) -> (f: Option<RuntimeFunction>)
        ensures
            match f {
                Some(f) => f.spec_address() == addr,
                None => forall|g: RuntimeFunction| g.spec_address() != addr,
            },
    {
        if addr < RUNTIME_CODE_BASE {
            return None;
        }
        let index = addr - RUNTIME_CODE_BASE;
        if index == 0 {
            Some(RuntimeFunction::Terminate)
        } else if index == 1 {
            Some(RuntimeFunction::EnterMain)
        } else if index == 2 {
            Some(RuntimeFunction::PanicUnwind)
        } else if index == 3 {
            Some(RuntimeFunction::New)
        } else if index == 4 {
            Some(RuntimeFunction::ClosureNew)
        } else if index == 5 {
            Some(RuntimeFunction::InterfaceNew)
        } else if index == 6 {
            Some(RuntimeFunction::InterfaceConvertToConcreteType)
        } else if index == 7 {
            Some(RuntimeFunction::InterfaceConvertToInterface)
        } else if index == 8 {
            Some(RuntimeFunction::InterfaceInvoke)
        } else if index == 9 {
            Some(RuntimeFunction::ChannelNew)
        } else if index == 10 {
            Some(RuntimeFunction::ChannelSelect)
        } else if index == 11 {
            Some(RuntimeFunction::ChannelClose)
        } else if index == 12 {
            Some(RuntimeFunction::ChannelReceive)
        } else if index == 13 {
            Some(RuntimeFunction::ChannelSend)
        } else if index == 14 {
            Some(RuntimeFunction::DeferRegister)
        } else if index == 15 {
            Some(RuntimeFunction::DeferExecute)
        } else if index == 16 {
            Some(RuntimeFunction::PanicRaise)
        } else if index == 17 {
            Some(RuntimeFunction::PanicRecover)
        } else if index == 18 {
            Some(RuntimeFunction::LwtSpawn)
        } else if index == 19 {
            Some(RuntimeFunction::LwtYield)
        } else if index == 20 {
            Some(RuntimeFunction::MapNew)
        } else if index == 21 {
            Some(RuntimeFunction::MapDelete)
        } else if index == 22 {
            Some(RuntimeFunction::MapGet)
        } else if index == 23 {
            Some(RuntimeFunction::MapLen)
        } else if index == 24 {
            Some(RuntimeFunction::MapNext)
        } else if index == 25 {
            Some(RuntimeFunction::MapSet)
        } else if index == 26 {
            Some(RuntimeFunction::SliceFromString)
        } else if index == 27 {
            Some(RuntimeFunction::SliceAppend)
        } else if index == 28 {
            Some(RuntimeFunction::SliceAppendString)
        } else if index == 29 {
            Some(RuntimeFunction::SliceCopy)
        } else if index == 30 {
            Some(RuntimeFunction::SliceCapacity)
        } else if index == 31 {
            Some(RuntimeFunction::SliceSize)
        } else if index == 32 {
            Some(RuntimeFunction::StringNewFromByteSlice)
        } else if index == 33 {
            Some(RuntimeFunction::StringNewFromRune)
        } else if index == 34 {
            Some(RuntimeFunction::StringNewFromRuneSlice)
        } else if index == 35 {
            Some(RuntimeFunction::StringAppend)
        } else if index == 36 {
            Some(RuntimeFunction::StringLength)
        } else if index == 37 {
            Some(RuntimeFunction::StringNext)
        } else if index == 38 {
            Some(RuntimeFunction::StringSubstr)
        } else {
            None
        }
    }
}

/// What the scheduler does after a runtime function ran.
#[derive(Clone, Copy, Debug, PartialEq, Eq, Structural)]
pub enum Control {
    /// Go on with this function.
    Next(FunctionObject),
    /// End the process with this status.
    Exit(i32),
    /// Report this payload of a panic that nothing recovered from, and end
    /// the process with status 1.
    UncaughtPanic(Interface),
}

impl Control {
    /// The status with which the process ends, if it ends.
    pub open spec fn spec_exit_status(self) -> Option<i32> {
        match self {
            Control::Next(_) => None,
            Control::Exit(status) => Some(status),
            Control::UncaughtPanic(_) => Some(1),
        }
    }

    /// The status with which the process ends, if it ends.
    #[verifier::when_used_as_spec(spec_exit_status)]
    pub fn exit_status(self) -> (status: Option<i32>)
        ensures
            status == self.spec_exit_status(),
    {
        match self {
            Control::Next(_) => None,
            Control::Exit(status) => Some(status),
            Control::UncaughtPanic(_) => Some(1),
        }
    }
}

/// The frame of `ctx` and the state `gc` are such that `new` can run.
pub open spec fn new_ready(ctx: &LightWeightThreadContext, gc: &GlobalContext) -> bool {
    &&& gc.wf()
    &&& ctx.frame_accessible(&gc.allocator, 6)
    &&& gc.allocator.can_allocate(frame_word(gc.allocator@, ctx.stack_pointer, 5))
    &&& gc.allocator.accessible(
        frame_word(gc.allocator@, ctx.stack_pointer, 4),
        8,
    )
}

/// `new` ran from the frame of `ctx` and left `ctx_after` and `next`.
pub open spec fn new_done(
    ctx: &LightWeightThreadContext,
    gc: &GlobalContext,
    ctx_after: &LightWeightThreadContext,
    gc_after: &GlobalContext,
    next: FunctionObject,
) -> bool {
    &&& gc_after.wf()
    &&& gc_after.same_tables(gc)
    &&& gc_after.allocator.guards() == gc.allocator.guards()
    &&& gc_after.allocator@ == store_word(
        gc.allocator@ + zeros(
            round_up(frame_word(gc.allocator@, ctx.stack_pointer, 5) as int),
        ),
        frame_word(gc.allocator@, ctx.stack_pointer, 4) as int,
        gc.allocator@.len() as u64,
    )
    &&& *ctx_after == ctx.left(gc_after.allocator@)
    &&& next == ctx.resume_func_in(gc_after.allocator@)
}

/// Allocates a zeroed object. The frame holds the address for the result and
/// the size of the object in bytes. The address of the object is written to
/// the result address, and the frame is left.
pub fn new(ctx: &mut LightWeightThreadContext, gc: &mut GlobalContext) -> (next: FunctionObject)
    requires
        new_ready(old(ctx), old(gc)),
    ensures
        new_done(old(ctx), old(gc), final(ctx), final(gc), next),
{
    let result_ptr = ctx.frame_word(&gc.allocator, 4);
    let size = ctx.frame_word(&gc.allocator, 5);
    let ptr = gc.allocator.allocate(size, 0);
    let ghost grown = gc.allocator@;
    gc.allocator.fill_zero(ptr, size);
    assert(gc.allocator@ =~= grown);
    gc.allocator.write_word(result_ptr, ptr);
    ctx.leave(&gc.allocator)
}

impl RuntimeFunction {
    /// The function calls the equality function of a type.
    pub open spec fn compares_keys(self) -> bool {
        self is MapGet || self is MapSet || self is MapDelete
    }

    /// The function can run from the frame of `ctx` in the state `gc`.
    pub open spec fn ready<F: Fn(u64, &Memory, ObjectPtr, ObjectPtr) -> bool>(
        self,
        ctx: &LightWeightThreadContext,
        gc: &GlobalContext,
        is_equal: &F,
    ) -> bool {
        match self {
            RuntimeFunction::Terminate => true,
            RuntimeFunction::EnterMain => crate::enter_main_ready(ctx, gc),
            RuntimeFunction::PanicUnwind => panic::panic_raise_body_ready(ctx, gc),
            RuntimeFunction::New => new_ready(ctx, gc),
            RuntimeFunction::ClosureNew => closure::closure_new_ready(ctx, gc),
            RuntimeFunction::InterfaceNew => interface::interface_new_ready(ctx, gc),
            RuntimeFunction::InterfaceConvertToConcreteType =>
                interface::interface_convert_to_concrete_type_ready(ctx, gc),
            RuntimeFunction::InterfaceConvertToInterface =>
                interface::interface_convert_to_interface_ready(ctx, gc),
            RuntimeFunction::InterfaceInvoke => interface::interface_invoke_ready(ctx, gc),
            RuntimeFunction::ChannelNew => channel::channel_new_ready(ctx, gc),
            RuntimeFunction::ChannelSelect => channel::channel_select_ready(ctx, gc),
            RuntimeFunction::ChannelClose => channel::channel_close_ready(ctx, gc),
            RuntimeFunction::ChannelReceive => channel::channel_receive_ready(ctx, gc),
            RuntimeFunction::ChannelSend => channel::channel_send_ready(ctx, gc),
            RuntimeFunction::DeferRegister => defer::defer_register_ready(ctx, gc),
            RuntimeFunction::DeferExecute => defer::defer_execute_ready(ctx, gc),
            RuntimeFunction::PanicRaise => panic::panic_raise_ready(ctx, gc),
            RuntimeFunction::PanicRecover => panic::panic_recover_ready(ctx, gc),
            RuntimeFunction::LwtSpawn => lwt::lwt_spawn_ready(ctx, gc),
            RuntimeFunction::LwtYield => lwt::lwt_yield_ready(ctx, gc),
            RuntimeFunction::MapNew => map::map_new_ready(ctx, gc),
            RuntimeFunction::MapDelete => map::map_delete_ready(ctx, gc),
            RuntimeFunction::MapGet => map::map_get_ready(ctx, gc, is_equal),
            RuntimeFunction::MapLen => map::map_len_ready(ctx, gc),
            RuntimeFunction::MapNext => map::map_next_ready(ctx, gc),
            RuntimeFunction::MapSet => map::map_set_ready(ctx, gc),
            RuntimeFunction::SliceFromString => slice::slice_from_string_ready(ctx, gc),
            RuntimeFunction::SliceAppend => slice::slice_append_ready(ctx, gc),
            RuntimeFunction::SliceAppendString => slice::slice_append_string_ready(ctx, gc),
            RuntimeFunction::SliceCopy => slice::slice_copy_ready(ctx, gc),
            RuntimeFunction::SliceCapacity => slice::slice_capacity_ready(ctx, gc),
            RuntimeFunction::SliceSize => slice::slice_size_ready(ctx, gc),
            RuntimeFunction::StringNewFromByteSlice =>
                string::string_new_from_byte_slice_ready(ctx, gc),
            RuntimeFunction::StringNewFromRune => string::string_new_from_rune_ready(ctx, gc),
            RuntimeFunction::StringNewFromRuneSlice =>
                string::string_new_from_rune_slice_ready(ctx, gc),
            RuntimeFunction::StringAppend => string::string_append_ready(ctx, gc),
            RuntimeFunction::StringLength => string::string_length_ready(ctx, gc),
            RuntimeFunction::StringNext => string::string_next_ready(ctx, gc),
            RuntimeFunction::StringSubstr => string::string_substr_ready(ctx, gc),
        }
    }

    /// The function ran from the frame of `ctx` in the state `gc` and left
    /// `ctx_after`, `gc_after` and `control`.
    pub open spec fn done<F: Fn(u64, &Memory, ObjectPtr, ObjectPtr) -> bool>(
        self,
        ctx: &LightWeightThreadContext,
        gc: &GlobalContext,
        ctx_after: &LightWeightThreadContext,
        gc_after: &GlobalContext,
        entry_point: UserFunction,
        control: Control,
        is_equal: &F,
    ) -> bool {
        match self {
            RuntimeFunction::Terminate => *gc_after == *gc && crate::terminate_done(
                ctx,
                ctx_after,
                control,
            ),
            RuntimeFunction::EnterMain => control matches Control::Next(next)
                && crate::enter_main_done(ctx, gc, ctx_after, gc_after, entry_point, next),
            RuntimeFunction::PanicUnwind => panic::panic_raise_body_done(
                ctx,
                gc,
                ctx_after,
                gc_after,
                control,
            ),
            RuntimeFunction::New => control matches Control::Next(next) && new_done(
                ctx,
                gc,
                ctx_after,
                gc_after,
                next,
            ),
            RuntimeFunction::ClosureNew =>
                control matches Control::Next(next) && closure::closure_new_done(
                ctx,
                gc,
                ctx_after,
                gc_after,
                next,
            ),
            RuntimeFunction::InterfaceNew =>
                control matches Control::Next(next) && interface::interface_new_done(
                ctx,
                gc,
                ctx_after,
                gc_after,
                next,
            ),
            RuntimeFunction::InterfaceConvertToConcreteType =>
                control matches Control::Next(next)
                && interface::interface_convert_to_concrete_type_done(
                ctx,
                gc,
                ctx_after,
                gc_after,
                next,
            ),
            RuntimeFunction::InterfaceConvertToInterface =>
                control matches Control::Next(next)
                && interface::interface_convert_to_interface_done(
                ctx,
                gc,
                ctx_after,
                gc_after,
                next,
            ),
            RuntimeFunction::InterfaceInvoke =>
                control matches Control::Next(next) && interface::interface_invoke_done(
                ctx,
                gc,
                ctx_after,
                gc_after,
                next,
            ),
            RuntimeFunction::ChannelNew =>
                control matches Control::Next(next) && channel::channel_new_done(
                ctx,
                gc,
                ctx_after,
                gc_after,
                next,
            ),
            RuntimeFunction::ChannelSelect =>
                control matches Control::Next(next) && channel::channel_select_done(
                ctx,
                gc,
                ctx_after,
                gc_after,
                next,
            ),
            RuntimeFunction::ChannelClose =>
                control matches Control::Next(next) && channel::channel_close_done(
                ctx,
                gc,
                ctx_after,
                gc_after,
                next,
            ),
            RuntimeFunction::ChannelReceive =>
                control matches Control::Next(next) && channel::channel_receive_done(
                ctx,
                gc,
                ctx_after,
                gc_after,
                next,
            ),
            RuntimeFunction::ChannelSend =>
                control matches Control::Next(next) && channel::channel_send_done(
                ctx,
                gc,
                ctx_after,
                gc_after,
                next,
            ),
            RuntimeFunction::DeferRegister =>
                control matches Control::Next(next) && defer::defer_register_done(
                ctx,
                gc,
                ctx_after,
                gc_after,
                next,
            ),
            RuntimeFunction::DeferExecute =>
                control matches Control::Next(next) && defer::defer_execute_done(
                ctx,
                gc,
                ctx_after,
                gc_after,
                next,
            ),
            RuntimeFunction::PanicRaise => *gc_after == *gc && (control matches Control::Next(next)
                && panic::panic_raise_done(ctx, gc, ctx_after, next)),
            RuntimeFunction::PanicRecover =>
                control matches Control::Next(next) && panic::panic_recover_done(
                ctx,
                gc,
                ctx_after,
                gc_after,
                next,
            ),
            RuntimeFunction::LwtSpawn => control matches Control::Next(next) && lwt::lwt_spawn_done(
                ctx,
                gc,
                ctx_after,
                gc_after,
                next,
            ),
            RuntimeFunction::LwtYield => *gc_after == *gc && (control matches Control::Next(next)
                && lwt::lwt_yield_done(ctx, gc, ctx_after, next)),
            RuntimeFunction::MapNew => control matches Control::Next(next) && map::map_new_done(
                ctx,
                gc,
                ctx_after,
                gc_after,
                next,
            ),
            RuntimeFunction::MapDelete =>
                control matches Control::Next(next) && map::map_delete_done(
                ctx,
                gc,
                ctx_after,
                gc_after,
                next,
                is_equal,
            ),
            RuntimeFunction::MapGet => control matches Control::Next(next) && map::map_get_done(
                ctx,
                gc,
                ctx_after,
                gc_after,
                next,
                is_equal,
            ),
            RuntimeFunction::MapLen => control matches Control::Next(next) && map::map_len_done(
                ctx,
                gc,
                ctx_after,
                gc_after,
                next,
            ),
            RuntimeFunction::MapNext => control matches Control::Next(next) && map::map_next_done(
                ctx,
                gc,
                ctx_after,
                gc_after,
                next,
            ),
            RuntimeFunction::MapSet => control matches Control::Next(next) && map::map_set_done(
                ctx,
                gc,
                ctx_after,
                gc_after,
                next,
                is_equal,
            ),
            RuntimeFunction::SliceFromString =>
                control matches Control::Next(next) && slice::slice_from_string_done(
                ctx,
                gc,
                ctx_after,
                gc_after,
                next,
            ),
            RuntimeFunction::SliceAppend =>
                control matches Control::Next(next) && slice::slice_append_done(
                ctx,
                gc,
                ctx_after,
                gc_after,
                next,
            ),
            RuntimeFunction::SliceAppendString =>
                control matches Control::Next(next) && slice::slice_append_string_done(
                ctx,
                gc,
                ctx_after,
                gc_after,
                next,
            ),
            RuntimeFunction::SliceCopy =>
                control matches Control::Next(next) && slice::slice_copy_done(
                ctx,
                gc,
                ctx_after,
                gc_after,
                next,
            ),
            RuntimeFunction::SliceCapacity =>
                control matches Control::Next(next) && slice::slice_capacity_done(
                ctx,
                gc,
                ctx_after,
                gc_after,
                next,
            ),
            RuntimeFunction::SliceSize =>
                control matches Control::Next(next) && slice::slice_size_done(
                ctx,
                gc,
                ctx_after,
                gc_after,
                next,
            ),
            RuntimeFunction::StringNewFromByteSlice =>
                control matches Control::Next(next) && string::string_new_from_byte_slice_done(
                ctx,
                gc,
                ctx_after,
                gc_after,
                next,
            ),
            RuntimeFunction::StringNewFromRune =>
                control matches Control::Next(next) && string::string_new_from_rune_done(
                ctx,
                gc,
                ctx_after,
                gc_after,
                next,
            ),
            RuntimeFunction::StringNewFromRuneSlice =>
                control matches Control::Next(next) && string::string_new_from_rune_slice_done(
                ctx,
                gc,
                ctx_after,
                gc_after,
                next,
            ),
            RuntimeFunction::StringAppend =>
                control matches Control::Next(next) && string::string_append_done(
                ctx,
                gc,
                ctx_after,
                gc_after,
                next,
            ),
            RuntimeFunction::StringLength =>
                control matches Control::Next(next) && string::string_length_done(
                ctx,
                gc,
                ctx_after,
                gc_after,
                next,
            ),
            RuntimeFunction::StringNext =>
                control matches Control::Next(next) && string::string_next_done(
                ctx,
                gc,
                ctx_after,
                gc_after,
                next,
            ),
            RuntimeFunction::StringSubstr =>
                control matches Control::Next(next) && string::string_substr_done(
                ctx,
                gc,
                ctx_after,
                gc_after,
                next,
            ),
        }
    }
}

/// Runs a function of the runtime on the thread `ctx`. `entry_point` is the
/// entry point of the program, and `is_equal` calls the compiled equality
/// function at an address on two keys.
pub fn dispatch<F: Fn(u64, &Memory, ObjectPtr, ObjectPtr) -> bool>(
    function: RuntimeFunction,
    ctx: &mut LightWeightThreadContext,
    gc: &mut GlobalContext,
    entry_point: UserFunction,
    is_equal: &F,
) -> (control: Control)
    requires
        function.compares_keys() ==> decides(is_equal),
        function.ready(old(ctx), old(gc), is_equal),
    ensures
        function.done(old(ctx), old(gc), final(ctx), final(gc), entry_point, control, is_equal),
{
    match function {
        RuntimeFunction::Terminate => crate::terminate(ctx),
        RuntimeFunction::EnterMain => Control::Next(crate::enter_main(ctx, gc, entry_point)),
        RuntimeFunction::PanicUnwind => panic::panic_raise_body(ctx, gc),
        RuntimeFunction::New => Control::Next(new::gox5_new(ctx, gc)),
        RuntimeFunction::ClosureNew => Control::Next(closure::gox5_closure_new(ctx, gc)),
        RuntimeFunction::InterfaceNew => Control::Next(interface::gox5_interface_new(ctx, gc)),
        RuntimeFunction::InterfaceConvertToConcreteType =>
            Control::Next(interface::gox5_interface_convert_to_concrete_type(ctx, gc)),
        RuntimeFunction::InterfaceConvertToInterface =>
            Control::Next(interface::gox5_interface_convert_to_interface(ctx, gc)),
        RuntimeFunction::InterfaceInvoke =>
            Control::Next(interface::gox5_interface_invoke(ctx, gc)),
        RuntimeFunction::ChannelNew => Control::Next(channel::gox5_channel_new(ctx, gc)),
        RuntimeFunction::ChannelSelect => Control::Next(channel::gox5_channel_select(ctx, gc)),
        RuntimeFunction::ChannelClose => Control::Next(channel::gox5_channel_close(ctx, gc)),
        RuntimeFunction::ChannelReceive => Control::Next(channel::gox5_channel_receive(ctx, gc)),
        RuntimeFunction::ChannelSend => Control::Next(channel::gox5_channel_send(ctx, gc)),
        RuntimeFunction::DeferRegister => Control::Next(defer::gox5_defer_register(ctx, gc)),
        RuntimeFunction::DeferExecute => Control::Next(defer::gox5_defer_execute(ctx, gc)),
        RuntimeFunction::PanicRaise => Control::Next(panic::gox5_panic_raise(ctx, gc)),
        RuntimeFunction::PanicRecover => Control::Next(panic::gox5_panic_recover(ctx, gc)),
        RuntimeFunction::LwtSpawn => Control::Next(lwt::gox5_lwt_spawn(ctx, gc)),
        RuntimeFunction::LwtYield => Control::Next(lwt::gox5_lwt_yield(ctx, gc)),
        RuntimeFunction::MapNew => Control::Next(map::gox5_map_new(ctx, gc)),
        RuntimeFunction::MapDelete => Control::Next(map::gox5_map_delete(ctx, gc, is_equal)),
        RuntimeFunction::MapGet => Control::Next(map::gox5_map_get(ctx, gc, is_equal)),
        RuntimeFunction::MapLen => Control::Next(map::gox5_map_len(ctx, gc)),
        RuntimeFunction::MapNext => Control::Next(map::gox5_map_next(ctx, gc)),
        RuntimeFunction::MapSet => Control::Next(map::gox5_map_set(ctx, gc, is_equal)),
        RuntimeFunction::SliceFromString => Control::Next(slice::gox5_slice_from_string(ctx, gc)),
        RuntimeFunction::SliceAppend => Control::Next(slice::gox5_slice_append(ctx, gc)),
        RuntimeFunction::SliceAppendString =>
            Control::Next(slice::gox5_slice_append_string(ctx, gc)),
        RuntimeFunction::SliceCopy => Control::Next(slice::gox5_slice_copy(ctx, gc)),
        RuntimeFunction::SliceCapacity => Control::Next(slice::gox5_slice_capacity(ctx, gc)),
        RuntimeFunction::SliceSize => Control::Next(slice::gox5_slice_size(ctx, gc)),
        RuntimeFunction::StringNewFromByteSlice =>
            Control::Next(string::gox5_string_new_from_byte_slice(ctx, gc)),
        RuntimeFunction::StringNewFromRune =>
            Control::Next(string::gox5_string_new_from_rune(ctx, gc)),
        RuntimeFunction::StringNewFromRuneSlice =>
            Control::Next(string::gox5_string_new_from_rune_slice(ctx, gc)),
        RuntimeFunction::StringAppend => Control::Next(string::gox5_string_append(ctx, gc)),
        RuntimeFunction::StringLength => Control::Next(string::gox5_string_length(ctx, gc)),
        RuntimeFunction::StringNext => Control::Next(string::gox5_string_next(ctx, gc)),
        RuntimeFunction::StringSubstr => Control::Next(string::gox5_string_substr(ctx, gc)),
    }
}

/// Tells whether `new` can run from the frame of `ctx` in the state `gc`.
pub fn check_new(ctx: &LightWeightThreadContext, gc: &GlobalContext) -> (ok: bool)
    ensures
        ok == new_ready(ctx, gc),
{
    if !gc.check_wf() || !ctx.is_frame_accessible(&gc.allocator, 6) {
        return false;
    }
    let result_ptr = ctx.frame_word(&gc.allocator, 4);
    let size = ctx.frame_word(&gc.allocator, 5);
    gc.allocator.has_room(size) && gc.allocator.is_accessible(result_ptr, 8)
}

impl RuntimeFunction {
    /// Tells whether the function, which is not the select, can run from the
    /// frame of `ctx` in the state `gc`.
    pub fn check_ready<F: Fn(u64, &Memory, ObjectPtr, ObjectPtr) -> bool>(
        self,
        ctx: &LightWeightThreadContext,
        gc: &GlobalContext,
        is_equal: &F,
    ) -> (ok: bool)
        requires
            self !is ChannelSelect,
            self.compares_keys() ==> decides(is_equal),
        ensures
            ok == self.ready(ctx, gc, is_equal),
    {
        match self {
            RuntimeFunction::Terminate => true,
            RuntimeFunction::EnterMain => ctx.is_callable(
                &gc.allocator,
                crate::light_weight_thread::FRAME_HEADER_SIZE,
                0,
                0,
            ),
            RuntimeFunction::PanicUnwind => panic::check_panic_raise_body(ctx, gc),
            RuntimeFunction::New => check_new(ctx, gc),
            RuntimeFunction::ClosureNew => closure::check_closure_new(ctx, gc),
            RuntimeFunction::InterfaceNew => interface::check_interface_new(ctx, gc),
            RuntimeFunction::InterfaceConvertToConcreteType =>
                interface::check_interface_convert_to_concrete_type(ctx, gc),
            RuntimeFunction::InterfaceConvertToInterface =>
                interface::check_interface_convert_to_interface(ctx, gc),
            RuntimeFunction::InterfaceInvoke => interface::check_interface_invoke(ctx, gc),
            RuntimeFunction::ChannelNew => channel::check_channel_new(ctx, gc),
            RuntimeFunction::ChannelSelect => false,
            RuntimeFunction::ChannelClose => channel::check_channel_close(ctx, gc),
            RuntimeFunction::ChannelReceive => channel::check_channel_receive(ctx, gc),
            RuntimeFunction::ChannelSend => channel::check_channel_send(ctx, gc),
            RuntimeFunction::DeferRegister => defer::check_defer_register(ctx, gc),
            RuntimeFunction::DeferExecute => defer::check_defer_execute(ctx, gc),
            RuntimeFunction::PanicRaise => panic::check_panic_raise(ctx, gc),
            RuntimeFunction::PanicRecover => panic::check_panic_recover(ctx, gc),
            RuntimeFunction::LwtSpawn => lwt::check_lwt_spawn(ctx, gc),
            RuntimeFunction::LwtYield => lwt::check_lwt_yield(ctx, gc),
            RuntimeFunction::MapNew => map::check_map_new(ctx, gc),
            RuntimeFunction::MapDelete => map::check_map_delete(ctx, gc),
            RuntimeFunction::MapGet => map::check_map_get(ctx, gc, is_equal),
            RuntimeFunction::MapLen => map::check_map_len(ctx, gc),
            RuntimeFunction::MapNext => map::check_map_next(ctx, gc),
            RuntimeFunction::MapSet => map::check_map_set(ctx, gc),
            RuntimeFunction::SliceFromString => slice::check_slice_from_string(ctx, gc),
            RuntimeFunction::SliceAppend => slice::check_slice_append(ctx, gc),
            RuntimeFunction::SliceAppendString => slice::check_slice_append_string(ctx, gc),
            RuntimeFunction::SliceCopy => slice::check_slice_copy(ctx, gc),
            RuntimeFunction::SliceCapacity => slice::check_slice_capacity(ctx, gc),
            RuntimeFunction::SliceSize => slice::check_slice_size(ctx, gc),
            RuntimeFunction::StringNewFromByteSlice =>
                string::check_string_new_from_byte_slice(ctx, gc),
            RuntimeFunction::StringNewFromRune => string::check_string_new_from_rune(ctx, gc),
            RuntimeFunction::StringNewFromRuneSlice =>
                string::check_string_new_from_rune_slice(ctx, gc),
            RuntimeFunction::StringAppend => string::check_string_append(ctx, gc),
            RuntimeFunction::StringLength => string::check_string_length(ctx, gc),
            RuntimeFunction::StringNext => string::check_string_next(ctx, gc),
            RuntimeFunction::StringSubstr => string::check_string_substr(ctx, gc),
        }
    }
}

/// Runs a function of the runtime on the thread `ctx` if it can run, and
/// returns nothing if it cannot: if the frame or what it names cannot be read
/// or written as the function has to. Then the state is as it was, but for
/// the select, which finds out on its way and leaves a state of no use.
pub fn checked_dispatch<F: Fn(u64, &Memory, ObjectPtr, ObjectPtr) -> bool>(
    function: RuntimeFunction,
    ctx: &mut LightWeightThreadContext,
    gc: &mut GlobalContext,
    entry_point: UserFunction,
    is_equal: &F,
) -> (control: Option<Control>)
    requires
        function.compares_keys() ==> decides(is_equal),
    ensures
        control is Some == function.ready(old(ctx), old(gc), is_equal),
        control matches Some(control) ==> function.done(
            old(ctx),
            old(gc),
            final(ctx),
            final(gc),
            entry_point,
            control,
            is_equal,
        ),
        control is None && function !is ChannelSelect ==> *final(ctx) == *old(ctx) && *final(gc)
            == *old(gc),
{
    if let RuntimeFunction::ChannelSelect = function {
        return match channel::channel_select_checked(ctx, gc) {
            Some(next) => Some(Control::Next(next)),
            None => None,
        };
    }
    if function.check_ready(ctx, gc, is_equal) {
        Some(dispatch(function, ctx, gc, entry_point, is_equal))
    } else {
        None
    }
}

} // verus!
