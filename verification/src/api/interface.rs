//! Interface values as compiled code makes, converts and calls them.
use vstd::prelude::*;
use crate::api::channel::store_flag;
use crate::global_context::GlobalContext;
use crate::light_weight_thread::{LightWeightThreadContext, frame_word, pushed_frame};
use crate::memory::{Memory, ObjectAllocator, bytes_at, range_accessible, round_up, store_bytes,
    store_word, word_at, words_at, zeros};
use crate::object::interface::{Interface, InterfaceTableEntry, search_table};
use crate::object::string::StringObject;
use crate::type_id::{TypeId, TYPE_INFO_BYTES};
use crate::word_chunk::{WordChunk, chunk_count, chunk_duplicated, chunk_words};
use crate::FunctionObject;
use crate::ObjectPtr;

verus! {

/// The interface value stored at `ptr`.
pub open spec fn interface_at(m: Seq<u8>, ptr: int) -> Interface {
    Interface { receiver: ObjectPtr(word_at(m, ptr)), type_id: TypeId(word_at(m, ptr + 8)) }
}

/// The store after the interface value `value` was written at `ptr`.
pub open spec fn store_interface(m: Seq<u8>, ptr: int, value: Interface) -> Seq<u8> {
    store_word(store_word(m, ptr, value.receiver.0), ptr + 8, value.type_id.0)
}

/// Reads the interface value at `ptr`.
pub fn load_interface(mem: &Memory, ptr: u64) -> (value: Interface)
    requires
        mem.accessible(ptr, 16),
    ensures
        value == interface_at(mem@, ptr as int),
{
    Interface::new(ObjectPtr(mem.read_word(ptr)), TypeId(mem.read_word(ptr + 8)))
}

/// Writes the interface value `value` at `ptr`.
pub fn write_interface(mem: &mut Memory, ptr: u64, value: Interface)
    requires
        old(mem).accessible(ptr, 16),
    ensures
        final(mem)@ == store_interface(old(mem)@, ptr as int, value),
        final(mem)@.len() == old(mem)@.len(),
        final(mem).guards() == old(mem).guards(),
{
    mem.write_word(ptr, value.receiver.0);
    mem.write_word(ptr + 8, value.type_id.0);
}

/// The store after a value of `size` bytes at `receiver` was boxed: a copy of
/// its bytes stands in fresh storage at the end. A null receiver is not copied.
pub open spec fn boxed_store(m: Seq<u8>, receiver: u64, size: u64) -> Seq<u8> {
    if receiver == 0 {
        m
    } else {
        store_bytes(
            m + zeros(round_up(size as int)),
            m.len() as int,
            bytes_at(m, receiver as int, size as int),
        )
    }
}

/// The address of the copy that boxing makes of the value at `receiver`.
pub open spec fn boxed_receiver(m: Seq<u8>, receiver: u64) -> ObjectPtr {
    if receiver == 0 {
        ObjectPtr(0)
    } else {
        ObjectPtr(m.len() as u64)
    }
}

/// The frame of `ctx` and the state `gc` are such that `gox5_interface_new` can run.
pub open spec fn interface_new_ready(ctx: &LightWeightThreadContext, gc: &GlobalContext) -> bool {
    &&& gc.wf()
    &&& ctx.frame_accessible(&gc.allocator, 7)
    &&& ({
        let m = gc.allocator@;
        let sp = ctx.stack_pointer;
        let receiver = frame_word(m, sp, 5);
        let type_id = TypeId(frame_word(m, sp, 6));
        &&& gc.allocator.accessible(frame_word(m, sp, 4), 16)
        &&& receiver != 0 ==> {
            &&& type_id.readable(&gc.allocator)
            &&& gc.allocator.can_allocate(type_id.size_in(m))
            &&& gc.allocator.accessible(receiver, type_id.size_in(m))
        }
    })
}

/// `gox5_interface_new` ran from the frame of `ctx` and left `ctx_after` and `next`.
pub open spec fn interface_new_done(
    ctx: &LightWeightThreadContext,
    gc: &GlobalContext,
    ctx_after: &LightWeightThreadContext,
    gc_after: &GlobalContext,
    next: FunctionObject,
) -> bool {
    &&& gc_after.wf()
    &&& gc_after.same_tables(gc)
    &&& gc_after.allocator.guards() == gc.allocator.guards()
    &&& ({
        let m = gc.allocator@;
        let sp = ctx.stack_pointer;
        let receiver = frame_word(m, sp, 5);
        let type_id = TypeId(frame_word(m, sp, 6));
        gc_after.allocator@ == store_interface(
            boxed_store(m, receiver, type_id.size_in(m)),
            frame_word(m, sp, 4) as int,
            Interface { receiver: boxed_receiver(m, receiver), type_id },
        )
    })
    &&& *ctx_after == ctx.left(gc_after.allocator@)
    &&& next == ctx.resume_func_in(gc_after.allocator@)
}

/// Boxes a value as an interface. The frame holds the address for the
/// result, the address of the value, and its type id. The value is copied to
/// fresh storage, the interface value of the copy and the type id is written
/// to the result address, and the frame is left. A null value gives an
/// interface with a null receiver.
pub fn gox5_interface_new(ctx: &mut LightWeightThreadContext, gc: &mut GlobalContext) -> (next:
    FunctionObject)
    requires
        interface_new_ready(old(ctx), old(gc)),
    ensures
        interface_new_done(old(ctx), old(gc), final(ctx), final(gc), next),
{
    let result_ptr = ctx.frame_word(&gc.allocator, 4);
    let source = ObjectPtr(ctx.frame_word(&gc.allocator, 5));
    let type_id = TypeId(ctx.frame_word(&gc.allocator, 6));
    let receiver = if source.is_null() {
        ObjectPtr(0)
    } else {
        let size = type_id.size(&gc.allocator);
        let ptr = gc.allocator.allocate(size, 0);
        proof {
            crate::memory::lemma_bytes_at_append(
                old(gc).allocator@,
                zeros(round_up(size as int)),
                source.0 as int,
                size as int,
            );
        }
        gc.allocator.copy(ptr, source.0, size);
        ObjectPtr(ptr)
    };
    let interface = Interface::new(receiver, type_id);
    write_interface(&mut gc.allocator, result_ptr, interface);
    ctx.leave(&gc.allocator)
}

/// The store after the interface value at `interface_ptr` was converted to the
/// concrete type `to_type`: if that is its type, the bytes of its receiver
/// stand at `value`; if not, zeroes do. The flag through `flag_ptr`, unless
/// that pointer is null, says which.
pub open spec fn converted_to_concrete(
    m: Seq<u8>,
    interface_ptr: u64,
    to_type: TypeId,
    value: u64,
    flag_ptr: u64,
) -> Seq<u8> {
    let interface = interface_at(m, interface_ptr as int);
    let size = to_type.size_in(m);
    store_flag(
        store_bytes(
            m,
            value as int,
            if interface.type_id == to_type {
                bytes_at(m, interface.receiver.0 as int, size as int)
            } else {
                zeros(size as int)
            },
        ),
        flag_ptr,
        interface.type_id == to_type,
    )
}

/// A value that was boxed as an interface and is converted back to its type
/// comes out byte for byte as it went in.
pub proof fn lemma_boxed_value_converts_back(
    m: Seq<u8>,
    result_ptr: u64,
    receiver: u64,
    type_id: TypeId,
    value: u64,
    flag_ptr: u64,
)
    requires
        receiver != 0,
        receiver + type_id.size_in(m) <= m.len(),
        result_ptr + 16 <= m.len(),
        type_id.0 + TYPE_INFO_BYTES <= m.len(),
        m.len() + round_up(type_id.size_in(m) as int) <= u64::MAX,
        result_ptr + 16 <= type_id.0 + 40 || type_id.0 + TYPE_INFO_BYTES <= result_ptr,
        value + type_id.size_in(m) <= m.len() + round_up(type_id.size_in(m) as int),
        flag_ptr < m.len() + round_up(type_id.size_in(m) as int),
        flag_ptr == 0 || flag_ptr + 1 <= value || value + type_id.size_in(m) <= flag_ptr,
    ensures
        ({
            let size = type_id.size_in(m);
            let made = store_interface(
                boxed_store(m, receiver, size),
                result_ptr as int,
                Interface { receiver: boxed_receiver(m, receiver), type_id },
            );
            let back = converted_to_concrete(made, result_ptr, type_id, value, flag_ptr);
            bytes_at(back, value as int, size as int) == bytes_at(m, receiver as int, size as int)
        }),
{
    let size = type_id.size_in(m);
    let source_bytes = bytes_at(m, receiver as int, size as int);
    let grown = m + zeros(round_up(size as int));
    let boxed = boxed_store(m, receiver, size);
    let copy = m.len() as u64;
    let first = store_word(boxed, result_ptr as int, copy);
    vstd::bytes::lemma_auto_spec_u64_to_from_le_bytes();
    // the interface value reads back
    crate::memory::lemma_word_at_store_word_same(first, result_ptr + 8, type_id.0);
    crate::memory::lemma_word_at_store_word_same(boxed, result_ptr as int, copy);
    crate::memory::lemma_word_at_store_bytes_other(
        first,
        result_ptr + 8,
        vstd::bytes::spec_u64_to_le_bytes(type_id.0),
        result_ptr as int,
    );
    // the size of the type is as it was
    crate::memory::lemma_word_at_append(m, zeros(round_up(size as int)), type_id.0 + 40);
    crate::memory::lemma_word_at_store_bytes_other(
        grown,
        copy as int,
        source_bytes,
        type_id.0 + 40,
    );
    crate::memory::lemma_word_at_store_bytes_other(
        boxed,
        result_ptr as int,
        vstd::bytes::spec_u64_to_le_bytes(copy),
        type_id.0 + 40,
    );
    crate::memory::lemma_word_at_store_bytes_other(
        first,
        result_ptr + 8,
        vstd::bytes::spec_u64_to_le_bytes(type_id.0),
        type_id.0 + 40,
    );
}

/// The frame of `ctx` and the state `gc` are such that
/// `gox5_interface_convert_to_concrete_type` can run.
pub open spec fn interface_convert_to_concrete_type_ready(
    ctx: &LightWeightThreadContext,
    gc: &GlobalContext,
) -> bool {
    &&& ctx.frame_accessible(&gc.allocator, 8)
    &&& ({
        let m = gc.allocator@;
        let sp = ctx.stack_pointer;
        let interface = interface_at(m, frame_word(m, sp, 4) as int);
        let to_type = TypeId(frame_word(m, sp, 5));
        let flag_ptr = frame_word(m, sp, 7);
        &&& gc.allocator.accessible(frame_word(m, sp, 4), 16)
        &&& to_type.readable(&gc.allocator)
        &&& gc.allocator.accessible(frame_word(m, sp, 6), to_type.size_in(m))
        &&& interface.type_id == to_type ==> gc.allocator.accessible(
            interface.receiver.0,
            to_type.size_in(m),
        )
        &&& interface.type_id != to_type ==> flag_ptr != 0
        &&& flag_ptr != 0 ==> gc.allocator.accessible(flag_ptr, 1)
    })
}

/// `gox5_interface_convert_to_concrete_type` ran from the frame of `ctx` and left
/// `ctx_after` and `next`.
pub open spec fn interface_convert_to_concrete_type_done(
    ctx: &LightWeightThreadContext,
    gc: &GlobalContext,
    ctx_after: &LightWeightThreadContext,
    gc_after: &GlobalContext,
    next: FunctionObject,
) -> bool {
    &&& gc_after.same_tables(gc)
    &&& gc_after.allocator.guards() == gc.allocator.guards()
    &&& gc.wf() ==> gc_after.wf()
    &&& gc_after.allocator@ == converted_to_concrete(
        gc.allocator@,
        frame_word(gc.allocator@, ctx.stack_pointer, 4),
        TypeId(frame_word(gc.allocator@, ctx.stack_pointer, 5)),
        frame_word(gc.allocator@, ctx.stack_pointer, 6),
        frame_word(gc.allocator@, ctx.stack_pointer, 7),
    )
    &&& *ctx_after == ctx.left(gc_after.allocator@)
    &&& next == ctx.resume_func_in(gc_after.allocator@)
}

/// Converts an interface to a value of a concrete type. The frame holds the
/// address of the interface value, the type id asked for, the address for the
/// value, and the address for a flag, which may be null. The conversion
/// succeeds exactly when the type id of the interface is the one asked for.
/// Then the bytes of the receiver are copied to the address for the value;
/// otherwise that address is zeroed. The flag, if asked for, says which; a
/// conversion that fails must ask for it. The frame is left.
pub fn gox5_interface_convert_to_concrete_type(
    ctx: &mut LightWeightThreadContext,
    gc: &mut GlobalContext,
) -> (next: FunctionObject)
    requires
        interface_convert_to_concrete_type_ready(old(ctx), old(gc)),
    ensures
        interface_convert_to_concrete_type_done(old(ctx), old(gc), final(ctx), final(gc), next),
{
    let interface = load_interface(&gc.allocator, ctx.frame_word(&gc.allocator, 4));
    let to_type = TypeId(ctx.frame_word(&gc.allocator, 5));
    let value = ctx.frame_word(&gc.allocator, 6);
    let flag_ptr = ctx.frame_word(&gc.allocator, 7);
    let object_size = to_type.size(&gc.allocator);
    let success = interface.type_id().0 == to_type.0;
    if success {
        gc.allocator.copy(value, interface.receiver().0, object_size);
    } else {
        gc.allocator.fill_zero(value, object_size);
    }
    if flag_ptr != 0 {
        gc.allocator.write_byte(
            flag_ptr,
            if success {
                1
            } else {
                0
            },
        );
    }
    ctx.leave(&gc.allocator)
}

/// Every method of `required` is found in `provided`.
pub open spec fn provides_all(
    provided: Seq<InterfaceTableEntry>,
    required: Seq<InterfaceTableEntry>,
) -> bool {
    forall|i: int|
        0 <= i < required.len() ==> search_table(provided, (#[trigger] required[i]).method_name)
            is Some
}

/// Tells whether the type of `interface` has every method of the type `to_type`.
pub fn has_all_methods(mem: &Memory, interface: &Interface, to_type: TypeId) -> (ok: bool)
    requires
        interface.type_id.table_readable(mem),
        to_type.table_readable(mem),
    ensures
        ok == provides_all(interface.type_id.table_in(mem@), to_type.table_in(mem@)),
{
    let required = to_type.interface_table(mem);
    let mut i: usize = 0;
    while i < required.len()
        invariant
            i <= required.len(),
            required@ == to_type.table_in(mem@),
            interface.type_id.table_readable(mem),
            forall|j: int|
                0 <= j < i ==> search_table(
                    interface.type_id.table_in(mem@),
                    (#[trigger] required@[j]).method_name,
                ) is Some,
        decreases required.len() - i,
    {
        if interface.search(mem, required[i].method_name()).is_none() {
            return false;
        }
        i = i + 1;
    }
    true
}

/// The frame of `ctx` and the state `gc` are such that
/// `gox5_interface_convert_to_interface` can run.
pub open spec fn interface_convert_to_interface_ready(
    ctx: &LightWeightThreadContext,
    gc: &GlobalContext,
) -> bool {
    &&& ctx.frame_accessible(&gc.allocator, 8)
    &&& ({
        let m = gc.allocator@;
        let sp = ctx.stack_pointer;
        let interface = interface_at(m, frame_word(m, sp, 4) as int);
        let to_type = TypeId(frame_word(m, sp, 5));
        let flag_ptr = frame_word(m, sp, 7);
        &&& gc.allocator.accessible(frame_word(m, sp, 4), 16)
        &&& interface.type_id.table_readable(&gc.allocator)
        &&& to_type.table_readable(&gc.allocator)
        &&& gc.allocator.accessible(frame_word(m, sp, 6), 16)
        &&& !provides_all(interface.type_id.table_in(m), to_type.table_in(m)) ==> flag_ptr
            != 0
        &&& flag_ptr != 0 ==> gc.allocator.accessible(flag_ptr, 1)
    })
}

/// `gox5_interface_convert_to_interface` ran from the frame of `ctx` and left
/// `ctx_after` and `next`.
pub open spec fn interface_convert_to_interface_done(
    ctx: &LightWeightThreadContext,
    gc: &GlobalContext,
    ctx_after: &LightWeightThreadContext,
    gc_after: &GlobalContext,
    next: FunctionObject,
) -> bool {
    &&& gc_after.same_tables(gc)
    &&& gc_after.allocator.guards() == gc.allocator.guards()
    &&& gc.wf() ==> gc_after.wf()
    &&& ({
        let m = gc.allocator@;
        let sp = ctx.stack_pointer;
        let interface = interface_at(m, frame_word(m, sp, 4) as int);
        let to_type = TypeId(frame_word(m, sp, 5));
        let success = provides_all(interface.type_id.table_in(m), to_type.table_in(m));
        gc_after.allocator@ == store_flag(
            store_interface(
                m,
                frame_word(m, sp, 6) as int,
                if success {
                    interface
                } else {
                    Interface { receiver: ObjectPtr(0), type_id: TypeId(0) }
                },
            ),
            frame_word(m, sp, 7),
            success,
        )
    })
    &&& *ctx_after == ctx.left(gc_after.allocator@)
    &&& next == ctx.resume_func_in(gc_after.allocator@)
}

/// Converts an interface to another interface type. The frame holds the
/// address of the interface value, the type id of the interface type asked
/// for, the address for the result, and the address for a flag, which may be
/// null. The conversion succeeds exactly when the type of the interface value
/// has every method of the type asked for. Then the interface value is written
/// to the result address; otherwise the nil interface is. The flag, if asked
/// for, says which; a conversion that fails must ask for it. The frame is left.
pub fn gox5_interface_convert_to_interface(
    ctx: &mut LightWeightThreadContext,
    gc: &mut GlobalContext,
) -> (next: FunctionObject)
    requires
        interface_convert_to_interface_ready(old(ctx), old(gc)),
    ensures
        interface_convert_to_interface_done(old(ctx), old(gc), final(ctx), final(gc), next),
{
    let interface = load_interface(&gc.allocator, ctx.frame_word(&gc.allocator, 4));
    let to_type = TypeId(ctx.frame_word(&gc.allocator, 5));
    let value = ctx.frame_word(&gc.allocator, 6);
    let flag_ptr = ctx.frame_word(&gc.allocator, 7);
    let success = has_all_methods(&gc.allocator, &interface, to_type);
    if success {
        write_interface(&mut gc.allocator, value, interface);
    } else {
        write_interface(&mut gc.allocator, value, Interface::nil());
    }
    if flag_ptr != 0 {
        gc.allocator.write_byte(
            flag_ptr,
            if success {
                1
            } else {
                0
            },
        );
    }
    ctx.leave(&gc.allocator)
}

/// The method that the invoke frame at `sp` asks for: the first method of that
/// name in the method table of the type of its interface value.
pub open spec fn invoked_method(m: Seq<u8>, sp: u64) -> Option<FunctionObject> {
    search_table(
        interface_at(m, frame_word(m, sp, 5) as int).type_id.table_in(m),
        StringObject(frame_word(m, sp, 6)),
    )
}

/// The result pointer that the invoke frame at `sp` hands on, if it has one.
pub open spec fn invoke_result_pointer(m: Seq<u8>, sp: u64) -> Option<u64> {
    if frame_word(m, sp, 4) != 0 {
        Some(frame_word(m, sp, 4))
    } else {
        None
    }
}

/// The address of the frame of the method that the invoke frame at `sp`
/// calls: where the invoke frame was, rounded up to a whole word from the
/// calling frame.
pub open spec fn invoke_stack_pointer(m: Seq<u8>, sp: u64) -> int {
    frame_word(m, sp, 1) + round_up(sp - frame_word(m, sp, 1))
}

/// The store after the invoke frame at `sp` called its method: the arguments
/// are copied to fresh storage, and the frame of the method takes the place of
/// the invoke frame. It names the frame that called the invoke frame as its
/// caller, resumes what the invoke frame would have resumed, and holds the
/// result pointer and the arguments.
pub open spec fn invoked_store(m: Seq<u8>, sp: u64) -> Seq<u8> {
    pushed_frame(
        chunk_duplicated(m, sp + 56),
        invoke_stack_pointer(chunk_duplicated(m, sp + 56), sp),
        FunctionObject(frame_word(chunk_duplicated(m, sp + 56), sp, 0)),
        frame_word(chunk_duplicated(m, sp + 56), sp, 1),
        invoke_result_pointer(m, sp),
        chunk_words(m, sp + 56),
    )
}

/// The frame that an invocation leaves for the method holds what the
/// invocation was given: it resumes what the invocation would have resumed,
/// names the caller of the invocation as its caller, and holds the result
/// pointer and the arguments, the receiver among them, as the invoke frame
/// held them.
pub proof fn lemma_invoke_passes_arguments(m: Seq<u8>, sp: u64)
    requires
        sp + 8 * (8 + chunk_count(m, sp + 56)) <= m.len(),
        m.len() + 8 + 8 * chunk_count(m, sp + 56) <= u64::MAX,
        frame_word(m, sp, 1) <= sp,
        invoke_stack_pointer(m, sp) + 8 * (chunk_count(m, sp + 56) + 5) <= m.len() + 8 + 8
            * chunk_count(m, sp + 56),
    ensures
        ({
            let after = invoked_store(m, sp);
            let callee = invoke_stack_pointer(m, sp) as u64;
            let args = chunk_words(m, sp + 56);
            let offset: int = if frame_word(m, sp, 4) != 0 {
                5
            } else {
                4
            };
            &&& frame_word(after, callee, 0) == frame_word(m, sp, 0)
            &&& frame_word(after, callee, 1) == frame_word(m, sp, 1)
            &&& frame_word(after, callee, 2) == 0
            &&& frame_word(after, callee, 3) == 0
            &&& frame_word(m, sp, 4) != 0 ==> frame_word(after, callee, 4) == frame_word(m, sp, 4)
            &&& words_at(after, callee + 8 * offset, args.len() as int) == args
        }),
{
    let count = chunk_count(m, sp + 56);
    let copied = chunk_duplicated(m, sp + 56);
    let grown = m + zeros(8 + 8 * count);
    let words = seq![count] + chunk_words(m, sp + 56);
    crate::memory::lemma_store_words_len(grown, m.len() as int, words);
    assert forall|i: int| sp <= i < sp + 16 implies copied[i] == m[i] by {
        crate::memory::lemma_store_words_byte_other(grown, m.len() as int, words, i);
    }
    crate::defer_stack::lemma_word_at_agrees(m, copied, sp as int);
    crate::defer_stack::lemma_word_at_agrees(m, copied, sp + 8);
    assert(frame_word(copied, sp, 0) == frame_word(m, sp, 0));
    assert(frame_word(copied, sp, 1) == frame_word(m, sp, 1));
    assert(chunk_words(m, sp + 56).len() == count);
    crate::light_weight_thread::lemma_pushed_frame(
        copied,
        invoke_stack_pointer(m, sp) as u64,
        FunctionObject(frame_word(m, sp, 0)),
        frame_word(m, sp, 1),
        invoke_result_pointer(m, sp),
        chunk_words(m, sp + 56),
    );
}

/// The frame of `ctx` and the state `gc` are such that `gox5_interface_invoke` can run.
pub open spec fn interface_invoke_ready(
    ctx: &LightWeightThreadContext,
    gc: &GlobalContext,
) -> bool {
    &&& gc.wf()
    &&& ctx.frame_accessible(&gc.allocator, 8)
    &&& ({
        let m = gc.allocator@;
        let sp = ctx.stack_pointer;
        let copied = chunk_duplicated(m, sp + 56);
        &&& gc.allocator.accessible(frame_word(m, sp, 5), 16)
        &&& interface_at(m, frame_word(m, sp, 5) as int).type_id.table_readable(
            &gc.allocator,
        )
        &&& invoked_method(m, sp) is Some
        &&& WordChunk((sp + 56) as u64).copyable(&gc.allocator)
        &&& frame_word(copied, sp, 1) <= sp
        &&& invoke_stack_pointer(copied, sp) + 8 * (chunk_count(m, sp + 56) + 5) <= u64::MAX
        &&& range_accessible(
            copied.len(),
            gc.allocator.guards(),
            invoke_stack_pointer(copied, sp) as u64,
            (8 * (chunk_count(m, sp + 56) + if frame_word(m, sp, 4) != 0 {
                5int
            } else {
                4int
            })) as u64,
        )
    })
}

/// `gox5_interface_invoke` ran from the frame of `ctx` and left `ctx_after` and `next`.
pub open spec fn interface_invoke_done(
    ctx: &LightWeightThreadContext,
    gc: &GlobalContext,
    ctx_after: &LightWeightThreadContext,
    gc_after: &GlobalContext,
    next: FunctionObject,
) -> bool {
    &&& gc_after.wf()
    &&& gc_after.same_tables(gc)
    &&& gc_after.allocator.guards() == gc.allocator.guards()
    &&& gc_after.allocator@ == invoked_store(gc.allocator@, ctx.stack_pointer)
    &&& *ctx_after == (LightWeightThreadContext {
        stack_pointer: invoke_stack_pointer(
            chunk_duplicated(gc.allocator@, ctx.stack_pointer + 56),
            ctx.stack_pointer,
        ) as u64,
        ..*ctx
    })
    &&& Some(next) == invoked_method(gc.allocator@, ctx.stack_pointer)
}

/// Calls a method of an interface value. The frame holds a result pointer,
/// which may be null, the address of the interface value, the name of the
/// method, and a word chunk of the arguments. The method is the first of that
/// name in the method table of the type of the interface value. Its frame
/// takes the place of this frame, so that it returns to the caller of this
/// frame, and it runs next.
pub fn gox5_interface_invoke(ctx: &mut LightWeightThreadContext, gc: &mut GlobalContext) -> (next:
    FunctionObject)
    requires
        interface_invoke_ready(old(ctx), old(gc)),
    ensures
        interface_invoke_done(old(ctx), old(gc), final(ctx), final(gc), next),
{
    let interface = load_interface(&gc.allocator, ctx.frame_word(&gc.allocator, 5));
    let method_name = StringObject(ctx.frame_word(&gc.allocator, 6));
    let method = interface.search(&gc.allocator, method_name);
    let next_func = match method {
        Some(method) => method,
        None => {
            assert(false);
            FunctionObject::new_null()
        },
    };
    let result_ptr = ctx.frame_word(&gc.allocator, 4);
    let ghost words = chunk_words(gc.allocator@, ctx.stack_pointer + 56);
    let args = WordChunk(ctx.stack_pointer + 56).duplicate(&mut gc.allocator);
    let result_pointer = if result_ptr != 0 {
        Some(result_ptr)
    } else {
        None
    };
    let current_stack_pointer = ctx.stack_pointer();
    let resume_func = ctx.leave(&gc.allocator);
    let prev_stack_pointer = ctx.stack_pointer();
    ctx.grow_stack(current_stack_pointer - prev_stack_pointer);
    let words = args.as_slice(&gc.allocator);
    ctx.push_frame(&mut gc.allocator, prev_stack_pointer, result_pointer, &words, resume_func);
    next_func
}

/// Tells whether `gox5_interface_new` can run from the frame of `ctx` in the
/// state `gc`.
pub fn check_interface_new(ctx: &LightWeightThreadContext, gc: &GlobalContext) -> (ok: bool)
    ensures
        ok == interface_new_ready(ctx, gc),
{
    if !gc.check_wf() || !ctx.is_frame_accessible(&gc.allocator, 7) {
        return false;
    }
    let result_ptr = ctx.frame_word(&gc.allocator, 4);
    let receiver = ctx.frame_word(&gc.allocator, 5);
    let type_id = TypeId(ctx.frame_word(&gc.allocator, 6));
    if !gc.allocator.is_accessible(result_ptr, 16) {
        return false;
    }
    if receiver == 0 {
        return true;
    }
    if !type_id.is_readable(&gc.allocator) {
        return false;
    }
    let size = type_id.size(&gc.allocator);
    gc.allocator.has_room(size) && gc.allocator.is_accessible(receiver, size)
}

/// Tells whether `gox5_interface_convert_to_concrete_type` can run from the
/// frame of `ctx` in the state `gc`.
pub fn check_interface_convert_to_concrete_type(
    ctx: &LightWeightThreadContext,
    gc: &GlobalContext,
) -> (ok: bool)
    ensures
        ok == interface_convert_to_concrete_type_ready(ctx, gc),
{
    if !ctx.is_frame_accessible(&gc.allocator, 8) {
        return false;
    }
    let interface_ptr = ctx.frame_word(&gc.allocator, 4);
    let to_type = TypeId(ctx.frame_word(&gc.allocator, 5));
    let value = ctx.frame_word(&gc.allocator, 6);
    let flag_ptr = ctx.frame_word(&gc.allocator, 7);
    if !gc.allocator.is_accessible(interface_ptr, 16) || !to_type.is_readable(&gc.allocator) {
        return false;
    }
    let interface = load_interface(&gc.allocator, interface_ptr);
    let size = to_type.size(&gc.allocator);
    if !gc.allocator.is_accessible(value, size) {
        return false;
    }
    if interface.type_id.0 == to_type.0 {
        if !gc.allocator.is_accessible(interface.receiver.0, size) {
            return false;
        }
    } else if flag_ptr == 0 {
        return false;
    }
    flag_ptr == 0 || gc.allocator.is_accessible(flag_ptr, 1)
}

/// Tells whether `gox5_interface_convert_to_interface` can run from the frame
/// of `ctx` in the state `gc`.
pub fn check_interface_convert_to_interface(
    ctx: &LightWeightThreadContext,
    gc: &GlobalContext,
) -> (ok: bool)
    ensures
        ok == interface_convert_to_interface_ready(ctx, gc),
{
    if !ctx.is_frame_accessible(&gc.allocator, 8) {
        return false;
    }
    let interface_ptr = ctx.frame_word(&gc.allocator, 4);
    let to_type = TypeId(ctx.frame_word(&gc.allocator, 5));
    let value = ctx.frame_word(&gc.allocator, 6);
    let flag_ptr = ctx.frame_word(&gc.allocator, 7);
    if !gc.allocator.is_accessible(interface_ptr, 16) {
        return false;
    }
    let interface = load_interface(&gc.allocator, interface_ptr);
    if !interface.type_id.is_table_readable(&gc.allocator) || !to_type.is_table_readable(
        &gc.allocator,
    ) || !gc.allocator.is_accessible(value, 16) {
        return false;
    }
    if flag_ptr == 0 {
        has_all_methods(&gc.allocator, &interface, to_type)
    } else {
        gc.allocator.is_accessible(flag_ptr, 1)
    }
}

/// Tells whether `gox5_interface_invoke` can run from the frame of `ctx` in
/// the state `gc`.
pub fn check_interface_invoke(ctx: &LightWeightThreadContext, gc: &GlobalContext) -> (ok: bool)
    ensures
        ok == interface_invoke_ready(ctx, gc),
{
    if !gc.check_wf() || !ctx.is_frame_accessible(&gc.allocator, 8) {
        return false;
    }
    let sp = ctx.stack_pointer;
    let prev = ctx.frame_word(&gc.allocator, 1);
    let result_ptr = ctx.frame_word(&gc.allocator, 4);
    let interface_ptr = ctx.frame_word(&gc.allocator, 5);
    let method_name = StringObject(ctx.frame_word(&gc.allocator, 6));
    if !gc.allocator.is_accessible(interface_ptr, 16) {
        return false;
    }
    let interface = load_interface(&gc.allocator, interface_ptr);
    if !interface.type_id.is_table_readable(&gc.allocator) {
        return false;
    }
    if interface.search(&gc.allocator, method_name).is_none() {
        return false;
    }
    let chunk = WordChunk(sp + 56);
    if !chunk.is_readable(&gc.allocator) {
        return false;
    }
    let count = gc.allocator.read_word(chunk.0);
    if !gc.allocator.has_room(8 + 8 * count) {
        return false;
    }
    proof {
        let m = gc.allocator@;
        let copied = chunk_duplicated(m, sp + 56);
        let grown = m + zeros(8 + 8 * count);
        let words = seq![count] + chunk_words(m, sp + 56);
        crate::memory::lemma_store_words_len(grown, m.len() as int, words);
        assert forall|i: int| sp + 8 <= i < sp + 16 implies copied[i] == m[i] by {
            crate::memory::lemma_store_words_byte_other(grown, m.len() as int, words, i);
        }
        crate::defer_stack::lemma_word_at_agrees(m, copied, sp + 8);
    }
    if prev > sp {
        return false;
    }
    let callee: u128 = prev as u128 + ((sp - prev) as u128 + 7) / 8 * 8;
    if callee + 8 * (count as u128 + 5) > u64::MAX as u128 {
        return false;
    }
    let words: u64 = if result_ptr != 0 {
        count + 5
    } else {
        count + 4
    };
    gc.allocator.is_accessible_after_growth(callee as u64, 8 * words, 8 + 8 * count)
}

} // verus!
