//! Channel operations as compiled code calls them.
use vstd::prelude::*;
use crate::api::RuntimeFunction;
use crate::global_context::GlobalContext;
use crate::light_weight_thread::{LightWeightThreadContext, frame_word, FLAG_SUSPENDED};
use crate::memory::{Memory, ObjectAllocator, bytes_at, range_accessible, round_up, store_bytes,
    store_word, word_at, zeros, ADDRESS_LIMIT};
use crate::object::channel::{ChannelObject, ChannelView, ReceiveStatus};
use crate::type_id::{TypeId, TYPE_INFO_BYTES};
use crate::FunctionObject;
use crate::ObjectPtr;

verus! {

/// Size in bytes of the object that stands for a channel.
pub const CHANNEL_OBJECT_SIZE: u64 = 8;

/// Creates a channel of the given capacity and the object that stands for it.
pub fn allocate_channel(gc: &mut GlobalContext, capacity: usize) -> (ptr: u64)
    requires
        old(gc).wf(),
        old(gc).allocator.can_allocate(CHANNEL_OBJECT_SIZE),
    ensures
        final(gc).wf(),
        ptr == old(gc).allocator@.len(),
        final(gc).allocator.guards() == old(gc).allocator.guards(),
        final(gc).allocator@ == store_word(
            old(gc).allocator@ + zeros(8),
            ptr as int,
            old(gc).channels@.len() as u64,
        ),
        final(gc).channel_views() == old(gc).channel_views().push(
            ChannelView::fresh(capacity as int),
        ),
        final(gc).has_channel(ObjectPtr(ptr)),
        final(gc).channel_index(ObjectPtr(ptr)) == old(gc).channels@.len(),
        final(gc).created_light_weight_thread_count == old(gc).created_light_weight_thread_count,
        final(gc).handle_count == old(gc).handle_count,
        final(gc).ready_queue@ == old(gc).ready_queue@,
        final(gc).maps@ == old(gc).maps@,
{
    let ptr = gc.allocator.allocate(CHANNEL_OBJECT_SIZE, 0);
    let channel = ChannelObject::new(capacity);
    let index = gc.channels.len() as u64;
    gc.channels.push(channel);
    let ghost grown = gc.allocator@;
    gc.allocator.write_word(ptr, index);
    proof {
        crate::memory::lemma_word_at_store_word_same(grown, ptr as int, index);
    }
    ptr
}

/// The frame of `ctx` and the state `gc` are such that `gox5_channel_new` can run.
pub open spec fn channel_new_ready(ctx: &LightWeightThreadContext, gc: &GlobalContext) -> bool {
    &&& gc.wf()
    &&& ctx.frame_accessible(&gc.allocator, 6)
    &&& frame_word(gc.allocator@, ctx.stack_pointer, 5) <= usize::MAX
    &&& gc.allocator.can_allocate(CHANNEL_OBJECT_SIZE)
    &&& gc.allocator.accessible(
        frame_word(gc.allocator@, ctx.stack_pointer, 4),
        8,
    )
}

/// `gox5_channel_new` ran from the frame of `ctx` and left `ctx_after` and `next`.
pub open spec fn channel_new_done(
    ctx: &LightWeightThreadContext,
    gc: &GlobalContext,
    ctx_after: &LightWeightThreadContext,
    gc_after: &GlobalContext,
    next: FunctionObject,
) -> bool {
    &&& gc_after.wf()
    &&& gc_after.allocator.guards() == gc.allocator.guards()
    &&& gc_after.allocator@ == store_word(
        store_word(
            gc.allocator@ + zeros(8),
            gc.allocator@.len() as int,
            gc.channels@.len() as u64,
        ),
        frame_word(gc.allocator@, ctx.stack_pointer, 4) as int,
        gc.allocator@.len() as u64,
    )
    &&& gc_after.channel_views() == gc.channel_views().push(
        ChannelView::fresh(frame_word(gc.allocator@, ctx.stack_pointer, 5) as int),
    )
    &&& gc_after.created_light_weight_thread_count == gc.created_light_weight_thread_count
    &&& gc_after.handle_count == gc.handle_count
    &&& gc_after.ready_queue@ == gc.ready_queue@
    &&& gc_after.maps@ == gc.maps@
    &&& *ctx_after == ctx.left(gc_after.allocator@)
    &&& next == ctx.resume_func_in(gc_after.allocator@)
}

/// Creates a channel. The frame holds the address for the result and the
/// capacity. The address of the channel object is written to the result
/// address, and the frame is left.
pub fn gox5_channel_new(ctx: &mut LightWeightThreadContext, gc: &mut GlobalContext) -> (next:
    FunctionObject)
    requires
        channel_new_ready(old(ctx), old(gc)),
    ensures
        channel_new_done(old(ctx), old(gc), final(ctx), final(gc), next),
{
    let result_ptr = ctx.frame_word(&gc.allocator, 4);
    let capacity = ctx.frame_word(&gc.allocator, 5);
    let ptr = allocate_channel(gc, capacity as usize);
    gc.allocator.write_word(result_ptr, ptr);
    ctx.leave(&gc.allocator)
}

/// The frame of `ctx` and the state `gc` are such that `gox5_channel_close` can run.
pub open spec fn channel_close_ready(ctx: &LightWeightThreadContext, gc: &GlobalContext) -> bool {
    &&& gc.wf()
    &&& ctx.frame_accessible(&gc.allocator, 5)
    &&& gc.has_channel(ObjectPtr(frame_word(gc.allocator@, ctx.stack_pointer, 4)))
    &&& !gc.channel_views()[gc.channel_index(
        ObjectPtr(frame_word(gc.allocator@, ctx.stack_pointer, 4)),
        )].closed
}

/// `gox5_channel_close` ran from the frame of `ctx` and left `ctx_after` and `next`.
pub open spec fn channel_close_done(
    ctx: &LightWeightThreadContext,
    gc: &GlobalContext,
    ctx_after: &LightWeightThreadContext,
    gc_after: &GlobalContext,
    next: FunctionObject,
) -> bool {
    &&& gc_after.wf()
    &&& gc_after.allocator == gc.allocator
    &&& gc_after.channel_views() == gc.channel_views().update(
        gc.channel_index(
            ObjectPtr(frame_word(gc.allocator@, ctx.stack_pointer, 4)),
        ),
        gc.channel_views()[gc.channel_index(
            ObjectPtr(frame_word(gc.allocator@, ctx.stack_pointer, 4)),
        )].close(),
    )
    &&& gc_after.created_light_weight_thread_count == gc.created_light_weight_thread_count
    &&& gc_after.handle_count == gc.handle_count
    &&& gc_after.ready_queue@ == gc.ready_queue@
    &&& gc_after.maps@ == gc.maps@
    &&& *ctx_after == ctx.left(gc_after.allocator@)
    &&& next == ctx.resume_func_in(gc_after.allocator@)
}

/// Closes a channel. The frame holds the address of the channel object. The
/// channel is marked as closed, and the frame is left.
pub fn gox5_channel_close(ctx: &mut LightWeightThreadContext, gc: &mut GlobalContext) -> (next:
    FunctionObject)
    requires
        channel_close_ready(old(ctx), old(gc)),
    ensures
        channel_close_done(old(ctx), old(gc), final(ctx), final(gc), next),
{
    let channel = ctx.frame_word(&gc.allocator, 4);
    assert(gc.channels.len() == gc.channels@.len());
    let index = gc.allocator.read_word(channel) as usize;
    let id = ctx.id();
    gc.channels[index].close(id);
    assert(gc.channel_views() =~= old(gc).channel_views().update(
        index as int,
        old(gc).channel_views()[index as int].close(),
    ));
    ctx.leave(&gc.allocator)
}

/// The store after the flag `available` was written through the pointer
/// `flag_ptr`, unless that pointer is null.
pub open spec fn store_flag(m: Seq<u8>, flag_ptr: u64, available: bool) -> Seq<u8> {
    if flag_ptr != 0 {
        m.update(
            flag_ptr as int,
            if available {
                1u8
            } else {
                0u8
            },
        )
    } else {
        m
    }
}

/// The frame of `ctx` and the state `gc` are such that `gox5_channel_send` can run.
pub open spec fn channel_send_ready(ctx: &LightWeightThreadContext, gc: &GlobalContext) -> bool {
    &&& gc.wf()
    &&& ctx.frame_accessible(&gc.allocator, 7)
    &&& ({
        let m = gc.allocator@;
        let sp = ctx.stack_pointer;
        let type_id = TypeId(frame_word(m, sp, 6));
        &&& gc.has_channel(ObjectPtr(frame_word(m, sp, 4)))
        &&& type_id.readable(&gc.allocator)
        &&& gc.allocator.can_allocate(type_id.size_in(m))
        &&& gc.allocator.accessible(frame_word(m, sp, 5), type_id.size_in(m))
    })
}

/// `gox5_channel_send` ran from the frame of `ctx` and left `ctx_after` and `next`.
pub open spec fn channel_send_done(
    ctx: &LightWeightThreadContext,
    gc: &GlobalContext,
    ctx_after: &LightWeightThreadContext,
    gc_after: &GlobalContext,
    next: FunctionObject,
) -> bool {
    &&& gc_after.wf()
    &&& gc_after.allocator.guards() == gc.allocator.guards()
    &&& gc_after.created_light_weight_thread_count == gc.created_light_weight_thread_count
    &&& gc_after.handle_count == gc.handle_count
    &&& gc_after.ready_queue@ == gc.ready_queue@
    &&& gc_after.maps@ == gc.maps@
    &&& ({
        let m = gc.allocator@;
        let sp = ctx.stack_pointer;
        let size = TypeId(frame_word(m, sp, 6)).size_in(m);
        let copy = m.len() as u64;
        let index = gc.channel_index(ObjectPtr(frame_word(m, sp, 4)));
        let sent = gc.channel_views()[index].send(ctx.id, ObjectPtr(copy));
        &&& gc_after.allocator@ == store_bytes(
            m + zeros(round_up(size as int)),
            copy as int,
            bytes_at(m, frame_word(m, sp, 5) as int, size as int),
        )
        &&& gc_after.channel_views() == gc.channel_views().update(index, sent.0)
        &&& sent.1 ==> *ctx_after == ctx.left(gc_after.allocator@)
            && next == ctx.resume_func_in(gc_after.allocator@)
        &&& !sent.1 ==> *ctx_after == (LightWeightThreadContext {
            control_flags: ctx.control_flags | FLAG_SUSPENDED,
            ..*ctx
        }) && next.0 == RuntimeFunction::ChannelSend.spec_address()
    })
}

/// Sends a value. The frame holds the address of the channel object, the
/// address of the value, and the type id of the value. The value is copied to
/// fresh storage and the copy is sent. If the send is complete the frame is
/// left; if not, the thread is suspended and this function runs again.
pub fn gox5_channel_send(ctx: &mut LightWeightThreadContext, gc: &mut GlobalContext) -> (next:
    FunctionObject)
    requires
        channel_send_ready(old(ctx), old(gc)),
    ensures
        channel_send_done(old(ctx), old(gc), final(ctx), final(gc), next),
{
    let channel = ctx.frame_word(&gc.allocator, 4);
    let data = ctx.frame_word(&gc.allocator, 5);
    let type_id = TypeId(ctx.frame_word(&gc.allocator, 6));
    let data_size = type_id.size(&gc.allocator);
    assert(gc.channels.len() == gc.channels@.len());
    let index = gc.allocator.read_word(channel) as usize;
    let copy = gc.allocator.allocate(data_size, 0);
    proof {
        crate::memory::lemma_bytes_at_append(
            old(gc).allocator@,
            zeros(round_up(data_size as int)),
            data as int,
            data_size as int,
        );
    }
    gc.allocator.copy(copy, data, data_size);
    let id = ctx.id();
    let sent = gc.channels[index].send(id, ObjectPtr(copy));
    assert(gc.channel_views() =~= old(gc).channel_views().update(
        index as int,
        old(gc).channel_views()[index as int].send(id, ObjectPtr(copy)).0,
    ));
    if sent.is_some() {
        ctx.leave(&gc.allocator)
    } else {
        ctx.suspend();
        RuntimeFunction::ChannelSend.function_object()
    }
}

/// The frame of `ctx` and the state `gc` are such that `gox5_channel_receive` can run.
pub open spec fn channel_receive_ready(ctx: &LightWeightThreadContext, gc: &GlobalContext) -> bool {
    &&& gc.wf()
    &&& ctx.frame_accessible(&gc.allocator, 8)
    &&& gc.has_channel(ObjectPtr(frame_word(gc.allocator@, ctx.stack_pointer, 4)))
    &&& ({
        let m = gc.allocator@;
        let sp = ctx.stack_pointer;
        let index = gc.channel_index(ObjectPtr(frame_word(m, sp, 4)));
        let status = gc.channel_views()[index].receive().1;
        let flag_ptr = frame_word(m, sp, 7);
        let type_id = TypeId(frame_word(m, sp, 5));
        let size = type_id.size_in(m);
        status !is Blocked ==> {
            &&& flag_ptr != 0 ==> gc.allocator.accessible(flag_ptr, 1)
            &&& type_id.readable(&gc.allocator)
            &&& gc.allocator.accessible(frame_word(m, sp, 6), size)
            &&& status matches ReceiveStatus::Value(data) ==> gc.allocator.accessible(
                data.0,
                size,
            )
        }
    })
}

/// `gox5_channel_receive` ran from the frame of `ctx` and left `ctx_after` and `next`.
pub open spec fn channel_receive_done(
    ctx: &LightWeightThreadContext,
    gc: &GlobalContext,
    ctx_after: &LightWeightThreadContext,
    gc_after: &GlobalContext,
    next: FunctionObject,
) -> bool {
    &&& gc_after.wf()
    &&& gc_after.allocator.guards() == gc.allocator.guards()
    &&& gc_after.created_light_weight_thread_count == gc.created_light_weight_thread_count
    &&& gc_after.handle_count == gc.handle_count
    &&& gc_after.ready_queue@ == gc.ready_queue@
    &&& gc_after.maps@ == gc.maps@
    &&& ({
        let m = gc.allocator@;
        let sp = ctx.stack_pointer;
        let index = gc.channel_index(ObjectPtr(frame_word(m, sp, 4)));
        let received = gc.channel_views()[index].receive();
        let m1 = store_flag(m, frame_word(m, sp, 7), received.1 is Value);
        let size = TypeId(frame_word(m, sp, 5)).size_in(m);
        let target = frame_word(m, sp, 6);
        &&& gc_after.channel_views() == gc.channel_views().update(index, received.0)
        &&& match received.1 {
            ReceiveStatus::Blocked => {
                &&& gc_after.allocator@ == m
                &&& *ctx_after == (LightWeightThreadContext {
                    control_flags: ctx.control_flags | FLAG_SUSPENDED,
                    ..*ctx
                })
                &&& next.0 == RuntimeFunction::ChannelReceive.spec_address()
            },
            ReceiveStatus::Value(data) => {
                &&& gc_after.allocator@ == store_bytes(
                    m1,
                    target as int,
                    bytes_at(m1, data.0 as int, size as int),
                )
                &&& *ctx_after == ctx.left(gc_after.allocator@)
                &&& next == ctx.resume_func_in(gc_after.allocator@)
            },
            ReceiveStatus::Closed => {
                &&& gc_after.allocator@ == store_bytes(m1, target as int, zeros(size as int))
                &&& *ctx_after == ctx.left(gc_after.allocator@)
                &&& next == ctx.resume_func_in(gc_after.allocator@)
            },
        }
    })
}

/// Receives a value. The frame holds the address of the channel object, the
/// type id of the value, the address for the value, and the address for a
/// flag, which may be null. If the channel has nothing and is open, the thread
/// is suspended and this function runs again. Otherwise the flag, if asked
/// for, says whether a value was received; the value is copied to its address,
/// or that address is zeroed if the channel is closed; and the frame is left.
pub fn gox5_channel_receive(ctx: &mut LightWeightThreadContext, gc: &mut GlobalContext) -> (next:
    FunctionObject)
    requires
        channel_receive_ready(old(ctx), old(gc)),
    ensures
        channel_receive_done(old(ctx), old(gc), final(ctx), final(gc), next),
{
    let channel = ctx.frame_word(&gc.allocator, 4);
    assert(gc.channels.len() == gc.channels@.len());
    let index = gc.allocator.read_word(channel) as usize;
    let id = ctx.id();
    let status = gc.channels[index].receive(id);
    assert(gc.channel_views() =~= old(gc).channel_views().update(
        index as int,
        old(gc).channel_views()[index as int].receive().0,
    ));
    let data = match status {
        ReceiveStatus::Value(data) => Some(data),
        ReceiveStatus::Blocked => {
            ctx.suspend();
            return RuntimeFunction::ChannelReceive.function_object();
        },
        ReceiveStatus::Closed => None,
    };
    let available = ctx.frame_word(&gc.allocator, 7);
    let type_id = TypeId(ctx.frame_word(&gc.allocator, 5));
    let data_size = type_id.size(&gc.allocator);
    let target = ctx.frame_word(&gc.allocator, 6);
    if available != 0 {
        gc.allocator.write_byte(
            available,
            if data.is_some() {
                1
            } else {
                0
            },
        );
    }
    if let Some(data) = data {
        gc.allocator.copy(target, data.0, data_size);
    } else {
        gc.allocator.fill_zero(target, data_size);
    }
    ctx.leave(&gc.allocator)
}

/// One choice of a select: a channel, the type of its values, the address of
/// a value to send, or null, and the address for a value to receive, or null.
#[derive(Clone, Copy, Debug, PartialEq, Eq, Structural)]
pub struct SelectEntry {
    pub channel: ObjectPtr,
    pub type_id: TypeId,
    pub send_data: ObjectPtr,
    pub receive_data: ObjectPtr,
}

/// How a choice of a select went through.
#[derive(Clone, Copy, Debug, PartialEq, Eq, Structural)]
pub enum Selected {
    Send,
    Receive(ObjectPtr),
}

/// What a select works on: the store and the channels.
pub struct SelectState {
    pub m: Seq<u8>,
    pub views: Seq<ChannelView>,
}

/// The choices that the select frame at `sp` holds.
pub open spec fn select_entries(m: Seq<u8>, sp: u64) -> Seq<SelectEntry> {
    Seq::new(
        frame_word(m, sp, 7) as nat,
        |i: int|
            SelectEntry {
                channel: ObjectPtr(frame_word(m, sp, 8 + 4 * i)),
                type_id: TypeId(frame_word(m, sp, 9 + 4 * i)),
                send_data: ObjectPtr(frame_word(m, sp, 10 + 4 * i)),
                receive_data: ObjectPtr(frame_word(m, sp, 11 + 4 * i)),
            },
    )
}

/// One choice is tried on behalf of the thread `id`. If it asks to send, the
/// value is copied to fresh storage and the copy is sent. If that send is not
/// complete and the choice asks to receive, a receive is made. The choice goes
/// through if the send is complete or the receive finds a value.
pub open spec fn select_try(s: SelectState, e: SelectEntry, id: usize) -> (
    SelectState,
    Option<Selected>,
) {
    let index = word_at(s.m, e.channel.0 as int) as int;
    let size = e.type_id.size_in(s.m);
    let copy = s.m.len() as u64;
    let sent = s.views[index].send(id, ObjectPtr(copy));
    let s1 = if e.send_data.0 != 0 {
        SelectState {
            m: store_bytes(
                s.m + zeros(round_up(size as int)),
                copy as int,
                bytes_at(s.m, e.send_data.0 as int, size as int),
            ),
            views: s.views.update(index, sent.0),
        }
    } else {
        s
    };
    let received = s1.views[index].receive();
    if e.send_data.0 != 0 && sent.1 {
        (s1, Some(Selected::Send))
    } else if e.receive_data.0 != 0 {
        (
            SelectState { m: s1.m, views: s1.views.update(index, received.0) },
            match received.1 {
                ReceiveStatus::Value(data) => Some(Selected::Receive(data)),
                _ => None,
            },
        )
    } else {
        (s1, None)
    }
}

/// A choice can be tried: its channel object names a channel, and if it asks
/// to send, the type can be read, the value can be read, and there is room
/// for the copy.
pub open spec fn select_try_ready(s: SelectState, guards: Seq<u64>, e: SelectEntry) -> bool {
    &&& range_accessible(s.m.len(), guards, e.channel.0, 8)
    &&& word_at(s.m, e.channel.0 as int) < s.views.len()
    &&& e.send_data.0 != 0 ==> {
        &&& e.type_id.0 + TYPE_INFO_BYTES <= u64::MAX
        &&& range_accessible(s.m.len(), guards, e.type_id.0, TYPE_INFO_BYTES)
        &&& s.m.len() + round_up(e.type_id.size_in(s.m) as int) < ADDRESS_LIMIT
        &&& range_accessible(s.m.len(), guards, e.send_data.0, e.type_id.size_in(s.m))
    }
}

/// The choices from position `i` on are tried in order until one goes through.
/// Yields the state after the last try, and the position and the kind of the
/// choice that went through, if any.
pub open spec fn select_first_pass(
    s: SelectState,
    entries: Seq<SelectEntry>,
    id: usize,
    i: int,
) -> (
    SelectState,
    Option<(int, Selected)>,
)
    decreases entries.len() - i,
{
    if i < 0 || i >= entries.len() {
        (s, None)
    } else {
        let tried = select_try(s, entries[i], id);
        match tried.1 {
            Some(how) => (tried.0, Some((i, how))),
            None => select_first_pass(tried.0, entries, id, i + 1),
        }
    }
}

/// Every choice that the first pass tries from position `i` on can be tried.
pub open spec fn select_first_pass_ready(
    s: SelectState,
    guards: Seq<u64>,
    entries: Seq<SelectEntry>,
    id: usize,
    i: int,
) -> bool
    decreases entries.len() - i,
{
    if i < 0 || i >= entries.len() {
        true
    } else {
        &&& select_try_ready(s, guards, entries[i])
        &&& select_try(s, entries[i], id).1 is None ==> select_first_pass_ready(
            select_try(s, entries[i], id).0,
            guards,
            entries,
            id,
            i + 1,
        )
    }
}

/// A choice that asks to receive is checked for a closed channel by a
/// receive. Yields the state after it and whether the receive found the
/// channel closed.
pub open spec fn select_check_closed(s: SelectState, e: SelectEntry) -> (SelectState, bool) {
    let index = word_at(s.m, e.channel.0 as int) as int;
    let received = s.views[index].receive();
    if e.receive_data.0 != 0 {
        (SelectState { m: s.m, views: s.views.update(index, received.0) }, received.1 is Closed)
    } else {
        (s, false)
    }
}

/// The choices from position `i` on are checked in order until one is found
/// whose channel is closed. Yields the state after the last check and the
/// position of that choice, if any.
pub open spec fn select_second_pass(s: SelectState, entries: Seq<SelectEntry>, i: int) -> (
    SelectState,
    Option<int>,
)
    decreases entries.len() - i,
{
    if i < 0 || i >= entries.len() {
        (s, None)
    } else {
        let checked = select_check_closed(s, entries[i]);
        if checked.1 {
            (checked.0, Some(i))
        } else {
            select_second_pass(checked.0, entries, i + 1)
        }
    }
}

/// Every choice that the second pass checks from position `i` on names a channel.
pub open spec fn select_second_pass_ready(
    s: SelectState,
    guards: Seq<u64>,
    entries: Seq<SelectEntry>,
    i: int,
) -> bool
    decreases entries.len() - i,
{
    if i < 0 || i >= entries.len() {
        true
    } else {
        &&& range_accessible(s.m.len(), guards, entries[i].channel.0, 8)
        &&& word_at(s.m, entries[i].channel.0 as int) < s.views.len()
        &&& !select_check_closed(s, entries[i]).1 ==> select_second_pass_ready(
            select_check_closed(s, entries[i]).0,
            guards,
            entries,
            i + 1,
        )
    }
}

/// The store after a select recorded its outcome: the selected position
/// through `index_ptr` and the flag through `flag_ptr`.
pub open spec fn select_recorded(
    m: Seq<u8>,
    index_ptr: u64,
    flag_ptr: u64,
    index: u64,
    available: bool,
) -> Seq<u8> {
    store_word(m, index_ptr as int, index).update(
        flag_ptr as int,
        if available {
            1u8
        } else {
            0u8
        },
    )
}

/// The position that a select records when no choice went through and it
/// was asked not to block: minus one.
pub const SELECT_NONE: u64 = 0xffff_ffff_ffff_ffff;

/// The store and the channels after the select of the frame at `sp` ran to
/// its end, and whether it completed. A select that did not complete has to
/// run again.
pub open spec fn select_outcome(s: SelectState, sp: u64, id: usize) -> (SelectState, bool) {
    let entries = select_entries(s.m, sp);
    let index_ptr = frame_word(s.m, sp, 4);
    let flag_ptr = frame_word(s.m, sp, 5);
    let need_block = frame_word(s.m, sp, 6);
    let first = select_first_pass(s, entries, id, 0);
    let second = select_second_pass(first.0, entries, 0);
    match first.1 {
        Some((i, Selected::Send)) => (
            SelectState {
                m: select_recorded(first.0.m, index_ptr, flag_ptr, i as u64, false),
                views: first.0.views,
            },
            true,
        ),
        Some((i, Selected::Receive(data))) => {
            let m1 = select_recorded(first.0.m, index_ptr, flag_ptr, i as u64, true);
            (
                SelectState {
                    m: store_bytes(
                        m1,
                        entries[i].receive_data.0 as int,
                        bytes_at(m1, data.0 as int, entries[i].type_id.size_in(m1) as int),
                    ),
                    views: first.0.views,
                },
                true,
            )
        },
        None => if need_block == 0 {
            (
                SelectState {
                    m: select_recorded(first.0.m, index_ptr, flag_ptr, SELECT_NONE, false),
                    views: first.0.views,
                },
                true,
            )
        } else {
            match second.1 {
                Some(i) => {
                    let m1 = select_recorded(second.0.m, index_ptr, flag_ptr, i as u64, false);
                    (
                        SelectState {
                            m: store_bytes(
                                m1,
                                entries[i].receive_data.0 as int,
                                zeros(entries[i].type_id.size_in(m1) as int),
                            ),
                            views: second.0.views,
                        },
                        true,
                    )
                },
                None => (second.0, false),
            }
        },
    }
}

/// The select of the frame at `sp` can run: every choice that it tries can be
/// tried, and if it completes, its outcome can be recorded and the value that
/// it received, or the zeroes that stand for a closed channel, can be written.
pub open spec fn select_ready(s: SelectState, guards: Seq<u64>, sp: u64, id: usize) -> bool {
    let entries = select_entries(s.m, sp);
    let index_ptr = frame_word(s.m, sp, 4);
    let flag_ptr = frame_word(s.m, sp, 5);
    let need_block = frame_word(s.m, sp, 6);
    let first = select_first_pass(s, entries, id, 0);
    let second = select_second_pass(first.0, entries, 0);
    let end = if first.1 is None && need_block != 0 {
        second.0
    } else {
        first.0
    };
    let completes = first.1 is Some || need_block == 0 || second.1 is Some;
    let chosen: int = match first.1 {
        Some((i, _)) => i,
        None => match second.1 {
            Some(i) => i,
            None => 0,
        },
    };
    &&& select_first_pass_ready(s, guards, entries, id, 0)
    &&& first.1 is None && need_block != 0 ==> select_second_pass_ready(
        first.0,
        guards,
        entries,
        0,
    )
    &&& completes ==> {
        &&& range_accessible(end.m.len(), guards, index_ptr, 8)
        &&& range_accessible(end.m.len(), guards, flag_ptr, 1)
    }
    &&& completes && !(first.1 is None && need_block == 0) && !(first.1 matches Some(
        (_, Selected::Send),
    )) ==> {
        &&& entries[chosen].type_id.0 + TYPE_INFO_BYTES <= u64::MAX
        &&& range_accessible(end.m.len(), guards, entries[chosen].type_id.0, TYPE_INFO_BYTES)
        &&& range_accessible(
            end.m.len(),
            guards,
            entries[chosen].receive_data.0,
            entries[chosen].type_id.size_in(
                select_recorded(end.m, index_ptr, flag_ptr, chosen as u64, first.1 is Some),
            ),
        )
        &&& first.1 matches Some((_, Selected::Receive(data))) ==> range_accessible(
            end.m.len(),
            guards,
            data.0,
            entries[chosen].type_id.size_in(
                select_recorded(end.m, index_ptr, flag_ptr, chosen as u64, true),
            ),
        )
    }
}

impl GlobalContext {
    /// The store and the channels, on which a select works.
    pub open spec fn select_state(&self) -> SelectState {
        SelectState { m: self.allocator@, views: self.channel_views() }
    }
}

/// Reads the choices of the select frame of `ctx`.
pub fn read_select_entries(ctx: &LightWeightThreadContext, mem: &Memory) -> (entries: Vec<
    SelectEntry,
>)
    requires
        ctx.frame_accessible(mem, 8),
        ctx.frame_accessible(mem, 8 + 4 * frame_word(mem@, ctx.stack_pointer, 7)),
    ensures
        entries@ == select_entries(mem@, ctx.stack_pointer),
{
    let count = ctx.frame_word(mem, 7);
    let mut entries: Vec<SelectEntry> = Vec::new();
    let mut i: u64 = 0;
    while i < count
        invariant
            i <= count,
            count == frame_word(mem@, ctx.stack_pointer, 7),
            ctx.frame_accessible(mem, 8 + 4 * count),
            entries@ == select_entries(mem@, ctx.stack_pointer).subrange(0, i as int),
        decreases count - i,
    {
        let entry = SelectEntry {
            channel: ObjectPtr(ctx.frame_word(mem, 8 + 4 * i)),
            type_id: TypeId(ctx.frame_word(mem, 9 + 4 * i)),
            send_data: ObjectPtr(ctx.frame_word(mem, 10 + 4 * i)),
            receive_data: ObjectPtr(ctx.frame_word(mem, 11 + 4 * i)),
        };
        entries.push(entry);
        i = i + 1;
    }
    entries
}

/// Tries one choice of a select on behalf of the thread `id`.
pub fn try_select_entry(gc: &mut GlobalContext, entry: SelectEntry, id: usize) -> (how: Option<
    Selected,
>)
    requires
        old(gc).wf(),
        select_try_ready(old(gc).select_state(), old(gc).allocator.guards(), entry),
    ensures
        final(gc).wf(),
        final(gc).allocator.guards() == old(gc).allocator.guards(),
        final(gc).created_light_weight_thread_count == old(gc).created_light_weight_thread_count,
        final(gc).handle_count == old(gc).handle_count,
        final(gc).ready_queue@ == old(gc).ready_queue@,
        final(gc).maps@ == old(gc).maps@,
        final(gc).select_state() == select_try(old(gc).select_state(), entry, id).0,
        how == select_try(old(gc).select_state(), entry, id).1,
{
    assert(gc.channels.len() == gc.channels@.len());
    let index = gc.allocator.read_word(entry.channel.0) as usize;
    if !entry.send_data.is_null() {
        let data_size = entry.type_id.size(&gc.allocator);
        let copy = gc.allocator.allocate(data_size, 0);
        proof {
            crate::memory::lemma_bytes_at_append(
                old(gc).allocator@,
                zeros(round_up(data_size as int)),
                entry.send_data.0 as int,
                data_size as int,
            );
        }
        gc.allocator.copy(copy, entry.send_data.0, data_size);
        let sent = gc.channels[index].send(id, ObjectPtr(copy));
        assert(gc.channel_views() =~= old(gc).channel_views().update(
            index as int,
            old(gc).channel_views()[index as int].send(id, ObjectPtr(copy)).0,
        ));
        if sent.is_some() {
            return Some(Selected::Send);
        }
    }
    if !entry.receive_data.is_null() {
        let ghost before = gc.channel_views();
        let status = gc.channels[index].receive(id);
        assert(gc.channel_views() =~= before.update(
            index as int,
            before[index as int].receive().0,
        ));
        match status {
            ReceiveStatus::Value(data) => {
                return Some(Selected::Receive(data));
            },
            ReceiveStatus::Blocked => {},
            ReceiveStatus::Closed => {},
        }
    }
    None
}

/// Checks one choice of a select for a closed channel.
pub fn check_closed_entry(gc: &mut GlobalContext, entry: SelectEntry, id: usize) -> (closed: bool)
    requires
        old(gc).wf(),
        old(gc).has_channel(entry.channel),
    ensures
        final(gc).wf(),
        final(gc).allocator == old(gc).allocator,
        final(gc).created_light_weight_thread_count == old(gc).created_light_weight_thread_count,
        final(gc).handle_count == old(gc).handle_count,
        final(gc).ready_queue@ == old(gc).ready_queue@,
        final(gc).maps@ == old(gc).maps@,
        final(gc).select_state() == select_check_closed(old(gc).select_state(), entry).0,
        closed == select_check_closed(old(gc).select_state(), entry).1,
{
    if entry.receive_data.is_null() {
        return false;
    }
    assert(gc.channels.len() == gc.channels@.len());
    let index = gc.allocator.read_word(entry.channel.0) as usize;
    let status = gc.channels[index].receive(id);
    assert(gc.channel_views() =~= old(gc).channel_views().update(
        index as int,
        old(gc).channel_views()[index as int].receive().0,
    ));
    match status {
        ReceiveStatus::Value(_) => false,
        ReceiveStatus::Blocked => false,
        ReceiveStatus::Closed => true,
    }
}

/// Records the outcome of a select: the selected position through
/// `index_ptr` and the flag through `flag_ptr`.
pub fn record_selection(
    mem: &mut Memory,
    index_ptr: u64,
    flag_ptr: u64,
    index: u64,
    available: bool,
)
    requires
        old(mem).accessible(index_ptr, 8),
        old(mem).accessible(flag_ptr, 1),
    ensures
        final(mem)@ == select_recorded(old(mem)@, index_ptr, flag_ptr, index, available),
        final(mem)@.len() == old(mem)@.len(),
        final(mem).guards() == old(mem).guards(),
{
    mem.write_word(index_ptr, index);
    mem.write_byte(
        flag_ptr,
        if available {
            1
        } else {
            0
        },
    );
}

/// The frame of `ctx` and the state `gc` are such that `gox5_channel_select` can run.
pub open spec fn channel_select_ready(ctx: &LightWeightThreadContext, gc: &GlobalContext) -> bool {
    &&& gc.wf()
    &&& ctx.frame_accessible(&gc.allocator, 8)
    &&& ctx.frame_accessible(
            &gc.allocator,
            8 + 4 * frame_word(gc.allocator@, ctx.stack_pointer, 7),
    )
    &&& select_ready(
            gc.select_state(),
            gc.allocator.guards(),
            ctx.stack_pointer,
            ctx.id,
    )
}

/// `gox5_channel_select` ran from the frame of `ctx` and left `ctx_after` and `next`.
pub open spec fn channel_select_done(
    ctx: &LightWeightThreadContext,
    gc: &GlobalContext,
    ctx_after: &LightWeightThreadContext,
    gc_after: &GlobalContext,
    next: FunctionObject,
) -> bool {
    &&& gc_after.wf()
    &&& gc_after.allocator.guards() == gc.allocator.guards()
    &&& gc_after.created_light_weight_thread_count == gc.created_light_weight_thread_count
    &&& gc_after.handle_count == gc.handle_count
    &&& gc_after.ready_queue@ == gc.ready_queue@
    &&& gc_after.maps@ == gc.maps@
    &&& ({
                let outcome = select_outcome(
                    gc.select_state(),
                    ctx.stack_pointer,
                    ctx.id,
                );
                &&& gc_after.select_state() == outcome.0
                &&& outcome.1 ==> *ctx_after == ctx.left(gc_after.allocator@)
                    && next == ctx.resume_func_in(gc_after.allocator@)
                &&& !outcome.1 ==> *ctx_after == (LightWeightThreadContext {
                    control_flags: ctx.control_flags | FLAG_SUSPENDED,
                    ..*ctx
                }) && next.0 == RuntimeFunction::ChannelSelect.spec_address()
            })
}

/// Tells whether one choice of a select can be tried.
pub fn check_select_try(gc: &GlobalContext, entry: SelectEntry) -> (ok: bool)
    requires
        gc.wf(),
    ensures
        ok == select_try_ready(gc.select_state(), gc.allocator.guards(), entry),
{
    if gc.find_channel(entry.channel).is_none() {
        return false;
    }
    if entry.send_data.is_null() {
        return true;
    }
    if !entry.type_id.is_readable(&gc.allocator) {
        return false;
    }
    let size = entry.type_id.size(&gc.allocator);
    gc.allocator.has_room(size) && gc.allocator.is_accessible(entry.send_data.0, size)
}

/// Chooses among channel operations, as `gox5_channel_select` does, and tells
/// on the way whether it can: nothing is returned, and the state is of no
/// use any more, if the frame or one of the choices that are tried cannot be
/// read or written as it has to be.
pub fn channel_select_checked(ctx: &mut LightWeightThreadContext, gc: &mut GlobalContext) -> (next:
    Option<FunctionObject>)
    ensures
        next is Some == channel_select_ready(old(ctx), old(gc)),
        next matches Some(next) ==> channel_select_done(
            old(ctx),
            old(gc),
            final(ctx),
            final(gc),
            next,
        ),
{
    if !gc.check_wf() || !ctx.is_frame_accessible(&gc.allocator, 8) {
        return None;
    }
    let count = ctx.frame_word(&gc.allocator, 7);
    if count > u64::MAX / 32 - 2 || !ctx.is_frame_accessible(&gc.allocator, 8 + 4 * count) {
        return None;
    }
    let index_ptr = ctx.frame_word(&gc.allocator, 4);
    let flag_ptr = ctx.frame_word(&gc.allocator, 5);
    let need_block = ctx.frame_word(&gc.allocator, 6);
    let entries = read_select_entries(ctx, &gc.allocator);
    let id = ctx.id();
    let ghost s0 = gc.select_state();
    let ghost guards = gc.allocator.guards();
    let n = entries.len();
    let mut i: usize = 0;
    while i < n
        invariant
            i <= n,
            n == entries@.len(),
            gc.wf(),
            gc.allocator.guards() == guards,
            gc.created_light_weight_thread_count == old(gc).created_light_weight_thread_count,
            gc.handle_count == old(gc).handle_count,
            gc.ready_queue@ == old(gc).ready_queue@,
            gc.maps@ == old(gc).maps@,
            *ctx == *old(ctx),
            id == ctx.id,
            gc.allocator@.len() >= s0.m.len(),
            select_first_pass(s0, entries@, id, 0) == select_first_pass(
                gc.select_state(),
                entries@,
                id,
                i as int,
            ),
            select_first_pass_ready(s0, guards, entries@, id, 0) == select_first_pass_ready(
                gc.select_state(),
                guards,
                entries@,
                id,
                i as int,
            ),
            index_ptr == frame_word(s0.m, ctx.stack_pointer, 4),
            flag_ptr == frame_word(s0.m, ctx.stack_pointer, 5),
            need_block == frame_word(s0.m, ctx.stack_pointer, 6),
            entries@ == select_entries(s0.m, ctx.stack_pointer),
            s0 == old(gc).select_state(),
            guards == old(gc).allocator.guards(),
            old(gc).wf(),
            old(ctx).frame_accessible(&old(gc).allocator, 8),
            old(ctx).frame_accessible(
                &old(gc).allocator,
                8 + 4 * frame_word(s0.m, ctx.stack_pointer, 7),
            ),
        decreases n - i,
    {
        let entry = entries[i];
        if !check_select_try(gc, entry) {
            return None;
        }
        let how = try_select_entry(gc, entry, id);
        match how {
            Some(Selected::Send) => {
                if !gc.allocator.is_accessible(index_ptr, 8) || !gc.allocator.is_accessible(
                    flag_ptr,
                    1,
                ) {
                    return None;
                }
                record_selection(&mut gc.allocator, index_ptr, flag_ptr, i as u64, false);
                return Some(ctx.leave(&gc.allocator));
            },
            Some(Selected::Receive(data)) => {
                if !gc.allocator.is_accessible(index_ptr, 8) || !gc.allocator.is_accessible(
                    flag_ptr,
                    1,
                ) || !entry.type_id.is_readable(&gc.allocator) {
                    return None;
                }
                record_selection(&mut gc.allocator, index_ptr, flag_ptr, i as u64, true);
                let data_size = entry.type_id.size(&gc.allocator);
                if !gc.allocator.is_accessible(entry.receive_data.0, data_size)
                    || !gc.allocator.is_accessible(data.0, data_size) {
                    return None;
                }
                gc.allocator.copy(entry.receive_data.0, data.0, data_size);
                return Some(ctx.leave(&gc.allocator));
            },
            None => {},
        }
        i = i + 1;
    }
    let ghost s1 = gc.select_state();
    if need_block == 0 {
        if !gc.allocator.is_accessible(index_ptr, 8) || !gc.allocator.is_accessible(flag_ptr, 1) {
            return None;
        }
        record_selection(&mut gc.allocator, index_ptr, flag_ptr, SELECT_NONE, false);
        return Some(ctx.leave(&gc.allocator));
    }
    let mut j: usize = 0;
    while j < n
        invariant
            j <= n,
            n == entries@.len(),
            gc.wf(),
            gc.allocator.guards() == guards,
            gc.created_light_weight_thread_count == old(gc).created_light_weight_thread_count,
            gc.handle_count == old(gc).handle_count,
            gc.ready_queue@ == old(gc).ready_queue@,
            gc.maps@ == old(gc).maps@,
            *ctx == *old(ctx),
            id == ctx.id,
            gc.allocator@ == s1.m,
            s1.m.len() >= s0.m.len(),
            select_first_pass(s0, entries@, id, 0) == (s1, None::<(int, Selected)>),
            select_first_pass_ready(s0, guards, entries@, id, 0),
            select_second_pass(s1, entries@, 0) == select_second_pass(
                gc.select_state(),
                entries@,
                j as int,
            ),
            select_second_pass_ready(s1, guards, entries@, 0) == select_second_pass_ready(
                gc.select_state(),
                guards,
                entries@,
                j as int,
            ),
            index_ptr == frame_word(s0.m, ctx.stack_pointer, 4),
            flag_ptr == frame_word(s0.m, ctx.stack_pointer, 5),
            need_block == frame_word(s0.m, ctx.stack_pointer, 6),
            need_block != 0,
            entries@ == select_entries(s0.m, ctx.stack_pointer),
            s0 == old(gc).select_state(),
            guards == old(gc).allocator.guards(),
            old(gc).wf(),
            old(ctx).frame_accessible(&old(gc).allocator, 8),
            old(ctx).frame_accessible(
                &old(gc).allocator,
                8 + 4 * frame_word(s0.m, ctx.stack_pointer, 7),
            ),
        decreases n - j,
    {
        let entry = entries[j];
        if gc.find_channel(entry.channel).is_none() {
            return None;
        }
        let closed = check_closed_entry(gc, entry, id);
        if closed {
            if !gc.allocator.is_accessible(index_ptr, 8) || !gc.allocator.is_accessible(
                flag_ptr,
                1,
            ) || !entry.type_id.is_readable(&gc.allocator) {
                return None;
            }
            record_selection(&mut gc.allocator, index_ptr, flag_ptr, j as u64, false);
            let data_size = entry.type_id.size(&gc.allocator);
            if !gc.allocator.is_accessible(entry.receive_data.0, data_size) {
                return None;
            }
            gc.allocator.fill_zero(entry.receive_data.0, data_size);
            return Some(ctx.leave(&gc.allocator));
        }
        j = j + 1;
    }
    ctx.suspend();
    Some(RuntimeFunction::ChannelSelect.function_object())
}

/// Chooses among channel operations. The frame holds the addresses for the
/// selected position and for a flag, whether to block, and the choices. The
/// choices are tried in order, and the first that goes through is recorded:
/// its position, and whether a value was received, which is then copied to
/// its address. If none goes through and the select was asked not to block,
/// minus one is recorded. Otherwise the choices that receive are checked for a
/// closed channel, and the first such choice is recorded with its address
/// zeroed. With an outcome recorded the frame is left; without one the thread
/// is suspended and this function runs again.
pub fn gox5_channel_select(ctx: &mut LightWeightThreadContext, gc: &mut GlobalContext) -> (next:
    FunctionObject)
    requires
        channel_select_ready(old(ctx), old(gc)),
    ensures
        channel_select_done(old(ctx), old(gc), final(ctx), final(gc), next),
{
    match channel_select_checked(ctx, gc) {
        Some(next) => next,
        None => {
            assert(false);
            FunctionObject::new_null()
        },
    }
}

/// Tells whether `gox5_channel_new` can run from the frame of `ctx` in the
/// state `gc`.
pub fn check_channel_new(ctx: &LightWeightThreadContext, gc: &GlobalContext) -> (ok: bool)
    ensures
        ok == channel_new_ready(ctx, gc),
{
    if !gc.check_wf() || !ctx.is_frame_accessible(&gc.allocator, 6) {
        return false;
    }
    let result_ptr = ctx.frame_word(&gc.allocator, 4);
    let capacity = ctx.frame_word(&gc.allocator, 5);
    capacity <= usize::MAX as u64 && gc.allocator.has_room(CHANNEL_OBJECT_SIZE)
        && gc.allocator.is_accessible(result_ptr, 8)
}

/// Tells whether `gox5_channel_close` can run from the frame of `ctx` in the
/// state `gc`.
pub fn check_channel_close(ctx: &LightWeightThreadContext, gc: &GlobalContext) -> (ok: bool)
    ensures
        ok == channel_close_ready(ctx, gc),
{
    if !gc.check_wf() || !ctx.is_frame_accessible(&gc.allocator, 5) {
        return false;
    }
    let channel = ObjectPtr(ctx.frame_word(&gc.allocator, 4));
    match gc.find_channel(channel) {
        Some(index) => {
            !gc.channels[index].is_closed()
        },
        None => false,
    }
}

/// Tells whether `gox5_channel_send` can run from the frame of `ctx` in the
/// state `gc`.
pub fn check_channel_send(ctx: &LightWeightThreadContext, gc: &GlobalContext) -> (ok: bool)
    ensures
        ok == channel_send_ready(ctx, gc),
{
    if !gc.check_wf() || !ctx.is_frame_accessible(&gc.allocator, 7) {
        return false;
    }
    let channel = ObjectPtr(ctx.frame_word(&gc.allocator, 4));
    let data = ctx.frame_word(&gc.allocator, 5);
    let type_id = TypeId(ctx.frame_word(&gc.allocator, 6));
    if gc.find_channel(channel).is_none() || !type_id.is_readable(&gc.allocator) {
        return false;
    }
    let size = type_id.size(&gc.allocator);
    gc.allocator.has_room(size) && gc.allocator.is_accessible(data, size)
}

/// Tells whether `gox5_channel_receive` can run from the frame of `ctx` in
/// the state `gc`.
pub fn check_channel_receive(ctx: &LightWeightThreadContext, gc: &GlobalContext) -> (ok: bool)
    ensures
        ok == channel_receive_ready(ctx, gc),
{
    if !gc.check_wf() || !ctx.is_frame_accessible(&gc.allocator, 8) {
        return false;
    }
    let channel = ObjectPtr(ctx.frame_word(&gc.allocator, 4));
    let type_id = TypeId(ctx.frame_word(&gc.allocator, 5));
    let target = ctx.frame_word(&gc.allocator, 6);
    let flag_ptr = ctx.frame_word(&gc.allocator, 7);
    let index = match gc.find_channel(channel) {
        Some(index) => index,
        None => {
            return false;
        },
    };
    let status = gc.channels[index].status();
    if let ReceiveStatus::Blocked = status {
        return true;
    }
    if flag_ptr != 0 && !gc.allocator.is_accessible(flag_ptr, 1) {
        return false;
    }
    if !type_id.is_readable(&gc.allocator) {
        return false;
    }
    let size = type_id.size(&gc.allocator);
    if !gc.allocator.is_accessible(target, size) {
        return false;
    }
    match status {
        ReceiveStatus::Value(data) => gc.allocator.is_accessible(data.0, size),
        _ => true,
    }
}

} // verus!
