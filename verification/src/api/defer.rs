//! Deferred calls: registration, and execution when a frame returns.
use vstd::prelude::*;
use crate::api::RuntimeFunction;
use crate::defer_stack::{DeferStack, DeferStackEntry, DeferredCall, chain, chain_avoids, chain_ok,
    entry_at, lemma_chain_framed, lemma_word_at_agrees, DEFER_ENTRY_SIZE};
use crate::global_context::GlobalContext;
use crate::light_weight_thread::{LightWeightThreadContext, call_fits, call_result_pointer,
    call_stack_pointer, frame_word, pushed_frame, FRAME_DEFER_STACK, FRAME_HEADER_SIZE};
use crate::memory::{Memory, ObjectAllocator, range_accessible, store_word, store_words, word_at,
    zeros, ADDRESS_LIMIT};
use crate::word_chunk::{WordChunk, chunk_count, chunk_duplicated, chunk_readable, chunk_words};
use crate::FunctionObject;

verus! {

/// The head of the defer stack of the frame that called the frame at `sp`.
pub open spec fn defer_head(m: Seq<u8>, sp: u64) -> u64 {
    word_at(m, frame_word(m, sp, 1) + FRAME_DEFER_STACK)
}

/// The store after the newest deferred call was taken off the defer stack of
/// the frame that called the frame at `sp`: the entry is unlinked, and the
/// entry that it was linked to is the head.
pub open spec fn defer_popped(m: Seq<u8>, sp: u64) -> Seq<u8> {
    store_word(
        store_word(m, defer_head(m, sp) as int, 0),
        frame_word(m, sp, 1) + FRAME_DEFER_STACK,
        word_at(m, defer_head(m, sp) as int),
    )
}

/// The newest deferred call on the defer stack of the frame that called the
/// frame at `sp`, which is the one that is taken off.
pub open spec fn popped_entry(m: Seq<u8>, sp: u64) -> DeferStackEntry {
    entry_at(m, defer_head(m, sp) as int)
}

/// The arguments of the newest deferred call on the defer stack of the frame
/// that called the frame at `sp`.
pub open spec fn popped_args(m: Seq<u8>, sp: u64) -> Seq<u64> {
    chunk_words(m, popped_entry(m, sp).args.0 as int)
}

/// The newest deferred call of the frame that called the frame at `sp` can be
/// taken off and called from a frame of `frame_size` bytes.
pub open spec fn deferred_call_ready(
    m: Seq<u8>,
    guards: Seq<u64>,
    sp: u64,
    frame_size: u64,
) -> bool {
    &&& range_accessible(m.len(), guards, sp, 16)
    &&& frame_word(m, sp, 1) + FRAME_HEADER_SIZE <= u64::MAX
    &&& range_accessible(m.len(), guards, (frame_word(m, sp, 1) + FRAME_DEFER_STACK) as u64, 8)
    &&& defer_head(m, sp) != 0 ==> {
        &&& range_accessible(m.len(), guards, defer_head(m, sp), DEFER_ENTRY_SIZE)
        &&& chunk_readable(m, guards, popped_entry(m, sp).args.0)
        &&& call_fits(
            m.len(),
            guards,
            sp,
            frame_size,
            popped_entry(m, sp).result_size,
            popped_args(m, sp).len() as int,
        )
    }
}

/// The store after the newest deferred call of the frame that called the
/// frame at `sp` was taken off and called from a frame of `frame_size` bytes
/// with `resume_func` as the function to resume.
pub open spec fn deferred_called(
    m: Seq<u8>,
    sp: u64,
    frame_size: u64,
    resume_func: FunctionObject,
) -> Seq<u8> {
    pushed_frame(
        defer_popped(m, sp),
        call_stack_pointer(sp, frame_size, popped_entry(m, sp).result_size),
        resume_func,
        sp,
        call_result_pointer(sp, frame_size, popped_entry(m, sp).result_size),
        popped_args(m, sp),
    )
}

/// Takes the newest deferred call off the defer stack of the calling frame
/// and calls it from the current frame, which takes `frame_size` bytes, with
/// `resume_func` as the function to resume. Returns the deferred function, or
/// nothing, and changes nothing, if the defer stack is empty.
pub fn call_deferred(
    ctx: &mut LightWeightThreadContext,
    mem: &mut Memory,
    frame_size: u64,
    resume_func: FunctionObject,
) -> (func: Option<FunctionObject>)
    requires
        deferred_call_ready(old(mem)@, old(mem).guards(), old(ctx).stack_pointer, frame_size),
    ensures
        final(mem).guards() == old(mem).guards(),
        final(mem)@.len() == old(mem)@.len(),
        defer_head(old(mem)@, old(ctx).stack_pointer) == 0 ==> {
            &&& func is None
            &&& final(mem)@ == old(mem)@
            &&& *final(ctx) == *old(ctx)
        },
        defer_head(old(mem)@, old(ctx).stack_pointer) != 0 ==> {
            &&& func == Some(popped_entry(old(mem)@, old(ctx).stack_pointer).func)
            &&& final(mem)@ == deferred_called(
                old(mem)@,
                old(ctx).stack_pointer,
                frame_size,
                resume_func,
            )
            &&& *final(ctx) == (LightWeightThreadContext {
                stack_pointer: call_stack_pointer(
                    old(ctx).stack_pointer,
                    frame_size,
                    popped_entry(old(mem)@, old(ctx).stack_pointer).result_size,
                ) as u64,
                ..*old(ctx)
            })
        },
{
    let prev = ctx.frame_word(mem, 1);
    let mut stack = DeferStack(mem.read_word(prev + FRAME_DEFER_STACK));
    if stack.0 == 0 {
        return None;
    }
    let entry = DeferStackEntry::load(mem, stack.0);
    let args = entry.args(mem);
    stack.pop(mem);
    mem.write_word(prev + FRAME_DEFER_STACK, stack.0);
    ctx.call(mem, frame_size, entry.result_size(), &args, resume_func);
    Some(entry.func())
}

/// The store after a call of `func` with a result of `result_size` bytes and
/// the arguments in the chunk at `chunk` was deferred by a frame whose caller
/// is at `prev`: the arguments are copied to fresh storage, an entry with the
/// function, the size of its result and the copy is placed behind them, and
/// the entry is put on the defer stack of the frame at `prev`.
pub open spec fn registered(
    m: Seq<u8>,
    prev: u64,
    func: FunctionObject,
    result_size: u64,
    chunk: u64,
) -> Seq<u8> {
    let copied = chunk_duplicated(m, chunk as int);
    let entry = copied.len() as u64;
    let placed = store_words(
        copied + zeros(DEFER_ENTRY_SIZE as int),
        entry as int,
        seq![0u64, func.0, result_size, m.len() as u64],
    );
    let slot = prev + FRAME_DEFER_STACK;
    store_word(store_word(placed, entry as int, word_at(placed, slot)), slot, entry)
}

/// The store after the frame at `sp` registered the deferred call that it holds.
pub open spec fn defer_registered(m: Seq<u8>, sp: u64) -> Seq<u8> {
    registered(
        m,
        frame_word(m, sp, 1),
        FunctionObject(frame_word(m, sp, 4)),
        frame_word(m, sp, 5),
        (sp + 48) as u64,
    )
}

/// A call with the arguments in the chunk `args` can be deferred from the
/// frame of `ctx` in the state `gc`.
pub open spec fn register_ready(
    ctx: &LightWeightThreadContext,
    gc: &GlobalContext,
    args: WordChunk,
) -> bool {
    &&& gc.wf()
    &&& ctx.frame_accessible(&gc.allocator, 2)
    &&& ({
        let m = gc.allocator@;
        let sp = ctx.stack_pointer;
        &&& args.readable(&gc.allocator)
        &&& m.len() + 8 + 8 * chunk_count(m, args.0 as int) + DEFER_ENTRY_SIZE < ADDRESS_LIMIT
        &&& frame_word(m, sp, 1) + FRAME_HEADER_SIZE <= u64::MAX
        &&& gc.allocator.accessible((frame_word(m, sp, 1) + FRAME_DEFER_STACK) as u64, 8)
    })
}

/// `register` ran from the frame of `ctx` and left `ctx_after`, `gc_after` and `next`.
pub open spec fn register_done(
    ctx: &LightWeightThreadContext,
    gc: &GlobalContext,
    ctx_after: &LightWeightThreadContext,
    gc_after: &GlobalContext,
    next: FunctionObject,
    func: FunctionObject,
    result_size: u64,
    args: WordChunk,
) -> bool {
    &&& gc_after.wf()
    &&& gc_after.same_tables(gc)
    &&& gc_after.allocator.guards() == gc.allocator.guards()
    &&& gc_after.allocator@ == registered(
        gc.allocator@,
        frame_word(gc.allocator@, ctx.stack_pointer, 1),
        func,
        result_size,
        args.0,
    )
    &&& *ctx_after == ctx.left(gc_after.allocator@)
    &&& next == ctx.resume_func_in(gc_after.allocator@)
}

/// Defers a call of `func` with a result of `result_size` bytes and the
/// arguments in the chunk `args`. The call is put on the defer stack of the
/// calling frame with a copy of the arguments, and the frame is left.
pub fn register(
    ctx: &mut LightWeightThreadContext,
    gc: &mut GlobalContext,
    func: FunctionObject,
    result_size: u64,
    args: WordChunk,
) -> (next: FunctionObject)
    requires
        register_ready(old(ctx), old(gc), args),
    ensures
        register_done(old(ctx), old(gc), final(ctx), final(gc), next, func, result_size, args),
{
    let prev = ctx.frame_word(&gc.allocator, 1);
    let args = args.duplicate(&mut gc.allocator);
    let entry_ptr = gc.allocator.allocate(DEFER_ENTRY_SIZE, 0);
    let entry = DeferStackEntry::new(func, result_size, args);
    entry.store(&mut gc.allocator, entry_ptr);
    let mut stack = DeferStack(gc.allocator.read_word(prev + FRAME_DEFER_STACK));
    stack.push(&mut gc.allocator, entry_ptr);
    gc.allocator.write_word(prev + FRAME_DEFER_STACK, stack.0);
    ctx.leave(&gc.allocator)
}

/// The frame of `ctx` and the state `gc` are such that `gox5_defer_register` can run.
pub open spec fn defer_register_ready(ctx: &LightWeightThreadContext, gc: &GlobalContext) -> bool {
    &&& ctx.frame_accessible(&gc.allocator, 7)
    &&& register_ready(ctx, gc, WordChunk((ctx.stack_pointer + 48) as u64))
}

/// `gox5_defer_register` ran from the frame of `ctx` and left `ctx_after` and `next`.
pub open spec fn defer_register_done(
    ctx: &LightWeightThreadContext,
    gc: &GlobalContext,
    ctx_after: &LightWeightThreadContext,
    gc_after: &GlobalContext,
    next: FunctionObject,
) -> bool {
    &&& gc_after.wf()
    &&& gc_after.same_tables(gc)
    &&& gc_after.allocator.guards() == gc.allocator.guards()
    &&& gc_after.allocator@ == defer_registered(gc.allocator@, ctx.stack_pointer)
    &&& *ctx_after == ctx.left(gc_after.allocator@)
    &&& next == ctx.resume_func_in(gc_after.allocator@)
}

/// Registers a deferred call. The frame holds the function, the size of its
/// result, and a word chunk of its arguments. The call is put on the defer
/// stack of the calling frame with a copy of the arguments, and the frame is
/// left.
pub fn gox5_defer_register(ctx: &mut LightWeightThreadContext, gc: &mut GlobalContext) -> (next:
    FunctionObject)
    requires
        defer_register_ready(old(ctx), old(gc)),
    ensures
        defer_register_done(old(ctx), old(gc), final(ctx), final(gc), next),
{
    let func = FunctionObject(ctx.frame_word(&gc.allocator, 4));
    let result_size = ctx.frame_word(&gc.allocator, 5);
    let chunk = WordChunk(ctx.stack_pointer + 48);
    register(ctx, gc, func, result_size, chunk)
}

/// The frame of `ctx` and the state `gc` are such that `gox5_defer_execute` can run.
pub open spec fn defer_execute_ready(ctx: &LightWeightThreadContext, gc: &GlobalContext) -> bool {
    &&& deferred_call_ready(
        gc.allocator@,
        gc.allocator.guards(),
        ctx.stack_pointer,
        FRAME_HEADER_SIZE,
    )
}

/// `gox5_defer_execute` ran from the frame of `ctx` and left `ctx_after` and `next`.
pub open spec fn defer_execute_done(
    ctx: &LightWeightThreadContext,
    gc: &GlobalContext,
    ctx_after: &LightWeightThreadContext,
    gc_after: &GlobalContext,
    next: FunctionObject,
) -> bool {
    &&& gc_after.same_tables(gc)
    &&& gc_after.allocator.guards() == gc.allocator.guards()
    &&& gc.wf() ==> gc_after.wf()
    &&& ({
        let m = gc.allocator@;
        let sp = ctx.stack_pointer;
        &&& defer_head(m, sp) == 0 ==> {
            &&& gc_after.allocator@ == m
            &&& *ctx_after == ctx.left(m)
            &&& next == ctx.resume_func_in(m)
        }
        &&& defer_head(m, sp) != 0 ==> {
            &&& gc_after.allocator@ == deferred_called(
                m,
                sp,
                FRAME_HEADER_SIZE,
                FunctionObject(RuntimeFunction::DeferExecute.spec_address()),
            )
            &&& *ctx_after == (LightWeightThreadContext {
                stack_pointer: call_stack_pointer(
                    sp,
                    FRAME_HEADER_SIZE,
                    popped_entry(m, sp).result_size,
                ) as u64,
                ..*ctx
            })
            &&& next == popped_entry(m, sp).func
        }
    })
}

/// Runs the deferred calls of the calling frame, newest first. If the defer
/// stack of the calling frame is empty, the frame is left. Otherwise the
/// newest deferred call is taken off and called with this function as the
/// function to resume, so that the next one follows when it returns.
pub fn gox5_defer_execute(ctx: &mut LightWeightThreadContext, gc: &mut GlobalContext) -> (next:
    FunctionObject)
    requires
        defer_execute_ready(old(ctx), old(gc)),
    ensures
        defer_execute_done(old(ctx), old(gc), final(ctx), final(gc), next),
{
    let resume_func = RuntimeFunction::DeferExecute.function_object();
    let func = call_deferred(ctx, &mut gc.allocator, FRAME_HEADER_SIZE, resume_func);
    match func {
        Some(func) => func,
        None => ctx.leave(&gc.allocator),
    }
}

/// A word that is stored leaves every byte outside its eight bytes as it was.
pub proof fn lemma_store_word_byte_other(m: Seq<u8>, addr: int, v: u64, i: int)
    requires
        0 <= i < m.len(),
        i < addr || addr + 8 <= i,
    ensures
        store_word(m, addr, v)[i] == m[i],
        store_word(m, addr, v).len() == m.len(),
{
    vstd::bytes::lemma_auto_spec_u64_to_from_le_bytes();
}

/// Registering a deferred call puts it on top of the defer stack of the
/// calling frame: it is the newest call of the stack, with the function and
/// the size of the result that the frame gave and with the arguments as they
/// were when it was registered, and the calls that were on the stack follow
/// it unchanged.
pub proof fn lemma_register_pushes(m: Seq<u8>, sp: u64)
    requires
        sp + 8 * (7 + chunk_count(m, sp + 48)) <= m.len(),
        m.len() + 8 + 8 * chunk_count(m, sp + 48) + DEFER_ENTRY_SIZE <= u64::MAX,
        frame_word(m, sp, 1) + FRAME_HEADER_SIZE <= m.len(),
        chain_ok(m, defer_head(m, sp)),
        chain_avoids(
            m,
            defer_head(m, sp),
            frame_word(m, sp, 1) + FRAME_DEFER_STACK,
            frame_word(m, sp, 1) + FRAME_HEADER_SIZE,
        ),
    ensures
        ({
            let after = defer_registered(m, sp);
            let slot = frame_word(m, sp, 1) + FRAME_DEFER_STACK;
            let head = word_at(after, slot);
            &&& head == m.len() + 8 + 8 * chunk_count(m, sp + 48)
            &&& chain_ok(after, head)
            &&& chain_avoids(after, head, slot, slot + 8)
            &&& chain(after, head) == seq![
                DeferredCall {
                    func: FunctionObject(frame_word(m, sp, 4)),
                    result_size: frame_word(m, sp, 5),
                    args: chunk_words(m, sp + 48),
                },
            ] + chain(m, defer_head(m, sp))
        }),
{
    let count = chunk_count(m, sp + 48);
    let words = chunk_words(m, sp + 48);
    let start = m.len() as int;
    let slot = frame_word(m, sp, 1) + FRAME_DEFER_STACK;
    let old_head = defer_head(m, sp);
    let grown1 = m + zeros(8 + 8 * count);
    let chunk = seq![count] + words;
    let copied = store_words(grown1, start, chunk);
    let entry = copied.len() as u64;
    let grown2 = copied + zeros(DEFER_ENTRY_SIZE as int);
    let fields = seq![0u64, frame_word(m, sp, 4), frame_word(m, sp, 5), m.len() as u64];
    let placed = store_words(grown2, entry as int, fields);
    let linked = store_word(placed, entry as int, word_at(placed, slot));
    let after = store_word(linked, slot, entry);
    crate::memory::lemma_store_words_len(grown1, start, chunk);
    crate::memory::lemma_store_words_len(grown2, entry as int, fields);
    // the bytes of the store as it was
    assert forall|i: int| 0 <= i < start implies placed[i] == m[i] by {
        crate::memory::lemma_store_words_byte_other(grown2, entry as int, fields, i);
        crate::memory::lemma_store_words_byte_other(grown1, start, chunk, i);
    }
    lemma_word_at_agrees(m, placed, slot);
    assert forall|i: int| 0 <= i < start && !(slot <= i < slot + 8) implies after[i]
        == m[i] by {
        lemma_store_word_byte_other(linked, slot, entry, i);
    }
    // the copy of the arguments
    assert forall|i: int| start <= i < entry implies after[i] == copied[i] by {
        crate::memory::lemma_store_words_byte_other(grown2, entry as int, fields, i);
        lemma_store_word_byte_other(linked, slot, entry, i);
    }
    crate::memory::lemma_word_at_store_words_inside(grown1, start, chunk, 0);
    lemma_word_at_agrees(copied, after, start);
    assert forall|k: int| 0 <= k < count implies #[trigger] chunk_words(after, start)[k]
        == words[k] by {
        crate::memory::lemma_word_at_store_words_inside(grown1, start, chunk, k + 1);
        lemma_word_at_agrees(copied, after, start + 8 + 8 * k);
    }
    assert(chunk_words(after, start) =~= words);
    // the entry
    assert forall|i: int| entry + 8 <= i < entry + 32 implies after[i] == placed[i] by {
        lemma_store_word_byte_other(placed, entry as int, old_head, i);
        lemma_store_word_byte_other(linked, slot, entry, i);
    }
    crate::memory::lemma_word_at_store_words_inside(grown2, entry as int, fields, 1);
    crate::memory::lemma_word_at_store_words_inside(grown2, entry as int, fields, 2);
    crate::memory::lemma_word_at_store_words_inside(grown2, entry as int, fields, 3);
    lemma_word_at_agrees(placed, after, entry + 8);
    lemma_word_at_agrees(placed, after, entry + 16);
    lemma_word_at_agrees(placed, after, entry + 24);
    crate::memory::lemma_word_at_store_word_same(placed, entry as int, old_head);
    assert forall|i: int| entry <= i < entry + 8 implies after[i] == linked[i] by {
        lemma_store_word_byte_other(linked, slot, entry, i);
    }
    lemma_word_at_agrees(linked, after, entry as int);
    crate::memory::lemma_word_at_store_word_same(linked, slot, entry);
    // the calls that were on the stack
    lemma_chain_framed(m, after, old_head, slot, slot + 8, start);
}

/// Executing deferred calls takes the newest off the defer stack of the
/// calling frame: the call that is made is the newest of the stack, with its
/// function, the size of its result and its arguments, and the calls that
/// were registered before it stay on the stack, unchanged and in their order.
pub proof fn lemma_execute_pops(m: Seq<u8>, sp: u64)
    requires
        sp + 16 <= m.len(),
        frame_word(m, sp, 1) + FRAME_HEADER_SIZE <= m.len(),
        defer_head(m, sp) != 0,
        chain_ok(m, defer_head(m, sp)),
        chain_avoids(
            m,
            defer_head(m, sp),
            frame_word(m, sp, 1) + FRAME_DEFER_STACK,
            frame_word(m, sp, 1) + FRAME_HEADER_SIZE,
        ),
    ensures
        ({
            let after = defer_popped(m, sp);
            let slot = frame_word(m, sp, 1) + FRAME_DEFER_STACK;
            let rest = word_at(after, slot);
            &&& chain(m, defer_head(m, sp)).len() > 0
            &&& chain(m, defer_head(m, sp))[0] == (DeferredCall {
                func: popped_entry(m, sp).func,
                result_size: popped_entry(m, sp).result_size,
                args: popped_args(m, sp),
            })
            &&& chain_ok(after, rest)
            &&& chain_avoids(after, rest, slot, slot + 8)
            &&& chain(after, rest) == chain(m, defer_head(m, sp)).skip(1)
        }),
{
    let slot = frame_word(m, sp, 1) + FRAME_DEFER_STACK;
    let head = defer_head(m, sp);
    let entry = entry_at(m, head as int);
    let unlinked = store_word(m, head as int, 0);
    let after = store_word(unlinked, slot, entry.next);
    assert forall|i: int| 0 <= i < m.len() && !(slot <= i < slot + 8) && !(head <= i < head + 8)
        implies after[i] == m[i] by {
        lemma_store_word_byte_other(m, head as int, 0, i);
        lemma_store_word_byte_other(unlinked, slot, entry.next, i);
    }
    crate::memory::lemma_word_at_store_word_same(unlinked, slot, entry.next);
    lemma_chain_framed(m, after, entry.next, slot, slot + 8, head as int);
}

/// The function that `gox5_defer_execute` names as the function to resume.
pub open spec fn execute_again() -> FunctionObject {
    FunctionObject(RuntimeFunction::DeferExecute.spec_address())
}

/// The frame at `sp` can run the deferred calls of its calling frame in the
/// store `m`: the calling frame lies below it, the defer stack of the calling
/// frame is a stack whose entries and arguments lie outside the bytes from its
/// head in the calling frame up to `hi`, and the frame of each deferred call
/// fits below `hi`.
pub open spec fn run_ready(m: Seq<u8>, sp: u64, hi: int) -> bool {
    let prev = frame_word(m, sp, 1);
    let head = defer_head(m, sp);
    &&& prev + FRAME_HEADER_SIZE <= sp
    &&& sp + FRAME_HEADER_SIZE <= hi <= m.len()
    &&& hi <= u64::MAX
    &&& chain_ok(m, head)
    &&& chain_avoids(m, head, prev + FRAME_DEFER_STACK, hi)
    &&& forall|i: int|
        0 <= i < chain(m, head).len() ==> call_stack_pointer(
            sp,
            FRAME_HEADER_SIZE,
            (#[trigger] chain(m, head)[i]).result_size,
        ) + 8 * (5 + chain(m, head)[i].args.len()) <= hi
}

/// A deferred call that was started in the store `started` by the frame at
/// `sp` has come back in the store `back`: the frame at `sp` still names its
/// calling frame, and the defer stack of that frame holds the calls that it
/// held, still outside the bytes up to `hi`.
pub open spec fn came_back(started: Seq<u8>, back: Seq<u8>, sp: u64, hi: int) -> bool {
    let prev = frame_word(started, sp, 1);
    &&& hi <= back.len()
    &&& frame_word(back, sp, 1) == prev
    &&& chain_ok(back, defer_head(back, sp))
    &&& chain_avoids(back, defer_head(back, sp), prev + FRAME_DEFER_STACK, hi)
    &&& chain(back, defer_head(back, sp)) == chain(started, defer_head(started, sp))
}

/// One run of `gox5_defer_execute` on a frame that can run the deferred calls
/// of its calling frame: the newest call is called, with its arguments in the
/// new frame and this function as the function to resume, and the calls that
/// were registered before it stay on the defer stack while the new frame is
/// written, unchanged and in their order, so that the frame can run them.
pub proof fn lemma_execute_keeps_older_calls(m: Seq<u8>, sp: u64, hi: int)
    requires
        run_ready(m, sp, hi),
        defer_head(m, sp) != 0,
    ensures
        ({
            let calls = chain(m, defer_head(m, sp));
            let after = deferred_called(m, sp, FRAME_HEADER_SIZE, execute_again());
            let callee = call_stack_pointer(sp, FRAME_HEADER_SIZE, calls[0].result_size);
            let offset: int = if calls[0].result_size > 0 {
                5
            } else {
                4
            };
            &&& calls.len() > 0
            &&& calls[0] == (DeferredCall {
                func: popped_entry(m, sp).func,
                result_size: popped_entry(m, sp).result_size,
                args: popped_args(m, sp),
            })
            &&& after.len() == m.len()
            &&& word_at(after, callee) == execute_again().0
            &&& word_at(after, callee + 8) == sp
            &&& crate::memory::words_at(after, callee + 8 * offset, calls[0].args.len() as int)
                == calls[0].args
            &&& frame_word(after, sp, 1) == frame_word(m, sp, 1)
            &&& chain(after, defer_head(after, sp)) == calls.skip(1)
            &&& run_ready(after, sp, hi)
        }),
{
    let prev = frame_word(m, sp, 1);
    let slot = prev + FRAME_DEFER_STACK;
    let head = defer_head(m, sp);
    let entry = entry_at(m, head as int);
    let calls = chain(m, head);
    let unlinked = store_word(m, head as int, 0);
    let popped = store_word(unlinked, slot, entry.next);
    assert(popped == defer_popped(m, sp));
    assert(calls =~= seq![crate::defer_stack::call_at(m, head as int)] + chain(m, entry.next));
    assert(calls.skip(1) =~= chain(m, entry.next));
    assert(calls[0].result_size == entry.result_size);
    assert(calls[0].args == popped_args(m, sp));
    // the entry is unlinked and the entry behind it becomes the head
    assert forall|i: int|
        0 <= i < m.len() && !(slot <= i < slot + 8) && !(head <= i < head + 8) implies popped[i]
        == m[i] by {
        lemma_store_word_byte_other(m, head as int, 0, i);
        lemma_store_word_byte_other(unlinked, slot, entry.next, i);
    }
    crate::memory::lemma_word_at_store_word_same(m, head as int, 0);
    crate::memory::lemma_word_at_store_word_same(unlinked, slot, entry.next);
    lemma_chain_framed(m, popped, entry.next, slot, hi, head as int);
    // the frame of the call is written
    let callee = call_stack_pointer(sp, FRAME_HEADER_SIZE, entry.result_size);
    let result_pointer = call_result_pointer(sp, FRAME_HEADER_SIZE, entry.result_size);
    let args = popped_args(m, sp);
    let after = pushed_frame(popped, callee, execute_again(), sp, result_pointer, args);
    assert(after == deferred_called(m, sp, FRAME_HEADER_SIZE, execute_again()));
    assert(callee >= sp + FRAME_HEADER_SIZE);
    assert(callee + 8 * (5 + args.len()) <= hi);
    crate::light_weight_thread::lemma_pushed_frame(
        popped,
        callee as u64,
        execute_again(),
        sp,
        result_pointer,
        args,
    );
    lemma_chain_framed(popped, after, entry.next, slot, hi, popped.len() as int);
    lemma_word_at_agrees(popped, after, slot);
    assert forall|i: int| sp + 8 <= i < sp + 16 implies after[i] == m[i] by {
    }
    lemma_word_at_agrees(m, after, sp + 8);
    assert(defer_head(after, sp) == entry.next);
    assert forall|i: int| 0 <= i < chain(after, entry.next).len() implies call_stack_pointer(
        sp,
        FRAME_HEADER_SIZE,
        (#[trigger] chain(after, entry.next)[i]).result_size,
    ) + 8 * (5 + chain(after, entry.next)[i].args.len()) <= hi by {
        assert(chain(after, entry.next)[i] == calls[i + 1]);
    }
}

/// The deferred calls of a frame run newest first. `stores` are the stores in
/// which `gox5_defer_execute` is entered on the frame at `sp`, one after the
/// other: the first when the calling frame returns, and each of the others
/// when the deferred call that the run before it started has come back. Then
/// the runs call the deferred calls of the calling frame in the order of its
/// defer stack, newest first, each once and with the arguments that were
/// registered, and the run after the last of them finds the defer stack empty.
pub proof fn lemma_deferred_calls_run_newest_first(stores: Seq<Seq<u8>>, sp: u64, hi: int)
    requires
        stores.len() > 0,
        run_ready(stores[0], sp, hi),
        stores.len() == chain(stores[0], defer_head(stores[0], sp)).len() + 1,
        forall|i: int|
            0 <= i < stores.len() - 1 ==> came_back(
                deferred_called(#[trigger] stores[i], sp, FRAME_HEADER_SIZE, execute_again()),
                stores[i + 1],
                sp,
                hi,
            ),
    ensures
        forall|i: int|
            0 <= i < stores.len() - 1 ==> {
                &&& defer_head(#[trigger] stores[i], sp) != 0
                &&& (DeferredCall {
                    func: popped_entry(stores[i], sp).func,
                    result_size: popped_entry(stores[i], sp).result_size,
                    args: popped_args(stores[i], sp),
                }) == chain(stores[0], defer_head(stores[0], sp))[i]
            },
        defer_head(stores.last(), sp) == 0,
{
    let calls = chain(stores[0], defer_head(stores[0], sp));
    assert(calls.skip(0) =~= calls);
    lemma_run_from(stores, sp, hi, 0);
}

/// The runs of `gox5_defer_execute` from the run `done` on, where the runs
/// before it have called the `done` newest deferred calls.
proof fn lemma_run_from(stores: Seq<Seq<u8>>, sp: u64, hi: int, done: int)
    requires
        0 <= done < stores.len(),
        stores.len() == chain(stores[0], defer_head(stores[0], sp)).len() + 1,
        run_ready(stores[done], sp, hi),
        chain(stores[done], defer_head(stores[done], sp)) == chain(
            stores[0],
            defer_head(stores[0], sp),
        ).skip(done),
        forall|i: int|
            0 <= i < stores.len() - 1 ==> came_back(
                deferred_called(#[trigger] stores[i], sp, FRAME_HEADER_SIZE, execute_again()),
                stores[i + 1],
                sp,
                hi,
            ),
    ensures
        forall|i: int|
            done <= i < stores.len() - 1 ==> {
                &&& defer_head(#[trigger] stores[i], sp) != 0
                &&& (DeferredCall {
                    func: popped_entry(stores[i], sp).func,
                    result_size: popped_entry(stores[i], sp).result_size,
                    args: popped_args(stores[i], sp),
                }) == chain(stores[0], defer_head(stores[0], sp))[i]
            },
        defer_head(stores.last(), sp) == 0,
    decreases stores.len() - done,
{
    let calls = chain(stores[0], defer_head(stores[0], sp));
    let m = stores[done];
    let head = defer_head(m, sp);
    if done < stores.len() - 1 {
        assert(calls.skip(done).len() > 0);
        assert(head != 0);
        lemma_execute_keeps_older_calls(m, sp, hi);
        let after = deferred_called(m, sp, FRAME_HEADER_SIZE, execute_again());
        let back = stores[done + 1];
        assert(came_back(after, back, sp, hi));
        assert(calls.skip(done)[0] == calls[done]);
        assert(calls.skip(done).skip(1) =~= calls.skip(done + 1));
        assert(run_ready(back, sp, hi));
        lemma_run_from(stores, sp, hi, done + 1);
    } else {
        assert(calls.skip(done).len() == 0);
        if head != 0 {
            assert(chain(m, head).len() > 0);
        }
    }
}

/// Tells whether the newest deferred call of the calling frame can be taken
/// off and called from the frame of `ctx`, which takes `frame_size` bytes.
pub fn check_deferred_call(ctx: &LightWeightThreadContext, mem: &Memory, frame_size: u64) -> (ok:
    bool)
    ensures
        ok == deferred_call_ready(mem@, mem.guards(), ctx.stack_pointer, frame_size),
{
    if !ctx.is_frame_accessible(mem, 2) {
        return false;
    }
    let prev = ctx.frame_word(mem, 1);
    if prev > u64::MAX - FRAME_HEADER_SIZE || !mem.is_accessible(prev + FRAME_DEFER_STACK, 8) {
        return false;
    }
    let head = mem.read_word(prev + FRAME_DEFER_STACK);
    if head == 0 {
        return true;
    }
    if !mem.is_accessible(head, DEFER_ENTRY_SIZE) {
        return false;
    }
    let entry = DeferStackEntry::load(mem, head);
    if !entry.args.is_readable(mem) {
        return false;
    }
    let count = mem.read_word(entry.args.0);
    ctx.is_callable(mem, frame_size, entry.result_size, count)
}

/// Tells whether `gox5_defer_register` can run from the frame of `ctx` in the
/// state `gc`.
pub fn check_defer_register(ctx: &LightWeightThreadContext, gc: &GlobalContext) -> (ok: bool)
    ensures
        ok == defer_register_ready(ctx, gc),
{
    if !ctx.is_frame_accessible(&gc.allocator, 7) || !gc.check_wf() {
        return false;
    }
    let prev = ctx.frame_word(&gc.allocator, 1);
    let chunk = WordChunk(ctx.stack_pointer + 48);
    if !chunk.is_readable(&gc.allocator) {
        return false;
    }
    let count = gc.allocator.read_word(chunk.0);
    let needed: u128 = gc.allocator.size() as u128 + 8 + 8 * (count as u128)
        + DEFER_ENTRY_SIZE as u128;
    needed < ADDRESS_LIMIT as u128 && prev <= u64::MAX - FRAME_HEADER_SIZE
        && gc.allocator.is_accessible(prev + FRAME_DEFER_STACK, 8)
}

/// Tells whether `gox5_defer_execute` can run from the frame of `ctx` in the
/// state `gc`.
pub fn check_defer_execute(ctx: &LightWeightThreadContext, gc: &GlobalContext) -> (ok: bool)
    ensures
        ok == defer_execute_ready(ctx, gc),
{
    check_deferred_call(ctx, &gc.allocator, FRAME_HEADER_SIZE)
}

} // verus!
