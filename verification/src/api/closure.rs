//! Creation of closures.
use vstd::prelude::*;
use vstd::bytes::{lemma_auto_spec_u64_to_from_le_bytes, spec_u64_to_le_bytes};
use crate::global_context::GlobalContext;
use crate::light_weight_thread::{LightWeightThreadContext, frame_word};
use crate::memory::{lemma_store_words_len, lemma_word_at_store_bytes_other,
    lemma_word_at_store_word_same, lemma_word_at_store_words_inside, store_word, store_words,
    word_at, words_at, zeros};
use crate::ClosureLayout;
use crate::FunctionObject;
use crate::UserFunction;
use crate::CLOSURE_FLAG;

verus! {

/// The function that a closure frame at `sp` asks to wrap.
pub open spec fn closure_frame_function(m: Seq<u8>, sp: u64) -> u64 {
    frame_word(m, sp, 5)
}

/// The pointers that a closure frame at `sp` asks to capture.
pub open spec fn closure_frame_vars(m: Seq<u8>, sp: u64) -> Seq<u64> {
    words_at(m, sp + 56, frame_word(m, sp, 6) as int)
}

/// The store after a closure layout of the function `func` and the captured
/// pointers `vars` was placed in fresh storage at its end.
pub open spec fn closure_stored(m: Seq<u8>, func: u64, vars: Seq<u64>) -> Seq<u8> {
    store_words(m + zeros(8 * (vars.len() + 1) as int), m.len() as int, seq![func] + vars)
}

/// Extracting the function object of a closure that was just made yields the
/// function it was made of and the address of a copy of the pointers it
/// captured.
pub proof fn lemma_new_closure_extracts(m: Seq<u8>, func: u64, vars: Seq<u64>, result_ptr: u64)
    requires
        result_ptr + 8 <= m.len(),
        m.len() + 8 * (vars.len() + 1) < CLOSURE_FLAG,
    ensures
        ({
            let made = store_word(
                closure_stored(m, func, vars),
                result_ptr as int,
                (m.len() + CLOSURE_FLAG) as u64,
            );
            let closure = FunctionObject(word_at(made, result_ptr as int));
            &&& closure.is_closure()
            &&& closure.extracted(made) == (UserFunction(func), Some((m.len() + 8) as u64))
            &&& words_at(made, m.len() as int + 8, vars.len() as int) == vars
        }),
{
    let grown = m + zeros(8 * (vars.len() + 1) as int);
    let words = seq![func] + vars;
    let placed = closure_stored(m, func, vars);
    let tagged = (m.len() + CLOSURE_FLAG) as u64;
    let made = store_word(placed, result_ptr as int, tagged);
    lemma_store_words_len(grown, m.len() as int, words);
    lemma_word_at_store_word_same(placed, result_ptr as int, tagged);
    lemma_auto_spec_u64_to_from_le_bytes();
    assert forall|k: int| 0 <= k < words.len() implies word_at(made, m.len() + 8 * k)
        == words[k] by {
        lemma_word_at_store_words_inside(grown, m.len() as int, words, k);
        lemma_word_at_store_bytes_other(
            placed,
            result_ptr as int,
            spec_u64_to_le_bytes(tagged),
            m.len() + 8 * k,
        );
    }
    assert(word_at(made, m.len() as int + 8 * 0) == words[0]);
    assert forall|k: int| 0 <= k < vars.len() implies word_at(made, m.len() + 8 + 8 * k)
        == vars[k] by {
        assert(word_at(made, m.len() + 8 * (k + 1)) == words[k + 1]);
    }
}

/// The frame of `ctx` and the state `gc` are such that `gox5_closure_new` can run.
pub open spec fn closure_new_ready(ctx: &LightWeightThreadContext, gc: &GlobalContext) -> bool {
    &&& gc.wf()
    &&& ctx.frame_accessible(&gc.allocator, 7)
    &&& ctx.frame_accessible(
        &gc.allocator,
        7 + frame_word(gc.allocator@, ctx.stack_pointer, 6),
    )
    &&& gc.allocator.can_allocate(
        (8 * (frame_word(gc.allocator@, ctx.stack_pointer, 6) + 1)) as u64,
    )
    &&& gc.allocator.accessible(
        frame_word(gc.allocator@, ctx.stack_pointer, 4),
        8,
    )
}

/// `gox5_closure_new` ran from the frame of `ctx` and left `ctx_after` and `next`.
pub open spec fn closure_new_done(
    ctx: &LightWeightThreadContext,
    gc: &GlobalContext,
    ctx_after: &LightWeightThreadContext,
    gc_after: &GlobalContext,
    next: FunctionObject,
) -> bool {
    &&& gc_after.wf()
    &&& gc_after.same_tables(gc)
    &&& gc_after.allocator.guards() == gc.allocator.guards()
    &&& gc_after.allocator@ == store_word(
        closure_stored(
            gc.allocator@,
            closure_frame_function(gc.allocator@, ctx.stack_pointer),
            closure_frame_vars(gc.allocator@, ctx.stack_pointer),
        ),
        frame_word(gc.allocator@, ctx.stack_pointer, 4) as int,
        (gc.allocator@.len() + CLOSURE_FLAG) as u64,
    )
    &&& *ctx_after == ctx.left(gc_after.allocator@)
    &&& next == ctx.resume_func_in(gc_after.allocator@)
}

/// Builds a closure. The frame holds the address for the result, the function,
/// and a word chunk of the pointers to capture. A closure layout with the
/// function and a copy of the pointers is placed in fresh storage, its tagged
/// function object is written to the result address, and the frame is left.
pub fn gox5_closure_new(ctx: &mut LightWeightThreadContext, gc: &mut GlobalContext) -> (next:
    FunctionObject)
    requires
        closure_new_ready(old(ctx), old(gc)),
    ensures
        closure_new_done(old(ctx), old(gc), final(ctx), final(gc), next),
{
    let result_ptr = ctx.frame_word(&gc.allocator, 4);
    let user_function = UserFunction::new(ctx.frame_word(&gc.allocator, 5));
    let count = ctx.frame_word(&gc.allocator, 6);
    let object_ptrs = gc.allocator.read_words(ctx.stack_pointer + 56, count);
    let closure_layout = ClosureLayout::new(user_function, object_ptrs);
    let func = closure_layout.store(&mut gc.allocator);
    gc.allocator.write_word(result_ptr, func.0);
    ctx.leave(&gc.allocator)
}

/// Tells whether `gox5_closure_new` can run from the frame of `ctx` in the
/// state `gc`.
pub fn check_closure_new(ctx: &LightWeightThreadContext, gc: &GlobalContext) -> (ok: bool)
    ensures
        ok == closure_new_ready(ctx, gc),
{
    if !gc.check_wf() || !ctx.is_frame_accessible(&gc.allocator, 7) {
        return false;
    }
    let result_ptr = ctx.frame_word(&gc.allocator, 4);
    let count = ctx.frame_word(&gc.allocator, 6);
    if count > u64::MAX / 8 - 7 {
        return false;
    }
    ctx.is_frame_accessible(&gc.allocator, 7 + count) && gc.allocator.has_room(8 * (count + 1))
        && gc.allocator.is_accessible(result_ptr, 8)
}

} // verus!
