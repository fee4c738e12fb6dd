//! The context of a light-weight thread and the protocol of its stack frames.
//!
//! A frame starts with four words: the function to resume when the frame is
//! left, the address of the frame that called it, the address of the captured
//! variables of the running closure, and the head of the frame's defer stack.
//! The optional result pointer and the argument words follow.
use vstd::prelude::*;
use crate::defer_stack::DeferStack;
use crate::global_context::GlobalContextPtr;
use crate::memory::{Memory, lemma_store_words_byte_other, lemma_store_words_len,
    lemma_word_at_store_words_inside, range_accessible, round_up, round_up_to_word, store_word,
    store_words, word_at, words_at, WORD_SIZE};
use crate::object::interface::Interface;
use crate::FunctionObject;
use crate::UserFunction;
use crate::CLOSURE_FLAG;

verus! {

/// Offset of the function to resume in a frame.
pub const FRAME_RESUME_FUNC: u64 = 0;

/// Offset of the address of the calling frame in a frame.
pub const FRAME_PREV_STACK_POINTER: u64 = 8;

/// Offset of the address of the captured variables in a frame.
pub const FRAME_FREE_VARS: u64 = 16;

/// Offset of the head of the defer stack in a frame.
pub const FRAME_DEFER_STACK: u64 = 24;

/// Size of the header that every frame starts with.
pub const FRAME_HEADER_SIZE: u64 = 32;

/// The control flag of a thread that is parked.
pub const FLAG_SUSPENDED: u64 = 1;

/// The control flag of a thread that has ended.
pub const FLAG_TERMINATED: u64 = 2;

/// The control flag of a thread that is unwinding a panic.
pub const FLAG_PANICKING: u64 = 4;

/// The value that marks a thread context.
pub const CONTEXT_MARKER: u64 = 0xdeadbeef;

/// The words of a new frame: the header with no captured variables and an
/// empty defer stack, the result pointer if there is one, and the arguments.
pub open spec fn frame_words(
    resume_func: FunctionObject,
    prev_stack_pointer: u64,
    result_pointer: Option<u64>,
    args: Seq<u64>,
) -> Seq<u64> {
    seq![resume_func.0, prev_stack_pointer, 0u64, 0u64] + (match result_pointer {
        Some(p) => seq![p],
        None => Seq::<u64>::empty(),
    }) + args
}

/// The word at position `index` of the frame at `sp`.
pub open spec fn frame_word(m: Seq<u8>, sp: u64, index: int) -> u64 {
    word_at(m, sp + 8 * index)
}

/// The result pointer of a callee whose result takes `result_size` bytes,
/// reserved above a caller frame of `frame_size` bytes at `sp`.
pub open spec fn call_result_pointer(sp: u64, frame_size: u64, result_size: u64) -> Option<u64> {
    if result_size > 0 {
        Some((sp + round_up(frame_size as int)) as u64)
    } else {
        None
    }
}

/// The address of the callee's frame above a caller frame of `frame_size` bytes
/// at `sp` and a result of `result_size` bytes.
pub open spec fn call_stack_pointer(sp: u64, frame_size: u64, result_size: u64) -> int {
    sp + round_up(frame_size as int) + round_up(result_size as int)
}

/// The store after a frame was written at `sp`.
pub open spec fn pushed_frame(
    m: Seq<u8>,
    sp: int,
    resume_func: FunctionObject,
    prev_stack_pointer: u64,
    result_pointer: Option<u64>,
    args: Seq<u64>,
) -> Seq<u8> {
    store_words(m, sp, frame_words(resume_func, prev_stack_pointer, result_pointer, args))
}

/// A frame that was just written names the function to resume and the calling
/// frame, has no captured variables and an empty defer stack, and holds the
/// result pointer and the arguments. Nothing outside the frame has changed.
pub proof fn lemma_pushed_frame(
    m: Seq<u8>,
    sp: u64,
    resume_func: FunctionObject,
    prev_stack_pointer: u64,
    result_pointer: Option<u64>,
    args: Seq<u64>,
)
    requires
        sp + 8 * frame_words(resume_func, prev_stack_pointer, result_pointer, args).len()
            <= m.len(),
    ensures
        ({
            let m1 = pushed_frame(
                m,
                sp as int,
                resume_func,
                prev_stack_pointer,
                result_pointer,
                args,
            );
            let offset: int = if result_pointer is Some {
                5
            } else {
                4
            };
            &&& m1.len() == m.len()
            &&& frame_word(m1, sp, 0) == resume_func.0
            &&& frame_word(m1, sp, 1) == prev_stack_pointer
            &&& frame_word(m1, sp, 2) == 0
            &&& frame_word(m1, sp, 3) == 0
            &&& result_pointer matches Some(p) ==> frame_word(m1, sp, 4) == p
            &&& words_at(m1, sp + 8 * offset, args.len() as int) == args
            &&& forall|i: int|
                0 <= i < sp || sp + 8 * (offset + args.len()) <= i < m.len() ==> m1[i] == m[i]
        }),
{
    let ws = frame_words(resume_func, prev_stack_pointer, result_pointer, args);
    let m1 = store_words(m, sp as int, ws);
    let offset: int = if result_pointer is Some {
        5
    } else {
        4
    };
    lemma_store_words_len(m, sp as int, ws);
    lemma_word_at_store_words_inside(m, sp as int, ws, 0);
    lemma_word_at_store_words_inside(m, sp as int, ws, 1);
    lemma_word_at_store_words_inside(m, sp as int, ws, 2);
    lemma_word_at_store_words_inside(m, sp as int, ws, 3);
    if result_pointer is Some {
        lemma_word_at_store_words_inside(m, sp as int, ws, 4);
    }
    assert forall|i: int| 0 <= i < args.len() implies word_at(m1, sp + 8 * offset + 8 * i)
        == args[i] by {
        lemma_word_at_store_words_inside(m, sp as int, ws, offset + i);
    }
    assert(words_at(m1, sp + 8 * offset, args.len() as int) =~= args);
    assert forall|i: int|
        0 <= i < sp || sp + 8 * (offset + args.len()) <= i < m.len() implies m1[i] == m[i] by {
        lemma_store_words_byte_other(m, sp as int, ws, i);
    }
}

/// A call and all that follows until the callee's frame is left, and then
/// what follows in the caller: the shape of any run of calls in which each
/// frame that is pushed is left again.
pub enum CallNest {
    Done,
    Call {
        frame_size: u64,
        result_size: u64,
        args: Seq<u64>,
        resume_func: FunctionObject,
        inner: Box<CallNest>,
        rest: Box<CallNest>,
    },
}

/// The stack pointer and the store after the calls and returns of `nest` ran
/// from the stack pointer `sp` in the store `m`.
pub open spec fn run_nest(nest: CallNest, sp: u64, m: Seq<u8>) -> (u64, Seq<u8>)
    decreases nest,
{
    match nest {
        CallNest::Done => (sp, m),
        CallNest::Call { frame_size, result_size, args, resume_func, inner, rest } => {
            let callee = call_stack_pointer(sp, frame_size, result_size) as u64;
            let entered = pushed_frame(
                m,
                callee as int,
                resume_func,
                sp,
                call_result_pointer(sp, frame_size, result_size),
                args,
            );
            let (at_return, returned) = run_nest(*inner, callee, entered);
            run_nest(*rest, frame_word(returned, at_return, 1), returned)
        },
    }
}

/// Every call of `nest` starts from a frame that holds at least the header,
/// and every frame that is pushed lies inside the store.
pub open spec fn nest_fits(nest: CallNest, sp: u64, m: Seq<u8>) -> bool
    decreases nest,
{
    match nest {
        CallNest::Done => true,
        CallNest::Call { frame_size, result_size, args, resume_func, inner, rest } => {
            let callee = call_stack_pointer(sp, frame_size, result_size);
            let entered = pushed_frame(
                m,
                callee,
                resume_func,
                sp,
                call_result_pointer(sp, frame_size, result_size),
                args,
            );
            let (at_return, returned) = run_nest(*inner, callee as u64, entered);
            &&& frame_size >= FRAME_HEADER_SIZE
            &&& callee + 8 * (args.len() + 5) <= m.len()
            &&& m.len() <= u64::MAX
            &&& nest_fits(*inner, callee as u64, entered)
            &&& nest_fits(*rest, frame_word(returned, at_return, 1), returned)
        },
    }
}

/// When every frame that is pushed is left again, the stack pointer is back
/// where it started, and nothing below the end of the starting frame's header
/// has changed. A stack that was empty is empty again.
pub proof fn lemma_calls_and_returns_restore_stack_pointer(nest: CallNest, sp: u64, m: Seq<u8>)
    requires
        nest_fits(nest, sp, m),
    ensures
        run_nest(nest, sp, m).0 == sp,
        run_nest(nest, sp, m).1.len() == m.len(),
        forall|i: int| 0 <= i < sp + FRAME_HEADER_SIZE
            && i < m.len() ==> run_nest(nest, sp, m).1[i] == m[i],
    decreases nest,
{
    match nest {
        CallNest::Done => {},
        CallNest::Call { frame_size, result_size, args, resume_func, inner, rest } => {
            let callee = call_stack_pointer(sp, frame_size, result_size) as u64;
            let rp = call_result_pointer(sp, frame_size, result_size);
            let entered = pushed_frame(m, callee as int, resume_func, sp, rp, args);
            lemma_pushed_frame(m, callee, resume_func, sp, rp, args);
            lemma_calls_and_returns_restore_stack_pointer(*inner, callee, entered);
            let (at_return, returned) = run_nest(*inner, callee, entered);
            assert(returned.subrange(callee + 8, callee + 16) =~= entered.subrange(
                callee + 8,
                callee + 16,
            ));
            lemma_calls_and_returns_restore_stack_pointer(*rest, sp, returned);
        },
    }
}

/// In a store of `size` bytes with guard pages at `guards`, a call can be made
/// from a frame of `frame_size` bytes at `sp` to a callee with a result of
/// `result_size` bytes and `n_args` argument words: the callee's frame fits.
pub open spec fn call_fits(
    size: nat,
    guards: Seq<u64>,
    sp: u64,
    frame_size: u64,
    result_size: u64,
    n_args: int,
) -> bool {
    &&& call_stack_pointer(sp, frame_size, result_size) + 8 * (n_args + 5) <= u64::MAX
    &&& range_accessible(
        size,
        guards,
        call_stack_pointer(sp, frame_size, result_size) as u64,
        (8 * (n_args + if result_size > 0 {
            5int
        } else {
            4int
        })) as u64,
    )
}

/// The header that every frame starts with.
#[derive(Clone, Copy, Debug, PartialEq, Eq, Structural)]
pub struct StackFrameCommon {
    pub resume_func: FunctionObject,
    pub prev_stack_pointer: u64,
    pub free_vars: u64,
    pub defer_stack: DeferStack,
}

impl StackFrameCommon {
    /// The defer stack of the frame, to push on or pop from.
    pub fn defer_stack_mut(&mut self) -> (stack: &mut DeferStack)
        ensures
            *stack == old(self).defer_stack,
            *final(self) == (StackFrameCommon { defer_stack: *final(stack), ..*old(self) }),
    {
        &mut self.defer_stack
    }
}

/// A frame as a value: the header and the words that follow it.
pub struct StackFrame {
    pub common: StackFrameCommon,
    pub additional_words: Vec<u64>,
}

impl StackFrame {
    /// The words of the frame, in the order in which they are stored.
    pub open spec fn words(&self) -> Seq<u64> {
        seq![
            self.common.resume_func.0,
            self.common.prev_stack_pointer,
            self.common.free_vars,
            self.common.defer_stack.0,
        ] + self.additional_words@
    }

    /// A new frame: no captured variables, an empty defer stack, and behind
    /// the header the result pointer, if any, and the arguments.
    pub fn new(
        resume_func: FunctionObject,
        prev_stack_pointer: u64,
        result_pointer: Option<u64>,
        args: &Vec<u64>,
    ) -> (frame: Self)
        ensures
            frame.words() == frame_words(resume_func, prev_stack_pointer, result_pointer, args@),
            frame.common == (StackFrameCommon {
                resume_func,
                prev_stack_pointer,
                free_vars: 0,
                defer_stack: DeferStack(0),
            }),
    {
        let mut additional_words: Vec<u64> = Vec::new();
        if let Some(p) = result_pointer {
            additional_words.push(p);
        }
        let ghost head = additional_words@;
        let n = args.len();
        let mut i: usize = 0;
        while i < n
            invariant
                i <= n,
                n == args@.len(),
                additional_words@ == head + args@.subrange(0, i as int),
            decreases n - i,
        {
            additional_words.push(args[i]);
            i = i + 1;
        }
        let frame = StackFrame {
            common: StackFrameCommon {
                resume_func,
                prev_stack_pointer,
                free_vars: 0,
                defer_stack: DeferStack::new(),
            },
            additional_words,
        };
        frame
    }

    /// Reads the frame at `sp` with `n_additional` words behind its header.
    pub fn load(mem: &Memory, sp: u64, n_additional: u64) -> (frame: Self)
        requires
            8 * (4 + n_additional) <= u64::MAX,
            mem.accessible(sp, (8 * (4 + n_additional)) as u64),
        ensures
            frame.words() == words_at(mem@, sp as int, 4 + n_additional),
    {
        let common = StackFrameCommon {
            resume_func: FunctionObject(mem.read_word(sp + FRAME_RESUME_FUNC)),
            prev_stack_pointer: mem.read_word(sp + FRAME_PREV_STACK_POINTER),
            free_vars: mem.read_word(sp + FRAME_FREE_VARS),
            defer_stack: DeferStack(mem.read_word(sp + FRAME_DEFER_STACK)),
        };
        let additional_words = mem.read_words(sp + FRAME_HEADER_SIZE, n_additional);
        let frame = StackFrame { common, additional_words };
        frame
    }

    /// Writes the frame at `sp`.
    pub fn store(&self, mem: &mut Memory, sp: u64)
        requires
            8 * self.words().len() <= u64::MAX,
            old(mem).accessible(sp, (8 * self.words().len()) as u64),
        ensures
            final(mem)@ == store_words(old(mem)@, sp as int, self.words()),
            final(mem)@.len() == old(mem)@.len(),
            final(mem).guards() == old(mem).guards(),
    {
        let mut words: Vec<u64> = Vec::new();
        words.push(self.common.resume_func.0);
        words.push(self.common.prev_stack_pointer);
        words.push(self.common.free_vars);
        words.push(self.common.defer_stack.0);
        let ghost header = words@;
        let n = self.additional_words.len();
        let mut i: usize = 0;
        while i < n
            invariant
                i <= n,
                n == self.additional_words@.len(),
                words@ == header + self.additional_words@.subrange(0, i as int),
            decreases n - i,
        {
            words.push(self.additional_words[i]);
            i = i + 1;
        }
        assert(words@ =~= self.words());
        mem.write_words(sp, &words);
    }
}

/// The state of one light-weight thread.
pub struct LightWeightThreadContext {
    pub stack_pointer: u64,
    pub prev_func: UserFunction,
    pub marker: u64,
    pub id: usize,
    pub global_context: GlobalContextPtr,
    pub current_func: FunctionObject,
    pub control_flags: u64,
    pub panic_data: Interface,
    pub initial_stack_pointer: u64,
}

impl LightWeightThreadContext {
    /// The stack pointer never falls below where it started.
    pub open spec fn wf(&self) -> bool {
        self.initial_stack_pointer <= self.stack_pointer
    }

    /// The thread is parked.
    pub open spec fn suspended(&self) -> bool {
        self.control_flags & FLAG_SUSPENDED != 0
    }

    /// The thread has ended.
    pub open spec fn terminated(&self) -> bool {
        self.control_flags & FLAG_TERMINATED != 0
    }

    /// The thread is unwinding a panic.
    pub open spec fn panicking(&self) -> bool {
        self.control_flags & FLAG_PANICKING != 0
    }

    /// A fresh thread with an empty stack at `stack_pointer` that will start
    /// with `entry_func`.
    pub fn new(
        id: usize,
        global_context: GlobalContextPtr,
        stack_pointer: u64,
        entry_func: FunctionObject,
        prev_func: UserFunction,
    ) -> (ctx: Self)
        ensures
            ctx.stack_pointer == stack_pointer,
            ctx.initial_stack_pointer == stack_pointer,
            ctx.prev_func == prev_func,
            ctx.marker == CONTEXT_MARKER,
            ctx.id == id,
            ctx.global_context == global_context,
            ctx.current_func == entry_func,
            ctx.control_flags == 0,
            ctx.panic_data.receiver.0 == 0,
            ctx.panic_data.type_id.0 == 0,
            ctx.wf(),
            !ctx.suspended(),
            !ctx.terminated(),
            !ctx.panicking(),
    {
        assert(0u64 & 1 == 0 && 0u64 & 2 == 0 && 0u64 & 4 == 0) by (bit_vector);
        LightWeightThreadContext {
            stack_pointer,
            prev_func,
            marker: 0xdeadbeef,
            id,
            global_context,
            current_func: entry_func,
            control_flags: 0,
            panic_data: Interface::nil(),
            initial_stack_pointer: stack_pointer,
        }
    }

    /// Moves the stack pointer up by `size` bytes, rounded up to whole words.
    pub fn grow_stack(&mut self, size: u64)
        requires
            old(self).stack_pointer + round_up(size as int) <= u64::MAX,
        ensures
            final(self).stack_pointer == old(self).stack_pointer + round_up(size as int),
            *final(self) == (LightWeightThreadContext {
                stack_pointer: final(self).stack_pointer,
                ..*old(self)
            }),
    {
        let size = round_up_to_word(size);
        self.stack_pointer = self.stack_pointer + size;
    }

    /// The frame at the stack pointer, with `n_words` words, can be read and written.
    pub open spec fn frame_accessible(&self, mem: &Memory, n_words: int) -> bool {
        &&& 0 <= n_words
        &&& 8 * n_words <= u64::MAX
        &&& mem.accessible(self.stack_pointer, (8 * n_words) as u64)
    }

    /// Tells whether the frame at the stack pointer, with `n_words` words, can
    /// be read and written.
    pub fn is_frame_accessible(&self, mem: &Memory, n_words: u64) -> (ok: bool)
        ensures
            ok == self.frame_accessible(mem, n_words as int),
    {
        if n_words > u64::MAX / 8 {
            return false;
        }
        mem.is_accessible(self.stack_pointer, 8 * n_words)
    }

    /// Reads the word at position `index` of the current frame.
    pub fn frame_word(&self, mem: &Memory, index: u64) -> (w: u64)
        requires
            self.frame_accessible(mem, index + 1),
        ensures
            w == frame_word(mem@, self.stack_pointer, index as int),
    {
        mem.read_word(self.stack_pointer + WORD_SIZE * index)
    }

    /// Writes a frame at the stack pointer: the header with `resume_func` and
    /// `prev_stack_pointer`, no captured variables and an empty defer stack,
    /// then the result pointer, if any, and the argument words.
    pub fn push_frame(
        &mut self,
        mem: &mut Memory,
        prev_stack_pointer: u64,
        result_pointer: Option<u64>,
        args: &Vec<u64>,
        resume_func: FunctionObject,
    )
        requires
            old(self).frame_accessible(
                old(mem),
                frame_words(resume_func, prev_stack_pointer, result_pointer, args@).len() as int,
            ),
        ensures
            *final(self) == *old(self),
            final(mem)@ == store_words(
                old(mem)@,
                old(self).stack_pointer as int,
                frame_words(resume_func, prev_stack_pointer, result_pointer, args@),
            ),
            final(mem)@.len() == old(mem)@.len(),
            final(mem).guards() == old(mem).guards(),
    {
        let frame = StackFrame::new(resume_func, prev_stack_pointer, result_pointer, args);
        frame.store(mem, self.stack_pointer);
    }

    /// A call from the current frame can be made: the stack pointer can move
    /// past the caller's frame and the result, and the callee's frame fits.
    pub open spec fn callable(
        &self,
        mem: &Memory,
        frame_size: u64,
        result_size: u64,
        n_args: int,
    ) -> bool {
        call_fits(mem@.len(), mem.guards(), self.stack_pointer, frame_size, result_size, n_args)
    }

    /// Tells whether a call from the current frame can be made.
    pub fn is_callable(&self, mem: &Memory, frame_size: u64, result_size: u64, n_args: u64) -> (ok:
        bool)
        ensures
            ok == self.callable(mem, frame_size, result_size, n_args as int),
    {
        let callee: u128 = self.stack_pointer as u128 + (frame_size as u128 + 7) / 8 * 8 + (
        result_size as u128 + 7) / 8 * 8;
        if callee + 8 * (n_args as u128 + 5) > u64::MAX as u128 {
            return false;
        }
        let words: u64 = if result_size > 0 {
            n_args + 5
        } else {
            n_args + 4
        };
        mem.is_accessible(callee as u64, 8 * words)
    }

    /// Calls a function from the current frame, which takes `frame_size` bytes:
    /// reserves `result_size` bytes for the result above it, and above those
    /// writes the callee's frame, which names the current frame as its caller
    /// and `resume_func` as the function to resume.
    pub fn call(
        &mut self,
        mem: &mut Memory,
        frame_size: u64,
        result_size: u64,
        args: &Vec<u64>,
        resume_func: FunctionObject,
    )
        requires
            old(self).callable(old(mem), frame_size, result_size, args@.len() as int),
        ensures
            final(self).stack_pointer == call_stack_pointer(
                old(self).stack_pointer,
                frame_size,
                result_size,
            ),
            *final(self) == (LightWeightThreadContext {
                stack_pointer: final(self).stack_pointer,
                ..*old(self)
            }),
            final(mem)@ == store_words(
                old(mem)@,
                final(self).stack_pointer as int,
                frame_words(
                    resume_func,
                    old(self).stack_pointer,
                    call_result_pointer(old(self).stack_pointer, frame_size, result_size),
                    args@,
                ),
            ),
            final(mem)@.len() == old(mem)@.len(),
            final(mem).guards() == old(mem).guards(),
    {
        let prev_stack_pointer = self.stack_pointer;
        self.grow_stack(frame_size);
        let result_pointer = if result_size > 0 {
            Some(self.stack_pointer)
        } else {
            None
        };
        self.grow_stack(result_size);
        self.push_frame(mem, prev_stack_pointer, result_pointer, args, resume_func);
    }

    /// The context after the current frame was left in the store `m`: the
    /// stack pointer is the address of the calling frame.
    pub open spec fn left(&self, m: Seq<u8>) -> LightWeightThreadContext {
        LightWeightThreadContext { stack_pointer: frame_word(m, self.stack_pointer, 1), ..*self }
    }

    /// The function that the current frame resumes in the store `m`.
    pub open spec fn resume_func_in(&self, m: Seq<u8>) -> FunctionObject {
        FunctionObject(frame_word(m, self.stack_pointer, 0))
    }

    /// Leaves the current frame: the stack pointer goes back to the calling
    /// frame, and the function to resume is returned.
    pub fn leave(&mut self, mem: &Memory) -> (resume_func: FunctionObject)
        requires
            old(self).frame_accessible(mem, 2),
        ensures
            resume_func == old(self).resume_func_in(mem@),
            *final(self) == old(self).left(mem@),
    {
        let resume_func = FunctionObject(mem.read_word(self.stack_pointer + FRAME_RESUME_FUNC));
        let prev_stack_pointer = mem.read_word(self.stack_pointer + FRAME_PREV_STACK_POINTER);
        self.stack_pointer = prev_stack_pointer;
        resume_func
    }

    /// The current function can be made ready: a closure's layout can be read
    /// and the slot for captured variables in the current frame can be written.
    pub open spec fn preparable(&self, mem: &Memory) -> bool {
        &&& self.current_func.extractable(mem)
        &&& self.current_func.is_closure() ==> self.frame_accessible(mem, 3)
    }

    /// Tells whether the current function can be made ready.
    pub fn is_preparable(&self, mem: &Memory) -> (ok: bool)
        ensures
            ok == self.preparable(mem),
    {
        if !self.current_func.is_extractable(mem) {
            return false;
        }
        if self.current_func.0 >= CLOSURE_FLAG {
            self.is_frame_accessible(mem, 3)
        } else {
            true
        }
    }

    /// Makes the current function ready to be invoked: if it is a closure, the
    /// address of its captured variables is written into the current frame.
    /// Returns the function to invoke.
    pub fn prepare_user_function(&mut self, mem: &mut Memory) -> (func: UserFunction)
        requires
            old(self).preparable(old(mem)),
        ensures
            *final(self) == *old(self),
            func == old(self).current_func.extracted(old(mem)@).0,
            final(mem).guards() == old(mem).guards(),
            final(mem)@ == (match old(self).current_func.extracted(old(mem)@).1 {
                Some(vars) => store_word(
                    old(mem)@,
                    old(self).stack_pointer + FRAME_FREE_VARS,
                    vars,
                ),
                None => old(mem)@,
            }),
    {
        let (func, object_ptrs) = self.current_func.extract_user_function(mem);
        if let Some(object_ptrs) = object_ptrs {
            mem.write_word(self.stack_pointer + FRAME_FREE_VARS, object_ptrs);
        }
        func
    }

    /// Replaces the current function by `func` and remembers the function that
    /// ran before.
    pub fn update_current_func(&mut self, mem: &Memory, func: FunctionObject)
        requires
            old(self).current_func.extractable(mem),
        ensures
            *final(self) == (LightWeightThreadContext {
                prev_func: old(self).current_func.extracted(mem@).0,
                current_func: func,
                ..*old(self)
            }),
    {
        self.prev_func = self.current_func.extract_user_function(mem).0;
        self.current_func = func;
    }

    /// The identifier of the thread.
    pub fn id(&self) -> (id: usize)
        ensures
            id == self.id,
    {
        self.id
    }

    /// Tells whether this is the main thread, whose identifier is zero.
    pub fn is_main(&self) -> (r: bool)
        ensures
            r == (self.id == 0),
    {
        self.id == 0
    }

    /// The handle on the shared state.
    pub fn global_context(&self) -> (handle: &GlobalContextPtr)
        ensures
            *handle == self.global_context,
    {
        &self.global_context
    }

    /// The address of the current frame.
    pub fn stack_pointer(&self) -> (sp: u64)
        ensures
            sp == self.stack_pointer,
    {
        self.stack_pointer
    }

    /// Tells whether the stack holds no frame.
    pub fn is_stack_empty(&self) -> (r: bool)
        requires
            self.wf(),
        ensures
            r == (self.initial_stack_pointer == self.stack_pointer),
    {
        self.initial_stack_pointer == self.stack_pointer
    }

    /// Parks the thread.
    pub fn suspend(&mut self)
        ensures
            final(self).suspended(),
            final(self).terminated() == old(self).terminated(),
            final(self).panicking() == old(self).panicking(),
            final(self).control_flags == old(self).control_flags | FLAG_SUSPENDED,
            *final(self) == (LightWeightThreadContext {
                control_flags: final(self).control_flags,
                ..*old(self)
            }),
    {
        let f = self.control_flags;
        assert((f | 1) & 1 != 0 && (f | 1) & 2 == f & 2 && (f | 1) & 4 == f & 4) by (bit_vector);
        self.control_flags = self.control_flags | 0b1;
    }

    /// Lets the thread run again.
    pub fn resume(&mut self)
        ensures
            !final(self).suspended(),
            final(self).terminated() == old(self).terminated(),
            final(self).panicking() == old(self).panicking(),
            final(self).control_flags == old(self).control_flags & !FLAG_SUSPENDED,
            *final(self) == (LightWeightThreadContext {
                control_flags: final(self).control_flags,
                ..*old(self)
            }),
    {
        let f = self.control_flags;
        assert((f & !1u64) & 1 == 0 && (f & !1u64) & 2 == f & 2 && (f & !1u64) & 4 == f & 4)
            by (bit_vector);
        self.control_flags = self.control_flags & !0b1;
    }

    /// Tells whether the thread is parked.
    pub fn is_suspended(&self) -> (r: bool)
        ensures
            r == self.suspended(),
    {
        self.control_flags & 0b1 > 0
    }

    /// Ends the thread.
    pub fn terminate(&mut self)
        ensures
            final(self).terminated(),
            final(self).suspended() == old(self).suspended(),
            final(self).panicking() == old(self).panicking(),
            final(self).control_flags == old(self).control_flags | FLAG_TERMINATED,
            *final(self) == (LightWeightThreadContext {
                control_flags: final(self).control_flags,
                ..*old(self)
            }),
    {
        let f = self.control_flags;
        assert((f | 2) & 2 != 0 && (f | 2) & 1 == f & 1 && (f | 2) & 4 == f & 4) by (bit_vector);
        self.control_flags = self.control_flags | 0b10;
    }

    /// Tells whether the thread has ended.
    pub fn is_terminated(&self) -> (r: bool)
        ensures
            r == self.terminated(),
    {
        self.control_flags & 0b10 > 0
    }

    /// Starts to unwind a panic with the payload `data`.
    pub fn enter_panic(&mut self, data: Interface)
        ensures
            final(self).panicking(),
            final(self).suspended() == old(self).suspended(),
            final(self).terminated() == old(self).terminated(),
            final(self).control_flags == old(self).control_flags | FLAG_PANICKING,
            *final(self) == (LightWeightThreadContext {
                control_flags: final(self).control_flags,
                panic_data: data,
                ..*old(self)
            }),
    {
        let f = self.control_flags;
        assert((f | 4) & 4 != 0 && (f | 4) & 1 == f & 1 && (f | 4) & 2 == f & 2) by (bit_vector);
        self.control_flags = self.control_flags | 0b100;
        self.panic_data = data;
    }

    /// Stops unwinding and hands back the payload of the panic.
    pub fn exit_panic(&mut self) -> (data: Interface)
        requires
            old(self).panicking(),
        ensures
            data == old(self).panic_data,
            !final(self).panicking(),
            final(self).suspended() == old(self).suspended(),
            final(self).terminated() == old(self).terminated(),
            final(self).control_flags == old(self).control_flags & !FLAG_PANICKING,
            *final(self) == (LightWeightThreadContext {
                control_flags: final(self).control_flags,
                ..*old(self)
            }),
    {
        let f = self.control_flags;
        assert((f & !4u64) & 4 == 0 && (f & !4u64) & 1 == f & 1 && (f & !4u64) & 2 == f & 2)
            by (bit_vector);
        self.control_flags = self.control_flags & !0b100;
        self.panic_data
    }

    /// Tells whether the thread is unwinding a panic.
    pub fn is_panicking(&self) -> (r: bool)
        ensures
            r == self.panicking(),
    {
        self.control_flags & 0b100 > 0
    }
}

} // verus!
