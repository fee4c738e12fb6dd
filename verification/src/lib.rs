//! A cooperative runtime for light-weight threads with explicit stack frames,
//! channels, deferred calls, panics, closures and interfaces.
//!
//! All state that compiled code shares with the runtime lives in one flat
//! address space (`memory::Memory`). Function objects, object pointers and
//! type ids are words in that space.
pub mod memory;
pub mod word_chunk;
pub mod defer_stack;
pub mod type_id;
pub mod object;
pub mod global_context;
pub mod light_weight_thread;
pub mod api;

use vstd::prelude::*;
use crate::api::{Control, RuntimeFunction};
use crate::global_context::{GlobalContext, GlobalContextPtr};
use crate::light_weight_thread::{LightWeightThreadContext, pushed_frame, CONTEXT_MARKER,
    FRAME_FREE_VARS, FRAME_HEADER_SIZE};
use crate::memory::{Memory, ObjectAllocator, lemma_word_at_store_words_inside, store_word,
    store_words, word_at, words_at, zeros};
use crate::api::interface::{interface_at, load_interface};
use crate::object::interface::{Interface, search_table};
use crate::object::string::StringObject;
use crate::type_id::TypeId;

verus! {

/// The tag bit of a function object: set when it names a closure layout.
pub const CLOSURE_FLAG: u64 = 0x8000_0000_0000_0000;

/// Opaque address of a heap value. Zero is the null pointer.
#[derive(Clone, Copy, Debug, PartialEq, Eq, Structural)]
pub struct ObjectPtr(pub u64);

impl ObjectPtr {
    /// The null pointer.
    pub fn null() -> (p: ObjectPtr)
        ensures
            p.0 == 0,
    {
        ObjectPtr(0)
    }

    /// Tells whether this is the null pointer.
    pub fn is_null(&self) -> (r: bool)
        ensures
            r == (self.0 == 0),
    {
        self.0 == 0
    }
}

/// The address of a compiled function that takes a thread context and returns
/// the function to run next.
#[derive(Clone, Copy, Debug, PartialEq, Eq, Structural)]
pub struct UserFunction(pub u64);

impl UserFunction {
    /// Wraps the address of a compiled function.
    pub fn new(user_function: u64) -> (f: UserFunction)
        ensures
            f.0 == user_function,
    {
        UserFunction(user_function)
    }

    /// A code address leaves the tag bit free.
    pub open spec fn is_valid(&self) -> bool {
        self.0 < CLOSURE_FLAG
    }
}

/// A tagged word: a plain function address, or, with the top bit set, the
/// address of a closure layout.
#[derive(Clone, Copy, Debug, PartialEq, Eq, Structural)]
pub struct FunctionObject(pub u64);

impl FunctionObject {
    /// The function object of a plain function.
    pub fn from_user_function(user_function: UserFunction) -> (f: FunctionObject)
        ensures
            f.0 == user_function.0,
    {
        FunctionObject(user_function.0)
    }

    /// The function object of the closure layout at `closure_layout_ptr`.
    pub fn from_closure_layout_ptr(closure_layout_ptr: u64) -> (f: FunctionObject)
        requires
            closure_layout_ptr < CLOSURE_FLAG,
        ensures
            f.0 == closure_layout_ptr + CLOSURE_FLAG,
            f.is_closure(),
            f.layout_ptr() == closure_layout_ptr,
    {
        let flag: u64 = 1u64 << 63;
        assert(flag == 0x8000_0000_0000_0000u64) by (bit_vector)
            requires
                flag == 1u64 << 63,
        ;
        assert(closure_layout_ptr | 0x8000_0000_0000_0000u64 == closure_layout_ptr
            + 0x8000_0000_0000_0000u64) by (bit_vector)
            requires
                closure_layout_ptr < 0x8000_0000_0000_0000u64,
        ;
        FunctionObject(closure_layout_ptr | flag)
    }

    /// The null function object.
    pub fn new_null() -> (f: FunctionObject)
        ensures
            f.0 == 0,
    {
        FunctionObject(0)
    }

    /// The tag bit is set.
    pub open spec fn is_closure(&self) -> bool {
        self.0 >= CLOSURE_FLAG
    }

    /// The address of the closure layout that a tagged function object names.
    pub open spec fn layout_ptr(&self) -> u64 {
        (self.0 - CLOSURE_FLAG) as u64
    }

    /// What extraction yields in the store `m`: the function to call and, for a
    /// closure, the address of its captured variables.
    pub open spec fn extracted(&self, m: Seq<u8>) -> (UserFunction, Option<u64>) {
        if self.is_closure() {
            (
                UserFunction(word_at(m, self.layout_ptr() as int)),
                Some((self.layout_ptr() + 8) as u64),
            )
        } else {
            (UserFunction(self.0), None)
        }
    }

    /// The function object can be extracted in `mem`: a closure's layout is readable.
    pub open spec fn extractable(&self, mem: &Memory) -> bool {
        self.is_closure() ==> mem.accessible(self.layout_ptr(), 8)
    }

    /// Tells whether the function object can be extracted in `mem`.
    pub fn is_extractable(&self, mem: &Memory) -> (ok: bool)
        ensures
            ok == self.extractable(mem),
    {
        if self.0 >= CLOSURE_FLAG {
            mem.is_accessible(self.0 - CLOSURE_FLAG, 8)
        } else {
            true
        }
    }

    /// Splits the function object into the function to call and the address
    /// of the captured variables, if it is a closure.
    pub fn extract_user_function(&self, mem: &Memory) -> (r: (UserFunction, Option<u64>))
        requires
            self.extractable(mem),
        ensures
            r == self.extracted(mem@),
    {
        let addr = self.0;
        let flag: u64 = 1u64 << 63;
        assert(flag == 0x8000_0000_0000_0000u64) by (bit_vector)
            requires
                flag == 1u64 << 63,
        ;
        assert((addr & 0x8000_0000_0000_0000u64 == 0) <==> addr < 0x8000_0000_0000_0000u64)
            by (bit_vector);
        if (addr & flag) == 0 {
            return (UserFunction(addr), None);
        }
        assert(addr & !0x8000_0000_0000_0000u64 == addr - 0x8000_0000_0000_0000u64)
            by (bit_vector)
            requires
                addr >= 0x8000_0000_0000_0000u64,
        ;
        let ptr = addr & !flag;
        let func = UserFunction(mem.read_word(ptr));
        (func, Some(ptr + 8))
    }
}

/// A function together with the object pointers it captured.
pub struct ClosureLayout {
    pub func: UserFunction,
    pub object_ptrs: Vec<u64>,
}

impl ClosureLayout {
    /// Pairs a function with its captured pointers.
    pub fn new(func: UserFunction, object_ptrs: Vec<u64>) -> (layout: ClosureLayout)
        ensures
            layout.func == func,
            layout.object_ptrs@ == object_ptrs@,
    {
        ClosureLayout { func, object_ptrs }
    }

    /// The words of the layout: the function, then the captured pointers.
    pub open spec fn words(&self) -> Seq<u64> {
        seq![self.func.0] + self.object_ptrs@
    }

    /// The layout fits in `mem`.
    pub open spec fn storable(&self, mem: &Memory) -> bool {
        &&& mem.wf()
        &&& 8 * (self.object_ptrs@.len() + 1) <= u64::MAX
        &&& mem.can_allocate((8 * (self.object_ptrs@.len() + 1)) as u64)
    }

    /// Places the layout in fresh storage and returns its function object.
    /// Extracting that object yields the function and the address of a copy of
    /// the captured pointers.
    pub fn store(&self, mem: &mut Memory) -> (f: FunctionObject)
        requires
            self.storable(old(mem)),
        ensures
            final(mem).wf(),
            final(mem).guards() == old(mem).guards(),
            f.is_closure(),
            f.layout_ptr() == old(mem)@.len(),
            final(mem)@ == store_words(
                old(mem)@ + zeros(8 * (self.object_ptrs@.len() + 1) as int),
                old(mem)@.len() as int,
                self.words(),
            ),
            final(mem).accessible(f.layout_ptr(), (8 * (self.object_ptrs@.len() + 1)) as u64),
            f.extracted(final(mem)@) == (self.func, Some((old(mem)@.len() + 8) as u64)),
            words_at(final(mem)@, (old(mem)@.len() + 8) as int, self.object_ptrs@.len() as int)
                == self.object_ptrs@,
    {
        let n = self.object_ptrs.len();
        let size = 8 * (n as u64 + 1);
        let ptr = mem.allocate(size, 0);
        let mut words: Vec<u64> = Vec::new();
        words.push(self.func.0);
        let mut i: usize = 0;
        while i < n
            invariant
                i <= n,
                n == self.object_ptrs@.len(),
                words@ == seq![self.func.0] + self.object_ptrs@.subrange(0, i as int),
            decreases n - i,
        {
            words.push(self.object_ptrs[i]);
            i = i + 1;
        }
        assert(self.object_ptrs@.subrange(0, n as int) =~= self.object_ptrs@);
        let ghost grown = mem@;
        mem.write_words(ptr, &words);
        proof {
            lemma_word_at_store_words_inside(grown, ptr as int, words@, 0);
            assert forall|k: int| 0 <= k < n implies word_at(mem@, ptr + 8 + 8 * k)
                == self.object_ptrs@[k] by {
                lemma_word_at_store_words_inside(grown, ptr as int, words@, k + 1);
            }
        }
        FunctionObject::from_closure_layout_ptr(ptr)
    }
}

/// Extracting the function object of a plain function yields that function and
/// no captured variables, whatever the store holds.
pub proof fn lemma_extract_plain_function(f: UserFunction, m: Seq<u8>)
    requires
        f.is_valid(),
    ensures
        FunctionObject(f.0).extracted(m) == (f, None::<u64>),
{
}

/// Number of pages of the stack of a thread.
pub const STACK_PAGES: u64 = 10;

/// Size in bytes of the stack of a thread.
pub const STACK_BYTES: u64 = 40960;

/// Size in bytes of the stack of a thread together with its guard page.
pub const STACK_REGION_BYTES: u64 = 45056;

/// `terminate` ran from the frame of `ctx` and left `ctx_after` and `next`.
pub open spec fn terminate_done(
    ctx: &LightWeightThreadContext,
    ctx_after: &LightWeightThreadContext,
    next: Control,
) -> bool {
    &&& ctx_after.suspended()
    &&& ctx_after.terminated()
    &&& ctx_after.panicking() == ctx.panicking()
    &&& *ctx_after == (LightWeightThreadContext {
        control_flags: ctx_after.control_flags,
        ..*ctx
    })
    &&& ctx.id == 0 ==> next == Control::Exit(0)
    &&& ctx.id != 0 ==> next == Control::Next(
        FunctionObject(RuntimeFunction::Terminate.spec_address()),
    )
}

/// Ends the running thread: it is suspended and marked as terminated. When
/// the main thread ends, the process ends with status 0; another thread would
/// run this function again if it were resumed.
pub fn terminate(ctx: &mut LightWeightThreadContext) -> (next: Control)
    ensures
        terminate_done(old(ctx), final(ctx), next),
{
    ctx.suspend();
    ctx.terminate();
    if ctx.is_main() {
        return Control::Exit(0);
    }
    Control::Next(RuntimeFunction::Terminate.function_object())
}

/// Creates a thread that will start with `entry_func`: it gets the next
/// identifier and a fresh stack behind a guard page.
pub fn create_light_weight_thread_context(
    gc: &mut GlobalContext,
    global_context: GlobalContextPtr,
    entry_func: FunctionObject,
) -> (ctx: LightWeightThreadContext)
    requires
        old(gc).wf(),
        old(gc).created_light_weight_thread_count < usize::MAX,
        old(gc).allocator.can_allocate(STACK_REGION_BYTES),
    ensures
        final(gc).wf(),
        final(gc).allocator@ == old(gc).allocator@ + zeros(STACK_REGION_BYTES as int),
        final(gc).allocator.guards() == old(gc).allocator.guards().push(
            old(gc).allocator@.len() as u64,
        ),
        final(gc).allocator.accessible((old(gc).allocator@.len() + 4096) as u64, STACK_BYTES),
        final(gc).created_light_weight_thread_count == old(gc).created_light_weight_thread_count
            + 1,
        final(gc).handle_count == old(gc).handle_count,
        final(gc).ready_queue@ == old(gc).ready_queue@,
        final(gc).channels == old(gc).channels,
        final(gc).maps == old(gc).maps,
        ctx == (LightWeightThreadContext {
            stack_pointer: (old(gc).allocator@.len() + 4096) as u64,
            prev_func: UserFunction(RuntimeFunction::Terminate.spec_address()),
            marker: CONTEXT_MARKER,
            id: old(gc).created_light_weight_thread_count,
            global_context,
            current_func: entry_func,
            control_flags: 0,
            panic_data: Interface { receiver: ObjectPtr(0), type_id: TypeId(0) },
            initial_stack_pointer: (old(gc).allocator@.len() + 4096) as u64,
        }),
        !ctx.suspended(),
        !ctx.terminated(),
        !ctx.panicking(),
{
    let id = gc.issue_light_weight_thread_id();
    let stack_start_addr = gc.allocator.allocate_guarded_pages(STACK_PAGES);
    let prev_func = RuntimeFunction::Terminate.user_function();
    LightWeightThreadContext::new(id, global_context, stack_start_addr, entry_func, prev_func)
}

/// The frame of `ctx` and the state `gc` are such that `enter_main` can run.
pub open spec fn enter_main_ready(ctx: &LightWeightThreadContext, gc: &GlobalContext) -> bool {
    &&& ctx.callable(&gc.allocator, FRAME_HEADER_SIZE, 0, 0)
}

/// `enter_main` ran from the frame of `ctx` and left `ctx_after` and `next`.
pub open spec fn enter_main_done(
    ctx: &LightWeightThreadContext,
    gc: &GlobalContext,
    ctx_after: &LightWeightThreadContext,
    gc_after: &GlobalContext,
    entry_point: UserFunction,
    next: FunctionObject,
) -> bool {
    &&& next.0 == entry_point.0
    &&& gc_after.same_tables(gc)
    &&& gc_after.allocator.guards() == gc.allocator.guards()
    &&& gc.wf() ==> gc_after.wf()
    &&& gc_after.allocator@ == pushed_frame(
        gc.allocator@,
        ctx.stack_pointer + FRAME_HEADER_SIZE,
        FunctionObject(RuntimeFunction::Terminate.spec_address()),
        ctx.stack_pointer,
        None,
        Seq::empty(),
    )
    &&& *ctx_after == (LightWeightThreadContext {
        stack_pointer: (ctx.stack_pointer + FRAME_HEADER_SIZE) as u64,
        ..*ctx
    })
}

/// Calls the entry point of the program from the frame of the main thread,
/// with the end of the thread as the function to resume.
pub fn enter_main(
    ctx: &mut LightWeightThreadContext,
    gc: &mut GlobalContext,
    entry_point: UserFunction,
) -> (next: FunctionObject)
    requires
        enter_main_ready(old(ctx), old(gc)),
    ensures
        enter_main_done(old(ctx), old(gc), final(ctx), final(gc), entry_point, next),
{
    let args: Vec<u64> = Vec::new();
    ctx.call(
        &mut gc.allocator,
        FRAME_HEADER_SIZE,
        0,
        &args,
        RuntimeFunction::Terminate.function_object(),
    );
    FunctionObject::from_user_function(entry_point)
}

/// Makes the main thread and puts it in the ready queue. It starts with
/// `init_point`, the initialisation of the program, and resumes with the
/// function that calls the entry point.
pub fn start_main_thread(gc: &mut GlobalContext, init_point: UserFunction)
    requires
        old(gc).wf(),
        old(gc).created_light_weight_thread_count < usize::MAX,
        old(gc).handle_count < usize::MAX,
        old(gc).allocator.can_allocate(STACK_REGION_BYTES),
    ensures
        final(gc).wf(),
        final(gc).created_light_weight_thread_count == old(gc).created_light_weight_thread_count
            + 1,
        final(gc).handle_count == old(gc).handle_count + 1,
        final(gc).allocator.guards() == old(gc).allocator.guards().push(
            old(gc).allocator@.len() as u64,
        ),
        final(gc).allocator@ == pushed_frame(
            old(gc).allocator@ + zeros(STACK_REGION_BYTES as int),
            old(gc).allocator@.len() + 4096 + FRAME_HEADER_SIZE + 8,
            FunctionObject(RuntimeFunction::EnterMain.spec_address()),
            (old(gc).allocator@.len() + 4096) as u64,
            Some((old(gc).allocator@.len() + 4096 + FRAME_HEADER_SIZE) as u64),
            Seq::empty(),
        ),
        final(gc).ready_queue@ == old(gc).ready_queue@.push(
            LightWeightThreadContext {
                stack_pointer: (old(gc).allocator@.len() + 4096 + FRAME_HEADER_SIZE + 8) as u64,
                prev_func: UserFunction(RuntimeFunction::Terminate.spec_address()),
                marker: CONTEXT_MARKER,
                id: old(gc).created_light_weight_thread_count,
                global_context: GlobalContextPtr {  },
                current_func: FunctionObject(init_point.0),
                control_flags: 0,
                panic_data: Interface { receiver: ObjectPtr(0), type_id: TypeId(0) },
                initial_stack_pointer: (old(gc).allocator@.len() + 4096) as u64,
            },
        ),
        final(gc).channel_views() == old(gc).channel_views(),
        final(gc).maps@ == old(gc).maps@,
{
    let handle = GlobalContextPtr::from(gc);
    let init_func = FunctionObject::from_user_function(init_point);
    let mut ctx = create_light_weight_thread_context(gc, handle, init_func);
    let args: Vec<u64> = Vec::new();
    ctx.call(
        &mut gc.allocator,
        FRAME_HEADER_SIZE,
        8,
        &args,
        RuntimeFunction::EnterMain.function_object(),
    );
    gc.push_light_weight_thread(ctx);
}

/// What is to be invoked next on a thread.
#[derive(Clone, Copy, Debug, PartialEq, Eq, Structural)]
pub enum Invocation {
    /// A function of the runtime.
    Runtime(RuntimeFunction),
    /// A compiled function.
    User(UserFunction),
}

/// Starts a turn of a thread that has not ended: it is no longer suspended.
pub fn begin_execute(ctx: &mut LightWeightThreadContext)
    requires
        !old(ctx).terminated(),
    ensures
        !final(ctx).suspended(),
        !final(ctx).terminated(),
        final(ctx).panicking() == old(ctx).panicking(),
        *final(ctx) == (LightWeightThreadContext {
            control_flags: final(ctx).control_flags,
            ..*old(ctx)
        }),
{
    ctx.resume();
}

/// The next step of the turn of a thread. A suspended thread has none: its
/// turn is over. Otherwise the current function is made ready, and is to be
/// invoked: a function of the runtime if its address is one of theirs, and a
/// compiled function if not.
pub fn next_invocation(ctx: &mut LightWeightThreadContext, gc: &mut GlobalContext) -> (step:
    Option<Invocation>)
    requires
        !old(ctx).suspended() ==> old(ctx).preparable(&old(gc).allocator),
    ensures
        *final(ctx) == *old(ctx),
        final(gc).same_tables(old(gc)),
        final(gc).allocator.guards() == old(gc).allocator.guards(),
        old(gc).wf() ==> final(gc).wf(),
        old(ctx).suspended() ==> step is None && final(gc).allocator@ == old(gc).allocator@,
        !old(ctx).suspended() ==> {
            let extracted = old(ctx).current_func.extracted(old(gc).allocator@);
            &&& final(gc).allocator@ == (match extracted.1 {
                Some(vars) => store_word(
                    old(gc).allocator@,
                    old(ctx).stack_pointer + FRAME_FREE_VARS,
                    vars,
                ),
                None => old(gc).allocator@,
            })
            &&& match step {
                Some(Invocation::Runtime(function)) => function.spec_address() == extracted.0.0,
                Some(Invocation::User(function)) => function == extracted.0 && forall|
                    g: RuntimeFunction,
                | g.spec_address() != function.0,
                None => false,
            }
        },
{
    if ctx.is_suspended() {
        return None;
    }
    let func = ctx.prepare_user_function(&mut gc.allocator);
    match RuntimeFunction::from_address(func.0) {
        Some(function) => Some(Invocation::Runtime(function)),
        None => Some(Invocation::User(func)),
    }
}

/// Ends a step of the turn of a thread: the function that the invoked
/// function returned becomes the current function.
pub fn finish_invocation(
    ctx: &mut LightWeightThreadContext,
    gc: &GlobalContext,
    next: FunctionObject,
)
    requires
        old(ctx).current_func.extractable(&gc.allocator),
    ensures
        *final(ctx) == (LightWeightThreadContext {
            prev_func: old(ctx).current_func.extracted(gc.allocator@).0,
            current_func: next,
            ..*old(ctx)
        }),
{
    ctx.update_current_func(&gc.allocator, next);
}

/// Takes the thread whose turn it is: the one at the front of the ready queue.
pub fn schedule(gc: &mut GlobalContext) -> (ctx: Option<LightWeightThreadContext>)
    ensures
        old(gc).ready_queue@.len() == 0 ==> ctx is None
            && final(gc).ready_queue@ == old(gc).ready_queue@,
        old(gc).ready_queue@.len() > 0 ==> ctx == Some(old(gc).ready_queue@[0])
            && final(gc).ready_queue@ == old(gc).ready_queue@.skip(1),
        final(gc).created_light_weight_thread_count == old(gc).created_light_weight_thread_count,
        final(gc).handle_count == old(gc).handle_count,
        final(gc).allocator == old(gc).allocator,
        final(gc).channels == old(gc).channels,
        final(gc).maps == old(gc).maps,
{
    gc.pop_light_weight_thread()
}

/// Ends the turn of a thread: unless it has ended, it goes to the back of the
/// ready queue.
pub fn reschedule(gc: &mut GlobalContext, ctx: LightWeightThreadContext)
    ensures
        ctx.terminated() ==> final(gc).ready_queue@ == old(gc).ready_queue@,
        !ctx.terminated() ==> final(gc).ready_queue@ == old(gc).ready_queue@.push(ctx),
        final(gc).created_light_weight_thread_count == old(gc).created_light_weight_thread_count,
        final(gc).handle_count == old(gc).handle_count,
        final(gc).allocator == old(gc).allocator,
        final(gc).channels == old(gc).channels,
        final(gc).maps == old(gc).maps,
{
    if !ctx.is_terminated() {
        gc.push_light_weight_thread(ctx);
    }
}

/// Looks `method_name` up in the method table of the type of the interface
/// value at `interface`. Returns the first method of that name, or the null
/// function object if there is none.
pub fn gox5_search_method(mem: &Memory, interface: u64, method_name: StringObject) -> (method:
    FunctionObject)
    requires
        mem.accessible(interface, 16),
        interface_at(mem@, interface as int).type_id.table_readable(mem),
    ensures
        method == (match search_table(
            interface_at(mem@, interface as int).type_id.table_in(mem@),
            method_name,
        ) {
            Some(found) => found,
            None => FunctionObject(0),
        }),
{
    let interface = load_interface(mem, interface);
    match interface.search(mem, method_name) {
        Some(method) => method,
        None => FunctionObject::new_null(),
    }
}

} // verus!
