use gox5_runtime::api::{checked_dispatch, Control, RuntimeFunction};
use gox5_runtime::create_light_weight_thread_context;
use gox5_runtime::global_context::{create_global_context, GlobalContext, GlobalContextPtr};
use gox5_runtime::light_weight_thread::LightWeightThreadContext;
use gox5_runtime::memory::{ObjectAllocator, Memory};
use gox5_runtime::{begin_execute, finish_invocation, next_invocation, reschedule, schedule,
    start_main_thread, FunctionObject, Invocation, ObjectPtr, UserFunction};

/// Bytes that every compiled function of these tests reserves for its frame:
/// the header and four local words.
const FRAME: u64 = 64;

type Code = Box<dyn FnMut(&mut LightWeightThreadContext, &mut GlobalContext, &mut Vec<String>) -> FunctionObject>;

struct Program {
    code: Vec<(u64, Code)>,
    entry_point: u64,
}

impl Program {
    fn new(entry_point: u64) -> Self {
        Program { code: Vec::new(), entry_point }
    }

    fn define<F>(&mut self, addr: u64, f: F)
    where
        F: FnMut(&mut LightWeightThreadContext, &mut GlobalContext, &mut Vec<String>) -> FunctionObject
            + 'static,
    {
        self.code.push((addr, Box::new(f)));
    }
}

fn words_equal(_func: u64, mem: &Memory, a: ObjectPtr, b: ObjectPtr) -> bool {
    mem.read_word(a.0) == mem.read_word(b.0)
}

/// What a function of the runtime or a compiled function hands back.
fn invoke(
    step: Invocation,
    ctx: &mut LightWeightThreadContext,
    gc: &mut GlobalContext,
    program: &mut Program,
    out: &mut Vec<String>,
) -> Control {
    match step {
        Invocation::Runtime(function) => checked_dispatch(
            function,
            ctx,
            gc,
            UserFunction::new(program.entry_point),
            &words_equal,
        )
        .expect("a frame that the runtime cannot work on"),
        Invocation::User(function) => {
            let code = program
                .code
                .iter_mut()
                .find(|(addr, _)| *addr == function.0)
                .expect("a function that the program does not define");
            Control::Next((code.1)(ctx, gc, out))
        }
    }
}

/// Runs the threads of the ready queue until the process ends or no thread is left.
fn run(gc: &mut GlobalContext, program: &mut Program, out: &mut Vec<String>) -> Option<i32> {
    let mut steps = 0;
    while let Some(mut ctx) = schedule(gc) {
        begin_execute(&mut ctx);
        loop {
            assert!(ctx.is_suspended() || ctx.is_preparable(&gc.allocator));
            let Some(step) = next_invocation(&mut ctx, gc) else {
                break;
            };
            steps += 1;
            assert!(steps < 100_000, "the program does not end");
            match invoke(step, &mut ctx, gc, program, out) {
                Control::Next(next) => finish_invocation(&mut ctx, gc, next),
                Control::Exit(status) => return Some(status),
                Control::UncaughtPanic(payload) => {
                    out.push(String::from_utf8(payload.panic_message()).unwrap());
                    return Some(1);
                }
            }
        }
        reschedule(gc, ctx);
    }
    None
}

fn machine() -> GlobalContext {
    create_global_context(Memory::new())
}

/// Calls a function of the runtime as compiled code does: a frame with the
/// arguments is pushed above the caller's, and the function is returned to
/// the scheduler.
fn call(
    ctx: &mut LightWeightThreadContext,
    gc: &mut GlobalContext,
    function: RuntimeFunction,
    result_size: u64,
    args: &[u64],
    resume: u64,
) -> FunctionObject {
    ctx.call(&mut gc.allocator, FRAME, result_size, &args.to_vec(), FunctionObject(resume));
    function.function_object()
}

fn call_user(
    ctx: &mut LightWeightThreadContext,
    gc: &mut GlobalContext,
    function: u64,
    args: &[u64],
    resume: u64,
) -> FunctionObject {
    ctx.call(&mut gc.allocator, FRAME, 0, &args.to_vec(), FunctionObject(resume));
    FunctionObject(function)
}

/// The address at which the result of the last call of the current frame stands.
fn result_slot(ctx: &LightWeightThreadContext) -> u64 {
    ctx.stack_pointer() + FRAME
}

fn ret(ctx: &mut LightWeightThreadContext, gc: &mut GlobalContext) -> FunctionObject {
    ctx.leave(&gc.allocator)
}

const INIT: u64 = 0x1000;
const MAIN: u64 = 0x2000;

fn program_with_init() -> Program {
    let mut program = Program::new(MAIN);
    program.define(INIT, |ctx, gc, _| ret(ctx, gc));
    program
}

fn start(gc: &mut GlobalContext) {
    start_main_thread(gc, UserFunction::new(INIT));
}

fn cell(gc: &mut GlobalContext, value: u64) -> u64 {
    let p = gc.allocator.allocate(8, 0);
    gc.allocator.write_word(p, value);
    p
}

fn make_type(gc: &mut GlobalContext, size: u64, methods: &[(u64, u64)]) -> u64 {
    let table = gc.allocator.allocate(16 * methods.len() as u64, 0);
    for (i, (name, func)) in methods.iter().enumerate() {
        gc.allocator.write_word(table + 16 * i as u64, *name);
        gc.allocator.write_word(table + 16 * i as u64 + 8, *func);
    }
    let t = gc.allocator.allocate(48, 0);
    gc.allocator.write_word(t + 8, methods.len() as u64);
    gc.allocator.write_word(t + 16, table);
    gc.allocator.write_word(t + 24, 0x9001);
    gc.allocator.write_word(t + 32, 0x9002);
    gc.allocator.write_word(t + 40, size);
    t
}

#[test]
fn test_create_light_weight_thread_context() {
    let mut gc = machine();
    let global_context = GlobalContextPtr::from(&mut gc);
    let func = FunctionObject::from_user_function(UserFunction::new(0x4000));
    let duplicate = global_context.dupulicate(&mut gc);
    let ctx = create_light_weight_thread_context(&mut gc, duplicate, func);
    assert_eq!(ctx.id(), 0);
    assert!(ctx.is_main());
    assert_eq!(ctx.global_context(), &global_context);
    assert!(ctx.is_stack_empty());
    assert!(!ctx.is_suspended());
    assert!(!ctx.is_terminated());
    assert!(!ctx.is_panicking());
}

#[test]
fn thread_ids_count_up_and_stacks_are_guarded() {
    let mut gc = machine();
    let handle = GlobalContextPtr::from(&mut gc);
    let duplicate = handle.dupulicate(&mut gc);
    let first = create_light_weight_thread_context(&mut gc, handle, FunctionObject::new_null());
    let second =
        create_light_weight_thread_context(&mut gc, duplicate, FunctionObject::new_null());
    assert_eq!(first.id(), 0);
    assert_eq!(second.id(), 1);
    assert!(!second.is_main());
    // the null word, then a guard page, then ten pages of stack
    assert_eq!(first.stack_pointer(), 8 + 4096);
    assert_eq!(second.stack_pointer(), 8 + 11 * 4096 + 4096);
    assert!(gc.allocator.is_accessible(first.stack_pointer(), 40960));
    assert!(!gc.allocator.is_accessible(first.stack_pointer() - 1, 1));
    assert!(!gc.allocator.is_accessible(8, 4096));
    assert!(!gc.allocator.is_accessible(first.stack_pointer() + 40959, 2));
    // the null word is never accessed
    assert!(!gc.allocator.is_accessible(0, 8));
    assert!(!gc.allocator.is_accessible(7, 1));
    assert!(gc.allocator.is_accessible(0, 0));
}

#[test]
fn yield_ordering() {
    const MAIN_1: u64 = 0x2001;
    const MAIN_2: u64 = 0x2002;
    const B: u64 = 0x3000;
    let mut gc = machine();
    let mut program = program_with_init();
    program.define(MAIN, |ctx, gc, out| {
        out.push("A".to_string());
        call(ctx, gc, RuntimeFunction::LwtSpawn, 0, &[B, 0, 0], MAIN_1)
    });
    program.define(MAIN_1, |ctx, gc, _| call(ctx, gc, RuntimeFunction::LwtYield, 0, &[], MAIN_2));
    program.define(MAIN_2, |ctx, gc, out| {
        out.push("C".to_string());
        ret(ctx, gc)
    });
    program.define(B, |ctx, gc, out| {
        out.push("B".to_string());
        ret(ctx, gc)
    });
    start(&mut gc);
    let mut out = Vec::new();
    let status = run(&mut gc, &mut program, &mut out);
    assert_eq!(out, vec!["A", "B", "C"]);
    assert_eq!(status, Some(0));
}

#[test]
fn spawned_thread_gets_its_arguments_and_runs_before_its_parent_goes_on() {
    const MAIN_1: u64 = 0x2001;
    const MAIN_2: u64 = 0x2002;
    const MAIN_3: u64 = 0x2003;
    const WORKER: u64 = 0x3000;
    let mut gc = machine();
    let mut program = program_with_init();
    program.define(MAIN, |ctx, gc, _| {
        call(ctx, gc, RuntimeFunction::LwtSpawn, 0, &[WORKER, 0, 2, 10, 20], MAIN_1)
    });
    program.define(MAIN_1, |ctx, gc, _| {
        call(ctx, gc, RuntimeFunction::LwtSpawn, 0, &[WORKER, 0, 2, 30, 40], MAIN_2)
    });
    program.define(MAIN_2, |ctx, gc, out| {
        out.push("main".to_string());
        call(ctx, gc, RuntimeFunction::LwtYield, 0, &[], MAIN_3)
    });
    program.define(MAIN_3, |ctx, gc, _| ret(ctx, gc));
    program.define(WORKER, |ctx, gc, out| {
        let a = ctx.frame_word(&gc.allocator, 4);
        let b = ctx.frame_word(&gc.allocator, 5);
        out.push(format!("worker {} {} {}", ctx.id(), a, b));
        ret(ctx, gc)
    });
    start(&mut gc);
    let mut out = Vec::new();
    let status = run(&mut gc, &mut program, &mut out);
    assert_eq!(out, vec!["worker 1 10 20", "worker 2 30 40", "main"]);
    assert_eq!(status, Some(0));
}

#[test]
fn defer_lifo() {
    const MAIN_1: u64 = 0x2001;
    const F: u64 = 0x3000;
    const F_1: u64 = 0x3001;
    const F_2: u64 = 0x3002;
    const F_3: u64 = 0x3003;
    const F_4: u64 = 0x3004;
    const PRINT: u64 = 0x4000;
    let mut gc = machine();
    let mut program = program_with_init();
    program.define(MAIN, |ctx, gc, _| call_user(ctx, gc, F, &[], MAIN_1));
    program.define(MAIN_1, |ctx, gc, out| {
        out.push("done".to_string());
        ret(ctx, gc)
    });
    program.define(F, |ctx, gc, _| {
        call(ctx, gc, RuntimeFunction::DeferRegister, 0, &[PRINT, 0, 1, 1], F_1)
    });
    program.define(F_1, |ctx, gc, _| {
        call(ctx, gc, RuntimeFunction::DeferRegister, 0, &[PRINT, 0, 1, 2], F_2)
    });
    program.define(F_2, |ctx, gc, _| {
        call(ctx, gc, RuntimeFunction::DeferRegister, 0, &[PRINT, 0, 1, 3], F_3)
    });
    program.define(F_3, |ctx, gc, _| call(ctx, gc, RuntimeFunction::DeferExecute, 0, &[], F_4));
    program.define(F_4, |ctx, gc, _| ret(ctx, gc));
    program.define(PRINT, |ctx, gc, out| {
        out.push(ctx.frame_word(&gc.allocator, 4).to_string());
        ret(ctx, gc)
    });
    start(&mut gc);
    let mut out = Vec::new();
    let status = run(&mut gc, &mut program, &mut out);
    assert_eq!(out, vec!["3", "2", "1", "done"]);
    assert_eq!(status, Some(0));
}

#[test]
fn deferred_call_sees_arguments_as_registered() {
    const MAIN_1: u64 = 0x2001;
    const MAIN_2: u64 = 0x2002;
    const PRINT: u64 = 0x4000;
    let mut gc = machine();
    let mut program = program_with_init();
    program.define(MAIN, |ctx, gc, _| {
        let next = call(ctx, gc, RuntimeFunction::DeferRegister, 0, &[PRINT, 8, 2, 7, 9], MAIN_1);
        next
    });
    program.define(MAIN_1, |ctx, gc, _| {
        // the frame that registered the call is gone; write over where its
        // arguments stood before the deferred call runs
        let scratch = result_slot(ctx);
        for i in 0..12 {
            gc.allocator.write_word(scratch + 8 * i, 0xdead);
        }
        call(ctx, gc, RuntimeFunction::DeferExecute, 0, &[], MAIN_2)
    });
    program.define(MAIN_2, |ctx, gc, _| ret(ctx, gc));
    program.define(PRINT, |ctx, gc, out| {
        // a deferred call with a result gets a result pointer before its arguments
        let result = ctx.frame_word(&gc.allocator, 4);
        let a = ctx.frame_word(&gc.allocator, 5);
        let b = ctx.frame_word(&gc.allocator, 6);
        out.push(format!("{} {} {}", result != 0, a, b));
        ret(ctx, gc)
    });
    start(&mut gc);
    let mut out = Vec::new();
    let status = run(&mut gc, &mut program, &mut out);
    assert_eq!(out, vec!["true 7 9"]);
    assert_eq!(status, Some(0));
}

#[test]
fn panic_recover() {
    const MAIN_1: u64 = 0x2001;
    const F: u64 = 0x3000;
    const F_1: u64 = 0x3001;
    const F_2: u64 = 0x3002;
    const D: u64 = 0x4000;
    const D_1: u64 = 0x4001;
    let mut gc = machine();
    let oops = cell(&mut gc, 0x6f6f7073);
    let string_type = make_type(&mut gc, 8, &[]);
    let mut program = program_with_init();
    program.define(MAIN, |ctx, gc, _| call_user(ctx, gc, F, &[], MAIN_1));
    program.define(MAIN_1, |ctx, gc, out| {
        out.push(format!("caller panicking: {}", ctx.is_panicking()));
        ret(ctx, gc)
    });
    program.define(F, |ctx, gc, _| {
        call(ctx, gc, RuntimeFunction::DeferRegister, 0, &[D, 0, 0], F_1)
    });
    program.define(F_1, move |ctx, gc, _| {
        call(ctx, gc, RuntimeFunction::PanicRaise, 0, &[oops, string_type], F_2)
    });
    program.define(F_2, |ctx, gc, out| {
        out.push("not reached".to_string());
        ret(ctx, gc)
    });
    program.define(D, |ctx, gc, out| {
        out.push(format!("deferred panicking: {}", ctx.is_panicking()));
        call(ctx, gc, RuntimeFunction::PanicRecover, 16, &[], D_1)
    });
    program.define(D_1, move |ctx, gc, out| {
        let slot = result_slot(ctx);
        let receiver = gc.allocator.read_word(slot);
        let type_id = gc.allocator.read_word(slot + 8);
        assert_eq!(receiver, oops);
        assert_eq!(type_id, string_type);
        out.push(format!("recovered {:x}", gc.allocator.read_word(receiver)));
        ret(ctx, gc)
    });
    start(&mut gc);
    let mut out = Vec::new();
    let status = run(&mut gc, &mut program, &mut out);
    assert_eq!(
        out,
        vec!["deferred panicking: true", "recovered 6f6f7073", "caller panicking: false"]
    );
    assert_eq!(status, Some(0));
}

#[test]
fn recover_without_panic_yields_nil() {
    const MAIN_1: u64 = 0x2001;
    let mut gc = machine();
    let mut program = program_with_init();
    program.define(MAIN, |ctx, gc, _| {
        let slot = result_slot(ctx);
        gc.allocator.write_word(slot, 77);
        gc.allocator.write_word(slot + 8, 78);
        call(ctx, gc, RuntimeFunction::PanicRecover, 16, &[], MAIN_1)
    });
    program.define(MAIN_1, |ctx, gc, out| {
        let slot = result_slot(ctx);
        out.push(format!(
            "{} {}",
            gc.allocator.read_word(slot),
            gc.allocator.read_word(slot + 8)
        ));
        ret(ctx, gc)
    });
    start(&mut gc);
    let mut out = Vec::new();
    let status = run(&mut gc, &mut program, &mut out);
    assert_eq!(out, vec!["0 0"]);
    assert_eq!(status, Some(0));
}

#[test]
fn uncaught_panic_unwinds_all_frames_and_ends_with_status_one() {
    const MAIN_1: u64 = 0x2001;
    const F: u64 = 0x3000;
    const F_1: u64 = 0x3001;
    const F_2: u64 = 0x3002;
    const D: u64 = 0x4000;
    let mut gc = machine();
    let mut program = program_with_init();
    program.define(MAIN, |ctx, gc, _| {
        call(ctx, gc, RuntimeFunction::DeferRegister, 0, &[D, 0, 1, 1], MAIN_1)
    });
    program.define(MAIN_1, |ctx, gc, _| call_user(ctx, gc, F, &[], 0x2002));
    program.define(F, |ctx, gc, _| {
        call(ctx, gc, RuntimeFunction::DeferRegister, 0, &[D, 0, 1, 2], F_1)
    });
    program.define(F_1, |ctx, gc, _| call(ctx, gc, RuntimeFunction::PanicRaise, 0, &[0, 0], F_2));
    program.define(F_2, |ctx, gc, _| ret(ctx, gc));
    program.define(D, |ctx, gc, out| {
        out.push(format!("deferred {}", ctx.frame_word(&gc.allocator, 4)));
        ret(ctx, gc)
    });
    start(&mut gc);
    let mut out = Vec::new();
    let status = run(&mut gc, &mut program, &mut out);
    assert_eq!(out, vec!["deferred 2", "deferred 1", "panic: nil"]);
    assert_eq!(status, Some(1));
}

#[test]
fn uncaught_panic_with_a_payload_ends_with_the_payload_and_status_one() {
    const MAIN_1: u64 = 0x2001;
    let mut gc = machine();
    let mut program = program_with_init();
    program.define(MAIN, |ctx, gc, _| {
        call(ctx, gc, RuntimeFunction::PanicRaise, 0, &[0x1234_5678_9abc_def0, 0x4020], MAIN_1)
    });
    program.define(MAIN_1, |ctx, gc, _| ret(ctx, gc));
    start(&mut gc);
    let mut out = Vec::new();
    let status = run(&mut gc, &mut program, &mut out);
    assert_eq!(out, vec!["panic: (0x0000000000004020,0x123456789abcdef0)"]);
    assert_eq!(status, Some(1));
}

#[test]
fn ready_queue_is_first_in_first_out() {
    let mut gc = machine();
    for _ in 0..3 {
        let handle = GlobalContextPtr::from(&mut gc);
        let ctx = create_light_weight_thread_context(&mut gc, handle, FunctionObject::new_null());
        reschedule(&mut gc, ctx);
    }
    let first = schedule(&mut gc).unwrap();
    assert_eq!(first.id(), 0);
    let mut second = schedule(&mut gc).unwrap();
    assert_eq!(second.id(), 1);
    reschedule(&mut gc, first);
    // a thread that has ended does not come back
    second.terminate();
    reschedule(&mut gc, second);
    assert_eq!(schedule(&mut gc).unwrap().id(), 2);
    assert_eq!(schedule(&mut gc).unwrap().id(), 0);
    assert!(schedule(&mut gc).is_none());
}

#[test]
fn two_senders_on_a_rendezvous_channel_are_each_paired_with_one_receive() {
    const MAIN_1: u64 = 0x2001;
    const MAIN_2: u64 = 0x2002;
    const MAIN_3: u64 = 0x2003;
    const MAIN_4: u64 = 0x2004;
    const MAIN_5: u64 = 0x2005;
    const SENDER: u64 = 0x3000;
    const SENDER_1: u64 = 0x3001;
    let mut gc = machine();
    let int = make_type(&mut gc, 8, &[]);
    let channel_cell = cell(&mut gc, 0);
    let first = cell(&mut gc, 111);
    let second = cell(&mut gc, 222);
    let target = cell(&mut gc, 0);
    let mut program = program_with_init();
    program.define(MAIN, |ctx, gc, _| call(ctx, gc, RuntimeFunction::ChannelNew, 8, &[0], MAIN_1));
    program.define(MAIN_1, move |ctx, gc, _| {
        let channel = gc.allocator.read_word(result_slot(ctx));
        gc.allocator.write_word(channel_cell, channel);
        call(ctx, gc, RuntimeFunction::LwtSpawn, 0, &[SENDER, 0, 1, first], MAIN_2)
    });
    program.define(MAIN_2, move |ctx, gc, _| {
        call(ctx, gc, RuntimeFunction::LwtSpawn, 0, &[SENDER, 0, 1, second], MAIN_3)
    });
    program.define(MAIN_3, move |ctx, gc, _| {
        let channel = gc.allocator.read_word(channel_cell);
        call(ctx, gc, RuntimeFunction::ChannelReceive, 0, &[channel, int, target, 0], MAIN_4)
    });
    program.define(MAIN_4, move |ctx, gc, out| {
        out.push(format!("received {}", gc.allocator.read_word(target)));
        let channel = gc.allocator.read_word(channel_cell);
        call(ctx, gc, RuntimeFunction::ChannelReceive, 0, &[channel, int, target, 0], MAIN_5)
    });
    program.define(MAIN_5, move |ctx, gc, out| {
        out.push(format!("received {}", gc.allocator.read_word(target)));
        // let the senders learn that their values were taken
        call(ctx, gc, RuntimeFunction::LwtYield, 0, &[], 0x2006)
    });
    program.define(0x2006, |ctx, gc, out| {
        out.push("main done".to_string());
        ret(ctx, gc)
    });
    program.define(SENDER, move |ctx, gc, _| {
        let value = ctx.frame_word(&gc.allocator, 4);
        let channel = gc.allocator.read_word(channel_cell);
        call(ctx, gc, RuntimeFunction::ChannelSend, 0, &[channel, value, int], SENDER_1)
    });
    program.define(SENDER_1, |ctx, gc, out| {
        out.push(format!("sender {} done", ctx.id()));
        ret(ctx, gc)
    });
    start(&mut gc);
    let mut out = Vec::new();
    let status = run(&mut gc, &mut program, &mut out);
    assert_eq!(status, Some(0));
    let received: Vec<&String> = out.iter().filter(|line| line.starts_with("received")).collect();
    assert_eq!(received, vec!["received 111", "received 222"]);
    assert!(out.contains(&"sender 1 done".to_string()));
    assert!(out.contains(&"sender 2 done".to_string()));
    assert_eq!(out.last().unwrap(), "main done");
}
