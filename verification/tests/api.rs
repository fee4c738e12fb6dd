use gox5_runtime::api::{checked_dispatch, Control, RuntimeFunction};
use gox5_runtime::create_light_weight_thread_context;
use gox5_runtime::global_context::{create_global_context, GlobalContext, GlobalContextPtr};
use gox5_runtime::gox5_search_method;
use gox5_runtime::defer_stack::DeferStack;
use gox5_runtime::light_weight_thread::{LightWeightThreadContext, StackFrame};
use gox5_runtime::object::interface::Interface;
use gox5_runtime::type_id::TypeId;
use gox5_runtime::memory::{ObjectAllocator, Memory};
use gox5_runtime::object::string::StringObject;
use gox5_runtime::{ClosureLayout, FunctionObject, ObjectPtr, UserFunction};

const FRAME: u64 = 64;
const RESUME: u64 = 0x5555;
const MINUS_ONE: u64 = u64::MAX;

struct Env {
    gc: GlobalContext,
    ctx: LightWeightThreadContext,
}

fn env() -> Env {
    let mut gc = create_global_context(Memory::new());
    let handle = GlobalContextPtr::from(&mut gc);
    let ctx = create_light_weight_thread_context(&mut gc, handle, FunctionObject::new_null());
    Env { gc, ctx }
}

fn words_equal(_func: u64, mem: &Memory, a: ObjectPtr, b: ObjectPtr) -> bool {
    mem.read_word(a.0) == mem.read_word(b.0)
}

impl Env {
    /// Calls a function of the runtime from the current frame and returns
    /// what it hands back and the address of the space for its result.
    fn invoke(
        &mut self,
        function: RuntimeFunction,
        result_size: u64,
        args: &[u64],
    ) -> (FunctionObject, u64) {
        let result = self.ctx.stack_pointer() + FRAME;
        self.ctx.call(
            &mut self.gc.allocator,
            FRAME,
            result_size,
            &args.to_vec(),
            FunctionObject(RESUME),
        );
        let control = checked_dispatch(
            function,
            &mut self.ctx,
            &mut self.gc,
            UserFunction::new(0),
            &words_equal,
        );
        let Some(Control::Next(next)) = control else {
            panic!("the function could not run, or the process ended")
        };
        (next, result)
    }

    /// Calls a function of the runtime that completes, and returns the
    /// address of the space for its result.
    fn complete(&mut self, function: RuntimeFunction, result_size: u64, args: &[u64]) -> u64 {
        let sp = self.ctx.stack_pointer();
        let (next, result) = self.invoke(function, result_size, args);
        assert_eq!(next, FunctionObject(RESUME));
        assert_eq!(self.ctx.stack_pointer(), sp);
        assert!(!self.ctx.is_suspended());
        result
    }

    fn word(&self, addr: u64) -> u64 {
        self.gc.allocator.read_word(addr)
    }

    fn byte(&self, addr: u64) -> u8 {
        self.gc.allocator.read_byte(addr)
    }

    fn bytes(&self, addr: u64, len: u64) -> Vec<u8> {
        self.gc.allocator.read_bytes(addr, len)
    }

    fn reserve(&mut self, size: u64) -> u64 {
        self.gc.allocator.allocate(size, 0)
    }

    fn cell(&mut self, value: u64) -> u64 {
        let p = self.reserve(8);
        self.gc.allocator.write_word(p, value);
        p
    }

    fn flag(&mut self) -> u64 {
        let p = self.reserve(8);
        self.gc.allocator.write_byte(p, 0xee);
        p
    }

    fn data(&mut self, bytes: &[u8]) -> u64 {
        let p = self.reserve(bytes.len() as u64);
        self.gc.allocator.write_bytes(p, &bytes.to_vec());
        p
    }

    fn string(&mut self, text: &str) -> u64 {
        let mut bytes = text.as_bytes().to_vec();
        bytes.push(0);
        self.data(&bytes)
    }

    fn text(&self, string: u64) -> String {
        let bytes = StringObject(string).as_bytes(&self.gc.allocator);
        String::from_utf8(bytes).unwrap()
    }

    fn make_type(&mut self, size: u64, methods: &[(u64, u64)]) -> u64 {
        let table = self.reserve(16 * methods.len() as u64);
        for (i, (name, func)) in methods.iter().enumerate() {
            self.gc.allocator.write_word(table + 16 * i as u64, *name);
            self.gc.allocator.write_word(table + 16 * i as u64 + 8, *func);
        }
        let t = self.reserve(48);
        self.gc.allocator.write_word(t + 8, methods.len() as u64);
        self.gc.allocator.write_word(t + 16, table);
        self.gc.allocator.write_word(t + 24, 0x9001);
        self.gc.allocator.write_word(t + 32, 0x9002);
        self.gc.allocator.write_word(t + 40, size);
        t
    }

    fn channel(&mut self, capacity: u64) -> u64 {
        let result = self.complete(RuntimeFunction::ChannelNew, 8, &[capacity]);
        self.word(result)
    }

    fn slice(&mut self, elems: &[u8], capacity_bytes: u64) -> [u64; 3] {
        let p = self.reserve(capacity_bytes);
        self.gc.allocator.write_bytes(p, &elems.to_vec());
        [p, elems.len() as u64, capacity_bytes]
    }
}

#[test]
fn new_allocates_zeroed_aligned_storage() {
    let mut e = env();
    let before = e.gc.allocator.size();
    let result = e.complete(RuntimeFunction::New, 8, &[13]);
    let ptr = e.word(result);
    assert_eq!(ptr, before);
    assert_eq!(ptr % 8, 0);
    assert_eq!(e.gc.allocator.size(), before + 16);
    assert_eq!(e.bytes(ptr, 13), vec![0u8; 13]);
    let second = e.complete(RuntimeFunction::New, 8, &[0]);
    assert_eq!(e.word(second), before + 16);
    assert_eq!(e.gc.allocator.size(), before + 16);
}

#[test]
fn push_frame_and_leave_restore_the_stack_pointer() {
    let mut e = env();
    let start = e.ctx.stack_pointer();
    assert!(e.ctx.is_stack_empty());
    for depth in 0..5u64 {
        e.ctx.call(
            &mut e.gc.allocator,
            32 + 8 * depth,
            8 * depth,
            &vec![depth; depth as usize],
            FunctionObject(0x100 + depth),
        );
        assert!(!e.ctx.is_stack_empty());
    }
    // a call and a return in the middle
    e.ctx.call(&mut e.gc.allocator, 32, 3, &vec![1, 2, 3], FunctionObject(0x200));
    assert_eq!(e.ctx.frame_word(&e.gc.allocator, 4), e.ctx.stack_pointer() - 8);
    assert_eq!(e.ctx.frame_word(&e.gc.allocator, 5), 1);
    assert_eq!(e.ctx.frame_word(&e.gc.allocator, 7), 3);
    assert_eq!(e.ctx.leave(&e.gc.allocator), FunctionObject(0x200));
    for depth in (0..5u64).rev() {
        assert_eq!(e.ctx.leave(&e.gc.allocator), FunctionObject(0x100 + depth));
    }
    assert_eq!(e.ctx.stack_pointer(), start);
    assert!(e.ctx.is_stack_empty());
}

#[test]
fn call_lays_out_the_frame() {
    let mut e = env();
    let sp = e.ctx.stack_pointer();
    e.ctx.call(&mut e.gc.allocator, 40, 12, &vec![7, 8], FunctionObject(0x300));
    // 40 bytes of frame, then 12 bytes of result rounded up to 16
    assert_eq!(e.ctx.stack_pointer(), sp + 40 + 16);
    assert_eq!(e.ctx.frame_word(&e.gc.allocator, 0), 0x300);
    assert_eq!(e.ctx.frame_word(&e.gc.allocator, 1), sp);
    assert_eq!(e.ctx.frame_word(&e.gc.allocator, 2), 0);
    assert_eq!(e.ctx.frame_word(&e.gc.allocator, 3), 0);
    assert_eq!(e.ctx.frame_word(&e.gc.allocator, 4), sp + 40);
    assert_eq!(e.ctx.frame_word(&e.gc.allocator, 5), 7);
    assert_eq!(e.ctx.frame_word(&e.gc.allocator, 6), 8);
    let mut other = env();
    let sp = other.ctx.stack_pointer();
    other.ctx.call(&mut other.gc.allocator, 32, 0, &vec![7], FunctionObject(0x300));
    assert_eq!(other.ctx.stack_pointer(), sp + 32);
    assert_eq!(other.ctx.frame_word(&other.gc.allocator, 4), 7);
    other.ctx.grow_stack(1);
    assert_eq!(other.ctx.stack_pointer(), sp + 40);
}

#[test]
fn control_flags_are_independent() {
    let mut e = env();
    e.ctx.suspend();
    assert!(e.ctx.is_suspended() && !e.ctx.is_terminated() && !e.ctx.is_panicking());
    e.ctx.terminate();
    assert!(e.ctx.is_suspended() && e.ctx.is_terminated() && !e.ctx.is_panicking());
    e.ctx.resume();
    assert!(!e.ctx.is_suspended() && e.ctx.is_terminated() && !e.ctx.is_panicking());
    let payload = Interface::new(ObjectPtr(8), TypeId(16));
    e.ctx.enter_panic(payload);
    assert!(!e.ctx.is_suspended() && e.ctx.is_terminated() && e.ctx.is_panicking());
    assert_eq!(e.ctx.exit_panic(), payload);
    assert!(!e.ctx.is_panicking() && e.ctx.is_terminated());
}

#[test]
fn plain_function_extracts_to_itself() {
    let e = env();
    let f = UserFunction::new(0x1234);
    let object = FunctionObject::from_user_function(f);
    assert_eq!(object.extract_user_function(&e.gc.allocator), (f, None));
    assert_eq!(FunctionObject::new_null(), FunctionObject(0));
    assert_eq!(
        FunctionObject::from_closure_layout_ptr(0x1000),
        FunctionObject(0x8000_0000_0000_1000)
    );
}

#[test]
fn closure_extracts_to_function_and_captured_variables() {
    let mut e = env();
    let layout = ClosureLayout::new(UserFunction::new(0x1234), vec![11, 22, 33]);
    let at = e.gc.allocator.size();
    let closure = layout.store(&mut e.gc.allocator);
    assert_eq!(closure, FunctionObject(0x8000_0000_0000_0000 | at));
    let (func, vars) = closure.extract_user_function(&e.gc.allocator);
    assert_eq!(func, UserFunction::new(0x1234));
    assert_eq!(vars, Some(at + 8));
    assert_eq!(e.gc.allocator.read_words(at + 8, 3), vec![11, 22, 33]);
}

#[test]
fn closure_new_copies_the_captured_pointers() {
    let mut e = env();
    let result = e.complete(RuntimeFunction::ClosureNew, 8, &[0x4321, 2, 100, 200]);
    let closure = FunctionObject(e.word(result));
    let (func, vars) = closure.extract_user_function(&e.gc.allocator);
    assert_eq!(func, UserFunction::new(0x4321));
    let vars = vars.unwrap();
    assert_eq!(e.gc.allocator.read_words(vars, 2), vec![100, 200]);
    // the scheduler installs the captured variables in the frame of the closure
    e.ctx.call(&mut e.gc.allocator, FRAME, 0, &vec![], FunctionObject(RESUME));
    e.ctx.update_current_func(&e.gc.allocator, closure);
    let invoked = e.ctx.prepare_user_function(&mut e.gc.allocator);
    assert_eq!(invoked, UserFunction::new(0x4321));
    assert_eq!(e.ctx.frame_word(&e.gc.allocator, 2), vars);
    // a plain function leaves the slot alone
    e.ctx.update_current_func(&e.gc.allocator, FunctionObject(0x77));
    assert_eq!(e.ctx.prev_func, UserFunction::new(0x4321));
    e.gc.allocator.write_word(e.ctx.stack_pointer() + 16, 0);
    assert_eq!(e.ctx.prepare_user_function(&mut e.gc.allocator), UserFunction::new(0x77));
    assert_eq!(e.ctx.frame_word(&e.gc.allocator, 2), 0);
}

#[test]
fn runtime_functions_have_addresses_of_their_own() {
    let all = [
        RuntimeFunction::Terminate,
        RuntimeFunction::EnterMain,
        RuntimeFunction::PanicUnwind,
        RuntimeFunction::New,
        RuntimeFunction::ChannelSelect,
        RuntimeFunction::ChannelSend,
        RuntimeFunction::DeferExecute,
        RuntimeFunction::MapSet,
        RuntimeFunction::StringSubstr,
    ];
    for f in all {
        assert_eq!(RuntimeFunction::from_address(f.address()), Some(f));
        assert_eq!(f.function_object(), FunctionObject(f.address()));
        assert!(f.address() < 0x8000_0000_0000_0000);
    }
    assert_eq!(RuntimeFunction::Terminate.address(), 0x7fff_ffff_ffff_0000);
    assert_eq!(RuntimeFunction::StringSubstr.address(), 0x7fff_ffff_ffff_0000 + 38);
    assert_eq!(RuntimeFunction::from_address(0x7fff_ffff_ffff_0000 + 39), None);
    assert_eq!(RuntimeFunction::from_address(0x2000), None);
}

#[test]
fn buffered_channel_order() {
    let mut e = env();
    let int = e.make_type(8, &[]);
    let channel = e.channel(10);
    for i in 0..10 {
        let value = e.cell(i);
        e.complete(RuntimeFunction::ChannelSend, 0, &[channel, value, int]);
        // the channel owns a copy: writing over the value afterwards changes nothing
        e.gc.allocator.write_word(value, 999);
    }
    // the channel is full: an eleventh send suspends the sender and is to run again
    let value = e.cell(10);
    let sp = e.ctx.stack_pointer();
    let (next, _) = e.invoke(RuntimeFunction::ChannelSend, 0, &[channel, value, int]);
    assert_eq!(next, RuntimeFunction::ChannelSend.function_object());
    assert!(e.ctx.is_suspended());
    assert_eq!(e.ctx.stack_pointer(), sp + FRAME);
    e.ctx.resume();
    e.ctx.leave(&e.gc.allocator);
    for i in 0..10 {
        let target = e.cell(7777);
        let available = e.flag();
        e.complete(RuntimeFunction::ChannelReceive, 0, &[channel, int, target, available]);
        assert_eq!(e.word(target), i);
        assert_eq!(e.byte(available), 1);
    }
    let target = e.cell(7777);
    let (next, _) = e.invoke(RuntimeFunction::ChannelReceive, 0, &[channel, int, target, 0]);
    assert_eq!(next, RuntimeFunction::ChannelReceive.function_object());
    assert!(e.ctx.is_suspended());
    assert_eq!(e.word(target), 7777);
}

#[test]
fn receive_on_closed_channel_zeroes_the_value() {
    let mut e = env();
    let int = e.make_type(8, &[]);
    let channel = e.channel(1);
    let value = e.cell(5);
    e.complete(RuntimeFunction::ChannelSend, 0, &[channel, value, int]);
    e.complete(RuntimeFunction::ChannelClose, 0, &[channel]);
    let target = e.cell(7777);
    let available = e.flag();
    e.complete(RuntimeFunction::ChannelReceive, 0, &[channel, int, target, available]);
    assert_eq!((e.word(target), e.byte(available)), (5, 1));
    e.gc.allocator.write_word(target, 7777);
    e.complete(RuntimeFunction::ChannelReceive, 0, &[channel, int, target, available]);
    assert_eq!((e.word(target), e.byte(available)), (0, 0));
    // without a flag the value is zeroed all the same
    e.gc.allocator.write_word(target, 7777);
    e.complete(RuntimeFunction::ChannelReceive, 0, &[channel, int, target, 0]);
    assert_eq!(e.word(target), 0);
}

#[test]
fn rendezvous_handshake() {
    let mut e = env();
    let handle = GlobalContextPtr::from(&mut e.gc);
    let mut receiver =
        create_light_weight_thread_context(&mut e.gc, handle, FunctionObject::new_null());
    let int = e.make_type(8, &[]);
    let channel = e.channel(0);
    let value = e.cell(0);
    e.gc.allocator.write_word(value, 0);
    // the sender leaves its value and has to come back
    let (next, _) = e.invoke(RuntimeFunction::ChannelSend, 0, &[channel, value, int]);
    assert_eq!(next, RuntimeFunction::ChannelSend.function_object());
    assert!(e.ctx.is_suspended());
    // the receiver takes it
    let target = e.cell(7777);
    let available = e.flag();
    receiver.call(
        &mut e.gc.allocator,
        FRAME,
        0,
        &vec![channel, int, target, available],
        FunctionObject(RESUME),
    );
    let control = checked_dispatch(
        RuntimeFunction::ChannelReceive,
        &mut receiver,
        &mut e.gc,
        UserFunction::new(0),
        &words_equal,
    );
    assert_eq!(control, Some(Control::Next(FunctionObject(RESUME))));
    assert_eq!((e.word(target), e.byte(available)), (0, 1));
    assert!(!receiver.is_suspended());
    // the sender comes back on the same frame and is done
    e.ctx.resume();
    let control = checked_dispatch(
        RuntimeFunction::ChannelSend,
        &mut e.ctx,
        &mut e.gc,
        UserFunction::new(0),
        &words_equal,
    );
    assert_eq!(control, Some(Control::Next(FunctionObject(RESUME))));
    assert!(!e.ctx.is_suspended());
    assert!(e.ctx.is_stack_empty());
}

fn select(e: &mut Env, need_block: u64, entries: &[[u64; 4]]) -> (FunctionObject, u64, u8) {
    let selected = e.cell(7777);
    let available = e.flag();
    let mut args = vec![selected, available, need_block, entries.len() as u64];
    for entry in entries {
        args.extend_from_slice(entry);
    }
    let (next, _) = e.invoke(RuntimeFunction::ChannelSelect, 0, &args);
    (next, e.word(selected), e.byte(available))
}

#[test]
fn select_with_close() {
    let mut e = env();
    let int = e.make_type(8, &[]);
    let c1 = e.channel(1);
    let c2 = e.channel(1);
    e.complete(RuntimeFunction::ChannelClose, 0, &[c1]);
    let t1 = e.cell(7777);
    let t2 = e.cell(7777);
    let (next, selected, available) = select(&mut e, 1, &[[c1, int, 0, t1], [c2, int, 0, t2]]);
    assert_eq!(next, FunctionObject(RESUME));
    assert_eq!(selected, 0);
    assert_eq!(available, 0);
    assert_eq!(e.word(t1), 0);
    assert_eq!(e.word(t2), 7777);
    assert!(!e.ctx.is_suspended());
}

#[test]
fn select_takes_the_first_choice_that_goes_through() {
    let mut e = env();
    let int = e.make_type(8, &[]);
    let full = e.channel(1);
    let empty = e.channel(1);
    let ready = e.channel(2);
    let v = e.cell(41);
    e.complete(RuntimeFunction::ChannelSend, 0, &[full, v, int]);
    let w = e.cell(42);
    e.complete(RuntimeFunction::ChannelSend, 0, &[ready, w, int]);
    let t = e.cell(7777);
    // a send into a full channel, a receive from an empty one, then two that can go through
    let (next, selected, available) = select(
        &mut e,
        1,
        &[[full, int, v, 0], [empty, int, 0, t], [ready, int, 0, t], [ready, int, v, 0]],
    );
    assert_eq!(next, FunctionObject(RESUME));
    assert_eq!((selected, available), (2, 1));
    assert_eq!(e.word(t), 42);
    // now the send goes through first
    let (next, selected, available) = select(&mut e, 1, &[[full, int, v, 0], [ready, int, v, 0]]);
    assert_eq!(next, FunctionObject(RESUME));
    assert_eq!((selected, available), (1, 0));
    let target = e.cell(7777);
    e.complete(RuntimeFunction::ChannelReceive, 0, &[ready, int, target, 0]);
    assert_eq!(e.word(target), 41);
}

#[test]
fn select_without_a_ready_choice_blocks_or_records_minus_one() {
    let mut e = env();
    let int = e.make_type(8, &[]);
    let empty = e.channel(1);
    let t = e.cell(7777);
    let (next, selected, available) = select(&mut e, 0, &[[empty, int, 0, t]]);
    assert_eq!(next, FunctionObject(RESUME));
    assert_eq!((selected, available), (MINUS_ONE, 0));
    assert_eq!(e.word(t), 7777);
    let sp = e.ctx.stack_pointer();
    let (next, selected, available) = select(&mut e, 1, &[[empty, int, 0, t]]);
    assert_eq!(next, RuntimeFunction::ChannelSelect.function_object());
    assert!(e.ctx.is_suspended());
    assert_eq!(e.ctx.stack_pointer(), sp + FRAME);
    assert_eq!((selected, available), (7777, 0xee));
    // with no choice at all and no wish to block, minus one is recorded
    e.ctx.resume();
    e.ctx.leave(&e.gc.allocator);
    let (next, selected, _) = select(&mut e, 0, &[]);
    assert_eq!(next, FunctionObject(RESUME));
    assert_eq!(selected, MINUS_ONE);
}

#[test]
fn select_that_does_not_block_does_not_look_for_closed_channels() {
    let mut e = env();
    let int = e.make_type(8, &[]);
    let closed = e.channel(1);
    e.complete(RuntimeFunction::ChannelClose, 0, &[closed]);
    let t = e.cell(7777);
    let (next, selected, available) = select(&mut e, 0, &[[closed, int, 0, t]]);
    assert_eq!(next, FunctionObject(RESUME));
    assert_eq!((selected, available), (MINUS_ONE, 0));
    assert_eq!(e.word(t), 7777);
}

#[test]
fn interface_new_boxes_a_copy_and_converts_back() {
    let mut e = env();
    let point = e.make_type(12, &[]);
    let other = e.make_type(12, &[]);
    let value = e.data(&[1, 2, 3, 4, 5, 6, 7, 8, 9, 10, 11, 12]);
    let result = e.complete(RuntimeFunction::InterfaceNew, 16, &[value, point]);
    let receiver = e.word(result);
    assert_ne!(receiver, value);
    assert_eq!(e.word(result + 8), point);
    assert_eq!(e.bytes(receiver, 12), vec![1, 2, 3, 4, 5, 6, 7, 8, 9, 10, 11, 12]);
    // the interface holds a copy
    e.gc.allocator.write_byte(value, 99);
    let interface = e.reserve(16);
    e.gc.allocator.write_word(interface, receiver);
    e.gc.allocator.write_word(interface + 8, point);
    let target = e.data(&[0xff; 16]);
    let flag = e.flag();
    e.complete(RuntimeFunction::InterfaceConvertToConcreteType, 0, &[interface, point, target, flag]);
    assert_eq!(e.bytes(target, 12), vec![1, 2, 3, 4, 5, 6, 7, 8, 9, 10, 11, 12]);
    assert_eq!(e.bytes(target + 12, 4), vec![0xff; 4]);
    assert_eq!(e.byte(flag), 1);
    // without a flag a conversion to the right type works as well
    let again = e.data(&[0xff; 16]);
    e.complete(RuntimeFunction::InterfaceConvertToConcreteType, 0, &[interface, point, again, 0]);
    assert_eq!(e.bytes(again, 12), vec![1, 2, 3, 4, 5, 6, 7, 8, 9, 10, 11, 12]);
    // another type: the value is zeroed and the flag cleared
    e.complete(RuntimeFunction::InterfaceConvertToConcreteType, 0, &[interface, other, target, flag]);
    assert_eq!(e.bytes(target, 12), vec![0; 12]);
    assert_eq!(e.bytes(target + 12, 4), vec![0xff; 4]);
    assert_eq!(e.byte(flag), 0);
}

#[test]
fn interface_of_null_has_a_null_receiver() {
    let mut e = env();
    let point = e.make_type(12, &[]);
    let before = e.gc.allocator.size();
    let result = e.complete(RuntimeFunction::InterfaceNew, 16, &[0, point]);
    assert_eq!(e.word(result), 0);
    assert_eq!(e.word(result + 8), point);
    assert_eq!(e.gc.allocator.size(), before);
}

#[test]
fn interface_methods_are_found_by_name_in_table_order() {
    let mut e = env();
    let read = e.string("Read");
    let write = e.string("Write");
    let close = e.string("Close");
    let file = e.make_type(8, &[(read, 0x100), (write, 0x200), (read, 0x300)]);
    let reader = e.make_type(0, &[(read, 0)]);
    let read_writer = e.make_type(0, &[(read, 0), (write, 0)]);
    let closer = e.make_type(0, &[(read, 0), (close, 0)]);
    let receiver = e.cell(5);
    let interface = e.reserve(16);
    e.gc.allocator.write_word(interface, receiver);
    e.gc.allocator.write_word(interface + 8, file);
    assert_eq!(
        gox5_search_method(&e.gc.allocator, interface, StringObject(read)),
        FunctionObject(0x100)
    );
    assert_eq!(
        gox5_search_method(&e.gc.allocator, interface, StringObject(write)),
        FunctionObject(0x200)
    );
    assert_eq!(
        gox5_search_method(&e.gc.allocator, interface, StringObject(close)),
        FunctionObject::new_null()
    );
    // names are compared by address: an equal text elsewhere is another name
    let other_read = e.string("Read");
    assert_eq!(
        gox5_search_method(&e.gc.allocator, interface, StringObject(other_read)),
        FunctionObject::new_null()
    );
    for (to_type, expected) in [(reader, true), (read_writer, true), (closer, false)] {
        let target = e.data(&[0xff; 16]);
        let flag = e.flag();
        e.complete(
            RuntimeFunction::InterfaceConvertToInterface,
            0,
            &[interface, to_type, target, flag],
        );
        if expected {
            assert_eq!((e.word(target), e.word(target + 8), e.byte(flag)), (receiver, file, 1));
        } else {
            assert_eq!((e.word(target), e.word(target + 8), e.byte(flag)), (0, 0, 0));
        }
    }
}

#[test]
fn interface_invoke_calls_the_method_in_place_of_its_frame() {
    let mut e = env();
    let area = e.string("Area");
    let name = e.string("Name");
    let shape = e.make_type(8, &[(name, 0x100), (area, 0x200)]);
    let receiver = e.cell(5);
    let interface = e.reserve(16);
    e.gc.allocator.write_word(interface, receiver);
    e.gc.allocator.write_word(interface + 8, shape);
    let sp = e.ctx.stack_pointer();
    let (next, result) = e.invoke(
        RuntimeFunction::InterfaceInvoke,
        8,
        &[interface, area, 3, receiver, 10, 20],
    );
    assert_eq!(next, FunctionObject(0x200));
    // the frame of the method stands where the frame of the invocation stood
    assert_eq!(e.ctx.stack_pointer(), sp + FRAME + 8);
    assert_eq!(e.ctx.frame_word(&e.gc.allocator, 0), RESUME);
    assert_eq!(e.ctx.frame_word(&e.gc.allocator, 1), sp);
    assert_eq!(e.ctx.frame_word(&e.gc.allocator, 2), 0);
    assert_eq!(e.ctx.frame_word(&e.gc.allocator, 3), 0);
    assert_eq!(e.ctx.frame_word(&e.gc.allocator, 4), result);
    assert_eq!(e.ctx.frame_word(&e.gc.allocator, 5), receiver);
    assert_eq!(e.ctx.frame_word(&e.gc.allocator, 6), 10);
    assert_eq!(e.ctx.frame_word(&e.gc.allocator, 7), 20);
    // when the method returns, the caller of the invocation goes on
    assert_eq!(e.ctx.leave(&e.gc.allocator), FunctionObject(RESUME));
    assert_eq!(e.ctx.stack_pointer(), sp);
}

#[test]
fn slice_append_reuses_storage_while_it_fits() {
    let mut e = env();
    let int = e.make_type(2, &[]);
    let base = e.slice(&[1, 1, 2, 2], 5);
    let base = [base[0], 2, 5];
    // nothing appended: the same slice
    let empty = [0, 0, 0];
    let result = e.complete(RuntimeFunction::SliceAppend, 24, &[int, base[0], 2, 5, 0, 0, 0]);
    assert_eq!([e.word(result), e.word(result + 8), e.word(result + 16)], base);
    assert_eq!(empty, [0, 0, 0]);
    // three elements fit into the capacity of five
    let rhs = e.slice(&[3, 3, 4, 4, 5, 5], 6);
    let before = e.gc.allocator.size();
    let result = e.complete(
        RuntimeFunction::SliceAppend,
        24,
        &[int, base[0], 2, 5, rhs[0], 3, 3],
    );
    assert_eq!([e.word(result), e.word(result + 8), e.word(result + 16)], [base[0], 5, 5]);
    assert_eq!(e.bytes(base[0], 10), vec![1, 1, 2, 2, 3, 3, 4, 4, 5, 5]);
    assert_eq!(e.gc.allocator.size(), before);
    // one more does not fit: fresh storage with room for twice as many
    let one = e.slice(&[6, 6], 2);
    let before = e.gc.allocator.size();
    let result = e.complete(
        RuntimeFunction::SliceAppend,
        24,
        &[int, base[0], 5, 5, one[0], 1, 1],
    );
    let grown = e.word(result);
    assert_eq!(grown, before);
    assert_eq!([e.word(result + 8), e.word(result + 16)], [6, 12]);
    assert_eq!(e.bytes(grown, 12), vec![1, 1, 2, 2, 3, 3, 4, 4, 5, 5, 6, 6]);
    assert_eq!(e.bytes(grown + 12, 12), vec![0; 12]);
    // the last element is the one that was appended
    assert_eq!(e.bytes(grown + 2 * 5, 2), vec![6, 6]);
}

#[test]
fn slice_append_to_the_null_slice_allocates() {
    let mut e = env();
    let byte = e.make_type(1, &[]);
    let rhs = e.slice(&[7, 8, 9], 3);
    let before = e.gc.allocator.size();
    let result = e.complete(RuntimeFunction::SliceAppend, 24, &[byte, 0, 0, 0, rhs[0], 3, 3]);
    assert_eq!([e.word(result), e.word(result + 8), e.word(result + 16)], [before, 3, 6]);
    assert_eq!(e.bytes(before, 6), vec![7, 8, 9, 0, 0, 0]);
    let result = e.complete(RuntimeFunction::SliceAppend, 24, &[byte, 0, 0, 0, 0, 0, 0]);
    assert_eq!([e.word(result), e.word(result + 8), e.word(result + 16)], [0, 0, 0]);
}

#[test]
fn slice_append_string_appends_the_bytes() {
    let mut e = env();
    let base = e.slice(b"ab", 2);
    let string = e.string("cde");
    let result = e.complete(
        RuntimeFunction::SliceAppendString,
        24,
        &[base[0], 2, 2, string],
    );
    let ptr = e.word(result);
    assert_eq!([e.word(result + 8), e.word(result + 16)], [5, 10]);
    assert_eq!(e.bytes(ptr, 5), b"abcde".to_vec());
}

#[test]
fn slice_copy_copies_the_smaller_count() {
    let mut e = env();
    let pair = e.make_type(2, &[]);
    let src = e.slice(&[1, 1, 2, 2, 3, 3], 6);
    let dst = e.slice(&[9, 9, 9, 9], 4);
    let result = e.complete(
        RuntimeFunction::SliceCopy,
        8,
        &[pair, src[0], 3, 3, dst[0], 2, 2],
    );
    assert_eq!(e.word(result), 2);
    assert_eq!(e.bytes(dst[0], 4), vec![1, 1, 2, 2]);
    let wide = e.slice(&[9; 10], 10);
    let result = e.complete(
        RuntimeFunction::SliceCopy,
        8,
        &[pair, src[0], 3, 3, wide[0], 5, 5],
    );
    assert_eq!(e.word(result), 3);
    assert_eq!(e.bytes(wide[0], 10), vec![1, 1, 2, 2, 3, 3, 9, 9, 9, 9]);
    let result = e.complete(RuntimeFunction::SliceCopy, 8, &[pair, 0, 0, 0, wide[0], 5, 5]);
    assert_eq!(e.word(result), 0);
}

#[test]
fn slice_size_and_capacity() {
    let mut e = env();
    let result = e.complete(RuntimeFunction::SliceSize, 8, &[0x1000, 3, 9]);
    assert_eq!(e.word(result), 3);
    let result = e.complete(RuntimeFunction::SliceCapacity, 8, &[0x1000, 3, 9]);
    assert_eq!(e.word(result), 9);
}

#[test]
fn slice_from_string_of_bytes_and_of_runes() {
    let mut e = env();
    let byte = e.make_type(1, &[]);
    let rune = e.make_type(4, &[]);
    let text = "aé€😀";
    let string = e.string(text);
    let result = e.complete(RuntimeFunction::SliceFromString, 24, &[byte, string]);
    let ptr = e.word(result);
    assert_eq!([e.word(result + 8), e.word(result + 16)], [10, 10]);
    assert_eq!(e.bytes(ptr, 10), text.as_bytes().to_vec());
    let result = e.complete(RuntimeFunction::SliceFromString, 24, &[rune, string]);
    let ptr = e.word(result);
    assert_eq!([e.word(result + 8), e.word(result + 16)], [4, 4]);
    let mut expected = Vec::new();
    for c in text.chars() {
        expected.extend_from_slice(&(c as u32).to_le_bytes());
    }
    assert_eq!(expected.len(), 16);
    assert_eq!(e.bytes(ptr, 16), expected);
    assert_eq!(&expected[..8], &[0x61, 0, 0, 0, 0xe9, 0, 0, 0]);
}

#[test]
fn slice_of_runes_has_one_element_for_each_code_point() {
    let mut e = env();
    let rune = e.make_type(4, &[]);
    let string = e.string("a\u{e9}");
    assert_eq!(e.bytes(string, 4), vec![0x61, 0xc3, 0xa9, 0]);
    let result = e.complete(RuntimeFunction::SliceFromString, 24, &[rune, string]);
    let ptr = e.word(result);
    assert_eq!(e.word(result + 8), 2);
    assert_eq!(e.word(result + 16), 2);
    assert_eq!(e.bytes(ptr, 8), vec![0x61, 0, 0, 0, 0xe9, 0, 0, 0]);
    let empty = e.string("");
    let result = e.complete(RuntimeFunction::SliceFromString, 24, &[rune, empty]);
    assert_eq!([e.word(result + 8), e.word(result + 16)], [0, 0]);
}

#[test]
fn string_from_bytes_and_back() {
    let mut e = env();
    let byte = e.make_type(1, &[]);
    let text = "héllo, wörld";
    let slice = e.slice(text.as_bytes(), text.len() as u64);
    let result = e.complete(
        RuntimeFunction::StringNewFromByteSlice,
        8,
        &[slice[0], slice[1], slice[2]],
    );
    let string = e.word(result);
    assert_eq!(e.text(string), text);
    assert_eq!(e.byte(string + text.len() as u64), 0);
    let result = e.complete(RuntimeFunction::SliceFromString, 24, &[byte, string]);
    let back = e.word(result);
    assert_eq!(e.word(result + 8), text.len() as u64);
    assert_eq!(e.bytes(back, text.len() as u64), text.as_bytes().to_vec());
}

#[test]
fn string_from_runes() {
    let mut e = env();
    for (rune, bytes) in [
        (0x41u64, vec![0x41u8]),
        (0x7f, vec![0x7f]),
        (0x80, vec![0xc2, 0x80]),
        (0xe9, vec![0xc3, 0xa9]),
        (0x7ff, vec![0xdf, 0xbf]),
        (0x800, vec![0xe0, 0xa0, 0x80]),
        (0x20ac, vec![0xe2, 0x82, 0xac]),
        (0xffff, vec![0xef, 0xbf, 0xbf]),
        (0x10000, vec![0xf0, 0x90, 0x80, 0x80]),
        (0x1f600, vec![0xf0, 0x9f, 0x98, 0x80]),
        (0x10ffff, vec![0xf4, 0x8f, 0xbf, 0xbf]),
    ] {
        let result = e.complete(RuntimeFunction::StringNewFromRune, 8, &[rune]);
        let string = e.word(result);
        let len = bytes.len() as u64;
        assert_eq!(e.bytes(string, len), bytes);
        assert_eq!(e.byte(string + len), 0);
        assert_eq!(
            e.text(string),
            char::from_u32(rune as u32).unwrap().to_string()
        );
    }
    let text = "aé€😀";
    let mut runes = Vec::new();
    for c in text.chars() {
        runes.extend_from_slice(&(c as u32).to_le_bytes());
    }
    let slice = e.slice(&runes, 16);
    let result = e.complete(RuntimeFunction::StringNewFromRuneSlice, 8, &[slice[0], 4, 4]);
    let string = e.word(result);
    assert_eq!(e.text(string), text);
    let result = e.complete(RuntimeFunction::StringNewFromRuneSlice, 8, &[0, 0, 0]);
    let string = e.word(result);
    assert_eq!(e.text(string), "");
}

#[test]
fn string_append_length_and_substr() {
    let mut e = env();
    let hello = e.string("hello, ");
    let world = e.string("world");
    let result = e.complete(RuntimeFunction::StringAppend, 8, &[hello, world]);
    let joined = e.word(result);
    assert_eq!(e.text(joined), "hello, world");
    let result = e.complete(RuntimeFunction::StringLength, 8, &[joined]);
    assert_eq!(e.word(result), 12);
    let empty = e.string("");
    let result = e.complete(RuntimeFunction::StringLength, 8, &[empty]);
    assert_eq!(e.word(result), 0);
    for (low, high, expected) in [
        (0, 5, "hello"),
        (7, 12, "world"),
        (MINUS_ONE, 5, "hello"),
        (7, MINUS_ONE, "world"),
        (MINUS_ONE, MINUS_ONE, "hello, world"),
        (3, 3, ""),
        (12, MINUS_ONE, ""),
    ] {
        let result = e.complete(RuntimeFunction::StringSubstr, 8, &[joined, low, high]);
        let part = e.word(result);
        assert_eq!(e.text(part), expected);
    }
}

#[test]
fn string_next_steps_through_the_runes() {
    let mut e = env();
    let text = "aé€😀";
    let string = e.string(text);
    let index = e.cell(7777);
    let rune = e.cell(0xffff_ffff_ffff_ffff);
    let found = e.flag();
    let count = e.cell(0);
    for (i, c) in text.chars().enumerate() {
        e.complete(RuntimeFunction::StringNext, 0, &[string, index, rune, found, count]);
        assert_eq!(e.byte(found), 1);
        assert_eq!(e.word(index), i as u64);
        // the rune takes four bytes; the rest of the word is as it was
        assert_eq!(e.word(rune), 0xffff_ffff_0000_0000 | c as u64);
        assert_eq!(e.word(count), i as u64 + 1);
    }
    e.complete(RuntimeFunction::StringNext, 0, &[string, index, rune, found, count]);
    assert_eq!(e.byte(found), 0);
    assert_eq!(e.word(count), 4);
    assert_eq!(e.word(index), 3);
    // the position and the rune need not be asked for
    e.gc.allocator.write_word(count, 1);
    e.complete(RuntimeFunction::StringNext, 0, &[string, 0, 0, found, count]);
    assert_eq!(e.byte(found), 1);
    assert_eq!(e.word(count), 2);
}

#[test]
fn map_set_get_delete() {
    let mut e = env();
    let int = e.make_type(8, &[]);
    let wide = e.make_type(16, &[]);
    let result = e.complete(RuntimeFunction::MapNew, 8, &[int, wide]);
    let map = e.word(result);
    let result = e.complete(RuntimeFunction::MapLen, 8, &[map]);
    assert_eq!(e.word(result), 0);
    let result = e.complete(RuntimeFunction::MapLen, 8, &[0]);
    assert_eq!(e.word(result), 0);
    let k1 = e.cell(1);
    let k2 = e.cell(2);
    let v1 = e.data(&[1; 16]);
    let v2 = e.data(&[2; 16]);
    let v3 = e.data(&[3; 16]);
    let target = e.data(&[0xff; 24]);
    let found = e.flag();
    // not found: the value is zeroed
    e.complete(RuntimeFunction::MapGet, 0, &[map, k1, target, found]);
    assert_eq!(e.byte(found), 0);
    assert_eq!(e.bytes(target, 24), [vec![0u8; 16], vec![0xff; 8]].concat());
    e.complete(RuntimeFunction::MapSet, 0, &[map, k1, v1]);
    e.complete(RuntimeFunction::MapGet, 0, &[map, k1, target, found]);
    assert_eq!(e.byte(found), 1);
    assert_eq!(e.bytes(target, 16), vec![1; 16]);
    // the map holds copies of the key and of the value
    e.gc.allocator.write_word(k1, 100);
    e.gc.allocator.write_byte(v1, 9);
    let one = e.cell(1);
    e.complete(RuntimeFunction::MapGet, 0, &[map, one, target, 0]);
    assert_eq!(e.bytes(target, 16), vec![1; 16]);
    // a second value under an equal key replaces the first
    e.complete(RuntimeFunction::MapSet, 0, &[map, one, v2]);
    e.complete(RuntimeFunction::MapSet, 0, &[map, k2, v3]);
    let result = e.complete(RuntimeFunction::MapLen, 8, &[map]);
    assert_eq!(e.word(result), 2);
    e.complete(RuntimeFunction::MapGet, 0, &[map, one, target, found]);
    assert_eq!((e.byte(found), e.bytes(target, 16)), (1, vec![2; 16]));
    e.complete(RuntimeFunction::MapGet, 0, &[map, k2, target, found]);
    assert_eq!((e.byte(found), e.bytes(target, 16)), (1, vec![3; 16]));
    // iteration in the order in which the keys were first set
    let key_out = e.cell(7777);
    let count = e.cell(0);
    e.complete(RuntimeFunction::MapNext, 0, &[map, key_out, target, found, count]);
    assert_eq!((e.byte(found), e.word(key_out), e.word(count)), (1, 1, 1));
    assert_eq!(e.bytes(target, 16), vec![2; 16]);
    e.complete(RuntimeFunction::MapNext, 0, &[map, key_out, target, found, count]);
    assert_eq!((e.byte(found), e.word(key_out), e.word(count)), (1, 2, 2));
    e.complete(RuntimeFunction::MapNext, 0, &[map, key_out, target, found, count]);
    assert_eq!((e.byte(found), e.word(key_out), e.word(count)), (0, 2, 2));
    // deletion
    e.complete(RuntimeFunction::MapDelete, 0, &[map, one]);
    e.complete(RuntimeFunction::MapGet, 0, &[map, one, target, found]);
    assert_eq!((e.byte(found), e.bytes(target, 16)), (0, vec![0; 16]));
    e.complete(RuntimeFunction::MapDelete, 0, &[map, one]);
    e.complete(RuntimeFunction::MapDelete, 0, &[0, one]);
    let result = e.complete(RuntimeFunction::MapLen, 8, &[map]);
    assert_eq!(e.word(result), 1);
    e.complete(RuntimeFunction::MapGet, 0, &[map, k2, target, found]);
    assert_eq!((e.byte(found), e.bytes(target, 16)), (1, vec![3; 16]));
}

#[test]
fn memory_reads_back_what_was_written() {
    let mut mem = Memory::new();
    assert_eq!(mem.size(), 8);
    let a = mem.allocate(3, 0);
    let b = mem.allocate(9, 0);
    assert_eq!((a, b, mem.size()), (8, 16, 32));
    mem.write_word(b, 0x0102_0304_0506_0708);
    assert_eq!(mem.read_bytes(b, 8), vec![8, 7, 6, 5, 4, 3, 2, 1]);
    assert_eq!(mem.read_word(b), 0x0102_0304_0506_0708);
    mem.write_bytes(a, &vec![1, 2, 3]);
    mem.copy(a + 1, a, 3);
    assert_eq!(mem.read_bytes(a, 4), vec![1, 1, 2, 3]);
    mem.fill_zero(a, 2);
    assert_eq!(mem.read_bytes(a, 4), vec![0, 0, 2, 3]);
    mem.write_words(b, &vec![5, 6]);
    assert_eq!(mem.read_words(b, 2), vec![5, 6]);
    assert!(mem.is_accessible(31, 1));
    assert!(!mem.is_accessible(31, 2));
    assert!(!mem.is_accessible(u64::MAX, 2));
    assert!(mem.has_room(1 << 40));
    assert!(!mem.has_room(u64::MAX));
    let stack = mem.allocate_guarded_pages(2);
    assert_eq!(stack, 32 + 4096);
    assert_eq!(mem.size(), 32 + 3 * 4096);
    assert!(mem.is_accessible(stack, 2 * 4096));
    assert!(!mem.is_accessible(stack - 8, 16));
    assert!(!mem.is_accessible(32, 1));
    assert!(mem.is_accessible(24, 8));
}

#[test]
fn terminate_ends_the_process_only_for_the_main_thread() {
    let mut e = env();
    let handle = GlobalContextPtr::from(&mut e.gc);
    let mut other = create_light_weight_thread_context(&mut e.gc, handle, FunctionObject::new_null());
    assert_eq!(
        gox5_runtime::terminate(&mut other),
        Control::Next(RuntimeFunction::Terminate.function_object())
    );
    assert!(other.is_suspended() && other.is_terminated());
    assert_eq!(gox5_runtime::terminate(&mut e.ctx), Control::Exit(0));
    assert!(e.ctx.is_suspended() && e.ctx.is_terminated());
    assert_eq!(Control::Exit(0).exit_status(), Some(0));
    assert_eq!(Control::Next(FunctionObject(1)).exit_status(), None);
}

impl Env {
    /// Calls a function of the runtime that cannot run, and checks that
    /// nothing but the frame of the call has changed.
    fn refuse(&mut self, function: RuntimeFunction, result_size: u64, args: &[u64]) {
        let sp = self.ctx.stack_pointer();
        self.ctx.call(
            &mut self.gc.allocator,
            FRAME,
            result_size,
            &args.to_vec(),
            FunctionObject(RESUME),
        );
        let size = self.gc.allocator.size();
        let before = self.gc.allocator.read_bytes(8, 64);
        let frame = self.ctx.stack_pointer();
        let control = checked_dispatch(
            function,
            &mut self.ctx,
            &mut self.gc,
            UserFunction::new(0),
            &words_equal,
        );
        assert_eq!(control, None, "{:?} with {:?}", function, args);
        assert_eq!(self.ctx.stack_pointer(), frame);
        assert_eq!(self.gc.allocator.size(), size);
        assert_eq!(self.gc.allocator.read_bytes(8, 64), before);
        assert_eq!(self.ctx.leave(&self.gc.allocator), FunctionObject(RESUME));
        assert_eq!(self.ctx.stack_pointer(), sp);
    }
}

#[test]
fn functions_refuse_frames_that_they_cannot_work_on() {
    let mut e = env();
    let int = e.make_type(8, &[]);
    let channel = e.channel(1);
    let value = e.cell(1);
    let guard = e.ctx.stack_pointer() - 4096;
    let beyond = 1 << 40;
    // a result pointer into a guard page, or beyond the store
    e.refuse(RuntimeFunction::SliceSize, 0, &[guard, 0, 0, 0]);
    e.refuse(RuntimeFunction::SliceSize, 0, &[beyond, 0, 0, 0]);
    e.refuse(RuntimeFunction::MapLen, 0, &[guard, 0]);
    // no room for what is asked
    e.refuse(RuntimeFunction::New, 8, &[1 << 63]);
    e.refuse(RuntimeFunction::New, 8, &[u64::MAX]);
    // not a channel, not a type, not a value
    e.refuse(RuntimeFunction::ChannelSend, 0, &[value, value, int]);
    e.refuse(RuntimeFunction::ChannelSend, 0, &[channel, value, beyond]);
    e.refuse(RuntimeFunction::ChannelSend, 0, &[channel, beyond, int]);
    e.refuse(RuntimeFunction::ChannelClose, 0, &[beyond]);
    // a channel cannot be closed twice
    e.complete(RuntimeFunction::ChannelClose, 0, &[channel]);
    e.refuse(RuntimeFunction::ChannelClose, 0, &[channel]);
    // a receive that would block touches nothing, so it may name anything
    let open = e.channel(1);
    let (next, _) = e.invoke(RuntimeFunction::ChannelReceive, 0, &[open, beyond, beyond, beyond]);
    assert_eq!(next, RuntimeFunction::ChannelReceive.function_object());
    e.ctx.resume();
    e.ctx.leave(&e.gc.allocator);
    // a receive from a closed channel writes the value and the flag
    e.refuse(RuntimeFunction::ChannelReceive, 0, &[channel, int, beyond, 0]);
    e.refuse(RuntimeFunction::ChannelReceive, 0, &[channel, int, value, beyond]);
    // a conversion that fails has to have a flag
    let other = e.make_type(8, &[]);
    let interface = e.reserve(16);
    e.gc.allocator.write_word(interface, value);
    e.gc.allocator.write_word(interface + 8, int);
    e.refuse(RuntimeFunction::InterfaceConvertToConcreteType, 0, &[interface, other, value, 0]);
    // a method that the type does not have
    let name = e.string("Missing");
    e.refuse(RuntimeFunction::InterfaceInvoke, 0, &[0, interface, name, 0]);
    // a rune that is no scalar value, a string that is no UTF-8
    e.refuse(RuntimeFunction::StringNewFromRune, 8, &[0xd800]);
    e.refuse(RuntimeFunction::StringNewFromRune, 8, &[0x110000]);
    e.refuse(RuntimeFunction::StringNewFromRune, 8, &[1 << 32]);
    let broken = e.data(&[0x61, 0xc3, 0x28, 0]);
    let found = e.flag();
    let count = e.cell(0);
    e.refuse(RuntimeFunction::StringNext, 0, &[broken, 0, 0, found, count]);
    let overlong = e.data(&[0xc0, 0x80, 0]);
    e.refuse(RuntimeFunction::StringNext, 0, &[overlong, 0, 0, found, count]);
    let surrogate = e.data(&[0xed, 0xa0, 0x80, 0]);
    e.refuse(RuntimeFunction::StringNext, 0, &[surrogate, 0, 0, found, count]);
    let cut = e.data(&[0xe2, 0x82, 0]);
    e.refuse(RuntimeFunction::StringNext, 0, &[cut, 0, 0, found, count]);
    // bounds of a part that do not lie in the string
    let text = e.string("hello");
    e.refuse(RuntimeFunction::StringSubstr, 8, &[text, 3, 2]);
    e.refuse(RuntimeFunction::StringSubstr, 8, &[text, 0, 6]);
    e.refuse(RuntimeFunction::StringSubstr, 8, &[text, u64::MAX - 1, MINUS_ONE]);
    // elements of a size that a string cannot be made into
    let pair = e.make_type(2, &[]);
    e.refuse(RuntimeFunction::SliceFromString, 24, &[pair, text]);
    // a lookup without a flag has to find the key
    let result = e.complete(RuntimeFunction::MapNew, 8, &[int, int]);
    let map = e.word(result);
    e.refuse(RuntimeFunction::MapGet, 0, &[map, value, value, 0]);
    e.refuse(RuntimeFunction::MapGet, 0, &[0, value, value, found]);
    e.refuse(RuntimeFunction::MapSet, 0, &[0, value, value]);
    e.refuse(RuntimeFunction::MapNext, 0, &[0, value, value, found, count]);
    // a spawn whose arguments do not fit on a stack
    e.refuse(RuntimeFunction::LwtSpawn, 0, &[0x3000, 40960, 0]);
    assert!(e.ctx.is_stack_empty());
}

#[test]
fn select_refuses_choices_that_it_cannot_try() {
    let mut e = env();
    let int = e.make_type(8, &[]);
    let channel = e.channel(1);
    let value = e.cell(1);
    let selected = e.cell(7777);
    let available = e.flag();
    let beyond = 1 << 40;
    let mut try_select = |e: &mut Env, entries: &[u64]| {
        let mut args = vec![selected, available, 1, entries.len() as u64 / 4];
        args.extend_from_slice(entries);
        e.ctx.call(&mut e.gc.allocator, FRAME, 0, &args, FunctionObject(RESUME));
        let control = checked_dispatch(
            RuntimeFunction::ChannelSelect,
            &mut e.ctx,
            &mut e.gc,
            UserFunction::new(0),
            &words_equal,
        );
        e.ctx.resume();
        e.ctx.leave(&e.gc.allocator);
        control
    };
    assert_eq!(try_select(&mut e, &[beyond, int, 0, value]), None);
    assert_eq!(try_select(&mut e, &[channel, beyond, value, 0]), None);
    assert_eq!(try_select(&mut e, &[channel, int, beyond, 0]), None);
    // a choice behind the one that goes through is never looked at
    assert_eq!(
        try_select(&mut e, &[channel, int, value, 0, beyond, beyond, beyond, beyond]),
        Some(Control::Next(FunctionObject(RESUME)))
    );
    assert_eq!(e.word(selected), 0);
    // a receive that goes through has to have a place for the value
    assert_eq!(try_select(&mut e, &[channel, int, 0, beyond]), None);
}

#[test]
fn stack_frame_reads_back_what_was_pushed() {
    let mut e = env();
    let sp = e.ctx.stack_pointer();
    e.ctx.call(&mut e.gc.allocator, 48, 8, &vec![5, 6, 7], FunctionObject(0x700));
    let frame = StackFrame::load(&e.gc.allocator, e.ctx.stack_pointer(), 4);
    assert_eq!(frame.common.resume_func, FunctionObject(0x700));
    assert_eq!(frame.common.prev_stack_pointer, sp);
    assert_eq!(frame.common.free_vars, 0);
    assert_eq!(frame.common.defer_stack, DeferStack::new());
    assert_eq!(frame.additional_words, vec![sp + 48, 5, 6, 7]);
    let copy = StackFrame::new(FunctionObject(0x700), sp, Some(sp + 48), &vec![5, 6, 7]);
    assert_eq!(copy.common, frame.common);
    assert_eq!(copy.additional_words, frame.additional_words);
    let elsewhere = e.reserve(64);
    copy.store(&mut e.gc.allocator, elsewhere);
    assert_eq!(
        e.gc.allocator.read_words(elsewhere, 8),
        vec![0x700, sp, 0, 0, sp + 48, 5, 6, 7]
    );
}

#[test]
fn type_descriptor_fields() {
    let mut e = env();
    let name = e.string("Point");
    let x = e.string("X");
    let y = e.string("Y");
    let t = e.make_type(24, &[(x, 0x100), (y, 0x200)]);
    e.gc.allocator.write_word(t, name);
    let type_id = TypeId(t);
    assert!(type_id.is_readable(&e.gc.allocator));
    assert!(type_id.is_table_readable(&e.gc.allocator));
    assert_eq!(type_id.name(&e.gc.allocator), StringObject(name));
    assert_eq!(type_id.size(&e.gc.allocator), 24);
    assert_eq!(type_id.is_equal_func(&e.gc.allocator), 0x9001);
    assert_eq!(type_id.hash_func(&e.gc.allocator), 0x9002);
    let table = type_id.interface_table(&e.gc.allocator);
    assert_eq!(table.len(), 2);
    assert_eq!(table[0].method_name(), StringObject(x));
    assert_eq!(table[1].method, FunctionObject(0x200));
    assert_eq!(TypeId::new_invalid(), TypeId(0));
    assert!(!TypeId::new_invalid().is_readable(&e.gc.allocator));
    assert!(!TypeId(u64::MAX - 8).is_readable(&e.gc.allocator));
    // a table that runs past the end of the store
    e.gc.allocator.write_word(t + 8, 1 << 40);
    assert!(type_id.is_readable(&e.gc.allocator));
    assert!(!type_id.is_table_readable(&e.gc.allocator));
}

#[test]
fn state_stays_well_formed() {
    let mut e = env();
    assert!(e.gc.check_wf());
    let int = e.make_type(8, &[]);
    let channel = e.channel(3);
    let value = e.cell(1);
    e.complete(RuntimeFunction::ChannelSend, 0, &[channel, value, int]);
    e.complete(RuntimeFunction::New, 8, &[100]);
    let (next, _) = e.invoke(RuntimeFunction::LwtYield, 0, &[]);
    assert_eq!(next, FunctionObject(RESUME));
    assert!(e.ctx.is_suspended());
    assert!(e.gc.check_wf());
    assert_eq!(e.gc.find_channel(ObjectPtr(channel)), Some(0));
    assert_eq!(e.gc.find_channel(ObjectPtr(0)), None);
    assert_eq!(e.gc.find_channel(ObjectPtr(value)), None);
    assert_eq!(e.gc.find_map(ObjectPtr(channel)), None);
}

#[test]
fn handles_on_the_shared_state_are_counted() {
    let mut gc = create_global_context(Memory::new());
    assert_eq!(gc.handle_count, 0);
    let first = GlobalContextPtr::from(&mut gc);
    assert_eq!(gc.handle_count, 1);
    let second = first.dupulicate(&mut gc);
    assert_eq!(gc.handle_count, 2);
    let third = second.dupulicate(&mut gc);
    assert_eq!(gc.handle_count, 3);
    // handles on the same state are equal
    assert_eq!(first, second);
    assert_eq!(second, third);
    // a thread keeps the handle that it was made with
    let ctx = create_light_weight_thread_context(&mut gc, third, FunctionObject::new_null());
    assert_eq!(gc.handle_count, 3);
    assert_eq!(ctx.global_context(), &first);
    // the nil interface
    assert_eq!(Interface::nil(), Interface::new(ObjectPtr(0), TypeId(0)));
    assert!(Interface::nil().receiver().is_null());
    assert_eq!(Interface::nil().type_id(), TypeId::new_invalid());
}

#[test]
fn spawn_duplicates_the_handle_of_the_caller() {
    let mut e = env();
    assert_eq!(e.gc.handle_count, 1);
    assert_eq!(e.gc.created_light_weight_thread_count, 1);
    let (next, _) = e.invoke(RuntimeFunction::LwtSpawn, 0, &[0x3000, 0, 0]);
    assert_eq!(next, FunctionObject(RESUME));
    assert!(e.ctx.is_suspended());
    assert_eq!(e.gc.handle_count, 2);
    assert_eq!(e.gc.created_light_weight_thread_count, 2);
    // other functions make no handle
    e.ctx.resume();
    e.complete(RuntimeFunction::New, 8, &[8]);
    let channel = e.channel(1);
    e.complete(RuntimeFunction::ChannelClose, 0, &[channel]);
    assert_eq!(e.gc.handle_count, 2);
    // no more handles can be counted than a word holds
    e.gc.handle_count = usize::MAX;
    e.refuse(RuntimeFunction::LwtSpawn, 0, &[0x3000, 0, 0]);
    assert_eq!(e.gc.handle_count, usize::MAX);
}

#[test]
fn message_of_an_uncaught_panic() {
    assert_eq!(Interface::nil().panic_message(), "panic: nil".as_bytes().to_vec());
    let without_receiver = Interface::new(ObjectPtr(0), TypeId(0x4020));
    assert_eq!(without_receiver.panic_message(), "panic: nil".as_bytes().to_vec());
    let payload = Interface::new(ObjectPtr(0x1000), TypeId(0xffff_ffff_ffff_ffff));
    assert_eq!(
        payload.panic_message(),
        "panic: (0xffffffffffffffff,0x0000000000001000)".as_bytes().to_vec()
    );
}
