use gox5_runtime::memory::{ObjectAllocator, Memory};
use gox5_runtime::object::channel::{BufferedChannel, ChannelObject, ReceiveStatus,
    RendezvousChannel};
use gox5_runtime::ObjectPtr;

fn boxed(mem: &mut Memory, value: u64) -> ObjectPtr {
    let p = mem.allocate(8, 0);
    mem.write_word(p, value);
    ObjectPtr(p)
}

fn value_of(status: ReceiveStatus<ObjectPtr>, mem: &Memory) -> u64 {
    let ReceiveStatus::Value(data) = status else {
        panic!("no value was received")
    };
    mem.read_word(data.0)
}

#[test]
fn test_buffered_channel_send_receive() {
    let mut mem = Memory::new();
    let mut channel = ChannelObject::new(1);
    {
        let data = boxed(&mut mem, 42);
        let result = channel.send(1, data);
        assert_eq!(result, Some(()));
    }
    {
        let result = channel.receive(1);
        assert_eq!(value_of(result, &mem), 42);
    }
}

#[test]
fn test_buffered_channel_order() {
    let capacity = 10;
    let mut mem = Memory::new();
    let mut channel = ChannelObject::new(capacity);
    for i in 0..capacity {
        let data = boxed(&mut mem, i as u64);
        let result = channel.send(1, data);
        assert_eq!(result, Some(()));
    }
    for i in 0..capacity {
        let result = channel.receive(1);
        assert_eq!(value_of(result, &mem), i as u64);
    }
}

#[test]
fn test_buffered_channel_first_send_second_receive() {
    let mut mem = Memory::new();
    let mut channel = ChannelObject::new(1);
    {
        let data = boxed(&mut mem, 42);
        let result = channel.send(1, data);
        assert_eq!(result, Some(()));
    }
    {
        let result = channel.receive(2);
        assert_eq!(value_of(result, &mem), 42);
    }
}

#[test]
fn test_buffered_channel_first_receive_second_send() {
    let mut mem = Memory::new();
    let mut channel = ChannelObject::new(1);
    {
        let result = channel.receive(1);
        assert!(matches!(result, ReceiveStatus::Blocked));
    }
    {
        let data = boxed(&mut mem, 42);
        let result = channel.send(2, data);
        assert_eq!(result, Some(()));
    }
}

#[test]
fn test_buffered_channel_send_close_receive() {
    let mut mem = Memory::new();
    let mut channel = ChannelObject::new(1);
    {
        let data = boxed(&mut mem, 42);
        let result = channel.send(1, data);
        assert_eq!(result, Some(()));
    }
    {
        channel.close(1);
    }
    {
        let result = channel.receive(1);
        assert_eq!(value_of(result, &mem), 42);
    }
    {
        let result = channel.receive(1);
        assert!(matches!(result, ReceiveStatus::Closed));
    }
}

#[test]
fn test_rendezvous_channel_first_send_second_receive() {
    let mut mem = Memory::new();
    let mut channel = ChannelObject::new(0);
    {
        let data = boxed(&mut mem, 42);
        let result = channel.send(1, data);
        assert_eq!(result, None);
    }
    {
        let result = channel.receive(2);
        assert_eq!(value_of(result, &mem), 42);
    }
    {
        let data = ObjectPtr(0);
        let result = channel.send(1, data);
        assert_eq!(result, Some(()));
    }
}

#[test]
fn test_rendezvous_channel_first_receive_second_send() {
    let mut mem = Memory::new();
    let mut channel = ChannelObject::new(0);
    {
        let result = channel.receive(1);
        assert!(matches!(result, ReceiveStatus::Blocked));
    }
    {
        let data = boxed(&mut mem, 42);
        let result = channel.send(2, data);
        assert_eq!(result, None);
    }
    {
        let result = channel.receive(1);
        assert_eq!(value_of(result, &mem), 42);
    }
    {
        let data = ObjectPtr(0);
        let result = channel.send(2, data);
        assert_eq!(result, Some(()));
    }
}

#[test]
fn test_rendezvous_channel_first_send_and_close_second_receive() {
    let mut mem = Memory::new();
    let mut channel = ChannelObject::new(0);
    {
        let data = boxed(&mut mem, 42);
        let result = channel.send(1, data);
        assert_eq!(result, None);
    }
    {
        channel.close(1);
    }
    {
        let result = channel.receive(2);
        assert_eq!(value_of(result, &mem), 42);
    }
    {
        let result = channel.receive(2);
        assert!(matches!(result, ReceiveStatus::Closed));
    }
}

#[test]
fn buffered_channel_is_full_at_capacity() {
    let mut channel = BufferedChannel::new(2);
    assert_eq!(channel.send(ObjectPtr(16)), Some(()));
    assert_eq!(channel.send(ObjectPtr(24)), Some(()));
    assert_eq!(channel.size(), 2);
    assert_eq!(channel.send(ObjectPtr(32)), None);
    assert_eq!(channel.size(), 2);
    assert_eq!(channel.receive(), Some(ObjectPtr(16)));
    assert_eq!(channel.send(ObjectPtr(32)), Some(()));
    assert_eq!(channel.receive(), Some(ObjectPtr(24)));
    assert_eq!(channel.receive(), Some(ObjectPtr(32)));
    assert_eq!(channel.receive(), None);
    assert_eq!(channel.size(), 0);
}

#[test]
fn buffered_channel_size_is_sends_less_receives() {
    let k = 7;
    for n in 0..=k {
        for m in 0..=n {
            let mut channel = BufferedChannel::new(k);
            for i in 0..n {
                assert_eq!(channel.send(ObjectPtr(100 + i as u64)), Some(()));
            }
            for i in 0..m {
                assert_eq!(channel.receive(), Some(ObjectPtr(100 + i as u64)));
            }
            assert_eq!(channel.size(), n - m);
        }
    }
}

#[test]
fn buffered_channel_wraps_around_the_ring() {
    let mut channel = BufferedChannel::new(3);
    let mut next_in = 0u64;
    let mut next_out = 0u64;
    for round in 0..20 {
        let sends = 1 + round % 3;
        for _ in 0..sends {
            if channel.send(ObjectPtr(next_in)).is_some() {
                next_in += 1;
            }
        }
        let receives = 1 + (round + 1) % 2;
        for _ in 0..receives {
            if let Some(data) = channel.receive() {
                assert_eq!(data, ObjectPtr(next_out));
                next_out += 1;
            }
        }
        assert_eq!(channel.size() as u64, next_in - next_out);
    }
}

#[test]
fn rendezvous_second_sender_is_blocked_until_handshake_ends() {
    let mut channel = RendezvousChannel::new();
    assert_eq!(channel.send(1, ObjectPtr(8)), None);
    assert_eq!(channel.send(2, ObjectPtr(16)), None);
    assert_eq!(channel.receive(), Some(ObjectPtr(8)));
    // the slot is free of data, but the first sender has not come back yet
    assert_eq!(channel.send(2, ObjectPtr(16)), None);
    assert_eq!(channel.receive(), None);
    assert_eq!(channel.send(1, ObjectPtr(0)), Some(()));
    // now the second sender can start its own handshake
    assert_eq!(channel.send(2, ObjectPtr(16)), None);
    assert_eq!(channel.receive(), Some(ObjectPtr(16)));
    assert_eq!(channel.send(2, ObjectPtr(0)), Some(()));
    assert_eq!(channel, RendezvousChannel::new());
}

#[test]
fn channel_kind_follows_capacity() {
    let mut rendezvous = ChannelObject::new(0);
    assert_eq!(rendezvous.send(1, ObjectPtr(8)), None);
    let mut buffered = ChannelObject::new(1);
    assert_eq!(buffered.send(1, ObjectPtr(8)), Some(()));
    assert!(!buffered.is_closed());
    buffered.close(1);
    assert!(buffered.is_closed());
}

#[test]
fn closed_empty_channel_reports_closed() {
    let mut channel = ChannelObject::new(0);
    assert!(matches!(channel.receive(1), ReceiveStatus::Blocked));
    channel.close(1);
    assert!(matches!(channel.receive(1), ReceiveStatus::Closed));
}
