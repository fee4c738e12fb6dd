//! Channels: a bounded queue of object pointers, or a rendezvous slot.
use vstd::prelude::*;
use crate::ObjectPtr;

verus! {

/// What a receive found.
#[derive(Debug)]
pub enum ReceiveStatus<T> {
    Value(T),
    Blocked,
    Closed,
}

/// The position in a ring of `capacity` slots that lies `offset` slots after `head`.
pub open spec fn ring_index(head: int, offset: int, capacity: int) -> int {
    if head + offset >= capacity {
        head + offset - capacity
    } else {
        head + offset
    }
}

/// The queue after a send of `data` into a queue of at most `capacity` values,
/// and whether the value was taken.
pub open spec fn buffered_send(queue: Seq<ObjectPtr>, capacity: int, data: ObjectPtr) -> (
    Seq<ObjectPtr>,
    bool,
) {
    if queue.len() < capacity {
        (queue.push(data), true)
    } else {
        (queue, false)
    }
}

/// The queue after a receive, and the value that was received, if any.
pub open spec fn buffered_receive(queue: Seq<ObjectPtr>) -> (Seq<ObjectPtr>, Option<ObjectPtr>) {
    if queue.len() > 0 {
        (queue.skip(1), Some(queue[0]))
    } else {
        (queue, None)
    }
}

/// A channel that holds up to `capacity` values in the order in which they were sent.
/// The ring is part of the channel, which stands in the table of the shared
/// state: it takes no bytes of the store, and no write to the store reaches
/// it. The values in it are addresses of elements in the store.
pub struct BufferedChannel {
    buffer: Vec<ObjectPtr>,
    capacity: usize,
    head: usize,
    size: usize,
}

impl View for BufferedChannel {
    type V = Seq<ObjectPtr>;

    /// The values in the channel, oldest first.
    closed spec fn view(&self) -> Seq<ObjectPtr> {
        Seq::new(
            self.size as nat,
            |i: int| self.buffer@[ring_index(self.head as int, i, self.capacity as int)],
        )
    }
}

impl BufferedChannel {
    /// The number of values that the channel can hold.
    pub closed spec fn capacity(&self) -> int {
        self.capacity as int
    }

    /// The ring has `capacity` slots, and head and size lie inside it.
    pub closed spec fn wf(&self) -> bool {
        &&& self.capacity > 0
        &&& self.buffer@.len() == self.capacity
        &&& self.head < self.capacity
        &&& self.size <= self.capacity
    }

    /// A well-formed channel holds no more values than its capacity.
    pub proof fn lemma_size_at_most_capacity(&self)
        requires
            self.wf(),
        ensures
            self@.len() <= self.capacity(),
            self.capacity() > 0,
    {
    }

    /// An empty channel that can hold `capacity` values.
    pub fn new(capacity: usize) -> (channel: Self)
        requires
            capacity > 0,
        ensures
            channel.wf(),
            channel.capacity() == capacity,
            channel@ == Seq::<ObjectPtr>::empty(),
    {
        let mut buffer: Vec<ObjectPtr> = Vec::new();
        let mut i: usize = 0;
        while i < capacity
            invariant
                i <= capacity,
                buffer@.len() == i,
            decreases capacity - i,
        {
            buffer.push(ObjectPtr(0));
            i = i + 1;
        }
        let channel = BufferedChannel { buffer, capacity, head: 0, size: 0 };
        channel
    }

    /// Tells whether the channel is well-formed.
    pub fn check_wf(&self) -> (ok: bool)
        ensures
            ok == self.wf(),
    {
        self.capacity > 0 && self.buffer.len() == self.capacity && self.head < self.capacity
            && self.size <= self.capacity
    }

    /// The oldest value in the channel, if there is one. The channel stays as it is.
    pub fn front(&self) -> (data: Option<ObjectPtr>)
        requires
            self.wf(),
        ensures
            data == buffered_receive(self@).1,
    {
        if self.size == 0 {
            return None;
        }
        let data = self.buffer[self.head];
        Some(data)
    }

    /// The number of values in the channel.
    pub fn size(&self) -> (n: usize)
        ensures
            n == self@.len(),
    {
        self.size
    }

    /// Puts `data` behind the values in the channel, unless the channel is full.
    pub fn send(&mut self, data: ObjectPtr) -> (sent: Option<()>)
        requires
            old(self).wf(),
        ensures
            final(self).wf(),
            final(self).capacity() == old(self).capacity(),
            final(self)@ == buffered_send(old(self)@, old(self).capacity(), data).0,
            sent is Some == buffered_send(old(self)@, old(self).capacity(), data).1,
    {
        if self.size >= self.capacity {
            return None;
        }
        let room = self.capacity - self.head;
        let tail = if self.size >= room {
            self.size - room
        } else {
            self.head + self.size
        };
        self.buffer.set(tail, data);
        self.size = self.size + 1;
        Some(())
    }

    /// Takes the oldest value out of the channel, if there is one.
    pub fn receive(&mut self) -> (data: Option<ObjectPtr>)
        requires
            old(self).wf(),
        ensures
            final(self).wf(),
            final(self).capacity() == old(self).capacity(),
            final(self)@ == buffered_receive(old(self)@).0,
            data == buffered_receive(old(self)@).1,
    {
        if self.size == 0 {
            return None;
        }
        let data = self.buffer[self.head];
        self.head = if self.head + 1 == self.capacity {
            0
        } else {
            self.head + 1
        };
        self.size = self.size - 1;
        Some(data)
    }
}

/// One operation on a buffered channel.
pub enum ChannelOp {
    Send(ObjectPtr),
    Receive,
}

/// The values in a channel of the given capacity after `ops` ran on the empty channel.
pub open spec fn queue_after(ops: Seq<ChannelOp>, capacity: int) -> Seq<ObjectPtr>
    decreases ops.len(),
{
    if ops.len() == 0 {
        Seq::empty()
    } else {
        match ops.last() {
            ChannelOp::Send(data) => buffered_send(
                queue_after(ops.drop_last(), capacity),
                capacity,
                data,
            ).0,
            ChannelOp::Receive => buffered_receive(queue_after(ops.drop_last(), capacity)).0,
        }
    }
}

/// No send of `ops` found the channel full and no receive found it empty.
pub open spec fn never_blocked(ops: Seq<ChannelOp>, capacity: int) -> bool
    decreases ops.len(),
{
    if ops.len() == 0 {
        true
    } else {
        &&& never_blocked(ops.drop_last(), capacity)
        &&& match ops.last() {
            ChannelOp::Send(data) => buffered_send(
                queue_after(ops.drop_last(), capacity),
                capacity,
                data,
            ).1,
            ChannelOp::Receive => buffered_receive(queue_after(ops.drop_last(), capacity)).1
                is Some,
        }
    }
}

/// The values that the sends of `ops` sent, in order.
pub open spec fn sent_values(ops: Seq<ChannelOp>) -> Seq<ObjectPtr>
    decreases ops.len(),
{
    if ops.len() == 0 {
        Seq::empty()
    } else {
        match ops.last() {
            ChannelOp::Send(data) => sent_values(ops.drop_last()).push(data),
            ChannelOp::Receive => sent_values(ops.drop_last()),
        }
    }
}

/// The values that the receives of `ops` returned, in order, on a channel of
/// the given capacity that was empty at first.
pub open spec fn received_values(ops: Seq<ChannelOp>, capacity: int) -> Seq<ObjectPtr>
    decreases ops.len(),
{
    if ops.len() == 0 {
        Seq::empty()
    } else {
        match ops.last() {
            ChannelOp::Send(data) => received_values(ops.drop_last(), capacity),
            ChannelOp::Receive => match buffered_receive(
                queue_after(ops.drop_last(), capacity),
            ).1 {
                Some(data) => received_values(ops.drop_last(), capacity).push(data),
                None => received_values(ops.drop_last(), capacity),
            },
        }
    }
}

/// A buffered channel is first in, first out: as long as no operation blocks,
/// the receives return the values that were sent first, in the order in which
/// they were sent, and the channel holds the values sent after those. Its size
/// is the number of sends less the number of receives.
pub proof fn lemma_buffered_channel_fifo(ops: Seq<ChannelOp>, capacity: int)
    requires
        capacity > 0,
        never_blocked(ops, capacity),
    ensures
        received_values(ops, capacity).len() <= sent_values(ops).len(),
        received_values(ops, capacity) == sent_values(ops).take(
            received_values(ops, capacity).len() as int,
        ),
        queue_after(ops, capacity) == sent_values(ops).skip(
            received_values(ops, capacity).len() as int,
        ),
        queue_after(ops, capacity).len() == sent_values(ops).len() - received_values(
            ops,
            capacity,
        ).len(),
        queue_after(ops, capacity).len() <= capacity,
    decreases ops.len(),
{
    if ops.len() > 0 {
        lemma_buffered_channel_fifo(ops.drop_last(), capacity);
    }
}

/// A channel without a buffer: a sender leaves its value and comes back to
/// learn that a receiver took it.
#[derive(Clone, Copy, Debug, PartialEq, Eq, Structural)]
pub struct RendezvousChannel {
    pub sender_id: Option<usize>,
    pub data: Option<ObjectPtr>,
}

/// The channel after a send by the thread `id`, and whether the send is complete.
pub open spec fn rendezvous_send(channel: RendezvousChannel, id: usize, data: ObjectPtr) -> (
    RendezvousChannel,
    bool,
) {
    if channel.data is Some {
        (channel, false)
    } else {
        match channel.sender_id {
            Some(sender_id) => if sender_id == id {
                (RendezvousChannel { sender_id: None, data: None }, true)
            } else {
                (channel, false)
            },
            None => (RendezvousChannel { sender_id: Some(id), data: Some(data) }, false),
        }
    }
}

/// The channel after a receive, and the value that was received, if any.
pub open spec fn rendezvous_receive(channel: RendezvousChannel) -> (
    RendezvousChannel,
    Option<ObjectPtr>,
) {
    (RendezvousChannel { sender_id: channel.sender_id, data: None }, channel.data)
}

impl RendezvousChannel {
    /// A channel on which nobody waits.
    pub fn new() -> (channel: Self)
        ensures
            channel.sender_id is None,
            channel.data is None,
    {
        RendezvousChannel { sender_id: None, data: None }
    }

    /// A send by the thread `id`. The first send leaves `data` and is not
    /// complete. Once a receiver has taken the value, the next send by the same
    /// thread is complete and frees the channel. While a value waits, or
    /// another thread has yet to come back, the send is not complete and
    /// changes nothing.
    pub fn send(&mut self, id: usize, data: ObjectPtr) -> (sent: Option<()>)
        ensures
            *final(self) == rendezvous_send(*old(self), id, data).0,
            sent is Some == rendezvous_send(*old(self), id, data).1,
    {
        if self.data.is_some() {
            return None;
        }
        match self.sender_id {
            Some(sender_id) => {
                if sender_id == id {
                    self.sender_id = None;
                    Some(())
                } else {
                    None
                }
            },
            None => {
                self.data = Some(data);
                self.sender_id = Some(id);
                None
            },
        }
    }

    /// Takes the value that waits, if there is one.
    pub fn receive(&mut self) -> (data: Option<ObjectPtr>)
        ensures
            *final(self) == rendezvous_receive(*old(self)).0,
            data == rendezvous_receive(*old(self)).1,
    {
        let data = self.data;
        self.data = None;
        data
    }
}

/// The handshake of a rendezvous channel on which nobody waits: the send of
/// `a` is not complete; a send by another thread `b` before the receive is not
/// complete either and changes nothing; the receive returns the value of `a`;
/// the next send of `a` is complete and leaves the channel as it was at first.
pub proof fn lemma_rendezvous_handshake(
    a: usize,
    b: usize,
    value: ObjectPtr,
    other: ObjectPtr,
    again: ObjectPtr,
)
    requires
        a != b,
    ensures
        ({
            let idle = RendezvousChannel { sender_id: None, data: None };
            let (offered, first) = rendezvous_send(idle, a, value);
            let (contested, second) = rendezvous_send(offered, b, other);
            let (taken, received) = rendezvous_receive(contested);
            let (done, third) = rendezvous_send(taken, a, again);
            &&& !first
            &&& !second
            &&& contested == offered
            &&& received == Some(value)
            &&& third
            &&& done == idle
        }),
{
}

/// The two kinds of channel.
pub enum ChannelType {
    Buffered(BufferedChannel),
    Rendezvous(RendezvousChannel),
}

/// What a channel holds: the queue and capacity of a buffered channel, or the
/// slot of a rendezvous channel.
pub enum ChannelState {
    Buffered { queue: Seq<ObjectPtr>, capacity: int },
    Rendezvous { slot: RendezvousChannel },
}

/// A channel as a value: what it holds, and whether it was closed.
pub struct ChannelView {
    pub state: ChannelState,
    pub closed: bool,
}

impl ChannelView {
    /// The channel after a send of `data` by the thread `id`, and whether the
    /// send is complete.
    pub open spec fn send(self, id: usize, data: ObjectPtr) -> (ChannelView, bool) {
        match self.state {
            ChannelState::Buffered { queue, capacity } => (
                ChannelView {
                    state: ChannelState::Buffered {
                        queue: buffered_send(queue, capacity, data).0,
                        capacity,
                    },
                    closed: self.closed,
                },
                buffered_send(queue, capacity, data).1,
            ),
            ChannelState::Rendezvous { slot } => (
                ChannelView {
                    state: ChannelState::Rendezvous { slot: rendezvous_send(slot, id, data).0 },
                    closed: self.closed,
                },
                rendezvous_send(slot, id, data).1,
            ),
        }
    }

    /// The value that a receive takes, if there is one.
    pub open spec fn pending(self) -> Option<ObjectPtr> {
        match self.state {
            ChannelState::Buffered { queue, capacity } => buffered_receive(queue).1,
            ChannelState::Rendezvous { slot } => rendezvous_receive(slot).1,
        }
    }

    /// The channel after a receive, and what the receive reports: the oldest
    /// value if there is one; otherwise `Closed` if the channel was closed,
    /// and `Blocked` if not.
    pub open spec fn receive(self) -> (ChannelView, ReceiveStatus<ObjectPtr>) {
        (
            ChannelView {
                state: match self.state {
                    ChannelState::Buffered { queue, capacity } => ChannelState::Buffered {
                        queue: buffered_receive(queue).0,
                        capacity,
                    },
                    ChannelState::Rendezvous { slot } => ChannelState::Rendezvous {
                        slot: rendezvous_receive(slot).0,
                    },
                },
                closed: self.closed,
            },
            match self.pending() {
                Some(data) => ReceiveStatus::Value(data),
                None => if self.closed {
                    ReceiveStatus::Closed
                } else {
                    ReceiveStatus::Blocked
                },
            },
        )
    }

    /// The channel after it was closed.
    pub open spec fn close(self) -> ChannelView {
        ChannelView { state: self.state, closed: true }
    }

    /// The open channel that `capacity` asks for: buffered and empty if it is
    /// positive, rendezvous with nobody waiting if it is zero.
    pub open spec fn fresh(capacity: int) -> ChannelView {
        ChannelView {
            state: if capacity > 0 {
                ChannelState::Buffered { queue: Seq::empty(), capacity }
            } else {
                ChannelState::Rendezvous {
                    slot: RendezvousChannel { sender_id: None, data: None },
                }
            },
            closed: false,
        }
    }
}

/// A channel and its close flag.
pub struct ChannelObject {
    channel_type: ChannelType,
    is_closed: bool,
}

impl View for ChannelObject {
    type V = ChannelView;

    closed spec fn view(&self) -> ChannelView {
        ChannelView {
            state: match self.channel_type {
                ChannelType::Buffered(channel) => ChannelState::Buffered {
                    queue: channel@,
                    capacity: channel.capacity(),
                },
                ChannelType::Rendezvous(channel) => ChannelState::Rendezvous { slot: channel },
            },
            closed: self.is_closed,
        }
    }
}

impl ChannelObject {
    /// A buffered channel is well-formed.
    pub closed spec fn wf(&self) -> bool {
        match self.channel_type {
            ChannelType::Buffered(channel) => channel.wf(),
            ChannelType::Rendezvous(_) => true,
        }
    }

    /// An open channel: buffered if `capacity` is positive, rendezvous if it is zero.
    pub fn new(capacity: usize) -> (channel: Self)
        ensures
            channel.wf(),
            channel@ == ChannelView::fresh(capacity as int),
    {
        let channel_type = if capacity > 0 {
            ChannelType::Buffered(BufferedChannel::new(capacity))
        } else {
            ChannelType::Rendezvous(RendezvousChannel::new())
        };
        ChannelObject { channel_type, is_closed: false }
    }

    /// Tells whether the channel is well-formed.
    pub fn check_wf(&self) -> (ok: bool)
        ensures
            ok == self.wf(),
    {
        match &self.channel_type {
            ChannelType::Buffered(channel) => channel.check_wf(),
            ChannelType::Rendezvous(_) => true,
        }
    }

    /// What a receive would report. The channel stays as it is.
    pub fn status(&self) -> (status: ReceiveStatus<ObjectPtr>)
        requires
            self.wf(),
        ensures
            status == self@.receive().1,
    {
        let result = match &self.channel_type {
            ChannelType::Buffered(channel) => channel.front(),
            ChannelType::Rendezvous(channel) => channel.data,
        };
        if let Some(data) = result {
            ReceiveStatus::Value(data)
        } else if self.is_closed {
            ReceiveStatus::Closed
        } else {
            ReceiveStatus::Blocked
        }
    }

    /// Tells whether the channel was closed.
    pub fn is_closed(&self) -> (closed: bool)
        ensures
            closed == self@.closed,
    {
        self.is_closed
    }

    /// Closes the channel.
    pub fn close(&mut self, id: usize)
        requires
            old(self).wf(),
            !old(self)@.closed,
        ensures
            final(self).wf(),
            final(self)@ == old(self)@.close(),
    {
        self.is_closed = true;
    }

    /// Sends `data` on behalf of the thread `id`. Returns nothing when the
    /// sender has to come back.
    pub fn send(&mut self, id: usize, data: ObjectPtr) -> (sent: Option<()>)
        requires
            old(self).wf(),
        ensures
            final(self).wf(),
            final(self)@ == old(self)@.send(id, data).0,
            sent is Some == old(self)@.send(id, data).1,
    {
        match &mut self.channel_type {
            ChannelType::Buffered(channel) => channel.send(data),
            ChannelType::Rendezvous(channel) => channel.send(id, data),
        }
    }

    /// Receives on behalf of the thread `id`: the oldest value if there is
    /// one; otherwise `Closed` if the channel was closed, and `Blocked` if not.
    pub fn receive(&mut self, id: usize) -> (status: ReceiveStatus<ObjectPtr>)
        requires
            old(self).wf(),
        ensures
            final(self).wf(),
            final(self)@ == old(self)@.receive().0,
            status == old(self)@.receive().1,
    {
        let result = match &mut self.channel_type {
            ChannelType::Buffered(channel) => channel.receive(),
            ChannelType::Rendezvous(channel) => channel.receive(),
        };
        if let Some(data) = result {
            ReceiveStatus::Value(data)
        } else if self.is_closed {
            ReceiveStatus::Closed
        } else {
            ReceiveStatus::Blocked
        }
    }
}

} // verus!
