//! State shared by all light-weight threads: the address space, the queue of
//! threads that are ready to run, the tables of channels and maps, and the
//! count of the handles on the state.
use vstd::prelude::*;
use std::collections::VecDeque;
use crate::light_weight_thread::LightWeightThreadContext;
use crate::memory::{Memory, word_at};
use crate::object::channel::{ChannelObject, ChannelView};
use crate::object::map::{MapObject, MapView};
use crate::ObjectPtr;

verus! {

/// The shared state. Channels and maps live in tables; the object that
/// compiled code holds for one is a word with its position in the table.
pub struct GlobalContext {
    pub created_light_weight_thread_count: usize,
    /// The reference count: the number of handles on the state that were made.
    pub handle_count: usize,
    pub allocator: Memory,
    pub ready_queue: VecDeque<LightWeightThreadContext>,
    pub channels: Vec<ChannelObject>,
    pub maps: Vec<MapObject>,
}

impl GlobalContext {
    /// The address space is well-formed, and so is every channel.
    pub open spec fn wf(&self) -> bool {
        &&& self.allocator.wf()
        &&& forall|i: int| 0 <= i < self.channels@.len() ==> (#[trigger] self.channels@[i]).wf()
    }

    /// The channels of the table, as values.
    pub open spec fn channel_views(&self) -> Seq<ChannelView> {
        Seq::new(self.channels@.len(), |i: int| self.channels@[i]@)
    }

    /// The position in the channel table that the channel object at `ptr` names.
    pub open spec fn channel_index(&self, ptr: ObjectPtr) -> int {
        word_at(self.allocator@, ptr.0 as int) as int
    }

    /// `ptr` is the address of a channel object that names a channel of the table.
    pub open spec fn has_channel(&self, ptr: ObjectPtr) -> bool {
        &&& self.allocator.accessible(ptr.0, 8)
        &&& self.channel_index(ptr) < self.channels@.len()
    }

    /// The maps of the table, as values.
    pub open spec fn map_views(&self) -> Seq<MapView> {
        Seq::new(self.maps@.len(), |i: int| self.maps@[i]@)
    }

    /// The position in the map table that the map object at `ptr` names.
    pub open spec fn map_index(&self, ptr: ObjectPtr) -> int {
        word_at(self.allocator@, ptr.0 as int) as int
    }

    /// `ptr` is the address of a map object that names a map of the table.
    pub open spec fn has_map(&self, ptr: ObjectPtr) -> bool {
        &&& self.allocator.accessible(ptr.0, 8)
        &&& self.map_index(ptr) < self.maps@.len()
    }

    /// All but the address space is the same in `self` and `other`.
    pub open spec fn same_tables(&self, other: &GlobalContext) -> bool {
        &&& self.created_light_weight_thread_count == other.created_light_weight_thread_count
        &&& self.handle_count == other.handle_count
        &&& self.ready_queue@ == other.ready_queue@
        &&& self.channel_views() == other.channel_views()
        &&& self.map_views() == other.map_views()
    }

    /// Tells whether the state is well-formed.
    pub fn check_wf(&self) -> (ok: bool)
        ensures
            ok == self.wf(),
    {
        if !self.allocator.check_wf() {
            return false;
        }
        let mut i: usize = 0;
        while i < self.channels.len()
            invariant
                i <= self.channels@.len(),
                forall|j: int| 0 <= j < i ==> (#[trigger] self.channels@[j]).wf(),
            decreases self.channels.len() - i,
        {
            if !self.channels[i].check_wf() {
                return false;
            }
            i = i + 1;
        }
        true
    }

    /// The position in the channel table of the channel that the channel
    /// object at `ptr` names, if it names one.
    pub fn find_channel(&self, ptr: ObjectPtr) -> (index: Option<usize>)
        ensures
            index is Some == self.has_channel(ptr),
            index matches Some(i) ==> i == self.channel_index(ptr),
    {
        if !self.allocator.is_accessible(ptr.0, 8) {
            return None;
        }
        let index = self.allocator.read_word(ptr.0);
        if index < self.channels.len() as u64 {
            Some(index as usize)
        } else {
            None
        }
    }

    /// The position in the map table of the map that the map object at `ptr`
    /// names, if it names one.
    pub fn find_map(&self, ptr: ObjectPtr) -> (index: Option<usize>)
        ensures
            index is Some == self.has_map(ptr),
            index matches Some(i) ==> i == self.map_index(ptr),
    {
        if !self.allocator.is_accessible(ptr.0, 8) {
            return None;
        }
        let index = self.allocator.read_word(ptr.0);
        if index < self.maps.len() as u64 {
            Some(index as usize)
        } else {
            None
        }
    }

    /// The state of a process that has created no thread yet.
    pub fn new(allocator: Memory) -> (gc: Self)
        ensures
            gc.created_light_weight_thread_count == 0,
            gc.handle_count == 0,
            gc.allocator == allocator,
            gc.ready_queue@ == Seq::<LightWeightThreadContext>::empty(),
            gc.channels@ == Seq::<ChannelObject>::empty(),
            gc.maps@ == Seq::<MapObject>::empty(),
            allocator.wf() ==> gc.wf(),
    {
        GlobalContext {
            created_light_weight_thread_count: 0,
            handle_count: 0,
            allocator,
            ready_queue: VecDeque::new(),
            channels: Vec::new(),
            maps: Vec::new(),
        }
    }

    /// Issues the identifier of a new thread: the number of threads created so far.
    pub fn issue_light_weight_thread_id(&mut self) -> (id: usize)
        requires
            old(self).created_light_weight_thread_count < usize::MAX,
        ensures
            id == old(self).created_light_weight_thread_count,
            *final(self) == (GlobalContext {
                created_light_weight_thread_count: (id + 1) as usize,
                ..*old(self)
            }),
    {
        let id = self.created_light_weight_thread_count;
        self.created_light_weight_thread_count = self.created_light_weight_thread_count + 1;
        id
    }

    /// The allocator, which is the address space itself.
    pub fn allocator(&mut self) -> (allocator: &mut Memory)
        ensures
            *allocator == old(self).allocator,
            *final(self) == (GlobalContext { allocator: *final(allocator), ..*old(self) }),
    {
        &mut self.allocator
    }

    /// Puts a thread at the back of the queue of threads that are ready to run.
    pub fn push_light_weight_thread(&mut self, ctx: LightWeightThreadContext)
        ensures
            final(self).ready_queue@ == old(self).ready_queue@.push(ctx),
            final(self).created_light_weight_thread_count
                == old(self).created_light_weight_thread_count,
            final(self).handle_count == old(self).handle_count,
            final(self).allocator == old(self).allocator,
            final(self).channels == old(self).channels,
            final(self).maps == old(self).maps,
    {
        self.ready_queue.push_back(ctx);
    }

    /// Takes the thread at the front of the queue of threads that are ready to
    /// run, if there is one.
    pub fn pop_light_weight_thread(&mut self) -> (ctx: Option<LightWeightThreadContext>)
        ensures
            old(self).ready_queue@.len() == 0 ==> ctx is None
                && final(self).ready_queue@ == old(self).ready_queue@,
            old(self).ready_queue@.len() > 0 ==> ctx == Some(old(self).ready_queue@[0])
                && final(self).ready_queue@ == old(self).ready_queue@.skip(1),
            final(self).created_light_weight_thread_count
                == old(self).created_light_weight_thread_count,
            final(self).handle_count == old(self).handle_count,
            final(self).allocator == old(self).allocator,
            final(self).channels == old(self).channels,
            final(self).maps == old(self).maps,
    {
        let ctx = self.ready_queue.pop_front();
        ctx
    }
}

/// A handle on the shared state. The state is handed to every function that
/// works on it, so a handle holds nothing: a process has one shared state, and
/// all handles on it are equal. The state counts the handles that are made.
#[derive(PartialEq, Eq, Debug, Structural)]
pub struct GlobalContextPtr {}

impl GlobalContextPtr {
    /// Makes a handle on `global_context`, which counts it.
    pub fn from(global_context: &mut GlobalContext) -> (handle: Self)
        requires
            old(global_context).handle_count < usize::MAX,
        ensures
            *final(global_context) == (GlobalContext {
                handle_count: (old(global_context).handle_count + 1) as usize,
                ..*old(global_context)
            }),
    {
        global_context.handle_count = global_context.handle_count + 1;
        GlobalContextPtr {  }
    }

    /// Makes another handle on the state `global_context`, on which this is a
    /// handle. The new handle is equal to this one, and the state counts it.
    pub fn dupulicate(&self, global_context: &mut GlobalContext) -> (handle: Self)
        requires
            old(global_context).handle_count < usize::MAX,
        ensures
            handle == *self,
            *final(global_context) == (GlobalContext {
                handle_count: (old(global_context).handle_count + 1) as usize,
                ..*old(global_context)
            }),
    {
        global_context.handle_count = global_context.handle_count + 1;
        GlobalContextPtr {  }
    }
}

/// The shared state of a process that allocates from `allocator`.
pub fn create_global_context(allocator: Memory) -> (gc: GlobalContext)
    ensures
        gc.created_light_weight_thread_count == 0,
        gc.handle_count == 0,
        gc.allocator == allocator,
        gc.ready_queue@ == Seq::<LightWeightThreadContext>::empty(),
        gc.channels@ == Seq::<ChannelObject>::empty(),
        gc.maps@ == Seq::<MapObject>::empty(),
        allocator.wf() ==> gc.wf(),
{
    GlobalContext::new(allocator)
}

} // verus!
