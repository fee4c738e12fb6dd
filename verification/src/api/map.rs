//! Map operations as compiled code calls them.
use vstd::prelude::*;
use crate::api::channel::store_flag;
use crate::global_context::GlobalContext;
use crate::light_weight_thread::{LightWeightThreadContext, frame_word};
use crate::memory::{Memory, ObjectAllocator, store_word, word_at, zeros};
use crate::object::map::{MapObject, MapView, decides, deleted, inserted, lookup};
use crate::type_id::TypeId;
use crate::FunctionObject;
use crate::ObjectPtr;

verus! {

/// Size in bytes of the object that stands for a map.
pub const MAP_OBJECT_SIZE: u64 = 8;

/// Creates an empty map and the object that stands for it.
pub fn allocate_map(gc: &mut GlobalContext, key_type: TypeId, value_type: TypeId) -> (ptr: u64)
    requires
        old(gc).wf(),
        old(gc).allocator.can_allocate(MAP_OBJECT_SIZE),
    ensures
        final(gc).wf(),
        ptr == old(gc).allocator@.len(),
        final(gc).allocator.guards() == old(gc).allocator.guards(),
        final(gc).allocator@ == store_word(
            old(gc).allocator@ + zeros(8),
            ptr as int,
            old(gc).maps@.len() as u64,
        ),
        final(gc).map_views() == old(gc).map_views().push(
            MapView { entries: Seq::empty(), key_type, value_type },
        ),
        final(gc).has_map(ObjectPtr(ptr)),
        final(gc).map_index(ObjectPtr(ptr)) == old(gc).maps@.len(),
        final(gc).created_light_weight_thread_count == old(gc).created_light_weight_thread_count,
        final(gc).handle_count == old(gc).handle_count,
        final(gc).ready_queue@ == old(gc).ready_queue@,
        final(gc).channel_views() == old(gc).channel_views(),
{
    let ptr = gc.allocator.allocate(MAP_OBJECT_SIZE, 0);
    let map = MapObject::new(key_type, value_type);
    let index = gc.maps.len() as u64;
    gc.maps.push(map);
    let ghost grown = gc.allocator@;
    gc.allocator.write_word(ptr, index);
    proof {
        crate::memory::lemma_word_at_store_word_same(grown, ptr as int, index);
    }
    ptr
}

/// The frame of `ctx` and the state `gc` are such that `gox5_map_new` can run.
pub open spec fn map_new_ready(ctx: &LightWeightThreadContext, gc: &GlobalContext) -> bool {
    &&& gc.wf()
    &&& ctx.frame_accessible(&gc.allocator, 7)
    &&& gc.allocator.can_allocate(MAP_OBJECT_SIZE)
    &&& gc.allocator.accessible(
        frame_word(gc.allocator@, ctx.stack_pointer, 4),
        8,
    )
}

/// `gox5_map_new` ran from the frame of `ctx` and left `ctx_after` and `next`.
pub open spec fn map_new_done(
    ctx: &LightWeightThreadContext,
    gc: &GlobalContext,
    ctx_after: &LightWeightThreadContext,
    gc_after: &GlobalContext,
    next: FunctionObject,
) -> bool {
    &&& gc_after.wf()
    &&& gc_after.allocator.guards() == gc.allocator.guards()
    &&& gc_after.allocator@ == store_word(
        store_word(
            gc.allocator@ + zeros(8),
            gc.allocator@.len() as int,
            gc.maps@.len() as u64,
        ),
        frame_word(gc.allocator@, ctx.stack_pointer, 4) as int,
        gc.allocator@.len() as u64,
    )
    &&& gc_after.map_views() == gc.map_views().push(
        MapView {
            entries: Seq::empty(),
            key_type: TypeId(frame_word(gc.allocator@, ctx.stack_pointer, 5)),
            value_type: TypeId(frame_word(gc.allocator@, ctx.stack_pointer, 6)),
        },
    )
    &&& gc_after.created_light_weight_thread_count == gc.created_light_weight_thread_count
    &&& gc_after.handle_count == gc.handle_count
    &&& gc_after.ready_queue@ == gc.ready_queue@
    &&& gc_after.channel_views() == gc.channel_views()
    &&& *ctx_after == ctx.left(gc_after.allocator@)
    &&& next == ctx.resume_func_in(gc_after.allocator@)
}

/// Creates a map. The frame holds the address for the result and the type
/// ids of the keys and of the values. The address of the map object is
/// written to the result address, and the frame is left.
pub fn gox5_map_new(ctx: &mut LightWeightThreadContext, gc: &mut GlobalContext) -> (next:
    FunctionObject)
    requires
        map_new_ready(old(ctx), old(gc)),
    ensures
        map_new_done(old(ctx), old(gc), final(ctx), final(gc), next),
{
    let result_ptr = ctx.frame_word(&gc.allocator, 4);
    let key_type = TypeId(ctx.frame_word(&gc.allocator, 5));
    let value_type = TypeId(ctx.frame_word(&gc.allocator, 6));
    let ptr = allocate_map(gc, key_type, value_type);
    gc.allocator.write_word(result_ptr, ptr);
    ctx.leave(&gc.allocator)
}

/// The frame of `ctx` and the state `gc` are such that `gox5_map_len` can run.
pub open spec fn map_len_ready(ctx: &LightWeightThreadContext, gc: &GlobalContext) -> bool {
    &&& ctx.frame_accessible(&gc.allocator, 6)
    &&& ({
        let m = gc.allocator@;
        let sp = ctx.stack_pointer;
        &&& frame_word(m, sp, 5) != 0 ==> gc.has_map(ObjectPtr(frame_word(m, sp, 5)))
        &&& gc.allocator.accessible(frame_word(m, sp, 4), 8)
    })
}

/// `gox5_map_len` ran from the frame of `ctx` and left `ctx_after` and `next`.
pub open spec fn map_len_done(
    ctx: &LightWeightThreadContext,
    gc: &GlobalContext,
    ctx_after: &LightWeightThreadContext,
    gc_after: &GlobalContext,
    next: FunctionObject,
) -> bool {
    &&& gc_after.same_tables(gc)
    &&& gc_after.allocator.guards() == gc.allocator.guards()
    &&& gc.wf() ==> gc_after.wf()
    &&& ({
        let m = gc.allocator@;
        let sp = ctx.stack_pointer;
        let map = ObjectPtr(frame_word(m, sp, 5));
        gc_after.allocator@ == store_word(
            m,
            frame_word(m, sp, 4) as int,
            if map.0 == 0 {
                0u64
            } else {
                gc.map_views()[gc.map_index(map)].entries.len() as u64
            },
        )
    })
    &&& *ctx_after == ctx.left(gc_after.allocator@)
    &&& next == ctx.resume_func_in(gc_after.allocator@)
}

/// Tells the number of entries of a map. The frame holds the address for the
/// result and the address of the map object, which may be null. The number of
/// entries, zero for the null map, is written to the result address, and the
/// frame is left.
pub fn gox5_map_len(ctx: &mut LightWeightThreadContext, gc: &mut GlobalContext) -> (next:
    FunctionObject)
    requires
        map_len_ready(old(ctx), old(gc)),
    ensures
        map_len_done(old(ctx), old(gc), final(ctx), final(gc), next),
{
    let result_ptr = ctx.frame_word(&gc.allocator, 4);
    let map = ObjectPtr(ctx.frame_word(&gc.allocator, 5));
    let len = if map.is_null() {
        0
    } else {
        assert(gc.maps.len() == gc.maps@.len());
        let index = gc.allocator.read_word(map.0) as usize;
        gc.maps[index].len() as u64
    };
    gc.allocator.write_word(result_ptr, len);
    ctx.leave(&gc.allocator)
}

/// The frame of `ctx` and the state `gc` are such that `gox5_map_get` can run.
pub open spec fn map_get_ready<F: Fn(u64, &Memory, ObjectPtr, ObjectPtr) -> bool>(
    ctx: &LightWeightThreadContext,
    gc: &GlobalContext,
    is_equal: &F,
) -> bool {
    &&& ctx.frame_accessible(&gc.allocator, 8)
    &&& gc.has_map(ObjectPtr(frame_word(gc.allocator@, ctx.stack_pointer, 4)))
    &&& ({
        let m = gc.allocator@;
        let sp = ctx.stack_pointer;
        let map = gc.maps@[gc.map_index(ObjectPtr(frame_word(m, sp, 4)))];
        let key = ObjectPtr(frame_word(m, sp, 5));
        let flag_ptr = frame_word(m, sp, 7);
        &&& map.gettable(&gc.allocator, key, ObjectPtr(frame_word(m, sp, 6)), is_equal)
        &&& flag_ptr == 0 ==> lookup(
            map@.entries,
            map.relation(is_equal, &gc.allocator),
            key,
        ) is Some
        &&& flag_ptr != 0 ==> gc.allocator.accessible(flag_ptr, 1)
    })
}

/// `gox5_map_get` ran from the frame of `ctx` and left `ctx_after` and `next`.
pub open spec fn map_get_done<F: Fn(u64, &Memory, ObjectPtr, ObjectPtr) -> bool>(
    ctx: &LightWeightThreadContext,
    gc: &GlobalContext,
    ctx_after: &LightWeightThreadContext,
    gc_after: &GlobalContext,
    next: FunctionObject,
    is_equal: &F,
) -> bool {
    &&& gc_after.same_tables(gc)
    &&& gc_after.allocator.guards() == gc.allocator.guards()
    &&& gc.wf() ==> gc_after.wf()
    &&& ({
        let m = gc.allocator@;
        let sp = ctx.stack_pointer;
        let map = gc.maps@[gc.map_index(ObjectPtr(frame_word(m, sp, 4)))];
        let found = lookup(
            map@.entries,
            map.relation(is_equal, &gc.allocator),
            ObjectPtr(frame_word(m, sp, 5)),
        );
        gc_after.allocator@ == store_flag(
            crate::memory::store_bytes(
                m,
                frame_word(m, sp, 6) as int,
                match found {
                    Some(stored) => crate::memory::bytes_at(
                        m,
                        stored.0 as int,
                        map@.value_type.size_in(m) as int,
                    ),
                    None => zeros(map@.value_type.size_in(m) as int),
                },
            ),
            frame_word(m, sp, 7),
            found is Some,
        )
    })
    &&& *ctx_after == ctx.left(gc_after.allocator@)
    &&& next == ctx.resume_func_in(gc_after.allocator@)
}

/// Looks a key up in a map. The frame holds the address of the map object,
/// the address of the key, the address for the value, and the address for a
/// flag, which may be null. If the key is found, the bytes of its value are
/// copied to the address for the value; if not, that address is zeroed. The
/// flag, if asked for, says which; a lookup that does not ask for it must
/// find the key. The frame is left.
pub fn gox5_map_get<F: Fn(u64, &Memory, ObjectPtr, ObjectPtr) -> bool>(
    ctx: &mut LightWeightThreadContext,
    gc: &mut GlobalContext,
    is_equal: &F,
) -> (next: FunctionObject)
    requires
        decides(is_equal),
        map_get_ready(old(ctx), old(gc), is_equal),
    ensures
        map_get_done(old(ctx), old(gc), final(ctx), final(gc), next, is_equal),
{
    let map = ObjectPtr(ctx.frame_word(&gc.allocator, 4));
    let key = ObjectPtr(ctx.frame_word(&gc.allocator, 5));
    let value = ObjectPtr(ctx.frame_word(&gc.allocator, 6));
    let flag_ptr = ctx.frame_word(&gc.allocator, 7);
    assert(gc.maps.len() == gc.maps@.len());
    let index = gc.allocator.read_word(map.0) as usize;
    let found = gc.maps[index].get(&mut gc.allocator, key, value, is_equal);
    if flag_ptr != 0 {
        gc.allocator.write_byte(
            flag_ptr,
            if found {
                1
            } else {
                0
            },
        );
    }
    ctx.leave(&gc.allocator)
}

/// The frame of `ctx` and the state `gc` are such that `gox5_map_set` can run.
pub open spec fn map_set_ready(ctx: &LightWeightThreadContext, gc: &GlobalContext) -> bool {
    &&& gc.wf()
    &&& ctx.frame_accessible(&gc.allocator, 7)
    &&& gc.has_map(ObjectPtr(frame_word(gc.allocator@, ctx.stack_pointer, 4)))
    &&& ({
        let m = gc.allocator@;
        let sp = ctx.stack_pointer;
        let map = gc.maps@[gc.map_index(ObjectPtr(frame_word(m, sp, 4)))];
        map.settable(
            &gc.allocator,
            ObjectPtr(frame_word(m, sp, 5)),
            ObjectPtr(frame_word(m, sp, 6)),
        )
    })
}

/// `gox5_map_set` ran from the frame of `ctx` and left `ctx_after` and `next`.
pub open spec fn map_set_done<F: Fn(u64, &Memory, ObjectPtr, ObjectPtr) -> bool>(
    ctx: &LightWeightThreadContext,
    gc: &GlobalContext,
    ctx_after: &LightWeightThreadContext,
    gc_after: &GlobalContext,
    next: FunctionObject,
    is_equal: &F,
) -> bool {
    &&& gc_after.wf()
    &&& gc_after.allocator.guards() == gc.allocator.guards()
    &&& gc_after.created_light_weight_thread_count == gc.created_light_weight_thread_count
    &&& gc_after.handle_count == gc.handle_count
    &&& gc_after.ready_queue@ == gc.ready_queue@
    &&& gc_after.channel_views() == gc.channel_views()
    &&& ({
        let m = gc.allocator@;
        let sp = ctx.stack_pointer;
        let index = gc.map_index(ObjectPtr(frame_word(m, sp, 4)));
        let map = gc.maps@[index];
        &&& gc_after.allocator@ == map.copied_store(
            m,
            ObjectPtr(frame_word(m, sp, 5)),
            ObjectPtr(frame_word(m, sp, 6)),
        )
        &&& gc_after.map_views() == gc.map_views().update(
            index,
            MapView {
                entries: inserted(
                    map@.entries,
                    map.relation(is_equal, &gc_after.allocator),
                    ObjectPtr(m.len() as u64),
                    ObjectPtr(
                        (m.len() + crate::memory::round_up(
                            map@.key_type.size_in(m) as int,
                        )) as u64,
                    ),
                ),
                key_type: map@.key_type,
                value_type: map@.value_type,
            },
        )
    })
    &&& *ctx_after == ctx.left(gc_after.allocator@)
    &&& next == ctx.resume_func_in(gc_after.allocator@)
}

/// Sets a value in a map. The frame holds the address of the map object, the
/// address of the key, and the address of the value. Copies of the key and of
/// the value are placed in fresh storage; the value under an equal key is
/// replaced by the copy, or the copies become a new entry. The frame is left.
pub fn gox5_map_set<F: Fn(u64, &Memory, ObjectPtr, ObjectPtr) -> bool>(
    ctx: &mut LightWeightThreadContext,
    gc: &mut GlobalContext,
    is_equal: &F,
) -> (next: FunctionObject)
    requires
        decides(is_equal),
        map_set_ready(old(ctx), old(gc)),
    ensures
        map_set_done(old(ctx), old(gc), final(ctx), final(gc), next, is_equal),
{
    let map = ObjectPtr(ctx.frame_word(&gc.allocator, 4));
    let key = ObjectPtr(ctx.frame_word(&gc.allocator, 5));
    let value = ObjectPtr(ctx.frame_word(&gc.allocator, 6));
    assert(gc.maps.len() == gc.maps@.len());
    let index = gc.allocator.read_word(map.0) as usize;
    gc.maps[index].set(&mut gc.allocator, key, value, is_equal);
    assert(gc.map_views() =~= old(gc).map_views().update(index as int, gc.maps@[index as int]@));
    ctx.leave(&gc.allocator)
}

/// The frame of `ctx` and the state `gc` are such that `gox5_map_delete` can run.
pub open spec fn map_delete_ready(ctx: &LightWeightThreadContext, gc: &GlobalContext) -> bool {
    &&& ctx.frame_accessible(&gc.allocator, 6)
    &&& ({
        let m = gc.allocator@;
        let sp = ctx.stack_pointer;
        let map = ObjectPtr(frame_word(m, sp, 4));
        map.0 != 0 ==> {
            &&& gc.has_map(map)
            &&& gc.maps@[gc.map_index(map)]@.key_type.readable(&gc.allocator)
        }
    })
}

/// `gox5_map_delete` ran from the frame of `ctx` and left `ctx_after` and `next`.
pub open spec fn map_delete_done<F: Fn(u64, &Memory, ObjectPtr, ObjectPtr) -> bool>(
    ctx: &LightWeightThreadContext,
    gc: &GlobalContext,
    ctx_after: &LightWeightThreadContext,
    gc_after: &GlobalContext,
    next: FunctionObject,
    is_equal: &F,
) -> bool {
    &&& gc_after.allocator == gc.allocator
    &&& gc_after.created_light_weight_thread_count == gc.created_light_weight_thread_count
    &&& gc_after.handle_count == gc.handle_count
    &&& gc_after.ready_queue@ == gc.ready_queue@
    &&& gc_after.channel_views() == gc.channel_views()
    &&& gc.wf() ==> gc_after.wf()
    &&& ({
        let m = gc.allocator@;
        let sp = ctx.stack_pointer;
        let ptr = ObjectPtr(frame_word(m, sp, 4));
        let index = gc.map_index(ptr);
        let map = gc.maps@[index];
        &&& ptr.0 == 0 ==> gc_after.map_views() == gc.map_views()
        &&& ptr.0 != 0 ==> gc_after.map_views() == gc.map_views().update(
            index,
            MapView {
                entries: deleted(
                    map@.entries,
                    map.relation(is_equal, &gc.allocator),
                    ObjectPtr(frame_word(m, sp, 5)),
                ),
                key_type: map@.key_type,
                value_type: map@.value_type,
            },
        )
    })
    &&& *ctx_after == ctx.left(gc_after.allocator@)
    &&& next == ctx.resume_func_in(gc_after.allocator@)
}

/// Deletes a key from a map. The frame holds the address of the map object,
/// which may be null, and the address of the key. The entry under an equal
/// key, if there is one, is deleted; the null map is left as it is. The frame
/// is left.
pub fn gox5_map_delete<F: Fn(u64, &Memory, ObjectPtr, ObjectPtr) -> bool>(
    ctx: &mut LightWeightThreadContext,
    gc: &mut GlobalContext,
    is_equal: &F,
) -> (next: FunctionObject)
    requires
        decides(is_equal),
        map_delete_ready(old(ctx), old(gc)),
    ensures
        map_delete_done(old(ctx), old(gc), final(ctx), final(gc), next, is_equal),
{
    let map = ObjectPtr(ctx.frame_word(&gc.allocator, 4));
    if map.is_null() {
        return ctx.leave(&gc.allocator);
    }
    let key = ObjectPtr(ctx.frame_word(&gc.allocator, 5));
    assert(gc.maps.len() == gc.maps@.len());
    let index = gc.allocator.read_word(map.0) as usize;
    gc.maps[index].delete(&gc.allocator, key, is_equal);
    assert(gc.map_views() =~= old(gc).map_views().update(index as int, gc.maps@[index as int]@));
    ctx.leave(&gc.allocator)
}

/// The frame of `ctx` and the state `gc` are such that `gox5_map_next` can run.
pub open spec fn map_next_ready(ctx: &LightWeightThreadContext, gc: &GlobalContext) -> bool {
    &&& ctx.frame_accessible(&gc.allocator, 9)
    &&& gc.has_map(ObjectPtr(frame_word(gc.allocator@, ctx.stack_pointer, 4)))
    &&& ({
        let m = gc.allocator@;
        let sp = ctx.stack_pointer;
        let map = gc.maps@[gc.map_index(ObjectPtr(frame_word(m, sp, 4)))];
        &&& gc.allocator.accessible(frame_word(m, sp, 8), 8)
        &&& gc.allocator.accessible(frame_word(m, sp, 7), 1)
        &&& map.nth_readable(
            &gc.allocator,
            ObjectPtr(frame_word(m, sp, 5)),
            ObjectPtr(frame_word(m, sp, 6)),
            word_at(m, frame_word(m, sp, 8) as int),
        )
    })
}

/// `gox5_map_next` ran from the frame of `ctx` and left `ctx_after` and `next`.
pub open spec fn map_next_done(
    ctx: &LightWeightThreadContext,
    gc: &GlobalContext,
    ctx_after: &LightWeightThreadContext,
    gc_after: &GlobalContext,
    next: FunctionObject,
) -> bool {
    &&& gc_after.same_tables(gc)
    &&& gc_after.allocator.guards() == gc.allocator.guards()
    &&& gc.wf() ==> gc_after.wf()
    &&& ({
        let m = gc.allocator@;
        let sp = ctx.stack_pointer;
        let map = gc.maps@[gc.map_index(ObjectPtr(frame_word(m, sp, 4)))];
        let count_ptr = frame_word(m, sp, 8);
        let nth = word_at(m, count_ptr as int);
        let found = nth < map@.entries.len();
        let copied = if found {
            map.entry_copied(
                m,
                map@.entries[nth as int],
                ObjectPtr(frame_word(m, sp, 5)),
                ObjectPtr(frame_word(m, sp, 6)),
            )
        } else {
            m
        };
        let flagged = store_flag_set(copied, frame_word(m, sp, 7), found);
        gc_after.allocator@ == if found {
            store_word(flagged, count_ptr as int, (nth + 1) as u64)
        } else {
            flagged
        }
    })
    &&& *ctx_after == ctx.left(gc_after.allocator@)
    &&& next == ctx.resume_func_in(gc_after.allocator@)
}

/// Steps through the entries of a map. The frame holds the address of the map
/// object, the addresses for the key and for the value, the address for a
/// flag, and the address of the count of steps made so far. If the map has an
/// entry at the position that the count gives, the bytes of its key and of
/// its value are copied to their addresses, the flag is set, and the count is
/// raised by one; if not, the flag is cleared. The frame is left.
pub fn gox5_map_next(ctx: &mut LightWeightThreadContext, gc: &mut GlobalContext) -> (next:
    FunctionObject)
    requires
        map_next_ready(old(ctx), old(gc)),
    ensures
        map_next_done(old(ctx), old(gc), final(ctx), final(gc), next),
{
    let map = ObjectPtr(ctx.frame_word(&gc.allocator, 4));
    let key = ObjectPtr(ctx.frame_word(&gc.allocator, 5));
    let value = ObjectPtr(ctx.frame_word(&gc.allocator, 6));
    let found_ptr = ctx.frame_word(&gc.allocator, 7);
    let count_ptr = ctx.frame_word(&gc.allocator, 8);
    assert(gc.maps.len() == gc.maps@.len());
    let index = gc.allocator.read_word(map.0) as usize;
    let nth = gc.allocator.read_word(count_ptr);
    let found = gc.maps[index].nth(&mut gc.allocator, key, value, nth);
    gc.allocator.write_byte(
        found_ptr,
        if found {
            1
        } else {
            0
        },
    );
    if found {
        gc.allocator.write_word(count_ptr, nth + 1);
    }
    ctx.leave(&gc.allocator)
}

/// The store after the flag `found` was written through `flag_ptr`.
pub open spec fn store_flag_set(m: Seq<u8>, flag_ptr: u64, found: bool) -> Seq<u8> {
    m.update(
        flag_ptr as int,
        if found {
            1u8
        } else {
            0u8
        },
    )
}

/// Tells whether `gox5_map_new` can run from the frame of `ctx` in the state `gc`.
pub fn check_map_new(ctx: &LightWeightThreadContext, gc: &GlobalContext) -> (ok: bool)
    ensures
        ok == map_new_ready(ctx, gc),
{
    if !gc.check_wf() || !ctx.is_frame_accessible(&gc.allocator, 7) {
        return false;
    }
    gc.allocator.has_room(MAP_OBJECT_SIZE) && gc.allocator.is_accessible(
        ctx.frame_word(&gc.allocator, 4),
        8,
    )
}

/// Tells whether `gox5_map_len` can run from the frame of `ctx` in the state `gc`.
pub fn check_map_len(ctx: &LightWeightThreadContext, gc: &GlobalContext) -> (ok: bool)
    ensures
        ok == map_len_ready(ctx, gc),
{
    if !ctx.is_frame_accessible(&gc.allocator, 6) {
        return false;
    }
    let result_ptr = ctx.frame_word(&gc.allocator, 4);
    let map = ObjectPtr(ctx.frame_word(&gc.allocator, 5));
    (map.0 == 0 || gc.find_map(map).is_some()) && gc.allocator.is_accessible(result_ptr, 8)
}

/// Tells whether `gox5_map_get` can run from the frame of `ctx` in the state `gc`.
pub fn check_map_get<F: Fn(u64, &Memory, ObjectPtr, ObjectPtr) -> bool>(
    ctx: &LightWeightThreadContext,
    gc: &GlobalContext,
    is_equal: &F,
) -> (ok: bool)
    requires
        decides(is_equal),
    ensures
        ok == map_get_ready(ctx, gc, is_equal),
{
    if !ctx.is_frame_accessible(&gc.allocator, 8) {
        return false;
    }
    let map = ObjectPtr(ctx.frame_word(&gc.allocator, 4));
    let key = ObjectPtr(ctx.frame_word(&gc.allocator, 5));
    let value = ObjectPtr(ctx.frame_word(&gc.allocator, 6));
    let flag_ptr = ctx.frame_word(&gc.allocator, 7);
    let index = match gc.find_map(map) {
        Some(index) => index,
        None => {
            return false;
        },
    };
    match gc.maps[index].is_gettable(&gc.allocator, key, value, is_equal) {
        Some(found) => if flag_ptr == 0 {
            found
        } else {
            gc.allocator.is_accessible(flag_ptr, 1)
        },
        None => false,
    }
}

/// Tells whether `gox5_map_set` can run from the frame of `ctx` in the state `gc`.
pub fn check_map_set(ctx: &LightWeightThreadContext, gc: &GlobalContext) -> (ok: bool)
    ensures
        ok == map_set_ready(ctx, gc),
{
    if !gc.check_wf() || !ctx.is_frame_accessible(&gc.allocator, 7) {
        return false;
    }
    let map = ObjectPtr(ctx.frame_word(&gc.allocator, 4));
    let key = ObjectPtr(ctx.frame_word(&gc.allocator, 5));
    let value = ObjectPtr(ctx.frame_word(&gc.allocator, 6));
    match gc.find_map(map) {
        Some(index) => gc.maps[index].is_settable(&gc.allocator, key, value),
        None => false,
    }
}

/// Tells whether `gox5_map_delete` can run from the frame of `ctx` in the
/// state `gc`.
pub fn check_map_delete(ctx: &LightWeightThreadContext, gc: &GlobalContext) -> (ok: bool)
    ensures
        ok == map_delete_ready(ctx, gc),
{
    if !ctx.is_frame_accessible(&gc.allocator, 6) {
        return false;
    }
    let map = ObjectPtr(ctx.frame_word(&gc.allocator, 4));
    if map.0 == 0 {
        return true;
    }
    match gc.find_map(map) {
        Some(index) => gc.maps[index].key_type().is_readable(&gc.allocator),
        None => false,
    }
}

/// Tells whether `gox5_map_next` can run from the frame of `ctx` in the state `gc`.
pub fn check_map_next(ctx: &LightWeightThreadContext, gc: &GlobalContext) -> (ok: bool)
    ensures
        ok == map_next_ready(ctx, gc),
{
    if !ctx.is_frame_accessible(&gc.allocator, 9) {
        return false;
    }
    let map = ObjectPtr(ctx.frame_word(&gc.allocator, 4));
    let key = ObjectPtr(ctx.frame_word(&gc.allocator, 5));
    let value = ObjectPtr(ctx.frame_word(&gc.allocator, 6));
    let found_ptr = ctx.frame_word(&gc.allocator, 7);
    let count_ptr = ctx.frame_word(&gc.allocator, 8);
    let index = match gc.find_map(map) {
        Some(index) => index,
        None => {
            return false;
        },
    };
    if !gc.allocator.is_accessible(count_ptr, 8) || !gc.allocator.is_accessible(found_ptr, 1) {
        return false;
    }
    let nth = gc.allocator.read_word(count_ptr);
    gc.maps[index].is_nth_readable(&gc.allocator, key, value, nth)
}

} // verus!
