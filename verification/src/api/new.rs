//! Allocation of plain objects.
use vstd::prelude::*;
use crate::global_context::GlobalContext;
use crate::light_weight_thread::{LightWeightThreadContext};
use crate::FunctionObject;

verus! {

/// Allocates a zeroed object. The frame holds the address for the result and
/// the size of the object in bytes. The address of the object is written to
/// the result address, and the frame is left.
pub fn gox5_new(ctx: &mut LightWeightThreadContext, gc: &mut GlobalContext) -> (next:
    FunctionObject)
    requires
        crate::api::new_ready(old(ctx), old(gc)),
    ensures
        crate::api::new_done(old(ctx), old(gc), final(ctx), final(gc), next),
{
    crate::api::new(ctx, gc)
}

} // verus!
