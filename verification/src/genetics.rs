use vstd::prelude::*;

use crate::morphology::PolyminiCreationCtx;

verus! {

/// A context that the genetic algorithm draws random numbers from.
pub trait GAContext {
    type RandomCtx;

    fn get_random_ctx(&mut self) -> &mut Self::RandomCtx;
}

impl<R> GAContext for PolyminiCreationCtx<R> {
    type RandomCtx = R;

    fn get_random_ctx(&mut self) -> (r: &mut R)
        ensures
            *r == old(self).random_context,
            final(self).random_context == *final(r),
            final(self).trans_table == old(self).trans_table,
            final(self).default_sensors == old(self).default_sensors,
    {
        &mut self.random_context
    }
}

} // verus!
