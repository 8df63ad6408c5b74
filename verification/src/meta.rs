//! Per-socket bookkeeping shared by every protocol variant.

use vstd::prelude::*;

use crate::set::Handle;

verus! {

/// Metadata attached to every socket: the handle under which the registry
/// addresses it.
#[derive(Debug, Clone, Copy, PartialEq, Eq, Structural)]
pub struct Meta {
    /// Handle identifying this socket within its registry.
    pub handle: Handle,
}

impl Meta {
    /// Replace the handle, used when the owning slot is reassigned.
    pub fn update(&mut self, handle: Handle)
        ensures
            final(self).handle == handle,
    {
        self.handle = handle;
    }
}

} // verus!
