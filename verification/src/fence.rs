//! Memory fences between what the driver writes and what the device reads.

use vstd::prelude::*;

verus! {

/// Which memory accesses a fence keeps in order.
#[derive(Clone, Copy, Debug)]
pub(crate) enum Fence {
    /// What was written before the fence is seen before what is written after it.
    Store,
    /// What is read after the fence is read after what was read before it.
    Load,
    /// Both, for reads and writes alike.
    Full,
}

/// Issues a memory fence through `core::sync::atomic::fence`, with release,
/// acquire or sequentially consistent ordering. Nothing is claimed of it:
/// it returns nothing and changes no value that the program can see.
#[verifier::external_body]
pub(crate) fn fence(kind: Fence) {
    match kind {
        Fence::Store => core::sync::atomic::fence(core::sync::atomic::Ordering::Release),
        Fence::Load => core::sync::atomic::fence(core::sync::atomic::Ordering::Acquire),
        Fence::Full => core::sync::atomic::fence(core::sync::atomic::Ordering::SeqCst),
    }
}

} // verus!
