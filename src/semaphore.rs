//! A GPU-to-GPU synchronization primitive over the three backends.
use vstd::prelude::*;

verus! {

/// A Vulkan semaphore, by its raw handle.
#[derive(Clone, Copy, Debug, PartialEq, Eq, Structural)]
pub struct RafxSemaphoreVulkan {
    pub vk_semaphore: u64,
}

/// A Metal shared event, by its raw handle.
#[derive(Clone, Copy, Debug, PartialEq, Eq, Structural)]
pub struct RafxSemaphoreMetal {
    pub metal_event: u64,
}

/// The semaphore of the backend that does nothing.
#[derive(Clone, Copy, Debug, PartialEq, Eq, Structural)]
pub struct RafxSemaphoreEmpty {
    pub id: u64,
}

/// A GPU -> GPU synchronization mechanism.
///
/// A semaphore is either "signalled" or "unsignalled". Only the GPU can read or write this
/// status. Semaphores queue dependent units of work, where one cannot start until another
/// completes. A semaphore must not be dropped while the GPU uses it.
#[derive(Clone, Copy, Debug, PartialEq, Eq, Structural)]
pub enum RafxSemaphore {
    Vk(RafxSemaphoreVulkan),
    Metal(RafxSemaphoreMetal),
    Empty(RafxSemaphoreEmpty),
}

impl RafxSemaphore {
    /// The underlying Vulkan object, when this is a Vulkan semaphore.
    pub fn vk_semaphore(&self) -> (r: Option<&RafxSemaphoreVulkan>)
        ensures
            match *self {
                RafxSemaphore::Vk(inner) => r is Some && *r->0 == inner,
                _ => r is None,
            },
    {
        match self {
            RafxSemaphore::Vk(inner) => Some(inner),
            RafxSemaphore::Metal(_) => None,
            RafxSemaphore::Empty(_) => None,
        }
    }

    /// The underlying Metal object, when this is a Metal semaphore.
    pub fn metal_semaphore(&self) -> (r: Option<&RafxSemaphoreMetal>)
        ensures
            match *self {
                RafxSemaphore::Metal(inner) => r is Some && *r->0 == inner,
                _ => r is None,
            },
    {
        match self {
            RafxSemaphore::Vk(_) => None,
            RafxSemaphore::Metal(inner) => Some(inner),
            RafxSemaphore::Empty(_) => None,
        }
    }

    /// The underlying object of the empty backend, when this is one of its semaphores.
    pub fn empty_semaphore(&self) -> (r: Option<&RafxSemaphoreEmpty>)
        ensures
            match *self {
                RafxSemaphore::Empty(inner) => r is Some && *r->0 == inner,
                _ => r is None,
            },
    {
        match self {
            RafxSemaphore::Vk(_) => None,
            RafxSemaphore::Metal(_) => None,
            RafxSemaphore::Empty(inner) => Some(inner),
        }
    }
}

} // verus!
