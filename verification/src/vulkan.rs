//! The device context: the device that textures and shaders live on.
use vstd::prelude::*;

verus! {

/// How the device is set up.
#[derive(Clone, Copy, Debug, PartialEq, Eq, Structural)]
pub struct VulkanParams {
    /// Ask the instance for its debugging layers.
    pub debug: bool,
    /// Use a queue of its own for compute work, where there is one.
    pub async_compute: bool,
    /// Use a queue of its own for transfers, where there is one.
    pub async_transfer: bool,
    /// Most queues to take of each kind.
    pub queue_count: i32,
}

impl VulkanParams {
    /// The set-up that the filter runs on: debugging layers, separate compute
    /// and transfer queues, one queue of each kind.
    pub fn new() -> (r: Self)
        ensures
            r == (VulkanParams {
                debug: true,
                async_compute: true,
                async_transfer: true,
                queue_count: 1,
            }),
    {
        VulkanParams { debug: true, async_compute: true, async_transfer: true, queue_count: 1 }
    }
}

/// A device context. It outlives every texture and every recording made on
/// its device.
#[derive(Clone, Copy, Debug, PartialEq, Eq, Structural)]
pub struct Vulkan {
    handle: usize,
    gpu: usize,
}

impl Vulkan {
    /// The handle of the context.
    pub closed spec fn spec_handle(self) -> usize {
        self.handle
    }

    /// The handle of the device that the context owns.
    pub closed spec fn spec_gpu(self) -> usize {
        self.gpu
    }

    /// Neither the context nor its device is the null handle.
    #[verifier::type_invariant]
    spec fn type_inv(self) -> bool {
        self.handle != 0 && self.gpu != 0
    }

    /// The context behind `handle`, which owns the device `gpu`; `None` where
    /// either is the null handle.
    #[must_use]
    pub fn new(handle: usize, gpu: usize) -> (r: Option<Self>)
        ensures
            r.is_some() <==> handle != 0 && gpu != 0,
            r.is_some() ==> r.unwrap().spec_handle() == handle && r.unwrap().spec_gpu() == gpu,
    {
        if handle == 0 || gpu == 0 {
            None
        } else {
            Some(Vulkan { handle, gpu })
        }
    }

    /// The handle of the context; never null.
    #[must_use]
    pub fn as_ptr(&self) -> (r: usize)
        ensures
            r == self.spec_handle(),
            r != 0,
    {
        proof {
            use_type_invariant(self);
        }
        self.handle
    }

    /// The handle of the device that the context owns; never null.
    #[must_use]
    pub fn gpu(&self) -> (r: usize)
        ensures
            r == self.spec_gpu(),
            r != 0,
    {
        proof {
            use_type_invariant(self);
        }
        self.gpu
    }
}

} // verus!
