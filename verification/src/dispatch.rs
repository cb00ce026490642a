//! The dispatch layer, which runs recorded shaders against textures.
use vstd::prelude::*;
use crate::gpu::Tex;
use crate::shaders_root::{Recorded, Shader, Stage};

verus! {

/// What the device is handed to run a recording.
#[derive(Clone, Copy, Debug, PartialEq, Eq, Structural)]
pub struct DispatchParams {
    /// Handle of the recording.
    pub shader: usize,
    /// Handle of the texture that is rendered to.
    pub target: usize,
}

/// Why a recording was not handed to the device.
#[derive(Clone, Copy, Debug, PartialEq, Eq, Structural)]
pub enum DispatchError {
    /// Nothing is recorded.
    Blank,
    /// The recording was dispatched before and not reset since.
    Spent,
    /// The target cannot be rendered to.
    Target,
}

/// A shader dispatch object. It turns recordings into programs that the
/// device runs, and keeps the programs for efficient re-use.
#[derive(Clone, Copy, Debug, PartialEq, Eq, Structural)]
pub struct Dispatch {
    handle: usize,
}

impl Dispatch {
    /// The handle the device knows the dispatch object by.
    pub closed spec fn spec_handle(self) -> usize {
        self.handle
    }

    /// The dispatch object behind `handle`; `None` for the null handle.
    #[must_use]
    pub fn new(handle: usize) -> (r: Option<Self>)
        ensures
            r.is_some() <==> handle != 0,
            r.is_some() ==> r.unwrap().spec_handle() == handle,
    {
        if handle == 0 {
            None
        } else {
            Some(Dispatch { handle })
        }
    }

    #[must_use]
    pub fn as_ptr(&self) -> (r: usize)
        ensures
            r == self.spec_handle(),
    {
        self.handle
    }

    /// The blank recording behind `shader`, the handle that the dispatch
    /// object gave out; `None` for the null handle.
    #[must_use]
    pub fn begin(&self, shader: usize) -> (r: Option<Shader>)
        ensures
            r.is_some() <==> shader != 0,
            r.is_some() ==> r.unwrap()@ == (Recorded {
                handle: shader,
                index: 0,
                stage: Stage::Blank,
                ops: Seq::empty(),
            }),
    {
        if shader == 0 {
            None
        } else {
            Some(Shader::from_ptr(shader))
        }
    }

    /// What stands in the way of running `shader` against `target`.
    pub open spec fn refusal(shader: Recorded, target: Tex) -> Option<DispatchError> {
        if shader.stage == Stage::Blank {
            Some(DispatchError::Blank)
        } else if shader.stage == Stage::Dispatched {
            Some(DispatchError::Spent)
        } else if !target.spec_params().renderable {
            Some(DispatchError::Target)
        } else {
            None
        }
    }

    /// Hands the operations of `shader` over to be run against `target`.
    ///
    /// A blank recording is refused, as is one that was dispatched already,
    /// and a target that cannot be rendered to; the recording is then left as
    /// it is. Otherwise the recording counts as dispatched, and the result
    /// names the recording and the target for the device.
    pub fn finish(
        &self,
        shader: &mut Shader,
        target: &Tex,
    ) -> (r: Result<DispatchParams, DispatchError>)
        requires
            old(shader)@.wf(),
        ensures
            final(shader)@.wf(),
            match Self::refusal(old(shader)@, *target) {
                Some(e) => {
                    &&& r == Err::<DispatchParams, DispatchError>(e)
                    &&& final(shader)@ == old(shader)@
                },
                None => {
                    &&& r == Ok::<DispatchParams, DispatchError>(
                        DispatchParams {
                            shader: old(shader)@.handle,
                            target: target.spec_handle(),
                        },
                    )
                    &&& final(shader)@ == old(shader)@.after_dispatch()
                },
            },
    {
        match shader.stage() {
            Stage::Blank => Err(DispatchError::Blank),
            Stage::Dispatched => Err(DispatchError::Spent),
            Stage::Recording => {
                if !target.params().renderable {
                    Err(DispatchError::Target)
                } else {
                    let params = DispatchParams {
                        shader: shader.as_ptr(),
                        target: target.as_ptr(),
                    };
                    let _ = shader.dispatched();
                    Ok(params)
                }
            },
        }
    }
}

} // verus!
