//! Shader recordings and the persistent objects that shader stages keep
//! between frames.
use vstd::prelude::*;

verus! {

/// What a shader object is used for.
#[allow(non_camel_case_types)]
#[derive(Debug, Copy, Clone, Hash, PartialEq, Eq, Structural)]
pub enum pl_shader_obj_type {
    PL_SHADER_OBJ_INVALID,
    PL_SHADER_OBJ_COLOR_MAP,
    PL_SHADER_OBJ_SAMPLER,
    PL_SHADER_OBJ_DITHER,
    PL_SHADER_OBJ_LUT,
    PL_SHADER_OBJ_AV1_GRAIN,
    PL_SHADER_OBJ_FILM_GRAIN,
    PL_SHADER_OBJ_RESHAPE,
}

/// The head of a shader object: the device it belongs to and its use.
#[allow(non_camel_case_types)]
#[derive(Debug, Copy, Clone, PartialEq, Eq, Structural)]
pub struct pl_shader_obj_t {
    /// Handle of the device that the object lives on.
    pub gpu: usize,
    pub obj_type: pl_shader_obj_type,
}

/// Shader objects represent abstract resources that shaders need to manage in
/// order to ensure their operation. This could include shader storage
/// buffers, generated lookup textures, or other sorts of configured state.
/// An object is made once, lives as long as the filter and is shared by all
/// its frames.
#[derive(Debug, Copy, Clone, PartialEq, Eq, Structural)]
pub struct ShaderObject {
    pub obj: pl_shader_obj_t,
}

impl ShaderObject {
    /// An object of `obj_type` on the device `gpu`, with no state yet.
    #[must_use]
    pub fn new(gpu: usize, obj_type: pl_shader_obj_type) -> (r: Self)
        requires
            gpu != 0,
        ensures
            r.obj == (pl_shader_obj_t { gpu, obj_type }),
    {
        ShaderObject { obj: pl_shader_obj_t { gpu, obj_type } }
    }
}

/// How a recording is set up when it is cleared.
#[derive(Debug, Copy, Clone, PartialEq, Eq, Structural)]
pub struct ShaderParams {
    /// Handle of the device that the shader is generated for.
    pub gpu: usize,
    /// Tag of the frame, by which effects vary from frame to frame.
    pub index: u8,
}

/// The texture that a recorded operation samples from.
#[derive(Debug, Copy, Clone, PartialEq, Eq, Structural)]
pub struct SampleSrc {
    /// Handle of the texture.
    pub tex: usize,
}

/// Bit pattern of the single-precision number 3.
pub const DEFAULT_THRESHOLD: u32 = 0x4040_0000;

/// Bit pattern of the single-precision number 16.
pub const DEFAULT_RADIUS: u32 = 0x4180_0000;

/// Bit pattern of the single-precision number 4.
pub const DEFAULT_GRAIN: u32 = 0x4080_0000;

/// How strongly a plane is debanded. The three real-valued settings are held
/// as the bit patterns of single-precision numbers and handed to the device
/// untouched.
#[derive(Debug, Copy, Clone, PartialEq, Eq, Structural)]
pub struct DebandParams {
    /// Number of averaging passes.
    pub iterations: i32,
    /// Cut-off above which a difference counts as detail and is kept.
    pub threshold: u32,
    /// Initial radius of the averaging.
    pub radius: u32,
    /// Amount of noise added to mask what banding is left.
    pub grain: u32,
}

impl DebandParams {
    /// One pass with threshold 3, radius 16 and grain 4.
    pub open spec fn spec_default() -> Self {
        DebandParams {
            iterations: 1,
            threshold: DEFAULT_THRESHOLD,
            radius: DEFAULT_RADIUS,
            grain: DEFAULT_GRAIN,
        }
    }
}

impl Default for DebandParams {
    fn default() -> (r: Self)
        ensures
            r == DebandParams::spec_default(),
    {
        DebandParams {
            iterations: 1,
            threshold: DEFAULT_THRESHOLD,
            radius: DEFAULT_RADIUS,
            grain: DEFAULT_GRAIN,
        }
    }
}

/// The pattern that dithering draws its noise from.
#[derive(Debug, Copy, Clone, PartialEq, Eq, Structural)]
pub enum DitherMethod {
    BlueNoise,
    OrderedLut,
    OrderedFixed,
    WhiteNoise,
}

/// How a plane is dithered.
#[derive(Debug, Copy, Clone, PartialEq, Eq, Structural)]
pub struct DitherParams {
    pub method: DitherMethod,
    /// Base-two logarithm of the side of the lookup table.
    pub lut_size: i32,
    /// Whether the pattern varies with the frame's tag.
    pub temporal: bool,
}

impl DitherParams {
    /// Blue noise from a table of side 64 that does not vary over time.
    pub fn new() -> (r: Self)
        ensures
            r == (DitherParams { method: DitherMethod::BlueNoise, lut_size: 6, temporal: false }),
    {
        DitherParams { method: DitherMethod::BlueNoise, lut_size: 6, temporal: false }
    }
}

/// Where a recording stands in its life cycle.
#[derive(Debug, Copy, Clone, PartialEq, Eq, Structural)]
pub enum Stage {
    /// Nothing is recorded.
    Blank,
    /// At least one operation is recorded and none was dispatched.
    Recording,
    /// The recorded operations were handed to the dispatch layer.
    Dispatched,
}

/// An operation of a recording.
#[derive(Debug, Copy, Clone, PartialEq, Eq, Structural)]
pub enum ShaderOp {
    /// Deband what is sampled from `src`.
    Deband { src: SampleSrc, params: DebandParams },
    /// Dither to `new_depth` bits with the help of `dither_state`.
    Dither { new_depth: i32, dither_state: ShaderObject, dither: DitherParams },
}

/// What a recording holds.
pub struct Recorded {
    /// The handle the device knows the recording by.
    pub handle: usize,
    /// The tag of the frame that the recording was last cleared for.
    pub index: u8,
    pub stage: Stage,
    /// The operations recorded since the recording was last cleared, in the
    /// order in which they were recorded.
    pub ops: Seq<ShaderOp>,
}

impl Recorded {
    /// Whether one more operation can be recorded: not after the recording
    /// was dispatched.
    pub open spec fn takes_operation(self) -> bool {
        self.stage != Stage::Dispatched
    }

    /// The recording with `op` as its last operation.
    pub open spec fn with_operation(self, op: ShaderOp) -> Recorded {
        Recorded { stage: Stage::Recording, ops: self.ops.push(op), ..self }
    }

    /// The recording after its operations were handed to the dispatch layer.
    pub open spec fn after_dispatch(self) -> Recorded {
        Recorded { stage: Stage::Dispatched, ..self }
    }

    /// The recording cleared for the frame tagged `index`.
    pub open spec fn cleared(self, index: u8) -> Recorded {
        Recorded { handle: self.handle, index, stage: Stage::Blank, ops: Seq::empty() }
    }

    /// A recording is behind a handle that is not null, and is blank exactly
    /// as long as it holds no operation.
    pub open spec fn wf(self) -> bool {
        &&& self.handle != 0
        &&& self.stage == Stage::Blank <==> self.ops.len() == 0
    }
}

/// A shader recording: it gathers operations until they are dispatched
/// against a target, and is cleared to be used again.
#[derive(Debug, PartialEq, Eq)]
pub struct Shader {
    handle: usize,
    index: u8,
    stage: Stage,
    ops: Vec<ShaderOp>,
}

impl View for Shader {
    type V = Recorded;

    closed spec fn view(&self) -> Recorded {
        Recorded { handle: self.handle, index: self.index, stage: self.stage, ops: self.ops@ }
    }
}

impl Shader {
    /// The blank recording behind `ptr`.
    #[must_use]
    pub fn from_ptr(ptr: usize) -> (r: Self)
        requires
            ptr != 0,
        ensures
            r@ == (Recorded { handle: ptr, index: 0, stage: Stage::Blank, ops: Seq::empty() }),
            r@.wf(),
    {
        Shader { handle: ptr, index: 0, stage: Stage::Blank, ops: Vec::new() }
    }

    #[must_use]
    pub fn as_ptr(&self) -> (r: usize)
        ensures
            r == self@.handle,
    {
        self.handle
    }

    /// Where the recording stands in its life cycle.
    pub fn stage(&self) -> (r: Stage)
        ensures
            r == self@.stage,
    {
        self.stage
    }

    /// The tag of the frame that the recording was last cleared for.
    pub fn index(&self) -> (r: u8)
        ensures
            r == self@.index,
    {
        self.index
    }

    /// The operations recorded since the recording was last cleared.
    pub fn ops(&self) -> (r: &Vec<ShaderOp>)
        ensures
            r@ == self@.ops,
    {
        &self.ops
    }

    /// Resets the recording to a blank slate, tagged with the frame index of
    /// `params`, whatever stage it was in.
    pub fn reset(&mut self, params: &ShaderParams)
        requires
            old(self)@.wf(),
            params.gpu != 0,
        ensures
            final(self)@ == old(self)@.cleared(params.index),
            final(self)@.wf(),
    {
        self.index = params.index;
        self.stage = Stage::Blank;
        self.ops.clear();
    }

    /// Records `op`, if the recording still takes an operation.
    fn record(&mut self, op: ShaderOp) -> (taken: bool)
        requires
            old(self)@.wf(),
        ensures
            taken == old(self)@.takes_operation(),
            final(self)@ == if taken {
                old(self)@.with_operation(op)
            } else {
                old(self)@
            },
            final(self)@.wf(),
    {
        match self.stage {
            Stage::Dispatched => false,
            _ => {
                self.ops.push(op);
                self.stage = Stage::Recording;
                true
            },
        }
    }

    /// Records an operation that debands the texture `src`. A recording that
    /// was dispatched takes no operation until it is reset; the result says
    /// whether the operation was taken.
    pub fn deband(&mut self, src: &SampleSrc, params: &DebandParams) -> (taken: bool)
        requires
            old(self)@.wf(),
            src.tex != 0,
        ensures
            taken == old(self)@.takes_operation(),
            final(self)@ == if taken {
                old(self)@.with_operation(ShaderOp::Deband { src: *src, params: *params })
            } else {
                old(self)@
            },
            final(self)@.wf(),
    {
        self.record(ShaderOp::Deband { src: *src, params: *params })
    }

    /// Records an operation that dithers the colors to a lower depth, given in
    /// bits, with the help of the persistent `dither_state`. The result says
    /// whether the operation was taken, as for [`Shader::deband`].
    pub fn dither(
        &mut self,
        new_depth: i32,
        dither_state: &ShaderObject,
        params: &DitherParams,
    ) -> (taken: bool)
        requires
            old(self)@.wf(),
        ensures
            taken == old(self)@.takes_operation(),
            final(self)@ == if taken {
                old(self)@.with_operation(
                    ShaderOp::Dither { new_depth, dither_state: *dither_state, dither: *params },
                )
            } else {
                old(self)@
            },
            final(self)@.wf(),
    {
        self.record(ShaderOp::Dither { new_depth, dither_state: *dither_state, dither: *params })
    }

    /// Marks the recording as handed to the dispatch layer. A blank recording
    /// and one that was dispatched already are left as they are.
    pub fn dispatched(&mut self) -> (done: bool)
        requires
            old(self)@.wf(),
        ensures
            done == (old(self)@.stage == Stage::Recording),
            final(self)@ == if done {
                old(self)@.after_dispatch()
            } else {
                old(self)@
            },
            final(self)@.wf(),
    {
        match self.stage {
            Stage::Recording => {
                self.stage = Stage::Dispatched;
                true
            },
            _ => false,
        }
    }
}

} // verus!
