//! The debanding filter: its configuration, and what it asks of the host for
//! each frame.
use vstd::prelude::*;
use crate::gpu::{FmtType, Format, PlaneData, TexParams, TexRole};
use crate::planes::{count_selected, get_planes_arg, plane_selected, selection_fault, PlaneError};
use crate::shaders_root::{DebandParams, DEFAULT_GRAIN, DEFAULT_RADIUS, DEFAULT_THRESHOLD};

verus! {

/// Most planes that a frame of the host can have.
pub const MAX_FRAME_PLANES: usize = 3;

/// How the samples of a clip are encoded.
#[derive(Clone, Copy, Debug, PartialEq, Eq, Structural)]
pub enum SampleType {
    Integer,
    Float,
}

/// The format of a clip, as far as the filter reads it.
#[derive(Clone, Copy, Debug, PartialEq, Eq, Structural)]
pub struct VideoFormat {
    pub sample_type: SampleType,
    /// Number of significant bits of a sample.
    pub bits_per_sample: i32,
    /// Number of bytes that a sample is stored in.
    pub bytes_per_sample: i32,
    /// Number of planes of a frame.
    pub num_planes: i32,
}

/// Size and row stride of one plane of a frame in host memory.
#[derive(Clone, Copy, Debug, PartialEq, Eq, Structural)]
pub struct PlaneGeometry {
    /// Pixels in a row.
    pub width: i32,
    /// Rows.
    pub height: i32,
    /// Bytes from one row to the next.
    pub stride: isize,
}

/// The arguments that a filter is created from. An argument that was not
/// given is `None`; a plane list that was not given is empty.
#[derive(Debug)]
pub struct FilterArgs {
    /// Format of the clip to filter, where a clip was given.
    pub clip: Option<VideoFormat>,
    pub iterations: Option<i64>,
    /// Bit pattern of a single-precision number.
    pub threshold: Option<u32>,
    /// Bit pattern of a single-precision number.
    pub radius: Option<u32>,
    /// Bit pattern of a single-precision number.
    pub grain: Option<u32>,
    /// The planes to process; all of them where the list is empty.
    pub planes: Vec<i32>,
}

/// Why no filter was created.
#[derive(Clone, Copy, Debug, PartialEq, Eq, Structural)]
pub enum FilterError {
    /// No clip was given.
    Clip,
    /// The clip's samples have neither 8 nor 16 nor 32 bits.
    BitDepth,
    /// The clip's frames have no plane, or more than three.
    PlaneCount,
    /// The plane list is refused.
    Planes(PlaneError),
}

impl FilterError {
    /// The text that the error is reported with.
    pub open spec fn spec_message(self) -> Seq<char> {
        match self {
            FilterError::Clip => "Failed to get clip"@,
            FilterError::BitDepth => "placebo.Deband: input bit depth must be 8, 16, or 32."@,
            FilterError::PlaneCount => "placebo.Deband: input must have 1 to 3 planes."@,
            FilterError::Planes(e) => e.spec_message(),
        }
    }

    /// The text that the error is reported with.
    pub fn message(&self) -> (text: String)
        ensures
            text@ == self.spec_message(),
    {
        match self {
            FilterError::Clip => "Failed to get clip".to_owned(),
            FilterError::BitDepth => "placebo.Deband: input bit depth must be 8, 16, or 32.".to_owned(),
            FilterError::PlaneCount => "placebo.Deband: input must have 1 to 3 planes.".to_owned(),
            FilterError::Planes(e) => e.message(),
        }
    }
}

/// Why the host calls for a frame.
#[derive(Clone, Copy, Debug, PartialEq, Eq, Structural)]
pub enum ActivationReason {
    /// The frame is asked for, for the first time.
    Initial,
    /// Every frame that was requested from upstream is there.
    AllFramesReady,
    /// A frame that was requested from upstream failed.
    Error,
}

/// Which frames of its clip a filter requests for a frame of its own.
#[derive(Clone, Copy, Debug, PartialEq, Eq, Structural)]
pub enum RequestPattern {
    /// Any.
    General,
    /// Each at most once.
    NoFrameReuse,
    /// The frame of the same number, and no other.
    StrictSpatial,
    /// Each at most once, but for the last.
    FrameReuseLastOnly,
}

/// What the filter does when the host calls for a frame.
#[derive(Clone, Copy, Debug, PartialEq, Eq, Structural)]
pub enum FrameRequest {
    /// Request the frame of this number from the clip, and no other.
    Upstream(i32),
    /// Process the frame that was requested.
    Process,
    /// Nothing.
    Nothing,
}

/// Whether samples of `bits` bits can be filtered.
pub open spec fn depth_supported(bits: int) -> bool {
    bits == 8 || bits == 16 || bits == 32
}

/// The deband parameters that `args` ask for: what was given, with the
/// iteration count cut to 32 bits, and the defaults of one pass, threshold
/// 3, radius 16 and grain 4 for what was not.
pub open spec fn spec_deband_params(args: FilterArgs) -> DebandParams {
    DebandParams {
        iterations: match args.iterations {
            Some(n) => n as i32,
            None => 1i32,
        },
        threshold: match args.threshold {
            Some(x) => x,
            None => DEFAULT_THRESHOLD,
        },
        radius: match args.radius {
            Some(x) => x,
            None => DEFAULT_RADIUS,
        },
        grain: match args.grain {
            Some(x) => x,
            None => DEFAULT_GRAIN,
        },
    }
}

/// What `args` are refused for, the first of: no clip, an unsupported bit
/// depth, a plane count outside 1 to 3, a faulty plane list. `None` where a
/// filter is created.
pub open spec fn config_fault(args: FilterArgs) -> Option<FilterError> {
    match args.clip {
        None => Some(FilterError::Clip),
        Some(format) => if !depth_supported(format.bits_per_sample as int) {
            Some(FilterError::BitDepth)
        } else if !(1 <= format.num_planes <= MAX_FRAME_PLANES) {
            Some(FilterError::PlaneCount)
        } else {
            match selection_fault(args.planes@, format.num_planes as int) {
                Some(e) => Some(FilterError::Planes(e)),
                None => None,
            }
        },
    }
}

/// The layout of plane `plane` of a frame of `format` whose planes lie in
/// host memory as `src` says.
pub open spec fn spec_plane_data(format: VideoFormat, src: Seq<PlaneGeometry>, plane: int) -> PlaneData {
    PlaneData {
        fmt_type: if format.sample_type == SampleType::Integer {
            FmtType::Unorm
        } else {
            FmtType::Float
        },
        width: src[plane].width,
        height: src[plane].height,
        pixel_stride: format.bytes_per_sample as usize,
        row_stride: src[plane].stride as usize,
        pixels: plane as i32,
        component_size: format.bits_per_sample,
        component_map: plane as i32,
    }
}

/// The parameters of the two textures of a plane: the input, of the size of
/// the source plane, and the output, of the size of the destination plane
/// that `data` maps to. Both have the format `format`.
pub open spec fn spec_texture_params(
    data: PlaneData,
    format: Format,
    dst: Seq<PlaneGeometry>,
) -> (TexParams, TexParams) {
    (
        TexParams::for_role(TexRole::Input, data.width, data.height, format),
        TexParams::for_role(
            TexRole::Output,
            dst[data.component_map as int].width,
            dst[data.component_map as int].height,
            format,
        ),
    )
}

/// A debanding filter: how strongly it debands, and which planes.
#[derive(Debug)]
pub struct Filter {
    /// Deband parameters.
    deband_params: DebandParams,
    /// Indicates whether or not the plane at index `i` should be processed.
    process_planes: Vec<bool>,
}

impl Filter {
    pub closed spec fn spec_deband_params(&self) -> DebandParams {
        self.deband_params
    }

    /// One flag per plane of the clip: whether the plane is processed.
    pub closed spec fn spec_process_planes(&self) -> Seq<bool> {
        self.process_planes@
    }

    /// Creates the filter that `args` describe, or says what they are
    /// refused for. Nothing is asked of the device on the way: a filter is
    /// there before any device object is made for it.
    pub fn create(args: &FilterArgs) -> (r: Result<Filter, FilterError>)
        ensures
            match r {
                Ok(filter) => {
                    &&& config_fault(*args).is_none()
                    &&& filter.spec_deband_params() == spec_deband_params(*args)
                    &&& filter.spec_process_planes().len() == args.clip.unwrap().num_planes
                    &&& forall|p: int|
                        0 <= p < filter.spec_process_planes().len()
                            ==> filter.spec_process_planes()[p] == plane_selected(args.planes@, p)
                    &&& count_selected(filter.spec_process_planes()) == if args.planes@.len() == 0 {
                        args.clip.unwrap().num_planes as nat
                    } else {
                        args.planes@.len()
                    }
                },
                Err(e) => config_fault(*args) == Some(e),
            },
    {
        let format = match args.clip {
            Some(format) => format,
            None => {
                return Err(FilterError::Clip);
            },
        };
        if format.bits_per_sample != 8 && format.bits_per_sample != 16 && format.bits_per_sample
            != 32 {
            return Err(FilterError::BitDepth);
        }
        if format.num_planes < 1 || format.num_planes as usize > MAX_FRAME_PLANES {
            return Err(FilterError::PlaneCount);
        }
        let iterations: i32 = match args.iterations {
            Some(n) => #[verifier::truncate]
            (n as i32),
            None => 1,
        };
        let threshold: u32 = match args.threshold {
            Some(x) => x,
            None => DEFAULT_THRESHOLD,
        };
        let radius: u32 = match args.radius {
            Some(x) => x,
            None => DEFAULT_RADIUS,
        };
        let grain: u32 = match args.grain {
            Some(x) => x,
            None => DEFAULT_GRAIN,
        };
        let deband_params = DebandParams { iterations, threshold, radius, grain };
        match get_planes_arg(args.planes.as_slice(), format.num_planes as usize) {
            Ok(process_planes) => Ok(Filter { deband_params, process_planes }),
            Err(e) => Err(FilterError::Planes(e)),
        }
    }

    /// How strongly the filter debands.
    pub fn deband_params(&self) -> (r: DebandParams)
        ensures
            r == self.spec_deband_params(),
    {
        self.deband_params
    }

    /// One flag per plane of the clip: whether the plane is processed.
    pub fn process_planes(&self) -> (r: &Vec<bool>)
        ensures
            r@ == self.spec_process_planes(),
    {
        &self.process_planes
    }

    /// The pattern that the filter declares to the host: for frame `n` it
    /// requests frame `n` of its clip and no other.
    pub fn request_pattern(&self) -> (r: RequestPattern)
        ensures
            r == RequestPattern::StrictSpatial,
    {
        RequestPattern::StrictSpatial
    }

    /// What to do when the host calls for frame `n`: on the first call,
    /// request frame `n` of the clip; once that frame is there, process it; on
    /// an error, nothing.
    pub fn get_frame(&self, n: i32, activation_reason: ActivationReason) -> (r: FrameRequest)
        ensures
            r == match activation_reason {
                ActivationReason::Initial => FrameRequest::Upstream(n),
                ActivationReason::AllFramesReady => FrameRequest::Process,
                ActivationReason::Error => FrameRequest::Nothing,
            },
    {
        match activation_reason {
            ActivationReason::Initial => FrameRequest::Upstream(n),
            ActivationReason::AllFramesReady => FrameRequest::Process,
            ActivationReason::Error => FrameRequest::Nothing,
        }
    }

    /// The parameters of the two textures of a plane: the input, to upload the
    /// source plane to and sample it from, and the output, to render to and
    /// download the destination plane from.
    pub fn create_textures(
        data: &PlaneData,
        format: Format,
        dst: &Vec<PlaneGeometry>,
    ) -> (r: (TexParams, TexParams))
        requires
            0 <= data.component_map < dst@.len(),
        ensures
            r == spec_texture_params(*data, format, dst@),
    {
        let tex_in = TexParams {
            w: data.width,
            h: data.height,
            format,
            sampleable: true,
            host_writable: true,
            renderable: false,
            host_readable: false,
        };
        let plane: usize = data.component_map as usize;
        let tex_out = TexParams {
            w: dst[plane].width,
            h: dst[plane].height,
            format,
            sampleable: false,
            host_writable: false,
            renderable: true,
            host_readable: true,
        };
        (tex_in, tex_out)
    }
}

} // verus!
