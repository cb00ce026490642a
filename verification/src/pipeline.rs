//! The course of one frame through the filter.
//!
//! The pipeline decides and the caller acts: each step takes what the last
//! requested operation gave and answers with the operation to perform next.
//! Planes that the filter leaves alone are copied. For every other plane a
//! format is found, an input and an output texture are created and the plane
//! is uploaded. Then each plane is debanded, then each is downloaded. At
//! the end, and after the first failure, every texture that the pipeline
//! holds is destroyed before the frame is finished.
use vstd::prelude::*;
use crate::colorspace::{BitEncoding, ColorRepr, ColorSpace, ColorSystem};
use crate::deband::{
    spec_plane_data, spec_texture_params, Filter, PlaneGeometry, SampleType, VideoFormat,
};
use crate::dispatch::{Dispatch, DispatchParams};
use crate::gpu::{FmtType, Format, Frame, Plane, PlaneData, Tex, TexParams, TexRole};
use crate::shaders_root::{DebandParams, SampleSrc, ShaderParams};
use crate::vulkan::Vulkan;

verus! {

/// Why a frame was not completed.
#[derive(Clone, Copy, Debug, PartialEq, Eq, Structural)]
pub enum FrameError {
    /// The frame does not have the planes that the filter was created for, or
    /// a size or stride of it is negative or too large.
    Geometry,
    /// The device has no format for a plane.
    Format,
    /// The device did not create a texture.
    Texture,
    /// The device gave a texture that lacks what its role needs.
    Usage,
    /// The device did not take the pixels of a plane.
    Upload,
    /// The dispatch layer gave no recording.
    Shader,
    /// The device did not run the shader.
    Dispatch,
    /// The row pitch of a download does not fit the machine's word.
    RowPitch,
    /// The device did not give the pixels of a plane.
    Download,
    /// The caller reported something that the pipeline had not asked for.
    Protocol,
}

impl FrameError {
    /// The text that the error is reported with.
    pub open spec fn spec_message(self) -> Seq<char> {
        match self {
            FrameError::Geometry => "Frame does not match the filter."@,
            FrameError::Format => "Failed to find a suitable texture format."@,
            FrameError::Texture => "Failed to create texture."@,
            FrameError::Usage => "Texture lacks a required capability."@,
            FrameError::Upload => "Failed to upload plane."@,
            FrameError::Shader => "Failed to begin shader."@,
            FrameError::Dispatch => "Failed to dispatch shader."@,
            FrameError::RowPitch => "Row pitch is too large."@,
            FrameError::Download => "Failed to download texture."@,
            FrameError::Protocol => "Unexpected response from the device layer."@,
        }
    }

    /// The text that the error is reported with.
    pub fn message(&self) -> (text: String)
        ensures
            text@ == self.spec_message(),
    {
        match self {
            FrameError::Geometry => "Frame does not match the filter.".to_owned(),
            FrameError::Format => "Failed to find a suitable texture format.".to_owned(),
            FrameError::Texture => "Failed to create texture.".to_owned(),
            FrameError::Usage => "Texture lacks a required capability.".to_owned(),
            FrameError::Upload => "Failed to upload plane.".to_owned(),
            FrameError::Shader => "Failed to begin shader.".to_owned(),
            FrameError::Dispatch => "Failed to dispatch shader.".to_owned(),
            FrameError::RowPitch => "Row pitch is too large.".to_owned(),
            FrameError::Download => "Failed to download texture.".to_owned(),
            FrameError::Protocol => "Unexpected response from the device layer.".to_owned(),
        }
    }
}

/// A plane to copy from the source frame to the destination frame, row by
/// row.
#[derive(Clone, Copy, Debug, PartialEq, Eq, Structural)]
pub struct CopyParams {
    /// The plane, in both frames.
    pub plane: i32,
    /// Bytes from one row to the next in the destination.
    pub dst_stride: usize,
    /// Bytes from one row to the next in the source.
    pub src_stride: usize,
    /// Bytes to copy of each row.
    pub row_size: usize,
    /// Rows to copy.
    pub height: usize,
}

/// What an upload gave: the texture that now holds the plane, which takes
/// the place of the texture that the upload was asked for, and how the
/// plane's components lie in it.
#[derive(Clone, Copy, Debug, PartialEq, Eq, Structural)]
pub struct Uploaded {
    pub tex: Tex,
    pub components: i32,
    pub component_mapping: i32,
}

/// A transfer between a texture and a plane of the destination frame.
#[derive(Clone, Copy, Debug, PartialEq, Eq, Structural)]
pub struct TexTransferParams {
    /// Handle of the texture.
    pub tex: usize,
    /// Bytes from one row to the next in host memory.
    pub row_pitch: usize,
    /// The plane of the destination frame.
    pub plane: i32,
}

/// One run of the deband shader: the recording is reset with `reset`, a
/// deband of `src` with `deband` is recorded, and the recording is
/// dispatched with `params`.
#[derive(Clone, Copy, Debug, PartialEq, Eq, Structural)]
pub struct DispatchJob {
    pub reset: ShaderParams,
    pub src: SampleSrc,
    pub deband: DebandParams,
    pub params: DispatchParams,
}

/// What the pipeline asks the caller to do next.
#[derive(Clone, Copy, Debug, PartialEq, Eq, Structural)]
pub enum Action {
    /// Copy a plane from the source frame to the destination frame.
    CopyPlane(CopyParams),
    /// Find a texture format for a plane of this layout.
    FindFormat(PlaneData),
    /// Create a texture.
    CreateTexture { role: TexRole, params: TexParams },
    /// Upload the plane that `data` describes to the texture `tex`.
    UploadPlane { tex: Tex, data: PlaneData },
    /// Obtain a blank recording from the dispatch layer.
    Begin,
    /// Record and dispatch a deband.
    Dispatch(DispatchJob),
    /// Download a texture into a plane of the destination frame.
    Download(TexTransferParams),
    /// Destroy a texture.
    Destroy(Tex),
    /// Return the destination frame, or fail with the error.
    Finish(Option<FrameError>),
}

/// What the caller reports of the operation it was asked for.
#[derive(Clone, Copy, Debug, PartialEq, Eq, Structural)]
pub enum Event {
    /// Nothing was asked for yet.
    Start,
    /// The plane is copied.
    Copied,
    /// The format that was found, if any.
    Format(Option<Format>),
    /// The texture that was created, if any.
    Texture(Option<Tex>),
    /// What the upload gave, if it succeeded.
    Uploaded(Option<Uploaded>),
    /// Handle of the recording that was obtained; null for none.
    Shader(usize),
    /// Whether the device ran the shader.
    Dispatched(bool),
    /// Whether the device gave the pixels.
    Downloaded(bool),
    /// The texture is destroyed.
    Destroyed,
}

/// What the pipeline waits for.
#[derive(Clone, Copy, Debug, PartialEq, Eq, Structural)]
pub enum Phase {
    /// The start of the frame.
    Idle,
    /// A plane being copied.
    Copying,
    /// The format of a plane.
    Resolving,
    /// The input texture of a plane, which is to have this format.
    CreatingInput(Format),
    /// The output texture of a plane.
    CreatingOutput,
    /// The upload of a plane.
    Uploading,
    /// A recording.
    Beginning,
    /// The run of a shader.
    Dispatching,
    /// The download of a plane.
    Downloading,
    /// A texture being destroyed.
    Destroying,
    /// Nothing: the frame is finished.
    Done,
}

/// The state of a pipeline.
pub struct State {
    /// Number of the frame.
    pub frame_number: i32,
    /// Handle of the device.
    pub gpu: usize,
    pub deband: DebandParams,
    pub format: VideoFormat,
    /// One flag per plane: whether the plane is processed.
    pub process: Seq<bool>,
    /// The planes of the source frame.
    pub src: Seq<PlaneGeometry>,
    /// The planes of the destination frame.
    pub dst: Seq<PlaneGeometry>,
    pub phase: Phase,
    /// The plane that is being copied or prepared.
    pub plane: nat,
    /// The processed plane that is being debanded or downloaded.
    pub slot: nat,
    /// Layouts of the processed planes.
    pub planes_data: Seq<PlaneData>,
    /// Planes of the source frame descriptor.
    pub src_img: Seq<Plane>,
    /// Planes of the destination frame descriptor.
    pub dst_img: Seq<Plane>,
    /// The input textures that the pipeline holds.
    pub texes_in: Seq<Tex>,
    /// The output textures that the pipeline holds.
    pub texes_out: Seq<Tex>,
    /// The first failure.
    pub error: Option<FrameError>,
}

/// Whether plane `p` of a frame with the planes `src`, to be written to one
/// with the planes `dst`, can be copied and processed: no size is negative,
/// a row of the source is no longer than the source's stride, and a row of
/// the destination is no longer than either stride.
pub open spec fn plane_fits(
    format: VideoFormat,
    src: Seq<PlaneGeometry>,
    dst: Seq<PlaneGeometry>,
    p: int,
) -> bool {
    &&& src[p].width >= 0
    &&& src[p].height >= 0
    &&& dst[p].width >= 0
    &&& dst[p].height >= 0
    &&& src[p].width * format.bytes_per_sample <= src[p].stride
    &&& dst[p].width * format.bytes_per_sample <= src[p].stride
    &&& dst[p].width * format.bytes_per_sample <= dst[p].stride
}

/// Whether a frame with the planes `src`, to be written to one with the
/// planes `dst`, can go through a filter with `planes` planes: all three
/// have the same number of planes, a sample takes at least one byte, and
/// every plane can be copied and processed.
pub open spec fn frame_fits(
    format: VideoFormat,
    src: Seq<PlaneGeometry>,
    dst: Seq<PlaneGeometry>,
    planes: nat,
) -> bool {
    &&& format.num_planes == planes
    &&& src.len() == planes
    &&& dst.len() == planes
    &&& format.bytes_per_sample >= 1
    &&& forall|p: int| 0 <= p < planes ==> plane_fits(format, src, dst, p)
}

/// How plane `plane` is copied.
pub open spec fn spec_copy_params(
    format: VideoFormat,
    src: Seq<PlaneGeometry>,
    dst: Seq<PlaneGeometry>,
    plane: int,
) -> CopyParams {
    CopyParams {
        plane: plane as i32,
        dst_stride: dst[plane].stride as usize,
        src_stride: src[plane].stride as usize,
        row_size: (dst[plane].width * format.bytes_per_sample) as usize,
        height: dst[plane].height as usize,
    }
}

/// The row pitch of a download: the destination's stride in pixels, times
/// the size of a texel. `None` where that does not fit the machine's word.
pub open spec fn spec_row_pitch(
    stride: isize,
    pixel_stride: usize,
    texel_size: usize,
) -> Option<usize> {
    if (stride as int / pixel_stride as int) * texel_size <= usize::MAX {
        Some(((stride as int / pixel_stride as int) * texel_size) as usize)
    } else {
        None
    }
}

/// The state before anything is asked for. A frame that does not fit the
/// filter has failed by then.
pub open spec fn spec_initial(
    frame_number: i32,
    gpu: usize,
    deband: DebandParams,
    process: Seq<bool>,
    format: VideoFormat,
    src: Seq<PlaneGeometry>,
    dst: Seq<PlaneGeometry>,
) -> State {
    State {
        frame_number,
        gpu,
        deband,
        format,
        process,
        src,
        dst,
        phase: Phase::Idle,
        plane: 0,
        slot: 0,
        planes_data: Seq::empty(),
        src_img: Seq::empty(),
        dst_img: Seq::empty(),
        texes_in: Seq::empty(),
        texes_out: Seq::empty(),
        error: if frame_fits(format, src, dst, process.len()) {
            None
        } else {
            Some(FrameError::Geometry)
        },
    }
}

/// Releases what the pipeline holds: asks for the first input texture to be
/// destroyed, or else the first output texture, and gives it up; finishes
/// the frame where none is left.
pub open spec fn spec_release(s: State) -> (State, Action) {
    if s.texes_in.len() > 0 {
        (
            State { phase: Phase::Destroying, texes_in: s.texes_in.remove(0), ..s },
            Action::Destroy(s.texes_in[0]),
        )
    } else if s.texes_out.len() > 0 {
        (
            State { phase: Phase::Destroying, texes_out: s.texes_out.remove(0), ..s },
            Action::Destroy(s.texes_out[0]),
        )
    } else {
        (State { phase: Phase::Done, ..s }, Action::Finish(s.error))
    }
}

/// Fails the frame with `e`, unless it has failed before, and starts to
/// release what the pipeline holds.
pub open spec fn spec_fail(s: State, e: FrameError) -> (State, Action) {
    spec_release(
        State {
            error: Some(
                match s.error {
                    Some(first) => first,
                    None => e,
                },
            ),
            ..s
        },
    )
}

/// Goes on with the download of processed plane `s.slot`, or with the
/// release after the last.
pub open spec fn spec_download_planes(s: State) -> (State, Action) {
    if s.slot >= s.dst_img.len() {
        spec_release(s)
    } else {
        let plane = s.dst_img[s.slot as int].component_mapping;
        match spec_row_pitch(
            s.dst[plane as int].stride,
            s.planes_data[s.slot as int].pixel_stride,
            s.texes_out[s.slot as int].spec_params().format.texel_size,
        ) {
            Some(row_pitch) => (
                State { phase: Phase::Downloading, ..s },
                Action::Download(
                    TexTransferParams {
                        tex: s.texes_out[s.slot as int].spec_handle(),
                        row_pitch,
                        plane,
                    },
                ),
            ),
            None => spec_fail(s, FrameError::RowPitch),
        }
    }
}

/// Goes on with the deband of processed plane `s.slot`, or with the
/// downloads after the last.
pub open spec fn spec_deband_frame(s: State) -> (State, Action) {
    if s.slot >= s.src_img.len() {
        spec_download_planes(State { slot: 0, ..s })
    } else {
        (State { phase: Phase::Beginning, ..s }, Action::Begin)
    }
}

/// Goes on with plane `s.plane`: copies it if the filter leaves it alone,
/// else asks for a format for it; goes on with the debands after the last.
pub open spec fn spec_next_plane(s: State) -> (State, Action) {
    if s.plane >= s.process.len() {
        spec_deband_frame(State { slot: 0, ..s })
    } else if !s.process[s.plane as int] {
        (
            State { phase: Phase::Copying, ..s },
            Action::CopyPlane(spec_copy_params(s.format, s.src, s.dst, s.plane as int)),
        )
    } else {
        let data = spec_plane_data(s.format, s.src, s.plane as int);
        (
            State { phase: Phase::Resolving, planes_data: s.planes_data.push(data), ..s },
            Action::FindFormat(data),
        )
    }
}

/// The deband of processed plane `s.slot` on the recording `shader`: tagged
/// with the frame number cut to eight bits, sampling the plane's input
/// texture and rendering to its output texture.
pub open spec fn spec_job(s: State, shader: usize) -> DispatchJob {
    DispatchJob {
        reset: ShaderParams { gpu: s.gpu, index: s.frame_number as u8 },
        src: SampleSrc { tex: s.texes_in[s.slot as int].spec_handle() },
        deband: s.deband,
        params: DispatchParams { shader, target: s.texes_out[s.slot as int].spec_handle() },
    }
}

/// The state with the texture that `e` brings, if any, among the output
/// textures, to be released with them.
pub open spec fn spec_adopt(s: State, e: Event) -> State {
    match e {
        Event::Texture(Some(tex)) => State { texes_out: s.texes_out.push(tex), ..s },
        Event::Uploaded(Some(up)) => State { texes_out: s.texes_out.push(up.tex), ..s },
        _ => s,
    }
}

/// The state after the plane that is being prepared was uploaded: the
/// texture that the upload gave takes the place of the plane's input
/// texture, the plane is entered in both frame descriptors, with its input
/// texture in the source descriptor and its output texture in the
/// destination descriptor, and the next plane is up.
pub open spec fn uploaded(s: State, up: Uploaded) -> State {
    State {
        plane: s.plane + 1,
        texes_in: s.texes_in.update(s.texes_in.len() - 1, up.tex),
        src_img: s.src_img.push(
            Plane {
                texture: up.tex.spec_handle(),
                components: up.components,
                component_mapping: up.component_mapping,
            },
        ),
        dst_img: s.dst_img.push(
            Plane {
                texture: s.texes_out.last().spec_handle(),
                components: s.texes_out.last().spec_params().format.num_components,
                component_mapping: s.plane as i32,
            },
        ),
        ..s
    }
}

/// One step: the state after the caller reported `e`, and what is asked of
/// the caller next.
///
/// A report that answers what was asked moves the frame on, or fails it if
/// the operation failed. Any other report fails the frame as a breach of
/// protocol. A texture that a report brings is held from then on, and
/// destroyed before the frame finishes.
pub open spec fn spec_step(s: State, e: Event) -> (State, Action) {
    match (s.phase, e) {
        (Phase::Idle, Event::Start) => if s.error.is_some() {
            spec_release(s)
        } else {
            spec_next_plane(s)
        },
        (Phase::Copying, Event::Copied) => spec_next_plane(State { plane: s.plane + 1, ..s }),
        (Phase::Resolving, Event::Format(Some(format))) => (
            State { phase: Phase::CreatingInput(format), ..s },
            Action::CreateTexture {
                role: TexRole::Input,
                params: spec_texture_params(s.planes_data.last(), format, s.dst).0,
            },
        ),
        (Phase::Resolving, Event::Format(None)) => spec_fail(s, FrameError::Format),
        (Phase::CreatingInput(format), Event::Texture(Some(tex))) => {
            let held = State { texes_in: s.texes_in.push(tex), ..s };
            if !tex.spec_params().serves(TexRole::Input) {
                spec_fail(held, FrameError::Usage)
            } else {
                (
                    State { phase: Phase::CreatingOutput, ..held },
                    Action::CreateTexture {
                        role: TexRole::Output,
                        params: spec_texture_params(s.planes_data.last(), format, s.dst).1,
                    },
                )
            }
        },
        (Phase::CreatingInput(_), Event::Texture(None)) => spec_fail(s, FrameError::Texture),
        (Phase::CreatingOutput, Event::Texture(Some(tex))) => {
            let held = State { texes_out: s.texes_out.push(tex), ..s };
            if !tex.spec_params().serves(TexRole::Output) {
                spec_fail(held, FrameError::Usage)
            } else {
                (
                    State { phase: Phase::Uploading, ..held },
                    Action::UploadPlane {
                        tex: s.texes_in.last(),
                        data: s.planes_data.last(),
                    },
                )
            }
        },
        (Phase::CreatingOutput, Event::Texture(None)) => spec_fail(s, FrameError::Texture),
        (Phase::Uploading, Event::Uploaded(Some(up))) => {
            let held = State {
                texes_in: s.texes_in.update(s.texes_in.len() - 1, up.tex),
                ..s
            };
            if !up.tex.spec_params().sampleable {
                spec_fail(held, FrameError::Usage)
            } else {
                spec_next_plane(uploaded(s, up))
            }
        },
        (Phase::Uploading, Event::Uploaded(None)) => spec_fail(s, FrameError::Upload),
        (Phase::Beginning, Event::Shader(shader)) => if shader == 0 {
            spec_fail(s, FrameError::Shader)
        } else {
            (State { phase: Phase::Dispatching, ..s }, Action::Dispatch(spec_job(s, shader)))
        },
        (Phase::Dispatching, Event::Dispatched(true)) => spec_deband_frame(
            State { slot: s.slot + 1, ..s },
        ),
        (Phase::Dispatching, Event::Dispatched(false)) => spec_fail(s, FrameError::Dispatch),
        (Phase::Downloading, Event::Downloaded(true)) => spec_download_planes(
            State { slot: s.slot + 1, ..s },
        ),
        (Phase::Downloading, Event::Downloaded(false)) => spec_fail(s, FrameError::Download),
        (Phase::Destroying, Event::Destroyed) => spec_release(s),
        _ => spec_fail(spec_adopt(s, e), FrameError::Protocol),
    }
}

/// Processed plane `j` is ready to be debanded and downloaded: its entries
/// in the two frame descriptors name its textures, its input texture can be
/// sampled, its output texture can be rendered to and read back, and its
/// entry in the destination descriptor names a plane of the frame.
pub open spec fn slot_linked(s: State, j: int) -> bool {
    &&& s.src_img[j].texture == s.texes_in[j].spec_handle()
    &&& s.dst_img[j].texture == s.texes_out[j].spec_handle()
    &&& 0 <= s.dst_img[j].component_mapping < s.process.len()
    &&& s.planes_data[j].pixel_stride == s.format.bytes_per_sample
    &&& s.texes_in[j].spec_params().sampleable
    &&& s.texes_out[j].spec_params().serves(TexRole::Output)
}

/// The frame fits, nothing has failed, and the pipeline holds the planes
/// that are ready, and beyond them `data` layouts, `input` input textures
/// and `output` output textures.
pub open spec fn underway(s: State, data: nat, input: nat, output: nat) -> bool {
    &&& frame_fits(s.format, s.src, s.dst, s.process.len())
    &&& s.error.is_none()
    &&& s.dst_img.len() == s.src_img.len()
    &&& s.planes_data.len() == s.src_img.len() + data
    &&& s.texes_in.len() == s.src_img.len() + input
    &&& s.texes_out.len() == s.src_img.len() + output
    &&& forall|j: int| 0 <= j < s.src_img.len() ==> slot_linked(s, j)
}

/// The last layout that the pipeline holds is that of the plane which is
/// being prepared.
pub open spec fn preparing(s: State) -> bool {
    &&& s.plane < s.process.len()
    &&& s.slot == 0
    &&& s.planes_data.len() > 0
    &&& s.planes_data.last() == spec_plane_data(s.format, s.src, s.plane as int)
}

/// What holds of every state that a pipeline reaches.
pub open spec fn inv(s: State) -> bool {
    &&& s.dst_img.len() == s.src_img.len()
    &&& match s.phase {
        Phase::Idle => {
            &&& s.plane == 0
            &&& s.slot == 0
            &&& s.planes_data.len() == 0
            &&& s.src_img.len() == 0
            &&& s.texes_in.len() == 0
            &&& s.texes_out.len() == 0
            &&& s.error.is_none() ==> frame_fits(s.format, s.src, s.dst, s.process.len())
        },
        Phase::Copying => underway(s, 0, 0, 0) && s.plane < s.process.len() && s.slot == 0,
        Phase::Resolving => underway(s, 1, 0, 0) && preparing(s),
        Phase::CreatingInput(_) => underway(s, 1, 0, 0) && preparing(s),
        Phase::CreatingOutput => underway(s, 1, 1, 0) && preparing(s),
        Phase::Uploading => {
            &&& underway(s, 1, 1, 1)
            &&& preparing(s)
            &&& s.texes_out.last().spec_params().serves(TexRole::Output)
        },
        Phase::Beginning => underway(s, 0, 0, 0) && s.slot < s.src_img.len(),
        Phase::Dispatching => underway(s, 0, 0, 0) && s.slot < s.src_img.len(),
        Phase::Downloading => underway(s, 0, 0, 0) && s.slot < s.src_img.len(),
        Phase::Destroying => true,
        Phase::Done => s.texes_in.len() == 0 && s.texes_out.len() == 0,
    }
}

/// The slots that are ready stay ready while the pipeline changes
/// nothing but its phase, its cursors and its error.
pub proof fn lemma_linked(pre: State, post: State)
    requires
        forall|j: int| 0 <= j < pre.src_img.len() ==> slot_linked(pre, j),
        post.src_img == pre.src_img,
        post.dst_img == pre.dst_img,
        post.process == pre.process,
        post.format == pre.format,
        post.planes_data.len() >= pre.src_img.len(),
        post.texes_in.len() >= pre.src_img.len(),
        post.texes_out.len() >= pre.src_img.len(),
        forall|j: int|
            0 <= j < pre.src_img.len() ==> {
                &&& post.planes_data[j] == pre.planes_data[j]
                &&& post.texes_in[j] == pre.texes_in[j]
                &&& post.texes_out[j] == pre.texes_out[j]
            },
    ensures
        forall|j: int| 0 <= j < post.src_img.len() ==> slot_linked(post, j),
{
    assert forall|j: int| 0 <= j < post.src_img.len() implies slot_linked(post, j) by {
        assert(slot_linked(pre, j));
    }
}

/// The two states agree in every field.
pub open spec fn same(a: State, b: State) -> bool {
    &&& a.frame_number == b.frame_number
    &&& a.gpu == b.gpu
    &&& a.deband == b.deband
    &&& a.format == b.format
    &&& a.process =~= b.process
    &&& a.src =~= b.src
    &&& a.dst =~= b.dst
    &&& a.phase == b.phase
    &&& a.plane == b.plane
    &&& a.slot == b.slot
    &&& a.planes_data =~= b.planes_data
    &&& a.src_img =~= b.src_img
    &&& a.dst_img =~= b.dst_img
    &&& a.texes_in =~= b.texes_in
    &&& a.texes_out =~= b.texes_out
    &&& a.error == b.error
}

/// States that agree in every field are equal.
pub proof fn lemma_same(a: State, b: State)
    requires
        same(a, b),
    ensures
        a == b,
{
}

/// A frame to process: its format, and where the planes of the source and of
/// the destination lie in host memory.
#[derive(Debug)]
pub struct FrameInfo {
    pub format: VideoFormat,
    pub src: Vec<PlaneGeometry>,
    pub dst: Vec<PlaneGeometry>,
}

/// Whether the frame can go through a filter with `planes` planes.
pub fn check_frame(frame: &FrameInfo, planes: usize) -> (ok: bool)
    ensures
        ok == frame_fits(frame.format, frame.src@, frame.dst@, planes as nat),
{
    let format = frame.format;
    if format.num_planes < 0 || format.num_planes as usize != planes || frame.src.len() != planes
        || frame.dst.len() != planes || format.bytes_per_sample < 1 {
        return false;
    }
    let mut p: usize = 0;
    while p < planes
        invariant
            p <= planes,
            frame.src@.len() == planes,
            frame.dst@.len() == planes,
            format == frame.format,
            format.bytes_per_sample >= 1,
            forall|q: int| 0 <= q < p ==> plane_fits(format, frame.src@, frame.dst@, q),
        decreases planes - p,
    {
        let src = frame.src[p];
        let dst = frame.dst[p];
        if src.width < 0 || src.height < 0 || dst.width < 0 || dst.height < 0 || src.stride < 0
            || dst.stride < 0 {
            assert(!plane_fits(format, frame.src@, frame.dst@, p as int)) by (nonlinear_arith)
                requires
                    src == frame.src@[p as int],
                    dst == frame.dst@[p as int],
                    format.bytes_per_sample >= 1,
                    src.width < 0 || src.height < 0 || dst.width < 0 || dst.height < 0
                        || src.stride < 0 || dst.stride < 0,
            ;
            return false;
        }
        assert(0 <= src.width * format.bytes_per_sample <= 0x4000_0000_0000_0000 && 0 <= dst.width
            * format.bytes_per_sample <= 0x4000_0000_0000_0000) by (nonlinear_arith)
            requires
                0 <= src.width <= 0x7fff_ffff,
                0 <= dst.width <= 0x7fff_ffff,
                1 <= format.bytes_per_sample <= 0x7fff_ffff,
        ;
        let src_row: u64 = src.width as u64 * format.bytes_per_sample as u64;
        let dst_row: u64 = dst.width as u64 * format.bytes_per_sample as u64;
        if src_row > src.stride as u64 || dst_row > src.stride as u64 || dst_row > dst.stride as u64 {
            assert(!plane_fits(format, frame.src@, frame.dst@, p as int));
            return false;
        }
        assert(plane_fits(format, frame.src@, frame.dst@, p as int));
        p += 1;
    }
    true
}

/// The pipeline of one frame. It belongs to the one computation that
/// processes the frame.
#[derive(Debug)]
pub struct Pipeline {
    frame_number: i32,
    gpu: usize,
    dispatch: Dispatch,
    deband: DebandParams,
    format: VideoFormat,
    process: Vec<bool>,
    src: Vec<PlaneGeometry>,
    dst: Vec<PlaneGeometry>,
    phase: Phase,
    plane: usize,
    slot: usize,
    planes_data: Vec<PlaneData>,
    src_img: Frame,
    dst_img: Frame,
    texes_in: Vec<Tex>,
    texes_out: Vec<Tex>,
    error: Option<FrameError>,
}

impl View for Pipeline {
    type V = State;

    closed spec fn view(&self) -> State {
        State {
            frame_number: self.frame_number,
            gpu: self.gpu,
            deband: self.deband,
            format: self.format,
            process: self.process@,
            src: self.src@,
            dst: self.dst@,
            phase: self.phase,
            plane: self.plane as nat,
            slot: self.slot as nat,
            planes_data: self.planes_data@,
            src_img: self.src_img.planes@,
            dst_img: self.dst_img.planes@,
            texes_in: self.texes_in@,
            texes_out: self.texes_out@,
            error: self.error,
        }
    }
}

/// The colour representation of a frame of `format`: an unknown colour
/// system, with samples that fill all their bits.
pub open spec fn spec_frame_repr(format: VideoFormat) -> ColorRepr {
    ColorRepr { sys: ColorSystem::Unknown, bits: BitEncoding::exact(format.bits_per_sample) }
}

impl Pipeline {
    /// The state is one that a pipeline reaches, on a device that is there.
    pub closed spec fn wf(&self) -> bool {
        &&& inv(self@)
        &&& self.gpu != 0
        &&& self.src_img.repr == spec_frame_repr(self.format)
        &&& self.dst_img.repr == spec_frame_repr(self.format)
        &&& self.src_img.color == self.dst_img.color
    }

    /// What the helpers of a step start from: the two descriptors have the
    /// same number of planes, on a device that is there.
    spec fn steady(&self) -> bool {
        &&& self@.dst_img.len() == self@.src_img.len()
        &&& self.gpu != 0
        &&& self.src_img.repr == spec_frame_repr(self.format)
        &&& self.dst_img.repr == spec_frame_repr(self.format)
        &&& self.src_img.color == self.dst_img.color
    }

    /// The pipeline for frame `n` of `filter` on the device of `vulkan`,
    /// before anything is asked for.
    pub fn new(
        filter: &Filter,
        vulkan: &Vulkan,
        dispatch: &Dispatch,
        n: i32,
        frame: FrameInfo,
    ) -> (r: Pipeline)
        ensures
            r.wf(),
            r@ == spec_initial(
                n,
                vulkan.spec_gpu(),
                filter.spec_deband_params(),
                filter.spec_process_planes(),
                frame.format,
                frame.src@,
                frame.dst@,
            ),
    {
        let process = filter.process_planes().clone();
        assert(process@ =~= filter.spec_process_planes());
        let fits = check_frame(&frame, process.len());
        let bits = BitEncoding::new().color_depth(frame.format.bits_per_sample).sample_depth(
            frame.format.bits_per_sample,
        );
        let repr = ColorRepr::new().bits(&bits);
        let color = ColorSpace::unknown();
        let r = Pipeline {
            frame_number: n,
            gpu: vulkan.gpu(),
            dispatch: *dispatch,
            deband: filter.deband_params(),
            format: frame.format,
            process,
            src: frame.src,
            dst: frame.dst,
            phase: Phase::Idle,
            plane: 0,
            slot: 0,
            planes_data: Vec::new(),
            src_img: Frame::new(repr, color),
            dst_img: Frame::new(repr, color),
            texes_in: Vec::new(),
            texes_out: Vec::new(),
            error: if fits {
                None
            } else {
                Some(FrameError::Geometry)
            },
        };
        proof {
            lemma_same(
                r@,
                spec_initial(
                    n,
                    vulkan.spec_gpu(),
                    filter.spec_deband_params(),
                    filter.spec_process_planes(),
                    frame.format,
                    frame.src@,
                    frame.dst@,
                ),
            );
        }
        r
    }

    /// Number of the frame.
    pub fn frame_number(&self) -> (n: i32)
        ensures
            n == self@.frame_number,
    {
        self.frame_number
    }

    /// The source frame as the device sees it: one plane for each processed
    /// plane that was uploaded.
    pub fn src_image(&self) -> (r: &Frame)
        ensures
            r.planes@ == self@.src_img,
            self.wf() ==> r.repr == spec_frame_repr(self@.format),
    {
        &self.src_img
    }

    /// The destination frame as the device sees it. It has as many planes as
    /// the source frame and the same colour metadata.
    pub fn dst_image(&self) -> (r: &Frame)
        ensures
            r.planes@ == self@.dst_img,
            self.wf() ==> r.planes@.len() == self@.src_img.len(),
            self.wf() ==> r.repr == spec_frame_repr(self@.format),
    {
        &self.dst_img
    }

    /// Whether the frame is finished.
    pub fn is_done(&self) -> (b: bool)
        ensures
            b == (self@.phase == Phase::Done),
    {
        match self.phase {
            Phase::Done => true,
            _ => false,
        }
    }

    fn release(&mut self) -> (action: Action)
        requires
            old(self).steady(),
        ensures
            final(self).wf(),
            final(self)@ == spec_release(old(self)@).0,
            action == spec_release(old(self)@).1,
    {
        let action = if self.texes_in.len() > 0 {
            let tex = self.texes_in.remove(0);
            self.phase = Phase::Destroying;
            Action::Destroy(tex)
        } else if self.texes_out.len() > 0 {
            let tex = self.texes_out.remove(0);
            self.phase = Phase::Destroying;
            Action::Destroy(tex)
        } else {
            self.phase = Phase::Done;
            Action::Finish(self.error)
        };
        proof {
            lemma_same(self@, spec_release(old(self)@).0);
        }
        action
    }

    fn fail(&mut self, e: FrameError) -> (action: Action)
        requires
            old(self).steady(),
        ensures
            final(self).wf(),
            final(self)@ == spec_fail(old(self)@, e).0,
            action == spec_fail(old(self)@, e).1,
    {
        if self.error.is_none() {
            self.error = Some(e);
        }
        self.release()
    }

    fn download_planes(&mut self) -> (action: Action)
        requires
            old(self).steady(),
            underway(old(self)@, 0, 0, 0),
        ensures
            final(self).wf(),
            final(self)@ == spec_download_planes(old(self)@).0,
            action == spec_download_planes(old(self)@).1,
    {
        if self.slot >= self.dst_img.planes.len() {
            return self.release();
        }
        let slot = self.slot;
        assert(slot_linked(self@, slot as int));
        let plane: i32 = self.dst_img.planes[slot].component_mapping;
        assert(plane_fits(self.format, self.src@, self.dst@, plane as int));
        let stride: isize = self.dst[plane as usize].stride;
        let pixel_stride: usize = self.planes_data[slot].pixel_stride;
        let texel_size: usize = self.texes_out[slot].format().texel_size;
        let pixels: usize = stride as usize / pixel_stride;
        match pixels.checked_mul(texel_size) {
            Some(row_pitch) => {
                self.phase = Phase::Downloading;
                let action = Action::Download(
                    TexTransferParams { tex: self.texes_out[slot].as_ptr(), row_pitch, plane },
                );
                proof {
                    lemma_same(self@, spec_download_planes(old(self)@).0);
                    assert forall|j: int| 0 <= j < self@.src_img.len() implies slot_linked(
                        self@,
                        j,
                    ) by {
                        assert(slot_linked(old(self)@, j));
                    }
                }
                action
            },
            None => self.fail(FrameError::RowPitch),
        }
    }

    fn deband_frame(&mut self) -> (action: Action)
        requires
            old(self).steady(),
            underway(old(self)@, 0, 0, 0),
        ensures
            final(self).wf(),
            final(self)@ == spec_deband_frame(old(self)@).0,
            action == spec_deband_frame(old(self)@).1,
    {
        if self.slot >= self.src_img.planes.len() {
            self.slot = 0;
            proof {
                lemma_same(self@, State { slot: 0, ..old(self)@ });
                assert forall|j: int| 0 <= j < self@.src_img.len() implies slot_linked(
                    self@,
                    j,
                ) by {
                    assert(slot_linked(old(self)@, j));
                }
            }
            self.download_planes()
        } else {
            self.phase = Phase::Beginning;
            proof {
                lemma_same(self@, spec_deband_frame(old(self)@).0);
                assert forall|j: int| 0 <= j < self@.src_img.len() implies slot_linked(
                    self@,
                    j,
                ) by {
                    assert(slot_linked(old(self)@, j));
                }
            }
            Action::Begin
        }
    }

    fn next_plane(&mut self) -> (action: Action)
        requires
            old(self).steady(),
            underway(old(self)@, 0, 0, 0),
            old(self)@.plane <= old(self)@.process.len(),
            old(self)@.slot == 0,
        ensures
            final(self).wf(),
            final(self)@ == spec_next_plane(old(self)@).0,
            action == spec_next_plane(old(self)@).1,
    {
        if self.plane >= self.process.len() {
            self.slot = 0;
            proof {
                lemma_same(self@, State { slot: 0, ..old(self)@ });
                assert forall|j: int| 0 <= j < self@.src_img.len() implies slot_linked(
                    self@,
                    j,
                ) by {
                    assert(slot_linked(old(self)@, j));
                }
            }
            return self.deband_frame();
        }
        let plane = self.plane;
        let src = self.src[plane];
        let dst = self.dst[plane];
        let format = self.format;
        assert(plane_fits(format, self.src@, self.dst@, plane as int));
        if !self.process[plane] {
            assert(0 <= dst.width * format.bytes_per_sample <= 0x4000_0000_0000_0000) by (nonlinear_arith)
                requires
                    0 <= dst.width <= 0x7fff_ffff,
                    1 <= format.bytes_per_sample <= 0x7fff_ffff,
            ;
            let row: u64 = dst.width as u64 * format.bytes_per_sample as u64;
            self.phase = Phase::Copying;
            let action = Action::CopyPlane(
                CopyParams {
                    plane: plane as i32,
                    dst_stride: dst.stride as usize,
                    src_stride: src.stride as usize,
                    row_size: row as usize,
                    height: dst.height as usize,
                },
            );
            proof {
                lemma_same(self@, spec_next_plane(old(self)@).0);
                assert forall|j: int| 0 <= j < self@.src_img.len() implies slot_linked(
                    self@,
                    j,
                ) by {
                    assert(slot_linked(old(self)@, j));
                }
            }
            action
        } else {
            let data = PlaneData {
                fmt_type: match format.sample_type {
                    SampleType::Integer => FmtType::Unorm,
                    SampleType::Float => FmtType::Float,
                },
                width: src.width,
                height: src.height,
                pixel_stride: format.bytes_per_sample as usize,
                row_stride: src.stride as usize,
                pixels: plane as i32,
                component_size: format.bits_per_sample,
                component_map: plane as i32,
            };
            self.planes_data.push(data);
            self.phase = Phase::Resolving;
            proof {
                lemma_same(self@, spec_next_plane(old(self)@).0);
                assert forall|j: int| 0 <= j < self@.src_img.len() implies slot_linked(
                    self@,
                    j,
                ) by {
                    assert(slot_linked(old(self)@, j));
                }
            }
            Action::FindFormat(data)
        }
    }

    /// A format was found for the plane that is being prepared: asks for its
    /// input texture.
    fn create_input(&mut self, format: Format) -> (action: Action)
        requires
            old(self).wf(),
            old(self)@.phase == Phase::Resolving,
        ensures
            final(self).wf(),
            final(self)@ == spec_step(old(self)@, Event::Format(Some(format))).0,
            action == spec_step(old(self)@, Event::Format(Some(format))).1,
    {
        let data = self.planes_data[self.planes_data.len() - 1];
        let (tex_in, _) = Filter::create_textures(&data, format, &self.dst);
        self.phase = Phase::CreatingInput(format);
        proof {
            lemma_same(self@, spec_step(old(self)@, Event::Format(Some(format))).0);
            lemma_linked(old(self)@, self@);
        }
        Action::CreateTexture { role: TexRole::Input, params: tex_in }
    }

    /// The input texture of the plane that is being prepared was created:
    /// holds it, and asks for the output texture.
    fn create_output(&mut self, format: Format, tex: Tex) -> (action: Action)
        requires
            old(self).wf(),
            old(self)@.phase == Phase::CreatingInput(format),
        ensures
            final(self).wf(),
            final(self)@ == spec_step(old(self)@, Event::Texture(Some(tex))).0,
            action == spec_step(old(self)@, Event::Texture(Some(tex))).1,
    {
        self.texes_in.push(tex);
        if !tex.params().can_serve(TexRole::Input) {
            self.fail(FrameError::Usage)
        } else {
            let data = self.planes_data[self.planes_data.len() - 1];
            let (_, tex_out) = Filter::create_textures(&data, format, &self.dst);
            self.phase = Phase::CreatingOutput;
            proof {
                lemma_same(self@, spec_step(old(self)@, Event::Texture(Some(tex))).0);
                lemma_linked(old(self)@, self@);
            }
            Action::CreateTexture { role: TexRole::Output, params: tex_out }
        }
    }

    /// The output texture of the plane that is being prepared was created:
    /// holds it, and asks for the upload of the plane.
    fn upload(&mut self, tex: Tex) -> (action: Action)
        requires
            old(self).wf(),
            old(self)@.phase == Phase::CreatingOutput,
        ensures
            final(self).wf(),
            final(self)@ == spec_step(old(self)@, Event::Texture(Some(tex))).0,
            action == spec_step(old(self)@, Event::Texture(Some(tex))).1,
    {
        self.texes_out.push(tex);
        if !tex.params().can_serve(TexRole::Output) {
            self.fail(FrameError::Usage)
        } else {
            let data = self.planes_data[self.planes_data.len() - 1];
            let input = self.texes_in[self.texes_in.len() - 1];
            self.phase = Phase::Uploading;
            proof {
                lemma_same(self@, spec_step(old(self)@, Event::Texture(Some(tex))).0);
                lemma_linked(old(self)@, self@);
            }
            Action::UploadPlane { tex: input, data }
        }
    }

    /// The plane that is being prepared was uploaded: adopts the texture that
    /// holds it, enters the plane in both frame descriptors, and goes on with
    /// the next plane.
    fn enter_plane(&mut self, up: Uploaded) -> (action: Action)
        requires
            old(self).wf(),
            old(self)@.phase == Phase::Uploading,
        ensures
            final(self).wf(),
            final(self)@ == spec_step(old(self)@, Event::Uploaded(Some(up))).0,
            action == spec_step(old(self)@, Event::Uploaded(Some(up))).1,
    {
        let last = self.texes_in.len() - 1;
        self.texes_in[last] = up.tex;
        if !up.tex.sampleable() {
            self.fail(FrameError::Usage)
        } else {
            let output = self.texes_out[self.texes_out.len() - 1];
            self.src_img.planes.push(
                Plane {
                    texture: up.tex.as_ptr(),
                    components: up.components,
                    component_mapping: up.component_mapping,
                },
            );
            self.dst_img.planes.push(
                Plane {
                    texture: output.as_ptr(),
                    components: output.num_components(),
                    component_mapping: self.plane as i32,
                },
            );
            self.plane = self.plane + 1;
            proof {
                lemma_same(self@, uploaded(old(self)@, up));
                let k = old(self)@.src_img.len() as int;
                assert forall|j: int| 0 <= j < self@.src_img.len() implies slot_linked(
                    self@,
                    j,
                ) by {
                    if j < k {
                        assert(slot_linked(old(self)@, j));
                    }
                }
            }
            self.next_plane()
        }
    }

    /// A recording was obtained for the plane that is to be debanded: resets
    /// it for the frame, records the deband of the plane's input texture, and
    /// asks for the dispatch against the plane's output texture. The dispatch
    /// layer never refuses: the recording holds the deband, and the output
    /// texture can be rendered to.
    fn record(&mut self, handle: usize) -> (action: Action)
        requires
            old(self).wf(),
            old(self)@.phase == Phase::Beginning,
        ensures
            final(self).wf(),
            final(self)@ == spec_step(old(self)@, Event::Shader(handle)).0,
            action == spec_step(old(self)@, Event::Shader(handle)).1,
    {
        match self.dispatch.begin(handle) {
            None => self.fail(FrameError::Shader),
            Some(blank) => {
                let mut shader = blank;
                let slot = self.slot;
                assert(slot_linked(self@, slot as int));
                let reset = ShaderParams {
                    gpu: self.gpu,
                    index: #[verifier::truncate]
                    (self.frame_number as u8),
                };
                shader.reset(&reset);
                let src = SampleSrc { tex: self.texes_in[slot].as_ptr() };
                let _ = shader.deband(&src, &self.deband);
                match self.dispatch.finish(&mut shader, &self.texes_out[slot]) {
                    Ok(params) => {
                        self.phase = Phase::Dispatching;
                        proof {
                            lemma_same(self@, spec_step(old(self)@, Event::Shader(handle)).0);
                            lemma_linked(old(self)@, self@);
                        }
                        Action::Dispatch(DispatchJob { reset, src, deband: self.deband, params })
                    },
                    Err(_) => unreached(),
                }
            },
        }
    }

    /// Something was reported that was not asked for: holds the texture that
    /// the report brings, if any, and fails the frame.
    fn breach(&mut self, event: Event) -> (action: Action)
        requires
            old(self).wf(),
        ensures
            final(self).wf(),
            final(self)@ == spec_fail(spec_adopt(old(self)@, event), FrameError::Protocol).0,
            action == spec_fail(spec_adopt(old(self)@, event), FrameError::Protocol).1,
    {
        match event {
            Event::Texture(Some(tex)) => {
                self.texes_out.push(tex);
            },
            Event::Uploaded(Some(up)) => {
                self.texes_out.push(up.tex);
            },
            _ => {},
        }
        proof {
            lemma_same(self@, spec_adopt(old(self)@, event));
        }
        self.fail(FrameError::Protocol)
    }

    /// The plane or the slot that the pipeline was busy with is done: moves
    /// on to the next.
    fn advance(&mut self) -> (action: Action)
        requires
            old(self).wf(),
            old(self)@.phase == Phase::Copying || old(self)@.phase == Phase::Dispatching
                || old(self)@.phase == Phase::Downloading,
        ensures
            final(self).wf(),
            final(self)@ == match old(self)@.phase {
                Phase::Copying => spec_next_plane(
                    State { plane: old(self)@.plane + 1, ..old(self)@ },
                ).0,
                Phase::Dispatching => spec_deband_frame(
                    State { slot: old(self)@.slot + 1, ..old(self)@ },
                ).0,
                _ => spec_download_planes(State { slot: old(self)@.slot + 1, ..old(self)@ }).0,
            },
            action == match old(self)@.phase {
                Phase::Copying => spec_next_plane(
                    State { plane: old(self)@.plane + 1, ..old(self)@ },
                ).1,
                Phase::Dispatching => spec_deband_frame(
                    State { slot: old(self)@.slot + 1, ..old(self)@ },
                ).1,
                _ => spec_download_planes(State { slot: old(self)@.slot + 1, ..old(self)@ }).1,
            },
    {
        match self.phase {
            Phase::Copying => {
                self.plane = self.plane + 1;
                proof {
                    lemma_same(self@, State { plane: old(self)@.plane + 1, ..old(self)@ });
                    lemma_linked(old(self)@, self@);
                }
                self.next_plane()
            },
            Phase::Dispatching => {
                assert(self.slot < self.src_img.planes.len());
                self.slot = self.slot + 1;
                proof {
                    lemma_same(self@, State { slot: old(self)@.slot + 1, ..old(self)@ });
                    lemma_linked(old(self)@, self@);
                }
                self.deband_frame()
            },
            _ => {
                assert(self.slot < self.src_img.planes.len());
                self.slot = self.slot + 1;
                proof {
                    lemma_same(self@, State { slot: old(self)@.slot + 1, ..old(self)@ });
                    lemma_linked(old(self)@, self@);
                }
                self.download_planes()
            },
        }
    }

    /// Takes the report `event` of the operation that was asked for last, and
    /// answers with the operation to perform next. The first report of a
    /// frame is `Event::Start`; after `Action::Finish` the frame is over.
    pub fn step(&mut self, event: Event) -> (action: Action)
        requires
            old(self).wf(),
        ensures
            final(self).wf(),
            final(self)@ == spec_step(old(self)@, event).0,
            action == spec_step(old(self)@, event).1,
    {
        match (self.phase, event) {
            (Phase::Idle, Event::Start) => {
                if self.error.is_some() {
                    self.release()
                } else {
                    self.next_plane()
                }
            },
            (Phase::Copying, Event::Copied) => self.advance(),
            (Phase::Resolving, Event::Format(Some(format))) => self.create_input(format),
            (Phase::Resolving, Event::Format(None)) => self.fail(FrameError::Format),
            (Phase::CreatingInput(format), Event::Texture(Some(tex))) => self.create_output(
                format,
                tex,
            ),
            (Phase::CreatingInput(_), Event::Texture(None)) => self.fail(FrameError::Texture),
            (Phase::CreatingOutput, Event::Texture(Some(tex))) => self.upload(tex),
            (Phase::CreatingOutput, Event::Texture(None)) => self.fail(FrameError::Texture),
            (Phase::Uploading, Event::Uploaded(Some(up))) => self.enter_plane(up),
            (Phase::Uploading, Event::Uploaded(None)) => self.fail(FrameError::Upload),
            (Phase::Beginning, Event::Shader(handle)) => self.record(handle),
            (Phase::Dispatching, Event::Dispatched(true)) => self.advance(),
            (Phase::Dispatching, Event::Dispatched(false)) => self.fail(FrameError::Dispatch),
            (Phase::Downloading, Event::Downloaded(true)) => self.advance(),
            (Phase::Downloading, Event::Downloaded(false)) => self.fail(FrameError::Download),
            (Phase::Destroying, Event::Destroyed) => self.release(),
            _ => self.breach(event),
        }
    }
}

} // verus!
