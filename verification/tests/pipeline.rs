use vs_placebo::deband::{Filter, FilterArgs, PlaneGeometry, SampleType, VideoFormat};
use vs_placebo::dispatch::{Dispatch, DispatchParams};
use vs_placebo::gpu::{FmtType, Format, Plane, PlaneData, Tex, TexParams, TexRole};
use vs_placebo::pipeline::{
    check_frame, Action, CopyParams, DispatchJob, Event, FrameError, FrameInfo, Pipeline,
    TexTransferParams, Uploaded,
};
use vs_placebo::shaders_root::{DebandParams, SampleSrc, ShaderParams};
use vs_placebo::vulkan::Vulkan;

const GPU: usize = 0x9000;
const FORMAT: usize = 0xF000;
const SHADER: usize = 0x5000;

/// Where a simulated device goes wrong.
#[derive(Clone, Copy, PartialEq, Eq, Debug)]
enum Fault {
    Nothing,
    /// No format for this plane.
    Format(i32),
    /// The n-th texture, counted from 0, is not created.
    Texture(usize),
    /// The n-th texture, counted from 0, lacks every capability.
    Useless(usize),
    /// The upload of this plane fails.
    Upload(i32),
    /// The upload of this plane gives a texture that cannot be sampled.
    UploadUnsampleable(i32),
    /// No recording for the n-th deband.
    Shader(usize),
    /// The n-th dispatch fails.
    Dispatch(usize),
    /// The n-th download fails.
    Download(usize),
}

struct Device {
    fault: Fault,
    /// Whether an upload puts the plane into a new texture.
    replace_on_upload: bool,
    texel_size: usize,
    next_handle: usize,
    live: Vec<usize>,
    created: usize,
    destroyed: Vec<usize>,
    copies: Vec<CopyParams>,
    dispatches: Vec<DispatchJob>,
    downloads: Vec<TexTransferParams>,
    /// The textures that hold an uploaded plane, with the plane.
    uploads: Vec<(usize, i32)>,
    begun: usize,
}

impl Device {
    fn new(fault: Fault) -> Device {
        Device {
            fault,
            replace_on_upload: false,
            texel_size: 1,
            next_handle: 0x100,
            live: Vec::new(),
            created: 0,
            destroyed: Vec::new(),
            copies: Vec::new(),
            dispatches: Vec::new(),
            downloads: Vec::new(),
            uploads: Vec::new(),
            begun: 0,
        }
    }

    fn format(&self) -> Format {
        Format { handle: FORMAT, num_components: 1, texel_size: self.texel_size }
    }

    fn allocate(&mut self, params: TexParams) -> Tex {
        let handle = self.next_handle;
        self.next_handle += 0x10;
        self.live.push(handle);
        self.created += 1;
        Tex::new(handle, params).unwrap()
    }

    fn perform(&mut self, action: Action) -> Event {
        match action {
            Action::CopyPlane(params) => {
                self.copies.push(params);
                Event::Copied
            }
            Action::FindFormat(data) => {
                if self.fault == Fault::Format(data.pixels) {
                    Event::Format(None)
                } else {
                    Event::Format(Some(self.format()))
                }
            }
            Action::CreateTexture { role: _, params } => {
                if self.fault == Fault::Texture(self.created) {
                    Event::Texture(None)
                } else if self.fault == Fault::Useless(self.created) {
                    let bare = TexParams {
                        sampleable: false,
                        renderable: false,
                        host_writable: false,
                        host_readable: false,
                        ..params
                    };
                    Event::Texture(Some(self.allocate(bare)))
                } else {
                    Event::Texture(Some(self.allocate(params)))
                }
            }
            Action::UploadPlane { tex, data } => {
                assert!(self.live.contains(&tex.as_ptr()));
                if self.fault == Fault::Upload(data.pixels) {
                    return Event::Uploaded(None);
                }
                let mut params = tex.params();
                if self.fault == Fault::UploadUnsampleable(data.pixels) {
                    params.sampleable = false;
                }
                let canonical = if self.replace_on_upload {
                    self.live.retain(|h| *h != tex.as_ptr());
                    self.allocate(params)
                } else {
                    Tex::new(tex.as_ptr(), params).unwrap()
                };
                self.uploads.push((canonical.as_ptr(), data.pixels));
                Event::Uploaded(Some(Uploaded {
                    tex: canonical,
                    components: 1,
                    component_mapping: data.component_map,
                }))
            }
            Action::Begin => {
                let n = self.begun;
                self.begun += 1;
                if self.fault == Fault::Shader(n) {
                    Event::Shader(0)
                } else {
                    Event::Shader(SHADER + n)
                }
            }
            Action::Dispatch(job) => {
                assert!(self.live.contains(&job.src.tex));
                assert!(self.live.contains(&job.params.target));
                assert!(self.uploads.iter().any(|(tex, _)| *tex == job.src.tex));
                let n = self.dispatches.len();
                self.dispatches.push(job);
                Event::Dispatched(self.fault != Fault::Dispatch(n))
            }
            Action::Download(params) => {
                assert!(self.live.contains(&params.tex));
                let job = self.dispatches.iter().find(|job| job.params.target == params.tex);
                let job = job.expect("downloaded a texture that was not rendered to");
                assert!(self.uploads.contains(&(job.src.tex, params.plane)));
                let n = self.downloads.len();
                self.downloads.push(params);
                Event::Downloaded(self.fault != Fault::Download(n))
            }
            Action::Destroy(tex) => {
                let at = self.live.iter().position(|h| *h == tex.as_ptr());
                assert!(at.is_some(), "destroyed a texture that is not alive");
                self.live.remove(at.unwrap());
                self.destroyed.push(tex.as_ptr());
                Event::Destroyed
            }
            Action::Finish(_) => unreachable!(),
        }
    }
}

fn format(bits: i32, planes: i32) -> VideoFormat {
    VideoFormat {
        sample_type: if bits == 32 { SampleType::Float } else { SampleType::Integer },
        bits_per_sample: bits,
        bytes_per_sample: bits / 8,
        num_planes: planes,
    }
}

fn filter(bits: i32, planes: i32, selection: Vec<i32>) -> Filter {
    Filter::create(&FilterArgs {
        clip: Some(format(bits, planes)),
        iterations: None,
        threshold: None,
        radius: None,
        grain: None,
        planes: selection,
    })
    .unwrap()
}

fn yuv_frame(bits: i32) -> FrameInfo {
    let bytes = (bits / 8) as isize;
    FrameInfo {
        format: format(bits, 3),
        src: vec![
            PlaneGeometry { width: 64, height: 48, stride: 64 * bytes },
            PlaneGeometry { width: 32, height: 24, stride: 32 * bytes },
            PlaneGeometry { width: 32, height: 24, stride: 32 * bytes },
        ],
        dst: vec![
            PlaneGeometry { width: 64, height: 48, stride: 128 * bytes },
            PlaneGeometry { width: 32, height: 24, stride: 64 * bytes },
            PlaneGeometry { width: 32, height: 24, stride: 64 * bytes },
        ],
    }
}

fn gray_frame() -> FrameInfo {
    FrameInfo {
        format: format(8, 1),
        src: vec![PlaneGeometry { width: 16, height: 8, stride: 16 }],
        dst: vec![PlaneGeometry { width: 16, height: 8, stride: 32 }],
    }
}

fn start(filter: &Filter, n: i32, frame: FrameInfo) -> Pipeline {
    let vulkan = Vulkan::new(0x8000, GPU).unwrap();
    let dispatch = Dispatch::new(0x7000).unwrap();
    Pipeline::new(filter, &vulkan, &dispatch, n, frame)
}

/// Runs the frame on the device and returns everything that was asked for,
/// the last of which is the `Finish`.
fn drive(pipeline: &mut Pipeline, device: &mut Device) -> Vec<Action> {
    let mut asked = Vec::new();
    let mut event = Event::Start;
    for _ in 0..1000 {
        let action = pipeline.step(event);
        asked.push(action);
        if let Action::Finish(_) = action {
            assert!(pipeline.is_done());
            return asked;
        }
        event = device.perform(action);
    }
    panic!("the frame did not finish");
}

fn run(selection: Vec<i32>, fault: Fault) -> (Vec<Action>, Device, Pipeline) {
    let filter = filter(8, 3, selection);
    let mut pipeline = start(&filter, 0, yuv_frame(8));
    let mut device = Device::new(fault);
    let asked = drive(&mut pipeline, &mut device);
    (asked, device, pipeline)
}

fn result(asked: &[Action]) -> Option<FrameError> {
    match asked.last() {
        Some(Action::Finish(error)) => *error,
        _ => panic!("no result"),
    }
}

#[test]
fn empty_selection_processes_all_planes() {
    let (asked, device, pipeline) = run(vec![], Fault::Nothing);
    assert_eq!(result(&asked), None);
    assert_eq!(device.copies.len(), 0);
    assert_eq!(device.created, 6);
    assert_eq!(device.dispatches.len(), 3);
    assert_eq!(device.downloads.len(), 3);
    assert_eq!(device.destroyed.len(), 6);
    assert!(device.live.is_empty());
    for plane in 0..3 {
        let (src, _) = device.uploads.iter().find(|(_, p)| *p == plane).unwrap();
        let job = device.dispatches.iter().find(|job| job.src.tex == *src).unwrap();
        let download = device.downloads.iter().find(|d| d.tex == job.params.target).unwrap();
        assert_eq!(download.plane, plane);
    }
    assert_eq!(pipeline.src_image().num_planes(), 3);
    assert_eq!(pipeline.dst_image().num_planes(), 3);
    // 4 steps to prepare each plane, 2 to deband it, 1 to download it, 2 to
    // destroy its textures, and the end.
    assert_eq!(asked.len(), 3 * 9 + 1);
}

#[test]
fn single_selected_plane_is_processed_and_the_others_copied() {
    let filter = filter(8, 3, vec![1]);
    let mut pipeline = start(&filter, 300, yuv_frame(8));
    let mut device = Device::new(Fault::Nothing);
    let asked = drive(&mut pipeline, &mut device);

    let fmt = Format { handle: FORMAT, num_components: 1, texel_size: 1 };
    let data = PlaneData {
        fmt_type: FmtType::Unorm,
        width: 32,
        height: 24,
        pixel_stride: 1,
        row_stride: 32,
        pixels: 1,
        component_size: 8,
        component_map: 1,
    };
    let params_in = TexParams {
        w: 32,
        h: 24,
        format: fmt,
        sampleable: true,
        renderable: false,
        host_writable: true,
        host_readable: false,
    };
    let params_out = TexParams {
        w: 32,
        h: 24,
        format: fmt,
        sampleable: false,
        renderable: true,
        host_writable: false,
        host_readable: true,
    };
    let tex_in = Tex::new(0x100, params_in).unwrap();
    let tex_out = Tex::new(0x110, params_out).unwrap();
    let expected = vec![
        Action::CopyPlane(CopyParams {
            plane: 0,
            dst_stride: 128,
            src_stride: 64,
            row_size: 64,
            height: 48,
        }),
        Action::FindFormat(data),
        Action::CreateTexture { role: TexRole::Input, params: params_in },
        Action::CreateTexture { role: TexRole::Output, params: params_out },
        Action::UploadPlane { tex: tex_in, data },
        Action::CopyPlane(CopyParams {
            plane: 2,
            dst_stride: 64,
            src_stride: 32,
            row_size: 32,
            height: 24,
        }),
        Action::Begin,
        Action::Dispatch(DispatchJob {
            reset: ShaderParams { gpu: GPU, index: 44 },
            src: SampleSrc { tex: 0x100 },
            deband: DebandParams::default(),
            params: DispatchParams { shader: SHADER, target: 0x110 },
        }),
        Action::Download(TexTransferParams { tex: 0x110, row_pitch: 64, plane: 1 }),
        Action::Destroy(tex_in),
        Action::Destroy(tex_out),
        Action::Finish(None),
    ];
    assert_eq!(asked, expected);
    assert!(device.live.is_empty());
    assert_eq!(device.created, 2);
    assert_eq!(
        pipeline.src_image().planes,
        vec![Plane { texture: 0x100, components: 1, component_mapping: 1 }]
    );
    assert_eq!(
        pipeline.dst_image().planes,
        vec![Plane { texture: 0x110, components: 1, component_mapping: 1 }]
    );
    assert_eq!(pipeline.frame_number(), 300);
}

#[test]
fn descriptors_have_the_frames_colour_representation() {
    let (_, _, pipeline) = run(vec![0], Fault::Nothing);
    let src = pipeline.src_image();
    let dst = pipeline.dst_image();
    assert_eq!(src.repr.bits.sample_depth, 8);
    assert_eq!(src.repr.bits.color_depth, 8);
    assert_eq!(src.repr.bits.bit_shift, 0);
    assert_eq!(src.repr, dst.repr);
    assert_eq!(src.color, dst.color);
    assert_eq!(src.num_planes(), dst.num_planes());
}

#[test]
fn no_format_fails_the_frame_and_leaves_no_texture() {
    // The first plane is prepared, then no format is found for the second.
    let (asked, device, pipeline) = run(vec![], Fault::Format(1));
    assert_eq!(result(&asked), Some(FrameError::Format));
    assert_eq!(device.created, 2);
    assert_eq!(device.destroyed, vec![0x100, 0x110]);
    assert!(device.live.is_empty());
    assert_eq!(device.dispatches.len(), 0);
    assert_eq!(device.downloads.len(), 0);
    assert_eq!(pipeline.src_image().num_planes(), pipeline.dst_image().num_planes());
    assert_eq!(FrameError::Format.message(), "Failed to find a suitable texture format.");
}

#[test]
fn no_format_for_the_first_plane() {
    let (asked, device, _) = run(vec![], Fault::Format(0));
    assert_eq!(asked.len(), 2);
    assert_eq!(result(&asked), Some(FrameError::Format));
    assert_eq!(device.created, 0);
}

#[test]
fn every_failure_releases_every_texture() {
    let faults = [
        (Fault::Texture(0), FrameError::Texture, 0),
        (Fault::Texture(1), FrameError::Texture, 1),
        (Fault::Texture(3), FrameError::Texture, 3),
        (Fault::Useless(0), FrameError::Usage, 1),
        (Fault::Useless(1), FrameError::Usage, 2),
        (Fault::Upload(0), FrameError::Upload, 2),
        (Fault::Upload(2), FrameError::Upload, 6),
        (Fault::UploadUnsampleable(1), FrameError::Usage, 4),
        (Fault::Shader(0), FrameError::Shader, 6),
        (Fault::Shader(2), FrameError::Shader, 6),
        (Fault::Dispatch(1), FrameError::Dispatch, 6),
        (Fault::Download(0), FrameError::Download, 6),
        (Fault::Download(2), FrameError::Download, 6),
    ];
    for (fault, error, created) in faults {
        let (asked, device, pipeline) = run(vec![], fault);
        assert_eq!(result(&asked), Some(error), "{fault:?}");
        assert_eq!(device.created, created, "{fault:?}");
        assert_eq!(device.destroyed.len(), created, "{fault:?}");
        assert!(device.live.is_empty(), "{fault:?}");
        assert_eq!(pipeline.src_image().num_planes(), pipeline.dst_image().num_planes());
    }
}

#[test]
fn failed_dispatch_stops_the_debands() {
    let (asked, device, _) = run(vec![], Fault::Dispatch(1));
    assert_eq!(result(&asked), Some(FrameError::Dispatch));
    assert_eq!(device.dispatches.len(), 2);
    assert_eq!(device.downloads.len(), 0);
}

#[test]
fn failed_download_stops_the_downloads() {
    let (asked, device, _) = run(vec![], Fault::Download(1));
    assert_eq!(result(&asked), Some(FrameError::Download));
    assert_eq!(device.dispatches.len(), 3);
    assert_eq!(device.downloads.len(), 2);
}

#[test]
fn textures_are_destroyed_inputs_first() {
    let (_, device, _) = run(vec![], Fault::Nothing);
    assert_eq!(device.destroyed, vec![0x100, 0x120, 0x140, 0x110, 0x130, 0x150]);
}

#[test]
fn upload_may_replace_the_input_texture() {
    let filter = filter(8, 3, vec![2]);
    let mut pipeline = start(&filter, 7, yuv_frame(8));
    let mut device = Device::new(Fault::Nothing);
    device.replace_on_upload = true;
    let asked = drive(&mut pipeline, &mut device);
    assert_eq!(result(&asked), None);
    // 0x100 was created as input and 0x110 as output; the upload moved the
    // plane to 0x120.
    assert_eq!(device.dispatches.len(), 1);
    assert_eq!(device.dispatches[0].src.tex, 0x120);
    assert_eq!(device.dispatches[0].params.target, 0x110);
    assert_eq!(device.dispatches[0].reset.index, 7);
    assert_eq!(device.destroyed, vec![0x120, 0x110]);
    assert!(device.live.is_empty());
    assert_eq!(pipeline.src_image().planes[0].texture, 0x120);
}

#[test]
fn planes_left_out_are_copied() {
    let (asked, device, _) = run(vec![1], Fault::Nothing);
    assert_eq!(result(&asked), None);
    assert_eq!(device.copies.len(), 2);
    assert_eq!(device.copies[0].plane, 0);
    assert_eq!(device.copies[1].plane, 2);
}

#[test]
fn single_plane_frame_with_default_parameters() {
    let filter = filter(8, 1, vec![]);
    let mut pipeline = start(&filter, 0, gray_frame());
    let mut device = Device::new(Fault::Nothing);
    let asked = drive(&mut pipeline, &mut device);
    assert_eq!(result(&asked), None);
    assert_eq!(device.copies.len(), 0);
    assert_eq!(device.dispatches.len(), 1);
    let job = device.dispatches[0];
    assert_eq!(job.deband.iterations, 1);
    assert_eq!(f32::from_bits(job.deband.threshold), 3.0);
    assert_eq!(f32::from_bits(job.deband.radius), 16.0);
    assert_eq!(f32::from_bits(job.deband.grain), 4.0);
    assert_eq!(device.downloads, vec![TexTransferParams { tex: 0x110, row_pitch: 32, plane: 0 }]);
}

#[test]
fn row_pitch_is_stride_in_pixels_times_texel_size() {
    let filter = filter(16, 3, vec![0]);
    let mut pipeline = start(&filter, 0, yuv_frame(16));
    let mut device = Device::new(Fault::Nothing);
    device.texel_size = 8;
    let asked = drive(&mut pipeline, &mut device);
    assert_eq!(result(&asked), None);
    // The destination stride of plane 0 is 256 bytes, a pixel takes 2.
    assert_eq!(device.downloads, vec![TexTransferParams { tex: 0x110, row_pitch: 128 * 8, plane: 0 }]);
    assert_eq!(device.copies[0].row_size, 64);
    assert_eq!(device.copies[0].plane, 1);
}

#[test]
fn row_pitch_that_does_not_fit_fails_the_frame() {
    let filter = filter(8, 3, vec![0]);
    let mut pipeline = start(&filter, 0, yuv_frame(8));
    let mut device = Device::new(Fault::Nothing);
    device.texel_size = usize::MAX / 2;
    let asked = drive(&mut pipeline, &mut device);
    assert_eq!(result(&asked), Some(FrameError::RowPitch));
    assert_eq!(device.downloads.len(), 0);
    assert_eq!(device.destroyed.len(), 2);
    assert!(device.live.is_empty());
}

#[test]
fn float_samples_are_described_as_float() {
    let filter = filter(32, 3, vec![0]);
    let mut pipeline = start(&filter, 0, yuv_frame(32));
    match pipeline.step(Event::Start) {
        Action::FindFormat(data) => {
            assert_eq!(data.fmt_type, FmtType::Float);
            assert_eq!(data.pixel_stride, 4);
            assert_eq!(data.row_stride, 256);
            assert_eq!(data.component_size, 32);
        }
        other => panic!("{other:?}"),
    }
}

#[test]
fn frame_that_does_not_fit_fails_at_once() {
    let filter = filter(8, 3, vec![]);
    let mut pipeline = start(&filter, 0, gray_frame());
    assert_eq!(pipeline.step(Event::Start), Action::Finish(Some(FrameError::Geometry)));
    assert!(pipeline.is_done());
}

#[test]
fn frame_fit_is_checked() {
    assert!(check_frame(&yuv_frame(8), 3));
    assert!(!check_frame(&yuv_frame(8), 2));
    assert!(check_frame(&gray_frame(), 1));
    let mut frame = gray_frame();
    frame.dst[0].stride = -32;
    assert!(!check_frame(&frame, 1));
    let mut frame = gray_frame();
    frame.src[0].width = -1;
    assert!(!check_frame(&frame, 1));
    let mut frame = gray_frame();
    frame.src[0].stride = 15;
    assert!(!check_frame(&frame, 1));
    let mut frame = gray_frame();
    frame.dst[0].stride = 15;
    assert!(!check_frame(&frame, 1));
    let mut frame = gray_frame();
    frame.dst[0].stride = 16;
    assert!(check_frame(&frame, 1));
    let mut frame = gray_frame();
    frame.format.bytes_per_sample = 0;
    assert!(!check_frame(&frame, 1));
    let mut frame = gray_frame();
    frame.dst.push(PlaneGeometry { width: 1, height: 1, stride: 1 });
    assert!(!check_frame(&frame, 1));
}

#[test]
fn unexpected_report_fails_the_frame() {
    let filter = filter(8, 1, vec![]);
    let mut pipeline = start(&filter, 0, gray_frame());
    assert_eq!(pipeline.step(Event::Copied), Action::Finish(Some(FrameError::Protocol)));
}

#[test]
fn unexpected_texture_is_destroyed() {
    let filter = filter(8, 1, vec![]);
    let mut pipeline = start(&filter, 0, gray_frame());
    let mut device = Device::new(Fault::Nothing);
    let find = pipeline.step(Event::Start);
    assert!(matches!(find, Action::FindFormat(_)));
    // A texture where a format was asked for.
    let params = TexParams {
        w: 1,
        h: 1,
        format: device.format(),
        sampleable: true,
        renderable: true,
        host_writable: true,
        host_readable: true,
    };
    let stray = device.allocate(params);
    assert_eq!(pipeline.step(Event::Texture(Some(stray))), Action::Destroy(stray));
    assert_eq!(pipeline.step(Event::Destroyed), Action::Finish(Some(FrameError::Protocol)));
}

#[test]
fn texture_after_the_end_is_destroyed() {
    let (_, mut device, mut pipeline) = run(vec![1], Fault::Nothing);
    let params = TexParams {
        w: 1,
        h: 1,
        format: device.format(),
        sampleable: false,
        renderable: false,
        host_writable: false,
        host_readable: false,
    };
    let late = device.allocate(params);
    let up = Uploaded { tex: late, components: 1, component_mapping: 0 };
    assert_eq!(pipeline.step(Event::Uploaded(Some(up))), Action::Destroy(late));
    assert!(!pipeline.is_done());
    assert_eq!(pipeline.step(Event::Destroyed), Action::Finish(Some(FrameError::Protocol)));
    assert!(pipeline.is_done());
}

#[test]
fn first_error_is_kept() {
    let filter = filter(8, 3, vec![]);
    let mut pipeline = start(&filter, 0, yuv_frame(8));
    let mut device = Device::new(Fault::Upload(0));
    let mut event = Event::Start;
    let mut action = pipeline.step(event);
    while !matches!(action, Action::Destroy(_)) {
        event = device.perform(action);
        action = pipeline.step(event);
    }
    // The upload has failed and the first texture is to be destroyed; a
    // report that does not answer this comes second.
    let next = pipeline.step(Event::Dispatched(true));
    assert!(matches!(next, Action::Destroy(_)));
    assert_eq!(pipeline.step(Event::Destroyed), Action::Finish(Some(FrameError::Upload)));
}

#[test]
fn frame_error_messages() {
    let messages = [
        (FrameError::Geometry, "Frame does not match the filter."),
        (FrameError::Format, "Failed to find a suitable texture format."),
        (FrameError::Texture, "Failed to create texture."),
        (FrameError::Usage, "Texture lacks a required capability."),
        (FrameError::Upload, "Failed to upload plane."),
        (FrameError::Shader, "Failed to begin shader."),
        (FrameError::Dispatch, "Failed to dispatch shader."),
        (FrameError::RowPitch, "Row pitch is too large."),
        (FrameError::Download, "Failed to download texture."),
        (FrameError::Protocol, "Unexpected response from the device layer."),
    ];
    for (error, text) in messages {
        assert_eq!(error.message(), text);
    }
}

#[test]
fn a_frame_finishes_within_nine_reports_a_plane_and_two() {
    let faults = [
        Fault::Nothing,
        Fault::Format(2),
        Fault::Texture(5),
        Fault::Upload(1),
        Fault::Shader(1),
        Fault::Dispatch(2),
        Fault::Download(1),
    ];
    for selection in [vec![], vec![0], vec![1, 2], vec![2, 1, 0]] {
        for fault in faults {
            let (asked, _, _) = run(selection.clone(), fault);
            // One report is taken for each request, the first included.
            assert!(asked.len() <= 9 * 3 + 2, "{selection:?} {fault:?}");
        }
    }
}

#[test]
fn same_frame_twice_asks_the_same() {
    let (first, _, _) = run(vec![0, 2], Fault::Nothing);
    let (second, _, _) = run(vec![0, 2], Fault::Nothing);
    assert_eq!(first, second);
}
