use vs_placebo::deband::{
    ActivationReason, Filter, FilterArgs, FilterError, FrameRequest, PlaneGeometry,
    RequestPattern, SampleType, VideoFormat,
};
use vs_placebo::dispatch::Dispatch;
use vs_placebo::pipeline::Pipeline;
use vs_placebo::shaders_root::ShaderObject;
use vs_placebo::vulkan::Vulkan;
use vs_placebo::gpu::{Format, FmtType, PlaneData, TexParams};
use vs_placebo::planes::PlaneError;
use vs_placebo::shaders_root::{
    DebandParams, DEFAULT_GRAIN, DEFAULT_RADIUS, DEFAULT_THRESHOLD,
};
use vs_placebo::vulkan::VulkanParams;

fn clip(bits: i32, planes: i32) -> Option<VideoFormat> {
    Some(VideoFormat {
        sample_type: SampleType::Integer,
        bits_per_sample: bits,
        bytes_per_sample: (bits + 7) / 8,
        num_planes: planes,
    })
}

fn args(bits: i32, planes: i32, selection: Vec<i32>) -> FilterArgs {
    FilterArgs {
        clip: clip(bits, planes),
        iterations: None,
        threshold: None,
        radius: None,
        grain: None,
        planes: selection,
    }
}

#[test]
fn defaults() {
    let filter = Filter::create(&args(8, 3, vec![])).unwrap();
    let params = filter.deband_params();
    assert_eq!(params, DebandParams::default());
    assert_eq!(params.iterations, 1);
    assert_eq!(f32::from_bits(params.threshold), 3.0);
    assert_eq!(f32::from_bits(params.radius), 16.0);
    assert_eq!(f32::from_bits(params.grain), 4.0);
    assert_eq!(DEFAULT_THRESHOLD, 3.0f32.to_bits());
    assert_eq!(DEFAULT_RADIUS, 16.0f32.to_bits());
    assert_eq!(DEFAULT_GRAIN, 4.0f32.to_bits());
    assert_eq!(filter.process_planes(), &vec![true, true, true]);
}

#[test]
fn given_parameters_are_kept() {
    let filter = Filter::create(&FilterArgs {
        clip: clip(16, 3),
        iterations: Some(4),
        threshold: Some(1.5f32.to_bits()),
        radius: Some(8.0f32.to_bits()),
        grain: Some(0.0f32.to_bits()),
        planes: vec![0],
    })
    .unwrap();
    let params = filter.deband_params();
    assert_eq!(params.iterations, 4);
    assert_eq!(f32::from_bits(params.threshold), 1.5);
    assert_eq!(f32::from_bits(params.radius), 8.0);
    assert_eq!(f32::from_bits(params.grain), 0.0);
    assert_eq!(filter.process_planes(), &vec![true, false, false]);
}

#[test]
fn iteration_count_is_cut_to_32_bits() {
    let mut a = args(8, 3, vec![]);
    a.iterations = Some((1i64 << 32) + 5);
    assert_eq!(Filter::create(&a).unwrap().deband_params().iterations, 5);
    a.iterations = Some(-1);
    assert_eq!(Filter::create(&a).unwrap().deband_params().iterations, -1);
    a.iterations = Some(i64::from(i32::MAX) + 1);
    assert_eq!(Filter::create(&a).unwrap().deband_params().iterations, i32::MIN);
}

#[test]
fn supported_bit_depths() {
    for bits in [8, 16, 32] {
        assert!(Filter::create(&args(bits, 3, vec![])).is_ok());
    }
}

#[test]
fn unsupported_bit_depths_are_refused() {
    for bits in [0, 1, 7, 9, 10, 12, 15, 17, 24, 31, 33, 64, -8, i32::MAX, i32::MIN] {
        let refused = Filter::create(&args(bits, 3, vec![]));
        assert_eq!(refused.err(), Some(FilterError::BitDepth), "{bits}");
    }
    assert_eq!(
        FilterError::BitDepth.message(),
        "placebo.Deband: input bit depth must be 8, 16, or 32."
    );
}

#[test]
fn missing_clip_is_refused() {
    let mut a = args(8, 3, vec![]);
    a.clip = None;
    assert_eq!(Filter::create(&a).err(), Some(FilterError::Clip));
    assert_eq!(FilterError::Clip.message(), "Failed to get clip");
}

#[test]
fn plane_count_outside_one_to_three_is_refused() {
    for planes in [0, 4, -1, 100] {
        assert_eq!(Filter::create(&args(8, planes, vec![])).err(), Some(FilterError::PlaneCount));
    }
    assert!(Filter::create(&args(8, 1, vec![])).is_ok());
    assert!(Filter::create(&args(8, 2, vec![])).is_ok());
    assert_eq!(
        FilterError::PlaneCount.message(),
        "placebo.Deband: input must have 1 to 3 planes."
    );
}

#[test]
fn faulty_plane_list_is_refused() {
    let out_of_range = PlaneError::OutOfRange { index: 3, plane_count: 3 };
    assert_eq!(
        Filter::create(&args(8, 3, vec![0, 3])).err(),
        Some(FilterError::Planes(out_of_range))
    );
    assert_eq!(
        Filter::create(&args(8, 3, vec![2, 2])).err(),
        Some(FilterError::Planes(PlaneError::Duplicate { index: 2 }))
    );
    // A plane that a gray clip does not have.
    assert_eq!(
        Filter::create(&args(8, 1, vec![1])).err(),
        Some(FilterError::Planes(PlaneError::OutOfRange { index: 1, plane_count: 1 }))
    );
    assert_eq!(
        FilterError::Planes(out_of_range).message(),
        "Plane index 3 is out of range [0, 3)."
    );
}

#[test]
fn bit_depth_is_checked_before_the_planes() {
    assert_eq!(Filter::create(&args(10, 3, vec![9, 9])).err(), Some(FilterError::BitDepth));
    assert_eq!(Filter::create(&args(10, 7, vec![])).err(), Some(FilterError::BitDepth));
    assert_eq!(Filter::create(&args(8, 7, vec![9])).err(), Some(FilterError::PlaneCount));
}

#[test]
fn selected_planes_are_counted() {
    for (selection, count) in [(vec![], 3), (vec![1], 1), (vec![2, 0], 2), (vec![0, 1, 2], 3)] {
        let filter = Filter::create(&args(8, 3, selection)).unwrap();
        let selected = filter.process_planes().iter().filter(|p| **p).count();
        assert_eq!(selected, count);
    }
}

fn shared<T: Send + Sync>() {}

fn sent<T: Send>() {}

#[test]
fn filter_and_device_handles_can_be_shared_between_frames() {
    shared::<Filter>();
    shared::<Vulkan>();
    shared::<Dispatch>();
    shared::<ShaderObject>();
    sent::<Pipeline>();
}

#[test]
fn frame_requests() {
    let filter = Filter::create(&args(8, 3, vec![])).unwrap();
    assert_eq!(filter.request_pattern(), RequestPattern::StrictSpatial);
    assert_eq!(filter.get_frame(12, ActivationReason::Initial), FrameRequest::Upstream(12));
    assert_eq!(filter.get_frame(12, ActivationReason::AllFramesReady), FrameRequest::Process);
    assert_eq!(filter.get_frame(12, ActivationReason::Error), FrameRequest::Nothing);
}

#[test]
fn texture_parameters() {
    let format = Format { handle: 0xF0, num_components: 1, texel_size: 2 };
    let data = PlaneData {
        fmt_type: FmtType::Unorm,
        width: 960,
        height: 540,
        pixel_stride: 2,
        row_stride: 1920,
        pixels: 2,
        component_size: 16,
        component_map: 2,
    };
    let dst = vec![
        PlaneGeometry { width: 1920, height: 1080, stride: 3840 },
        PlaneGeometry { width: 960, height: 540, stride: 1920 },
        PlaneGeometry { width: 958, height: 538, stride: 1920 },
    ];
    let (tex_in, tex_out) = Filter::create_textures(&data, format, &dst);
    assert_eq!(
        tex_in,
        TexParams {
            w: 960,
            h: 540,
            format,
            sampleable: true,
            renderable: false,
            host_writable: true,
            host_readable: false,
        }
    );
    assert_eq!(
        tex_out,
        TexParams {
            w: 958,
            h: 538,
            format,
            sampleable: false,
            renderable: true,
            host_writable: false,
            host_readable: true,
        }
    );
}

#[test]
fn device_set_up() {
    let params = VulkanParams::new();
    assert!(params.debug);
    assert!(params.async_compute);
    assert!(params.async_transfer);
    assert_eq!(params.queue_count, 1);
}
