use vs_placebo::colorspace::{
    BitEncoding, ColorPrimaries, ColorRepr, ColorSpace, ColorSystem, ColorTransfer,
};
use vs_placebo::gpu::{Format, Frame, Tex, TexParams};
use vs_placebo::vulkan::Vulkan;

fn params() -> TexParams {
    TexParams {
        w: 640,
        h: 360,
        format: Format { handle: 0xF0, num_components: 3, texel_size: 6 },
        sampleable: true,
        renderable: false,
        host_writable: true,
        host_readable: false,
    }
}

#[test]
fn texture_reports_what_it_was_made_with() {
    let tex = Tex::new(0x1234, params()).unwrap();
    assert_eq!(tex.as_ptr(), 0x1234);
    assert_eq!(tex.width(), 640);
    assert!(tex.sampleable());
    assert_eq!(tex.num_components(), 3);
    assert_eq!(tex.format(), Format { handle: 0xF0, num_components: 3, texel_size: 6 });
    assert_eq!(tex.params(), params());
}

#[test]
fn texture_that_cannot_be_sampled() {
    let tex = Tex::new(1, TexParams { sampleable: false, ..params() }).unwrap();
    assert!(!tex.sampleable());
}

#[test]
fn null_texture_is_refused() {
    assert_eq!(Tex::new(0, params()), None);
}

#[test]
fn device_context() {
    let vulkan = Vulkan::new(0x8000, 0x9000).unwrap();
    assert_eq!(vulkan.as_ptr(), 0x8000);
    assert_eq!(vulkan.gpu(), 0x9000);
    assert_eq!(Vulkan::new(0, 0x9000), None);
    assert_eq!(Vulkan::new(0x8000, 0), None);
}

#[test]
fn bit_encoding_builders() {
    let bits = BitEncoding::new().sample_depth(16).color_depth(10).bit_shift(6);
    assert_eq!(bits, BitEncoding { sample_depth: 16, color_depth: 10, bit_shift: 6 });
    assert_eq!(BitEncoding::new(), BitEncoding { sample_depth: 0, color_depth: 0, bit_shift: 0 });
    assert_eq!(bits.bit_shift(0).bit_shift, 0);
    assert_eq!(bits.bit_shift(0).sample_depth, 16);
    assert_eq!(bits.color_depth(12).color_depth, 12);
    assert_eq!(bits.color_depth(12).bit_shift, 6);
    assert_eq!(bits.sample_depth(8).sample_depth, 8);
    assert_eq!(bits.sample_depth(8).color_depth, 10);
}

#[test]
fn color_repr_builders() {
    let bits = BitEncoding::new().sample_depth(8).color_depth(8);
    let repr = ColorRepr::new().bits(&bits).sys(ColorSystem::Bt709);
    assert_eq!(repr, ColorRepr { sys: ColorSystem::Bt709, bits });
    assert_eq!(ColorRepr::new().sys, ColorSystem::Unknown);
    assert_eq!(ColorRepr::new().bits, BitEncoding::new());
    assert_eq!(repr.sys(ColorSystem::Rgb).bits, bits);
    assert_eq!(repr.bits(&BitEncoding::new()).sys, ColorSystem::Bt709);
}

#[test]
fn empty_frame_descriptor() {
    let frame = Frame::new(ColorRepr::new(), ColorSpace::unknown());
    assert_eq!(frame.num_planes(), 0);
    assert_eq!(frame.color.primaries, ColorPrimaries::Unknown);
    assert_eq!(frame.color.transfer, ColorTransfer::Unknown);
}
