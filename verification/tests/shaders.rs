use vs_placebo::dispatch::{Dispatch, DispatchError, DispatchParams};
use vs_placebo::gpu::{Format, Tex, TexParams, TexRole};
use vs_placebo::shaders_root::{
    pl_shader_obj_t, pl_shader_obj_type, DebandParams, DitherMethod, DitherParams, SampleSrc,
    Shader, ShaderObject, ShaderOp, ShaderParams, Stage,
};

fn texture(handle: usize, renderable: bool) -> Tex {
    let params = TexParams {
        w: 8,
        h: 8,
        format: Format { handle: 0xF0, num_components: 1, texel_size: 1 },
        sampleable: !renderable,
        renderable,
        host_writable: !renderable,
        host_readable: renderable,
    };
    Tex::new(handle, params).unwrap()
}

#[test]
fn recording_from_pointer_is_blank() {
    let shader = Shader::from_ptr(0x40);
    assert_eq!(shader.as_ptr(), 0x40);
    assert_eq!(shader.stage(), Stage::Blank);
    assert_eq!(shader.index(), 0);
    assert!(shader.ops().is_empty());
}

#[test]
fn recording_life_cycle() {
    let dispatch = Dispatch::new(0x70).unwrap();
    let target = texture(0x20, true);
    let src = SampleSrc { tex: 0x10 };
    let params = DebandParams::default();
    let mut shader = dispatch.begin(0x40).unwrap();

    shader.reset(&ShaderParams { gpu: 0x90, index: 3 });
    assert_eq!(shader.stage(), Stage::Blank);
    assert_eq!(shader.index(), 3);

    assert!(shader.deband(&src, &params));
    assert_eq!(shader.stage(), Stage::Recording);
    assert_eq!(shader.ops(), &vec![ShaderOp::Deband { src, params }]);

    assert_eq!(
        dispatch.finish(&mut shader, &target),
        Ok(DispatchParams { shader: 0x40, target: 0x20 })
    );
    assert_eq!(shader.stage(), Stage::Dispatched);

    // Nothing is recorded or dispatched until the recording is reset.
    assert!(!shader.deband(&src, &params));
    assert_eq!(shader.ops().len(), 1);
    assert_eq!(dispatch.finish(&mut shader, &target), Err(DispatchError::Spent));

    shader.reset(&ShaderParams { gpu: 0x90, index: 4 });
    assert_eq!(shader.stage(), Stage::Blank);
    assert_eq!(shader.index(), 4);
    assert!(shader.ops().is_empty());
    assert_eq!(shader.as_ptr(), 0x40);
}

#[test]
fn blank_recording_is_not_dispatched() {
    let dispatch = Dispatch::new(0x70).unwrap();
    let target = texture(0x20, true);
    let mut shader = Shader::from_ptr(0x40);
    assert_eq!(dispatch.finish(&mut shader, &target), Err(DispatchError::Blank));
    assert_eq!(shader.stage(), Stage::Blank);
    shader.reset(&ShaderParams { gpu: 0x90, index: 1 });
    assert_eq!(dispatch.finish(&mut shader, &target), Err(DispatchError::Blank));
}

#[test]
fn target_must_be_renderable() {
    let dispatch = Dispatch::new(0x70).unwrap();
    let mut shader = Shader::from_ptr(0x40);
    assert!(shader.deband(&SampleSrc { tex: 0x10 }, &DebandParams::default()));
    assert_eq!(dispatch.finish(&mut shader, &texture(0x20, false)), Err(DispatchError::Target));
    assert_eq!(shader.stage(), Stage::Recording);
    assert!(dispatch.finish(&mut shader, &texture(0x20, true)).is_ok());
}

#[test]
fn operations_are_kept_in_order() {
    let mut shader = Shader::from_ptr(0x40);
    let src = SampleSrc { tex: 0x10 };
    let deband = DebandParams { iterations: 2, ..DebandParams::default() };
    let state = ShaderObject::new(0x90, pl_shader_obj_type::PL_SHADER_OBJ_DITHER);
    let dither = DitherParams::new();
    assert!(shader.deband(&src, &deband));
    assert!(shader.dither(8, &state, &dither));
    assert_eq!(
        shader.ops(),
        &vec![
            ShaderOp::Deband { src, params: deband },
            ShaderOp::Dither { new_depth: 8, dither_state: state, dither },
        ]
    );
    assert_eq!(shader.stage(), Stage::Recording);
}

#[test]
fn dither_alone_makes_a_recording() {
    let mut shader = Shader::from_ptr(0x40);
    let state = ShaderObject::new(0x90, pl_shader_obj_type::PL_SHADER_OBJ_DITHER);
    assert!(shader.dither(10, &state, &DitherParams::new()));
    assert_eq!(shader.stage(), Stage::Recording);
}

#[test]
fn dither_defaults() {
    let params = DitherParams::new();
    assert_eq!(params.method, DitherMethod::BlueNoise);
    assert_eq!(params.lut_size, 6);
    assert!(!params.temporal);
}

#[test]
fn shader_object_head() {
    let state = ShaderObject::new(0x90, pl_shader_obj_type::PL_SHADER_OBJ_DITHER);
    assert_eq!(
        state.obj,
        pl_shader_obj_t { gpu: 0x90, obj_type: pl_shader_obj_type::PL_SHADER_OBJ_DITHER }
    );
    assert_ne!(pl_shader_obj_type::PL_SHADER_OBJ_INVALID, pl_shader_obj_type::PL_SHADER_OBJ_LUT);
}

#[test]
fn null_handles_are_refused() {
    assert_eq!(Dispatch::new(0), None);
    assert_eq!(Dispatch::new(5).unwrap().as_ptr(), 5);
    assert_eq!(Dispatch::new(5).unwrap().begin(0), None);
}

#[test]
fn texture_roles() {
    let input = texture(0x10, false);
    let output = texture(0x20, true);
    assert!(input.params().can_serve(TexRole::Input));
    assert!(!input.params().can_serve(TexRole::Output));
    assert!(output.params().can_serve(TexRole::Output));
    assert!(!output.params().can_serve(TexRole::Input));
}
