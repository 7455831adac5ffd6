use pill_engine::graphics::{
    choose_present_mode, choose_surface_format, PresentModeChoice, SurfaceFormatChoice,
    calculate_uniform_size, texel_layout, IblStep, write_parameters_to_buffer, CookedTexelFormat, DummyRenderer, ParameterValue, PassBackground,
    PassCompose, PassIblDiffuseEquirect, PassIblSpecularEquirect, PassLinearizeDepth, PassMotionBlur, PassScene,
    RendererError, RendererMaterial, RendererMaterialHandle, RendererResourceStorage, RendererShader, RendererShaderHandle, Slot, RendererTextureHandle, ShaderParameterType,
};
use indexmap::IndexMap;
use pill_engine::table::StrTable;

fn slot_map(v: Vec<(&str, ShaderParameterType)>) -> IndexMap<String, ShaderParameterType> {
    v.into_iter().map(|(k, t)| (k.to_string(), t)).collect()
}

fn h(index: u32) -> RendererTextureHandle {
    RendererTextureHandle { index, version: 1 }
}

#[test]
fn pass_labels_and_outputs() {
    assert_eq!(PassScene::new().get_label(), "pass_scene");
    assert_eq!(PassBackground::new(h(1)).get_label(), "pass_background");
    let c = PassCompose::new("compose", h(2), wgpu::TextureFormat::Bgra8UnormSrgb);
    assert_eq!(c.get_label(), "compose");
    let d = PassIblDiffuseEquirect::new("diffuse", h(3), h(4), wgpu::TextureFormat::Rgba16Float);
    assert_eq!(d.get_label(), "diffuse");
    let s = PassIblSpecularEquirect::new("specular", h(5), h(6), h(7), 5);
    assert_eq!(s.prefilter_texture_handle(), h(6));
    assert_eq!(s.brdf_lut_handle(), h(7));
    assert_eq!(s.get_label(), "specular");
    let l = PassLinearizeDepth::new("depth", h(8), h(9), wgpu::TextureFormat::R32Float);
    assert_eq!(l.get_label(), "depth");
    let m = PassMotionBlur::new("blur", h(1), h(2), h(3), h(4), wgpu::TextureFormat::Rgba8Unorm);
    assert_eq!(m.get_label(), "blur");
    assert_eq!(m.output, h(4));
}

#[test]
fn dummy_renderer_hands_out_default_handles() {
    let mut r = DummyRenderer::new();
    assert_eq!(r.create_texture(), RendererTextureHandle { index: u32::MAX, version: 1 });
    assert_eq!(r.create_shader(), RendererShaderHandle::null());
}

#[test]
fn texel_layouts() {
    assert_eq!(texel_layout(2), (CookedTexelFormat::Rgba32Float, 4));
    assert_eq!(texel_layout(1), (CookedTexelFormat::Rgba8UnormSrgb, 1));
}

#[test]
fn uniform_bytes_per_slot() {
    let mut params: StrTable<ParameterValue> = StrTable::new();
    params.insert("tint".to_string(), ParameterValue::Color(1.0f32.to_bits(), 0, 2.0f32.to_bits()));
    params.insert("shine".to_string(), ParameterValue::Scalar(0.5f32.to_bits()));
    params.insert("lit".to_string(), ParameterValue::Bool(true));
    let slots = slot_map(vec![
        ("tint", ShaderParameterType::Color),
        ("shine", ShaderParameterType::Scalar),
        ("lit", ShaderParameterType::Bool),
        ("missing", ShaderParameterType::Scalar),
        ("gloss", ShaderParameterType::Bool),
    ]);
    let data = write_parameters_to_buffer(&slots, &params);
    assert_eq!(data.len(), 80);
    let mut expected: Vec<u8> = Vec::new();
    expected.extend_from_slice(&1.0f32.to_le_bytes());
    expected.extend_from_slice(&0.0f32.to_le_bytes());
    expected.extend_from_slice(&2.0f32.to_le_bytes());
    expected.extend_from_slice(&0.0f32.to_le_bytes());
    expected.extend_from_slice(&0.5f32.to_le_bytes());
    expected.extend_from_slice(&[0u8; 12]);
    expected.extend_from_slice(&1u32.to_le_bytes());
    expected.extend_from_slice(&[0u8; 12]);
    expected.extend_from_slice(&[0u8; 16]);
    expected.extend_from_slice(&[0u8; 16]);
    assert_eq!(data, expected);
}

#[test]
fn material_without_buffer_writes_nothing() {
    let m = RendererMaterial {
        name: "m".to_string(),
        shader_handle: RendererShaderHandle { index: 1, version: 1 },
        parameters_bind_group: None,
        textures_bind_group: None,
        parameters_uniform_buffer: None,
    };
    let params: StrTable<ParameterValue> = StrTable::new();
    let slots = slot_map(vec![("x", ShaderParameterType::Scalar)]);
    assert!(m.parameter_bytes(&slots, &params).is_none());
}

#[test]
fn empty_storage() {
    let s: RendererResourceStorage<u8, u8, u8, u8, u8> = RendererResourceStorage::new();
    assert!(s.shaders.is_empty());
    assert!(s.cameras.is_empty());
}

#[test]
fn uniform_size_matches_bytes_written() {
    let params: StrTable<ParameterValue> = StrTable::new();
    let slots = slot_map(vec![
        ("a", ShaderParameterType::Bool),
        ("b", ShaderParameterType::Color),
        ("c", ShaderParameterType::Scalar),
    ]);
    assert_eq!(calculate_uniform_size(&slots), 48);
    assert_eq!(write_parameters_to_buffer(&slots, &params).len(), calculate_uniform_size(&slots));
}

#[test]
fn specular_pass_renders_once() {
    let mut s = PassIblSpecularEquirect::new("specular", h(1), h(2), h(3), 6);
    let fmt = wgpu::TextureFormat::Rgba16Float;
    assert!(s.prefilter_needs_build(&fmt));
    assert!(s.brdf_needs_build(&fmt));
    assert_eq!(s.plan_draw(&fmt, &fmt, false, &fmt), IblStep::Skip);
    assert_eq!(
        s.plan_draw(&fmt, &fmt, true, &fmt),
        IblStep::Run { prefilter_mips: 1, brdf: true, make_env_bind_group: true }
    );
    assert_eq!(s.plan_draw(&fmt, &fmt, true, &fmt), IblStep::Skip);
}

#[test]
fn diffuse_pass_waits_for_its_pipeline() {
    let mut d = PassIblDiffuseEquirect::new("diffuse", h(3), h(4), wgpu::TextureFormat::Rgba16Float);
    assert!(d.needs_init());
    assert_eq!(d.plan_draw(true), IblStep::Skip);
}

fn material(shader: u32) -> RendererMaterial {
    RendererMaterial {
        name: "m".to_string(),
        shader_handle: RendererShaderHandle { index: shader, version: 1 },
        parameters_bind_group: None,
        textures_bind_group: None,
        parameters_uniform_buffer: None,
    }
}

#[test]
fn update_parameters_looks_up_material_and_shader() {
    let params: StrTable<ParameterValue> = StrTable::new();
    let mut s: RendererResourceStorage<RendererShader, RendererMaterial, u8, u8, u8> = RendererResourceStorage::new();
    let first = RendererMaterialHandle { index: 0, version: 1 };
    let second = RendererMaterialHandle { index: 1, version: 1 };
    assert_eq!(
        RendererMaterial::update_parameters(first, &s, &params),
        Err(RendererError::RendererResourceNotFound)
    );
    s.materials.push(Slot { version: 1, value: Some(material(0)) });
    s.materials.push(Slot { version: 1, value: Some(material(5)) });
    assert_eq!(
        RendererMaterial::update_parameters(first, &s, &params),
        Err(RendererError::RendererResourceNotFound)
    );
    s.shaders.push(Slot {
        version: 1,
        value: Some(RendererShader {
            name: "pbr".to_string(),
            parameter_slots: slot_map(vec![("x", ShaderParameterType::Scalar)]),
        }),
    });
    assert_eq!(RendererMaterial::update_parameters(first, &s, &params), Ok(None));
    assert_eq!(
        RendererMaterial::update_parameters(second, &s, &params),
        Err(RendererError::RendererResourceNotFound)
    );
}

#[test]
fn stale_handles_are_not_found() {
    let params: StrTable<ParameterValue> = StrTable::new();
    let mut s: RendererResourceStorage<RendererShader, RendererMaterial, u8, u8, u8> = RendererResourceStorage::new();
    s.shaders.push(Slot {
        version: 1,
        value: Some(RendererShader { name: "pbr".to_string(), parameter_slots: slot_map(vec![]) }),
    });
    s.materials.push(Slot { version: 3, value: Some(material(0)) });
    let stale = RendererMaterialHandle { index: 0, version: 1 };
    let current = RendererMaterialHandle { index: 0, version: 3 };
    assert_eq!(
        RendererMaterial::update_parameters(stale, &s, &params),
        Err(RendererError::RendererResourceNotFound)
    );
    assert_eq!(RendererMaterial::update_parameters(current, &s, &params), Ok(None));
    s.shaders[0].version = 2;
    assert_eq!(
        RendererMaterial::update_parameters(current, &s, &params),
        Err(RendererError::RendererResourceNotFound)
    );
}

#[test]
fn surface_choices_follow_preference() {
    assert_eq!(choose_present_mode(true, true), PresentModeChoice::Mailbox);
    assert_eq!(choose_present_mode(false, true), PresentModeChoice::Immediate);
    assert_eq!(choose_present_mode(false, false), PresentModeChoice::Fifo);
    assert_eq!(choose_surface_format(true, true, true), SurfaceFormatChoice::Rgba8UnormSrgb);
    assert_eq!(choose_surface_format(false, true, true), SurfaceFormatChoice::Bgra8UnormSrgb);
    assert_eq!(choose_surface_format(false, false, true), SurfaceFormatChoice::Bgra8Unorm);
    assert_eq!(choose_surface_format(false, false, false), SurfaceFormatChoice::FirstOffered);
}
