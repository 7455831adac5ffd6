//! Render passes and renderer resources as the engine holds them: the handles
//! that name renderer resources, the description types passes are built from,
//! and each pass's inputs and outputs together with the GPU objects it
//! creates when it is first initialised.
//!
//! The GPU objects are `wgpu` values and are only carried here; creating them
//! and recording draws is done by the caller against the device.
use vstd::prelude::*;
use wgpu::Texture as GpuTexture;
use wgpu::{
    BindGroup, BindGroupLayout, BindGroupLayoutEntry, Buffer, BufferUsages, ColorTargetState, DepthStencilState,
    MultisampleState, RenderPipeline, Sampler, TextureFormat, VertexBufferLayout,
};

use indexmap::IndexMap;

use crate::table::StrTable;

verus! {

#[verifier::external_type_specification]
#[verifier::external_body]
#[verifier::reject_recursive_types(K)]
#[verifier::reject_recursive_types(V)]
#[verifier::reject_recursive_types(S)]
pub struct ExIndexMap<K, V, S>(IndexMap<K, V, S>);

#[verifier::external_type_specification]
#[verifier::external_body]
pub struct ExBindGroup(BindGroup);

#[verifier::external_type_specification]
#[verifier::external_body]
pub struct ExBindGroupLayout(BindGroupLayout);

#[verifier::external_type_specification]
#[verifier::external_body]
pub struct ExBuffer(Buffer);

#[verifier::external_type_specification]
#[verifier::external_body]
pub struct ExBufferUsages(BufferUsages);

#[verifier::external_type_specification]
#[verifier::external_body]
pub struct ExRenderPipeline(RenderPipeline);

#[verifier::external_type_specification]
#[verifier::external_body]
pub struct ExSampler(Sampler);

#[verifier::external_type_specification]
#[verifier::external_body]
pub struct ExGpuTexture(GpuTexture);

#[verifier::external_type_specification]
#[verifier::external_body]
pub struct ExTextureFormat(TextureFormat);

#[verifier::external_type_specification]
#[verifier::external_body]
pub struct ExBindGroupLayoutEntry(BindGroupLayoutEntry);

#[verifier::external_type_specification]
#[verifier::external_body]
pub struct ExColorTargetState(ColorTargetState);

#[verifier::external_type_specification]
#[verifier::external_body]
pub struct ExDepthStencilState(DepthStencilState);

#[verifier::external_type_specification]
#[verifier::external_body]
pub struct ExMultisampleState(MultisampleState);

#[verifier::external_type_specification]
#[verifier::external_body]
pub struct ExVertexBufferLayout<'a>(VertexBufferLayout<'a>);

/// A handle to a renderer texture: a slot and the generation of its contents.
#[derive(Clone, Copy, Debug, PartialEq, Eq, Structural, Hash)]
pub struct RendererTextureHandle {
    pub index: u32,
    pub version: u32,
}

/// A handle to a renderer shader.
#[derive(Clone, Copy, Debug, PartialEq, Eq, Structural, Hash)]
pub struct RendererShaderHandle {
    pub index: u32,
    pub version: u32,
}

/// A handle to a renderer material.
#[derive(Clone, Copy, Debug, PartialEq, Eq, Structural, Hash)]
pub struct RendererMaterialHandle {
    pub index: u32,
    pub version: u32,
}

/// A handle to a renderer mesh.
#[derive(Clone, Copy, Debug, PartialEq, Eq, Structural, Hash)]
pub struct RendererMeshHandle {
    pub index: u32,
    pub version: u32,
}

/// A handle to a renderer camera.
#[derive(Clone, Copy, Debug, PartialEq, Eq, Structural, Hash)]
pub struct RendererCameraHandle {
    pub index: u32,
    pub version: u32,
}

/// A GPU buffer to create: its label, its size in bytes and its usage.
pub struct BufferDesc<'a> {
    pub label: Option<&'a str>,
    pub byte_size: u64,
    pub usage: BufferUsages,
}

/// A shader stage: WGSL source and the entry point.
#[derive(Clone, Copy, Debug)]
pub struct ShaderDesc<'a> {
    pub source: &'a str,
    pub entry_func: &'a str,
}

/// A render pipeline to create: its label, its two shader stages, its vertex
/// buffers and bind groups, its colour targets, and its depth and multisample
/// state.
pub struct PipelineV2Desc<'a> {
    pub label: Option<&'a str>,
    pub vs: ShaderDesc<'a>,
    pub ps: ShaderDesc<'a>,
    pub vertex_buffers: &'a [VertexBufferLayout<'a>],
    pub bind_groups: Vec<Vec<BindGroupLayoutEntry>>,
    pub targets: &'a [Option<ColorTargetState>],
    pub depth_stencil: Option<DepthStencilState>,
    pub multisample: MultisampleState,
}

/// A render target to create: its name, format and size.
pub struct RendererTargetDesc {
    pub name: String,
    pub format: TextureFormat,
    pub width: u32,
    pub height: u32,
}

/// A render pipeline with the layouts of its bind groups.
pub struct PipelineV2 {
    pub pipeline: RenderPipeline,
    pub bind_group_layouts: Vec<BindGroupLayout>,
}

/// The null handle of each kind: slot `u32::MAX`, generation 1, as the
/// default key of a slot map is.
pub open spec fn null_parts() -> (u32, u32) {
    (u32::MAX, 1u32)
}

impl RendererTextureHandle {
    /// The null handle.
    pub open spec fn null_handle() -> Self {
        RendererTextureHandle { index: null_parts().0, version: null_parts().1 }
    }

    /// The null handle, which names no texture.
    pub fn null() -> (r: Self)
        ensures
            r == Self::null_handle(),
    {
        RendererTextureHandle { index: u32::MAX, version: 1 }
    }
}

impl RendererShaderHandle {
    /// The null handle.
    pub open spec fn null_handle() -> Self {
        RendererShaderHandle { index: null_parts().0, version: null_parts().1 }
    }

    /// The null handle, which names no shader.
    pub fn null() -> (r: Self)
        ensures
            r == Self::null_handle(),
    {
        RendererShaderHandle { index: u32::MAX, version: 1 }
    }
}

impl RendererMaterialHandle {
    /// The null handle.
    pub open spec fn null_handle() -> Self {
        RendererMaterialHandle { index: null_parts().0, version: null_parts().1 }
    }

    /// The null handle, which names no material.
    pub fn null() -> (r: Self)
        ensures
            r == Self::null_handle(),
    {
        RendererMaterialHandle { index: u32::MAX, version: 1 }
    }
}

impl RendererMeshHandle {
    /// The null handle.
    pub open spec fn null_handle() -> Self {
        RendererMeshHandle { index: null_parts().0, version: null_parts().1 }
    }

    /// The null handle, which names no mesh.
    pub fn null() -> (r: Self)
        ensures
            r == Self::null_handle(),
    {
        RendererMeshHandle { index: u32::MAX, version: 1 }
    }
}

impl RendererCameraHandle {
    /// The null handle.
    pub open spec fn null_handle() -> Self {
        RendererCameraHandle { index: null_parts().0, version: null_parts().1 }
    }

    /// The null handle, which names no camera.
    pub fn null() -> (r: Self)
        ensures
            r == Self::null_handle(),
    {
        RendererCameraHandle { index: u32::MAX, version: 1 }
    }
}

/// The renderer that renders nothing, for headless runs: every resource it is
/// asked to create gets the null handle.
pub struct DummyRenderer;

impl DummyRenderer {
    /// The dummy renderer.
    pub fn new() -> (r: Self) {
        DummyRenderer
    }

    /// The handle every created texture gets: the null handle.
    pub fn create_texture(&mut self) -> (r: RendererTextureHandle)
        ensures
            r == RendererTextureHandle::null_handle(),
    {
        RendererTextureHandle::null()
    }

    /// The handle every created shader gets.
    pub fn create_shader(&mut self) -> (r: RendererShaderHandle)
        ensures
            r == RendererShaderHandle::null_handle(),
    {
        RendererShaderHandle::null()
    }

    /// The handle every created material gets.
    pub fn create_material(&mut self) -> (r: RendererMaterialHandle)
        ensures
            r == RendererMaterialHandle::null_handle(),
    {
        RendererMaterialHandle::null()
    }

    /// The handle every created mesh gets.
    pub fn create_mesh(&mut self) -> (r: RendererMeshHandle)
        ensures
            r == RendererMeshHandle::null_handle(),
    {
        RendererMeshHandle::null()
    }

    /// The handle every created camera gets.
    pub fn create_camera(&mut self) -> (r: RendererCameraHandle)
        ensures
            r == RendererCameraHandle::null_handle(),
    {
        RendererCameraHandle::null()
    }
}

/// The scene pass: it records the scene through the renderer and holds
/// nothing of its own.
pub struct PassScene;

impl PassScene {
    /// The scene pass.
    pub fn new() -> (r: Self) {
        PassScene
    }

    /// The pass's label.
    pub fn get_label(&self) -> (r: &'static str)
        ensures
            r@ == "pass_scene"@,
    {
        "pass_scene"
    }
}

/// The GPU objects of the background pass, made on its first initialisation.
pub struct BackgroundState {
    pub pipeline: PipelineV2,
    pub bind_group: BindGroup,
    pub camera_buffer: Buffer,
    pub texture: GpuTexture,
    pub sampler: Sampler,
}

/// The environment background, drawn into the HDR target.
pub struct PassBackground {
    hdr_target: RendererTextureHandle,
    state: Option<BackgroundState>,
}

impl PassBackground {
    /// The target the pass draws into.
    pub closed spec fn target(&self) -> RendererTextureHandle {
        self.hdr_target
    }

    /// Whether the pass's GPU objects exist.
    pub closed spec fn initialised(&self) -> bool {
        self.state is Some
    }

    /// A background pass into `hdr_target`, not yet initialised.
    pub fn new(hdr_target: RendererTextureHandle) -> (r: Self)
        ensures
            r.target() == hdr_target,
            !r.initialised(),
    {
        PassBackground { hdr_target, state: None }
    }

    /// The pass's label.
    pub fn get_label(&self) -> (r: &'static str)
        ensures
            r@ == "pass_background"@,
    {
        "pass_background"
    }
}

/// How the texels of a cooked texture are laid out on the GPU.
#[derive(Clone, Copy, Debug, PartialEq, Eq, Structural)]
pub enum CookedTexelFormat {
    /// Four 32-bit floats per texel.
    Rgba32Float,
    /// Four sRGB bytes per texel.
    Rgba8UnormSrgb,
}

/// The texel layout of a cooked texture of the given format version, and the
/// bytes per channel: version 2 holds floats, any other version bytes.
pub fn texel_layout(version: u32) -> (r: (CookedTexelFormat, u32))
    ensures
        version == 2 ==> r == (CookedTexelFormat::Rgba32Float, 4u32),
        version != 2 ==> r == (CookedTexelFormat::Rgba8UnormSrgb, 1u32),
{
    if version == 2 {
        (CookedTexelFormat::Rgba32Float, 4)
    } else {
        (CookedTexelFormat::Rgba8UnormSrgb, 1)
    }
}

/// The final pass: the offscreen colour texture composed onto the surface.
pub struct PassCompose {
    label: String,
    offscreen_color_texture: RendererTextureHandle,
    target_format: TextureFormat,
    pipeline: Option<PipelineV2>,
    bind_group: Option<BindGroup>,
}

impl PassCompose {
    /// The pass's label.
    pub closed spec fn label(&self) -> Seq<char> {
        self.label@
    }

    /// The texture the pass reads.
    pub closed spec fn source(&self) -> RendererTextureHandle {
        self.offscreen_color_texture
    }

    /// The format the pass writes.
    pub closed spec fn format(&self) -> TextureFormat {
        self.target_format
    }

    /// Whether the pass's GPU objects exist.
    pub closed spec fn initialised(&self) -> bool {
        self.pipeline is Some || self.bind_group is Some
    }

    /// A compose pass, not yet initialised.
    pub fn new(label: &str, offscreen_color_texture: RendererTextureHandle, target_format: TextureFormat) -> (r: Self)
        ensures
            r.label() == label@,
            r.source() == offscreen_color_texture,
            r.format() == target_format,
            !r.initialised(),
    {
        PassCompose {
            label: label.to_string(),
            offscreen_color_texture,
            target_format,
            pipeline: None,
            bind_group: None,
        }
    }

    /// The pass's label.
    pub fn get_label(&self) -> (r: &str)
        ensures
            r@ == self.label(),
    {
        self.label.as_str()
    }
}

/// `==` on texture formats, which derive `PartialEq` and `Eq`: whether the
/// two are the same format.
#[verifier::external_body]
fn same_format(a: &TextureFormat, b: &TextureFormat) -> (r: bool)
    ensures
        r == (*a == *b),
{
    a == b
}

/// What a one-shot image-based-lighting pass does this frame.
#[derive(Clone, Copy, Debug, PartialEq, Eq, Structural)]
pub enum IblStep {
    /// Nothing this frame.
    Skip,
    /// Render: the number of prefilter mip levels, whether the BRDF table is
    /// rendered too, and whether the environment bind group must be made first.
    Run { prefilter_mips: u32, brdf: bool, make_env_bind_group: bool },
}

/// Diffuse irradiance from an equirectangular environment, computed once.
pub struct PassIblDiffuseEquirect {
    label: String,
    env_texture: RendererTextureHandle,
    output_handle: RendererTextureHandle,
    output_format: TextureFormat,
    bind_group_env: Option<BindGroup>,
    pipeline: Option<PipelineV2>,
    done: bool,
}

impl PassIblDiffuseEquirect {
    /// The pass as it is, with only its done flag set to `d`.
    pub closed spec fn with_done(self, d: bool) -> Self {
        PassIblDiffuseEquirect { done: d, ..self }
    }

    /// The pass's label.
    pub closed spec fn label(&self) -> Seq<char> {
        self.label@
    }

    /// The environment texture read and the irradiance texture written.
    pub closed spec fn textures(&self) -> (RendererTextureHandle, RendererTextureHandle) {
        (self.env_texture, self.output_handle)
    }

    /// The format written.
    pub closed spec fn format(&self) -> TextureFormat {
        self.output_format
    }

    /// Whether the pass's GPU objects exist.
    pub closed spec fn initialised(&self) -> bool {
        self.bind_group_env is Some || self.pipeline is Some
    }

    /// Whether the irradiance has been computed.
    pub closed spec fn is_done(&self) -> bool {
        self.done
    }

    /// Whether `init` builds the pipeline: only the first time.
    pub fn needs_init(&self) -> (r: bool)
        ensures
            r == !self.has_pipeline(),
    {
        self.pipeline.is_none()
    }

    /// Whether the environment bind group exists.
    pub closed spec fn has_env_bind_group(&self) -> bool {
        self.bind_group_env is Some
    }

    /// Whether the pipeline exists.
    pub closed spec fn has_pipeline(&self) -> bool {
        self.pipeline is Some
    }

    /// Decides this frame's draw: nothing once the irradiance is done; the
    /// environment bind group is made when the pipeline exists and the
    /// environment texture is available; without a bind group the frame is
    /// skipped; otherwise the pass renders once and is done.
    pub fn plan_draw(&mut self, env_texture_available: bool) -> (r: IblStep)
        ensures
            old(self).is_done() ==> r == IblStep::Skip && final(self).is_done(),
            !old(self).is_done() ==> {
                let ready = old(self).has_env_bind_group() || (old(self).has_pipeline() && env_texture_available);
                &&& ready ==> r == (IblStep::Run {
                    prefilter_mips: 0,
                    brdf: false,
                    make_env_bind_group: !old(self).has_env_bind_group(),
                })
                &&& ready ==> final(self).is_done()
                &&& !ready ==> r == IblStep::Skip && !final(self).is_done()
            },
            final(self).label() == old(self).label(),
            final(self).textures() == old(self).textures(),
            final(self).format() == old(self).format(),
            final(self).has_env_bind_group() == old(self).has_env_bind_group(),
            final(self).has_pipeline() == old(self).has_pipeline(),
            *final(self) == old(self).with_done(final(self).is_done()),
            old(self).is_done() ==> *final(self) == *old(self),
    {
        if self.done {
            return IblStep::Skip;
        }
        let have = self.bind_group_env.is_some();
        let ready = have || (self.pipeline.is_some() && env_texture_available);
        if !ready {
            return IblStep::Skip;
        }
        self.done = true;
        IblStep::Run { prefilter_mips: 0, brdf: false, make_env_bind_group: !have }
    }

    /// A diffuse pass, not yet initialised or run.
    pub fn new(
        label: &str,
        env_texture: RendererTextureHandle,
        output_handle: RendererTextureHandle,
        output_format: TextureFormat,
    ) -> (r: Self)
        ensures
            r.label() == label@,
            r.textures() == (env_texture, output_handle),
            r.format() == output_format,
            !r.initialised(),
            !r.is_done(),
    {
        PassIblDiffuseEquirect {
            label: label.to_string(),
            env_texture,
            output_handle,
            output_format,
            bind_group_env: None,
            pipeline: None,
            done: false,
        }
    }

    /// The pass's label.
    pub fn get_label(&self) -> (r: &str)
        ensures
            r@ == self.label(),
    {
        self.label.as_str()
    }
}

/// Specular prefiltering of an equirectangular environment and the BRDF
/// lookup table, computed once.
pub struct PassIblSpecularEquirect {
    label: String,
    env_texture: RendererTextureHandle,
    prefilter_handle: RendererTextureHandle,
    brdf_lut_handle: RendererTextureHandle,
    env_bind_group: Option<BindGroup>,
    params_buffer: Option<Buffer>,
    params_bind_group: Option<BindGroup>,
    prefilter_pipeline: Option<PipelineV2>,
    brdf_pipeline: Option<RenderPipeline>,
    last_prefilter_format: Option<TextureFormat>,
    last_brdf_format: Option<TextureFormat>,
    mip_count: u32,
    done: bool,
}

impl PassIblSpecularEquirect {
    /// The pass as it is, with only its done flag set to `d`.
    pub closed spec fn with_done(self, d: bool) -> Self {
        PassIblSpecularEquirect { done: d, ..self }
    }

    /// The pass's label.
    pub closed spec fn label(&self) -> Seq<char> {
        self.label@
    }

    /// The environment texture read, and the prefiltered texture and BRDF
    /// table written.
    pub closed spec fn textures(&self) -> (RendererTextureHandle, RendererTextureHandle, RendererTextureHandle) {
        (self.env_texture, self.prefilter_handle, self.brdf_lut_handle)
    }

    /// The number of mip levels prefiltered.
    pub closed spec fn mips(&self) -> u32 {
        self.mip_count
    }

    /// Whether the pass's GPU objects exist or formats were recorded.
    pub closed spec fn initialised(&self) -> bool {
        ||| self.env_bind_group is Some
        ||| self.params_buffer is Some
        ||| self.params_bind_group is Some
        ||| self.prefilter_pipeline is Some
        ||| self.brdf_pipeline is Some
        ||| self.last_prefilter_format is Some
        ||| self.last_brdf_format is Some
    }

    /// Whether the outputs have been computed.
    pub closed spec fn is_done(&self) -> bool {
        self.done
    }

    /// A specular pass, not yet initialised or run.
    pub fn new(
        label: &str,
        env_texture: RendererTextureHandle,
        prefilter_handle: RendererTextureHandle,
        brdf_lut_handle: RendererTextureHandle,
        mip_count: u32,
    ) -> (r: Self)
        ensures
            r.label() == label@,
            r.textures() == (env_texture, prefilter_handle, brdf_lut_handle),
            r.mips() == mip_count,
            !r.initialised(),
            !r.is_done(),
    {
        PassIblSpecularEquirect {
            label: label.to_string(),
            env_texture,
            prefilter_handle,
            brdf_lut_handle,
            env_bind_group: None,
            params_buffer: None,
            params_bind_group: None,
            prefilter_pipeline: None,
            brdf_pipeline: None,
            last_prefilter_format: None,
            last_brdf_format: None,
            mip_count,
            done: false,
        }
    }

    /// The format the prefilter pipeline was built for, if it was.
    pub closed spec fn prefilter_built_for(&self) -> Option<TextureFormat> {
        self.last_prefilter_format
    }

    /// The format the BRDF pipeline was built for, if it was.
    pub closed spec fn brdf_built_for(&self) -> Option<TextureFormat> {
        self.last_brdf_format
    }

    /// Whether the prefilter pipeline exists.
    pub closed spec fn has_prefilter_pipeline(&self) -> bool {
        self.prefilter_pipeline is Some
    }

    /// Whether the BRDF pipeline exists.
    pub closed spec fn has_brdf_pipeline(&self) -> bool {
        self.brdf_pipeline is Some
    }

    /// Whether the environment bind group exists.
    pub closed spec fn has_env_bind_group(&self) -> bool {
        self.env_bind_group is Some
    }

    /// Whether `init` (re)builds the prefilter pipeline for the target format:
    /// the first time, or when the format changed since it was built.
    pub fn prefilter_needs_build(&self, format: &TextureFormat) -> (r: bool)
        ensures
            r == ((self.prefilter_built_for() matches Some(f) && f != *format) || !self.has_prefilter_pipeline()),
    {
        let changed = match &self.last_prefilter_format {
            Some(f) => !same_format(f, format),
            None => false,
        };
        changed || self.prefilter_pipeline.is_none()
    }

    /// Whether `init` (re)builds the BRDF pipeline for the target format:
    /// the first time, or when the format changed since it was built.
    pub fn brdf_needs_build(&self, format: &TextureFormat) -> (r: bool)
        ensures
            r == ((self.brdf_built_for() matches Some(f) && f != *format) || !self.has_brdf_pipeline()),
    {
        let changed = match &self.last_brdf_format {
            Some(f) => !same_format(f, format),
            None => false,
        };
        changed || self.brdf_pipeline.is_none()
    }

    /// Decides this frame's draw, given the current prefilter and BRDF target
    /// formats, whether the environment texture is available, and the HDR
    /// format whose targets have a mip chain. Nothing once done. A prefilter
    /// target whose format differs from the one the pipeline was built for
    /// skips the frame. Without an environment bind group and texture the
    /// frame is skipped too. Otherwise every mip level is prefiltered when the
    /// pipeline was built for the HDR format, else only the first; the BRDF
    /// table follows unless its format changed; either way the pass is done.
    pub fn plan_draw(
        &mut self,
        prefilter_format: &TextureFormat,
        brdf_format: &TextureFormat,
        env_texture_available: bool,
        hdr_format: &TextureFormat,
    ) -> (r: IblStep)
        ensures
            old(self).is_done() ==> r == IblStep::Skip && final(self).is_done(),
            !old(self).is_done() && (old(self).prefilter_built_for() matches Some(f) && f != *prefilter_format) ==> r
                == IblStep::Skip && !final(self).is_done(),
            !old(self).is_done() && !(old(self).prefilter_built_for() matches Some(f) && f != *prefilter_format) ==> {
                let ready = old(self).has_env_bind_group() || env_texture_available;
                &&& !ready ==> r == IblStep::Skip && !final(self).is_done()
                &&& ready ==> final(self).is_done()
                &&& ready ==> r == (IblStep::Run {
                    prefilter_mips: if old(self).prefilter_built_for() == Some(*hdr_format) {
                        old(self).mips()
                    } else {
                        1
                    },
                    brdf: !(old(self).brdf_built_for() matches Some(f) && f != *brdf_format),
                    make_env_bind_group: !old(self).has_env_bind_group(),
                })
            },
            final(self).label() == old(self).label(),
            final(self).textures() == old(self).textures(),
            final(self).mips() == old(self).mips(),
            final(self).prefilter_built_for() == old(self).prefilter_built_for(),
            final(self).brdf_built_for() == old(self).brdf_built_for(),
            final(self).has_env_bind_group() == old(self).has_env_bind_group(),
            final(self).has_prefilter_pipeline() == old(self).has_prefilter_pipeline(),
            final(self).has_brdf_pipeline() == old(self).has_brdf_pipeline(),
            *final(self) == old(self).with_done(final(self).is_done()),
            old(self).is_done() ==> *final(self) == *old(self),
    {
        if self.done {
            return IblStep::Skip;
        }
        let prefilter_changed = match &self.last_prefilter_format {
            Some(f) => !same_format(f, prefilter_format),
            None => false,
        };
        if prefilter_changed {
            return IblStep::Skip;
        }
        let have = self.env_bind_group.is_some();
        if !have && !env_texture_available {
            return IblStep::Skip;
        }
        let mips = match &self.last_prefilter_format {
            Some(f) => if same_format(f, hdr_format) {
                self.mip_count
            } else {
                1
            },
            None => 1,
        };
        let brdf_changed = match &self.last_brdf_format {
            Some(f) => !same_format(f, brdf_format),
            None => false,
        };
        self.done = true;
        IblStep::Run { prefilter_mips: mips, brdf: !brdf_changed, make_env_bind_group: !have }
    }

    /// The texture the prefiltered environment is written to.
    pub fn prefilter_texture_handle(&self) -> (r: RendererTextureHandle)
        ensures
            r == self.textures().1,
    {
        self.prefilter_handle
    }

    /// The texture the BRDF lookup table is written to.
    pub fn brdf_lut_handle(&self) -> (r: RendererTextureHandle)
        ensures
            r == self.textures().2,
    {
        self.brdf_lut_handle
    }

    /// The pass's label.
    pub fn get_label(&self) -> (r: &str)
        ensures
            r@ == self.label(),
    {
        self.label.as_str()
    }
}

/// Depth copied into a colour target as linear depth.
pub struct PassLinearizeDepth {
    label: String,
    pipeline: Option<PipelineV2>,
    bind_group_material: Option<BindGroup>,
    params_buffer: Option<Buffer>,
    target_format: TextureFormat,
    depth_texture: RendererTextureHandle,
    depth_copy_target: RendererTextureHandle,
}

impl PassLinearizeDepth {
    /// The pass's label.
    pub closed spec fn label(&self) -> Seq<char> {
        self.label@
    }

    /// The depth texture read and the target written.
    pub closed spec fn textures(&self) -> (RendererTextureHandle, RendererTextureHandle) {
        (self.depth_texture, self.depth_copy_target)
    }

    /// The format written.
    pub closed spec fn format(&self) -> TextureFormat {
        self.target_format
    }

    /// Whether the pass's GPU objects exist.
    pub closed spec fn initialised(&self) -> bool {
        self.pipeline is Some || self.bind_group_material is Some || self.params_buffer is Some
    }

    /// A linearize-depth pass, not yet initialised.
    pub fn new(
        label: &str,
        depth_texture: RendererTextureHandle,
        depth_copy_target: RendererTextureHandle,
        target_format: TextureFormat,
    ) -> (r: Self)
        ensures
            r.label() == label@,
            r.textures() == (depth_texture, depth_copy_target),
            r.format() == target_format,
            !r.initialised(),
    {
        PassLinearizeDepth {
            label: label.to_string(),
            pipeline: None,
            bind_group_material: None,
            params_buffer: None,
            target_format,
            depth_texture,
            depth_copy_target,
        }
    }

    /// The pass's label.
    pub fn get_label(&self) -> (r: &str)
        ensures
            r@ == self.label(),
    {
        self.label.as_str()
    }
}

/// Motion blur of the colour target along the velocity target.
pub struct PassMotionBlur {
    pub name: String,
    pub input_color: RendererTextureHandle,
    pub input_velocity: RendererTextureHandle,
    pub input_depth: RendererTextureHandle,
    pub output: RendererTextureHandle,
    pub format: TextureFormat,
    pipeline: Option<PipelineV2>,
    bind_group: Option<BindGroup>,
    params_buffer: Option<Buffer>,
}

impl PassMotionBlur {
    /// The pass's name, its colour, velocity and depth inputs, its output and
    /// the format written.
    pub closed spec fn setup(&self) -> (
        Seq<char>,
        RendererTextureHandle,
        RendererTextureHandle,
        RendererTextureHandle,
        RendererTextureHandle,
        TextureFormat,
    ) {
        (self.name@, self.input_color, self.input_velocity, self.input_depth, self.output, self.format)
    }

    /// Whether the pass's GPU objects exist.
    pub closed spec fn initialised(&self) -> bool {
        self.pipeline is Some || self.bind_group is Some || self.params_buffer is Some
    }

    /// A motion blur pass, not yet initialised.
    pub fn new(
        name: &str,
        input_color: RendererTextureHandle,
        input_velocity: RendererTextureHandle,
        input_depth: RendererTextureHandle,
        output: RendererTextureHandle,
        format: TextureFormat,
    ) -> (r: Self)
        ensures
            r.setup() == (name@, input_color, input_velocity, input_depth, output, format),
            !r.initialised(),
    {
        PassMotionBlur {
            name: name.to_string(),
            input_color,
            input_velocity,
            input_depth,
            output,
            format,
            pipeline: None,
            bind_group: None,
            params_buffer: None,
        }
    }

    /// The pass's label.
    pub fn get_label(&self) -> (r: &str)
        ensures
            r@ == self.setup().0,
    {
        self.name.as_str()
    }
}

/// The kind of a shader parameter slot.
#[derive(Clone, Copy, Debug, PartialEq, Eq, Structural)]
pub enum ShaderParameterType {
    Color,
    Scalar,
    Bool,
}

/// A material parameter's value, its floats given by their IEEE-754 bits
/// (`f32::to_bits`).
#[derive(Clone, Copy, Debug, PartialEq, Eq, Structural)]
pub enum ParameterValue {
    Color(u32, u32, u32),
    Scalar(u32),
    Bool(bool),
}

/// The sixteen uniform bytes of one parameter slot: a colour as three floats
/// and a zero float, a scalar or a truth value (as `u32` 1 or 0) followed by
/// twelve zero bytes; sixteen zero bytes where the material has no value of
/// the slot's kind.
pub open spec fn slot_bytes(kind: ShaderParameterType, value: Option<ParameterValue>) -> Seq<u8> {
    match (kind, value) {
        (ShaderParameterType::Color, Some(ParameterValue::Color(r, g, b))) => crate::assets::le32(r)
            + crate::assets::le32(g) + crate::assets::le32(b) + crate::assets::le32(0),
        (ShaderParameterType::Scalar, Some(ParameterValue::Scalar(x))) => crate::assets::le32(x) + Seq::new(
            12,
            |i: int| 0u8,
        ),
        (ShaderParameterType::Bool, Some(ParameterValue::Bool(b))) => crate::assets::le32(
            if b {
                1u32
            } else {
                0u32
            },
        ) + Seq::new(12, |i: int| 0u8),
        _ => Seq::new(16, |i: int| 0u8),
    }
}

/// The uniform bytes of a material: the slots' bytes in slot order.
pub open spec fn uniform_bytes(
    slots: Seq<(Seq<char>, ShaderParameterType)>,
    values: Map<Seq<char>, ParameterValue>,
) -> Seq<u8>
    decreases slots.len(),
{
    if slots.len() == 0 {
        Seq::empty()
    } else {
        uniform_bytes(slots.drop_last(), values) + slot_bytes(
            slots.last().1,
            if values.contains_key(slots.last().0) {
                Some(values[slots.last().0])
            } else {
                None
            },
        )
    }
}

/// Appends `n` zero bytes.
fn push_zeros(out: &mut Vec<u8>, n: usize)
    ensures
        final(out)@ == old(out)@ + Seq::new(n as nat, |i: int| 0u8),
{
    let ghost start = out@;
    let mut i: usize = 0;
    while i < n
        invariant
            i <= n,
            out@ == start + Seq::new(i as nat, |j: int| 0u8),
        decreases n - i,
    {
        out.push(0u8);
        assert(Seq::new((i + 1) as nat, |j: int| 0u8) =~= Seq::new(i as nat, |j: int| 0u8).push(0u8));
        i = i + 1;
    }
}

/// Appends the little-endian bytes of `x`.
fn push_u32(out: &mut Vec<u8>, x: u32)
    ensures
        final(out)@ == old(out)@ + crate::assets::le32(x),
{
    out.push((x % 256) as u8);
    out.push(((x / 256) % 256) as u8);
    out.push(((x / 65536) % 256) as u8);
    out.push(((x / 16777216) % 256) as u8);
    assert(final(out)@ =~= old(out)@ + crate::assets::le32(x));
}

/// The parameter slots of a shader, in declaration order: each slot's name
/// and kind, as the `IndexMap` holds them.
pub uninterp spec fn slot_entries(m: IndexMap<String, ShaderParameterType>) -> Seq<(Seq<char>, ShaderParameterType)>;

/// `IndexMap::len`: the number of slots the map holds.
#[verifier::external_body]
fn slot_count(m: &IndexMap<String, ShaderParameterType>) -> (r: usize)
    ensures
        r == slot_entries(*m).len(),
{
    m.len()
}

/// `IndexMap::get_index`: the slot at a position of the map's order, with
/// its name and kind; `None` past the end.
#[verifier::external_body]
fn slot_at(m: &IndexMap<String, ShaderParameterType>, i: usize) -> (r: Option<(&String, ShaderParameterType)>)
    ensures
        match r {
            Some((name, kind)) => i < slot_entries(*m).len() && name@ == slot_entries(*m)[i as int].0 && kind
                == slot_entries(*m)[i as int].1,
            None => i >= slot_entries(*m).len(),
        },
{
    m.get_index(i).map(|(name, kind)| (name, *kind))
}

/// The uniform bytes a material writes for its shader's parameter slots, as
/// `uniform_bytes` says.
pub fn write_parameters_to_buffer(
    parameter_slots: &IndexMap<String, ShaderParameterType>,
    parameters: &StrTable<ParameterValue>,
) -> (r: Vec<u8>)
    requires
        parameters.wf(),
    ensures
        r@ == uniform_bytes(slot_entries(*parameter_slots), parameters.view()),
{
    let ghost slots = slot_entries(*parameter_slots);
    let n = slot_count(parameter_slots);
    let mut data: Vec<u8> = Vec::new();
    let mut i: usize = 0;
    while i < n
        invariant
            i <= n,
            n == slots.len(),
            slots == slot_entries(*parameter_slots),
            parameters.wf(),
            data@ == uniform_bytes(slots.subrange(0, i as int), parameters.view()),
        decreases n - i,
    {
        let ghost before = data@;
        let ghost pre = slots.subrange(0, i as int);
        let ghost next = slots.subrange(0, i + 1);
        assert(next.drop_last() == pre);
        assert(next.last() == slots[i as int]);
        let (name, kind) = slot_at(parameter_slots, i).unwrap();
        let value = parameters.get(name);
        match (kind, value) {
            (ShaderParameterType::Color, Some(ParameterValue::Color(r, g, b))) => {
                push_u32(&mut data, *r);
                push_u32(&mut data, *g);
                push_u32(&mut data, *b);
                push_u32(&mut data, 0);
            },
            (ShaderParameterType::Scalar, Some(ParameterValue::Scalar(x))) => {
                push_u32(&mut data, *x);
                push_zeros(&mut data, 12);
            },
            (ShaderParameterType::Bool, Some(ParameterValue::Bool(b))) => {
                push_u32(&mut data, if *b { 1 } else { 0 });
                push_zeros(&mut data, 12);
            },
            _ => {
                push_zeros(&mut data, 16);
            },
        }
        assert(data@ =~= before + slot_bytes(
            kind,
            if parameters.view().contains_key(name@) {
                Some(parameters.view()[name@])
            } else {
                None
            },
        ));
        i = i + 1;
    }
    assert(slots.subrange(0, slots.len() as int) == slots);
    data
}

/// The size of a material's uniform buffer: sixteen bytes per parameter slot.
pub fn calculate_uniform_size(parameter_slots: &IndexMap<String, ShaderParameterType>) -> (r: usize)
    requires
        slot_entries(*parameter_slots).len() * 16 <= usize::MAX,
    ensures
        r == slot_entries(*parameter_slots).len() * 16,
{
    slot_count(parameter_slots) * 16
}

/// A material as the renderer holds it: its name, its shader, and the GPU
/// objects made for it.
pub struct RendererMaterial {
    pub name: String,
    pub shader_handle: RendererShaderHandle,
    pub parameters_bind_group: Option<BindGroup>,
    pub textures_bind_group: Option<BindGroup>,
    pub parameters_uniform_buffer: Option<Buffer>,
}

/// What the renderer keeps of a shader that material updates read: its name
/// and its parameter slots, in declaration order.
pub struct RendererShader {
    pub name: String,
    pub parameter_slots: IndexMap<String, ShaderParameterType>,
}

/// Why a renderer operation failed.
#[derive(Clone, Copy, Debug, PartialEq, Eq, Structural)]
pub enum RendererError {
    /// A handle names no resource in the storage.
    RendererResourceNotFound,
}

/// One slot of a resource storage: the generation it is at, and the
/// resource it holds, if any. A handle names the slot's resource only while
/// the handle's version is the slot's.
pub struct Slot<T> {
    pub version: u32,
    pub value: Option<T>,
}

/// The resource that a handle (index and version) names, if any: the slot at
/// the index must exist, be at the handle's version, and hold a resource; a
/// stale handle, whose version is not the slot's, names nothing.
pub open spec fn slot_of<T>(slots: Seq<Slot<T>>, index: u32, version: u32) -> Option<T> {
    if (index as int) < slots.len() && slots[index as int].version == version {
        slots[index as int].value
    } else {
        None
    }
}

/// Looks a handle up in a storage's slots, as `slot_of` says.
pub fn slot_get<T>(slots: &Vec<Slot<T>>, index: u32, version: u32) -> (r: Option<&T>)
    ensures
        match slot_of(slots@, index, version) {
            Some(v) => r == Some(&v),
            None => r is None,
        },
{
    let i = index as usize;
    if i >= slots.len() {
        return None;
    }
    let slot = &slots[i];
    if slot.version != version {
        return None;
    }
    match &slot.value {
        Some(v) => Some(v),
        None => None,
    }
}

impl RendererMaterial {
    /// The bytes to write into the material's uniform buffer for new parameter
    /// values: none where the material has no buffer or its shader has no
    /// parameter slots.
    pub fn parameter_bytes(
        &self,
        parameter_slots: &IndexMap<String, ShaderParameterType>,
        parameters: &StrTable<ParameterValue>,
    ) -> (r: Option<Vec<u8>>)
        requires
            parameters.wf(),
        ensures
            r is Some <==> self.parameters_uniform_buffer is Some && slot_entries(*parameter_slots).len() > 0,
            r matches Some(bytes) ==> bytes@ == uniform_bytes(slot_entries(*parameter_slots), parameters.view()),
    {
        if self.parameters_uniform_buffer.is_none() {
            return None;
        }
        let data = write_parameters_to_buffer(parameter_slots, parameters);
        proof {
            lemma_uniform_len(slot_entries(*parameter_slots), parameters.view());
        }
        if data.len() == 0 {
            None
        } else {
            Some(data)
        }
    }

    /// Updates the parameters of the material that `handle` names: the material
    /// and its shader are looked up in the storage by index and version
    /// (either missing, or named by a stale handle, is
    /// `RendererResourceNotFound`), and the result is the bytes to write into
    /// the material's uniform buffer, as `parameter_bytes` gives them. The
    /// storage is not changed.
    pub fn update_parameters<X, H, C>(
        handle: RendererMaterialHandle,
        storage: &RendererResourceStorage<RendererShader, RendererMaterial, X, H, C>,
        parameters: &StrTable<ParameterValue>,
    ) -> (r: Result<Option<Vec<u8>>, RendererError>)
        requires
            parameters.wf(),
        ensures
            match slot_of(storage.materials@, handle.index, handle.version) {
                None => r == Err::<Option<Vec<u8>>, RendererError>(RendererError::RendererResourceNotFound),
                Some(m) => match slot_of(storage.shaders@, m.shader_handle.index, m.shader_handle.version) {
                    None => r == Err::<Option<Vec<u8>>, RendererError>(RendererError::RendererResourceNotFound),
                    Some(sh) => r matches Ok(o) && (o is Some <==> (m.parameters_uniform_buffer is Some
                        && slot_entries(sh.parameter_slots).len() > 0)) && (o matches Some(bytes) ==> bytes@
                        == uniform_bytes(slot_entries(sh.parameter_slots),
                        parameters.view(),
                    )),
                },
            },
    {
        match slot_get(&storage.materials, handle.index, handle.version) {
            None => Err(RendererError::RendererResourceNotFound),
            Some(m) => match slot_get(&storage.shaders, m.shader_handle.index, m.shader_handle.version) {
                None => Err(RendererError::RendererResourceNotFound),
                Some(sh) => Ok(m.parameter_bytes(&sh.parameter_slots, parameters)),
            },
        }
    }
}

/// The bytes written for a material fill its uniform buffer exactly: sixteen
/// bytes per slot, as `calculate_uniform_size` counts.
pub proof fn lemma_uniform_len(slots: Seq<(Seq<char>, ShaderParameterType)>, values: Map<Seq<char>, ParameterValue>)
    ensures
        uniform_bytes(slots, values).len() == 16 * slots.len(),
    decreases slots.len(),
{
    if slots.len() > 0 {
        lemma_uniform_len(slots.drop_last(), values);
        let v = if values.contains_key(slots.last().0) {
            Some(values[slots.last().0])
        } else {
            None
        };
        assert(slot_bytes(slots.last().1, v).len() == 16);
    }
}

/// The most resources of each kind the renderer makes room for at start.
pub const MAX_SHADERS: usize = 10usize;

/// The most textures the renderer makes room for at start.
pub const MAX_TEXTURES: usize = 10usize;

/// The most materials the renderer makes room for at start.
pub const MAX_MATERIALS: usize = 10usize;

/// The most meshes the renderer makes room for at start.
pub const MAX_MESHES: usize = 10usize;

/// The most cameras the renderer makes room for at start.
pub const MAX_CAMERAS: usize = 10usize;

/// The renderer's resources, each kind in versioned slots addressed by its
/// handles.
pub struct RendererResourceStorage<S, M, X, H, C> {
    pub shaders: Vec<Slot<S>>,
    pub materials: Vec<Slot<M>>,
    pub textures: Vec<Slot<X>>,
    pub meshes: Vec<Slot<H>>,
    pub cameras: Vec<Slot<C>>,
}

impl<S, M, X, H, C> RendererResourceStorage<S, M, X, H, C> {
    /// Empty storage.
    pub fn new() -> (r: Self)
        ensures
            r.shaders@.len() == 0,
            r.materials@.len() == 0,
            r.textures@.len() == 0,
            r.meshes@.len() == 0,
            r.cameras@.len() == 0,
    {
        RendererResourceStorage {
            shaders: Vec::new(),
            materials: Vec::new(),
            textures: Vec::new(),
            meshes: Vec::new(),
            cameras: Vec::new(),
        }
    }
}

/// How frames are presented: `wgpu::PresentMode`'s three modes that the
/// renderer picks between.
#[derive(Clone, Copy, Debug, PartialEq, Eq, Structural)]
pub enum PresentModeChoice {
    Mailbox,
    Immediate,
    Fifo,
}

/// The present mode the renderer asks for, given the modes the surface
/// offers: mailbox where offered, else immediate where offered, else FIFO
/// (which every surface offers).
pub fn choose_present_mode(has_mailbox: bool, has_immediate: bool) -> (r: PresentModeChoice)
    ensures
        r == (if has_mailbox {
            PresentModeChoice::Mailbox
        } else if has_immediate {
            PresentModeChoice::Immediate
        } else {
            PresentModeChoice::Fifo
        }),
{
    if has_mailbox {
        PresentModeChoice::Mailbox
    } else if has_immediate {
        PresentModeChoice::Immediate
    } else {
        PresentModeChoice::Fifo
    }
}

/// The colour format of the surface, as the renderer picks it.
#[derive(Clone, Copy, Debug, PartialEq, Eq, Structural)]
pub enum SurfaceFormatChoice {
    Rgba8UnormSrgb,
    Bgra8UnormSrgb,
    Bgra8Unorm,
    /// The first format the surface offers.
    FirstOffered,
}

/// The surface format the renderer asks for, given which formats the surface
/// offers: `Rgba8UnormSrgb` where offered, else `Bgra8UnormSrgb`, else
/// `Bgra8Unorm`, else the surface's first format.
pub fn choose_surface_format(has_rgba8_srgb: bool, has_bgra8_srgb: bool, has_bgra8: bool) -> (r: SurfaceFormatChoice)
    ensures
        r == (if has_rgba8_srgb {
            SurfaceFormatChoice::Rgba8UnormSrgb
        } else if has_bgra8_srgb {
            SurfaceFormatChoice::Bgra8UnormSrgb
        } else if has_bgra8 {
            SurfaceFormatChoice::Bgra8Unorm
        } else {
            SurfaceFormatChoice::FirstOffered
        }),
{
    if has_rgba8_srgb {
        SurfaceFormatChoice::Rgba8UnormSrgb
    } else if has_bgra8_srgb {
        SurfaceFormatChoice::Bgra8UnormSrgb
    } else if has_bgra8 {
        SurfaceFormatChoice::Bgra8Unorm
    } else {
        SurfaceFormatChoice::FirstOffered
    }
}

/// Byte `k` of slot `i` of a material's uniform bytes is byte `k` of that
/// slot's sixteen.
proof fn lemma_uniform_byte(
    slots: Seq<(Seq<char>, ShaderParameterType)>,
    values: Map<Seq<char>, ParameterValue>,
    i: int,
    k: int,
)
    requires
        0 <= i < slots.len(),
        0 <= k < 16,
    ensures
        uniform_bytes(slots, values)[16 * i + k] == slot_bytes(
            slots[i].1,
            if values.contains_key(slots[i].0) {
                Some(values[slots[i].0])
            } else {
                None
            },
        )[k],
    decreases slots.len(),
{
    let pre = slots.drop_last();
    lemma_uniform_len(pre, values);
    if i < slots.len() - 1 {
        lemma_uniform_byte(pre, values, i, k);
        assert(pre[i] == slots[i]);
    }
}

/// A truth-valued parameter is written as the `u32` 1 when true and 0 when
/// false, in its slot's first four bytes (little-endian), and the other
/// twelve bytes of the slot are zero.
pub proof fn lemma_bool_parameter_bytes(
    slots: Seq<(Seq<char>, ShaderParameterType)>,
    values: Map<Seq<char>, ParameterValue>,
    i: int,
    b: bool,
)
    requires
        0 <= i < slots.len(),
        slots[i].1 == ShaderParameterType::Bool,
        values.contains_key(slots[i].0),
        values[slots[i].0] == ParameterValue::Bool(b),
    ensures
        uniform_bytes(slots, values).len() == 16 * slots.len(),
        uniform_bytes(slots, values)[16 * i] == (if b { 1u8 } else { 0u8 }),
        forall|k: int| 1 <= k < 16 ==> #[trigger] uniform_bytes(slots, values)[16 * i + k] == 0u8,
{
    lemma_uniform_len(slots, values);
    lemma_uniform_byte(slots, values, i, 0);
    assert forall|k: int| 1 <= k < 16 implies #[trigger] uniform_bytes(slots, values)[16 * i + k] == 0u8 by {
        lemma_uniform_byte(slots, values, i, k);
    }
}

/// A scalar parameter's `u32` bits fill its slot's first four bytes, least
/// significant first, and the other twelve bytes of the slot are zero.
pub proof fn lemma_scalar_parameter_bytes(
    slots: Seq<(Seq<char>, ShaderParameterType)>,
    values: Map<Seq<char>, ParameterValue>,
    i: int,
    x: u32,
)
    requires
        0 <= i < slots.len(),
        slots[i].1 == ShaderParameterType::Scalar,
        values.contains_key(slots[i].0),
        values[slots[i].0] == ParameterValue::Scalar(x),
    ensures
        uniform_bytes(slots, values)[16 * i] == x % 256,
        uniform_bytes(slots, values)[16 * i + 1] == (x / 256) % 256,
        uniform_bytes(slots, values)[16 * i + 2] == (x / 65536) % 256,
        uniform_bytes(slots, values)[16 * i + 3] == (x / 16777216) % 256,
        forall|k: int| 4 <= k < 16 ==> #[trigger] uniform_bytes(slots, values)[16 * i + k] == 0u8,
{
    lemma_uniform_byte(slots, values, i, 0);
    lemma_uniform_byte(slots, values, i, 1);
    lemma_uniform_byte(slots, values, i, 2);
    lemma_uniform_byte(slots, values, i, 3);
    assert forall|k: int| 4 <= k < 16 implies #[trigger] uniform_bytes(slots, values)[16 * i + k] == 0u8 by {
        lemma_uniform_byte(slots, values, i, k);
    }
}

/// A slot whose parameter the material does not set, or sets with a value of
/// another kind, is sixteen zero bytes.
pub proof fn lemma_unset_parameter_is_zero(
    slots: Seq<(Seq<char>, ShaderParameterType)>,
    values: Map<Seq<char>, ParameterValue>,
    i: int,
)
    requires
        0 <= i < slots.len(),
        !values.contains_key(slots[i].0) || !(match (slots[i].1, values[slots[i].0]) {
            (ShaderParameterType::Color, ParameterValue::Color(_, _, _)) => true,
            (ShaderParameterType::Scalar, ParameterValue::Scalar(_)) => true,
            (ShaderParameterType::Bool, ParameterValue::Bool(_)) => true,
            _ => false,
        }),
    ensures
        forall|k: int| 0 <= k < 16 ==> #[trigger] uniform_bytes(slots, values)[16 * i + k] == 0u8,
{
    assert forall|k: int| 0 <= k < 16 implies #[trigger] uniform_bytes(slots, values)[16 * i + k] == 0u8 by {
        lemma_uniform_byte(slots, values, i, k);
    }
}

} // verus!
