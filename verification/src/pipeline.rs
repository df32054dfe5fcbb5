//! Pipeline specialization: the immutable bind-group layouts, the
//! specialization of the point-splat pipeline over its variant key
//! (colored, animated, sample count), the eye-dome-lighting pipeline keyed
//! by sample count alone, and the memoizing caches of compiled variants.

use vstd::prelude::*;

use crate::numeric::{push_u32_le, spec_u32_le_bytes};
use crate::render::BindGroupLayoutKind;

verus! {

/// IEEE 754 single-precision bits of 0.0, for the quad vertex buffer.
pub const F32_BITS_ZERO: u32 = 0x0000_0000;

/// IEEE 754 single-precision bits of 1.0, for the quad vertex buffer.
pub const F32_BITS_ONE: u32 = 0x3f80_0000;

/// Which shader stages a binding is visible to.
#[derive(Clone, Copy, PartialEq, Eq, Structural, Debug)]
pub enum ShaderVisibility {
    Vertex,
    Fragment,
    VertexAndFragment,
}

/// The kind of resource a layout entry binds.
#[derive(Clone, Copy, PartialEq, Eq, Structural, Debug)]
pub enum BindingTypeKind {
    /// A uniform buffer bound at a dynamic offset.
    UniformDynamicOffset,
    /// A plain uniform buffer.
    Uniform,
    /// A read-only storage buffer.
    StorageReadOnly,
    /// A non-filterable float 2D texture.
    Texture,
    /// A multisampled non-filterable float 2D texture.
    MultisampledTexture,
}

/// One entry of a bind-group layout.
#[derive(Clone, Copy, PartialEq, Eq, Structural, Debug)]
pub struct LayoutEntry {
    pub binding: u32,
    pub visibility: ShaderVisibility,
    pub ty: BindingTypeKind,
}

/// The depth comparison of the splat pass. The host renders with a
/// reversed depth buffer, so the pass keeps the greater depth value; this
/// choice must match the shaders bit for bit.
#[derive(Clone, Copy, PartialEq, Eq, Structural, Debug)]
pub enum DepthCompare {
    Less,
    Greater,
}

/// A blend factor of the lighting pass's color target.
#[derive(Clone, Copy, PartialEq, Eq, Structural, Debug)]
pub enum BlendFactorKind {
    Zero,
    One,
    SrcAlpha,
}

/// One blend component: `src * src_factor (op) dst * dst_factor`.
#[derive(Clone, Copy, PartialEq, Eq, Structural, Debug)]
pub struct BlendComponentModel {
    pub src_factor: BlendFactorKind,
    pub dst_factor: BlendFactorKind,
}

/// A texture format of the passes' attachments.
#[derive(Clone, Copy, PartialEq, Eq, Structural, Debug)]
pub enum TextureFormatKind {
    /// The view's color target.
    Rgba8UnormSrgb,
    /// The auxiliary per-pixel depth target the lighting pass reads.
    R32Float,
    /// The depth-stencil attachment.
    Depth32Float,
}

/// The primitive topology of a pass.
#[derive(Clone, Copy, PartialEq, Eq, Structural, Debug)]
pub enum PrimitiveTopologyKind {
    TriangleList,
    TriangleStrip,
}

/// A vertex attribute format.
#[derive(Clone, Copy, PartialEq, Eq, Structural, Debug)]
pub enum VertexFormatKind {
    Float32x2,
    Float32x3,
}

/// One vertex attribute of a vertex buffer layout.
#[derive(Clone, Copy, PartialEq, Eq, Structural, Debug)]
pub struct VertexAttributeModel {
    pub format: VertexFormatKind,
    pub offset: u64,
    pub shader_location: u32,
}

/// Which channels a color target writes.
#[derive(Clone, Copy, PartialEq, Eq, Structural, Debug)]
pub enum ColorWriteMaskKind {
    All,
    Red,
    Color,
}

/// One color target: its format, its blend components, and its write
/// mask. The replacing blend is source-one, destination-zero on both
/// components.
#[derive(Clone, Copy, PartialEq, Eq, Structural, Debug)]
pub struct ColorTargetModel {
    pub format: TextureFormatKind,
    pub color_blend: BlendComponentModel,
    pub alpha_blend: BlendComponentModel,
    pub write_mask: ColorWriteMaskKind,
}

/// The replacing blend component: the source value overwrites.
pub open spec fn spec_replace_blend() -> BlendComponentModel {
    BlendComponentModel { src_factor: BlendFactorKind::One, dst_factor: BlendFactorKind::Zero }
}

/// The variant key of the point-splat pipeline.
#[derive(Clone, Copy, PartialEq, Eq, Structural, Debug)]
pub struct PointCloudPipelineKey {
    pub colored: bool,
    pub animated: bool,
    pub msaa: u32,
}

/// The variant key of the eye-dome-lighting pipeline.
#[derive(Clone, Copy, PartialEq, Eq, Structural, Debug)]
pub struct EyeDomePipelineKey {
    pub msaa: u32,
}

/// The immutable layout objects of the point-splat pipeline, built once:
/// the per-view bindings (view uniform + clipping planes), the static and
/// animated per-entity storage bindings, the per-model uniform binding,
/// and the instanced quad vertex buffer.
#[derive(Clone, Debug)]
pub struct PointCloudPipeline {
    pub view_layout: Vec<LayoutEntry>,
    pub entity_layout: Vec<LayoutEntry>,
    pub animated_entity_layout: Vec<LayoutEntry>,
    pub model_layout: Vec<LayoutEntry>,
    /// The quad corner vertex buffer: four little-endian float pairs.
    pub instanced_point_quad: Vec<u8>,
}

/// The bytes of the instanced quad vertex buffer: the corner bit patterns
/// packed little-endian, 8 bytes of stride per vertex.
pub open spec fn spec_quad_vertex_bytes() -> Seq<u8> {
    spec_u32_le_bytes(F32_BITS_ZERO) + spec_u32_le_bytes(F32_BITS_ONE)
        + spec_u32_le_bytes(F32_BITS_ZERO) + spec_u32_le_bytes(F32_BITS_ZERO)
        + spec_u32_le_bytes(F32_BITS_ONE) + spec_u32_le_bytes(F32_BITS_ONE)
        + spec_u32_le_bytes(F32_BITS_ONE) + spec_u32_le_bytes(F32_BITS_ZERO)
}

/// Packs the quad corner vertex buffer, little-endian and explicitly, so
/// the upload does not depend on platform memory layout.
pub fn quad_vertex_bytes() -> (r: Vec<u8>)
    ensures
        r@ == spec_quad_vertex_bytes(),
        r@.len() == 32,
{
    let mut r: Vec<u8> = Vec::new();
    push_u32_le(&mut r, F32_BITS_ZERO);
    push_u32_le(&mut r, F32_BITS_ONE);
    push_u32_le(&mut r, F32_BITS_ZERO);
    push_u32_le(&mut r, F32_BITS_ZERO);
    push_u32_le(&mut r, F32_BITS_ONE);
    push_u32_le(&mut r, F32_BITS_ONE);
    push_u32_le(&mut r, F32_BITS_ONE);
    push_u32_le(&mut r, F32_BITS_ZERO);
    proof {
        assert(r@ =~= spec_quad_vertex_bytes());
    }
    r
}

/// The per-view layout: the view uniform at a dynamic offset, visible to
/// both stages, and the clipping-plane uniform for the vertex stage.
pub open spec fn spec_view_layout() -> Seq<LayoutEntry> {
    seq![
        LayoutEntry {
            binding: 0,
            visibility: ShaderVisibility::VertexAndFragment,
            ty: BindingTypeKind::UniformDynamicOffset,
        },
        LayoutEntry { binding: 1, visibility: ShaderVisibility::Vertex, ty: BindingTypeKind::Uniform },
    ]
}

/// The static per-entity layout: one read-only storage binding.
pub open spec fn spec_entity_layout() -> Seq<LayoutEntry> {
    seq![
        LayoutEntry {
            binding: 0,
            visibility: ShaderVisibility::Vertex,
            ty: BindingTypeKind::StorageReadOnly,
        },
    ]
}

/// The animated per-entity layout: the static binding plus the two
/// displacement-buffer bindings.
pub open spec fn spec_animated_entity_layout() -> Seq<LayoutEntry> {
    seq![
        LayoutEntry {
            binding: 0,
            visibility: ShaderVisibility::Vertex,
            ty: BindingTypeKind::StorageReadOnly,
        },
        LayoutEntry {
            binding: 1,
            visibility: ShaderVisibility::Vertex,
            ty: BindingTypeKind::StorageReadOnly,
        },
        LayoutEntry {
            binding: 2,
            visibility: ShaderVisibility::Vertex,
            ty: BindingTypeKind::StorageReadOnly,
        },
    ]
}

/// The per-model layout: the transform/point-size uniform at a dynamic
/// offset.
pub open spec fn spec_model_layout() -> Seq<LayoutEntry> {
    seq![
        LayoutEntry {
            binding: 0,
            visibility: ShaderVisibility::VertexAndFragment,
            ty: BindingTypeKind::UniformDynamicOffset,
        },
    ]
}

impl PointCloudPipeline {
    /// Builds the immutable layout objects and the quad vertex buffer.
    pub fn new() -> (r: Self)
        ensures
            r.view_layout@ == spec_view_layout(),
            r.entity_layout@ == spec_entity_layout(),
            r.animated_entity_layout@ == spec_animated_entity_layout(),
            r.model_layout@ == spec_model_layout(),
            r.instanced_point_quad@ == spec_quad_vertex_bytes(),
    {
        let mut view_layout: Vec<LayoutEntry> = Vec::new();
        view_layout.push(LayoutEntry {
            binding: 0,
            visibility: ShaderVisibility::VertexAndFragment,
            ty: BindingTypeKind::UniformDynamicOffset,
        });
        view_layout.push(LayoutEntry {
            binding: 1,
            visibility: ShaderVisibility::Vertex,
            ty: BindingTypeKind::Uniform,
        });
        let mut entity_layout: Vec<LayoutEntry> = Vec::new();
        entity_layout.push(LayoutEntry {
            binding: 0,
            visibility: ShaderVisibility::Vertex,
            ty: BindingTypeKind::StorageReadOnly,
        });
        let mut animated_entity_layout: Vec<LayoutEntry> = Vec::new();
        animated_entity_layout.push(LayoutEntry {
            binding: 0,
            visibility: ShaderVisibility::Vertex,
            ty: BindingTypeKind::StorageReadOnly,
        });
        animated_entity_layout.push(LayoutEntry {
            binding: 1,
            visibility: ShaderVisibility::Vertex,
            ty: BindingTypeKind::StorageReadOnly,
        });
        animated_entity_layout.push(LayoutEntry {
            binding: 2,
            visibility: ShaderVisibility::Vertex,
            ty: BindingTypeKind::StorageReadOnly,
        });
        let mut model_layout: Vec<LayoutEntry> = Vec::new();
        model_layout.push(LayoutEntry {
            binding: 0,
            visibility: ShaderVisibility::VertexAndFragment,
            ty: BindingTypeKind::UniformDynamicOffset,
        });
        let r = PointCloudPipeline {
            view_layout,
            entity_layout,
            animated_entity_layout,
            model_layout,
            instanced_point_quad: quad_vertex_bytes(),
        };
        proof {
            assert(r.view_layout@ =~= spec_view_layout());
            assert(r.entity_layout@ =~= spec_entity_layout());
            assert(r.animated_entity_layout@ =~= spec_animated_entity_layout());
            assert(r.model_layout@ =~= spec_model_layout());
        }
        r
    }
}

/// The image-binding layout of the eye-dome-lighting pass: one
/// non-filterable float texture, read by the fragment stage.
pub open spec fn spec_eye_dome_image_layout() -> Seq<LayoutEntry> {
    seq![
        LayoutEntry {
            binding: 0,
            visibility: ShaderVisibility::Fragment,
            ty: BindingTypeKind::Texture,
        },
    ]
}

/// The multisampled variant of the image-binding layout.
pub open spec fn spec_multisampled_eye_dome_image_layout() -> Seq<LayoutEntry> {
    seq![
        LayoutEntry {
            binding: 0,
            visibility: ShaderVisibility::Fragment,
            ty: BindingTypeKind::MultisampledTexture,
        },
    ]
}

/// The immutable layout objects of the eye-dome-lighting pass, built
/// once: the image binding at one sample and its multisampled variant.
#[derive(Clone, Debug)]
pub struct EyeDomePipeline {
    pub eye_dome_image_layout: Vec<LayoutEntry>,
    pub multisampled_eye_dome_image_layout: Vec<LayoutEntry>,
}

impl EyeDomePipeline {
    /// Builds the two image-binding layouts.
    pub fn new() -> (r: Self)
        ensures
            r.eye_dome_image_layout@ == spec_eye_dome_image_layout(),
            r.multisampled_eye_dome_image_layout@ == spec_multisampled_eye_dome_image_layout(),
    {
        let mut eye_dome_image_layout: Vec<LayoutEntry> = Vec::new();
        eye_dome_image_layout.push(LayoutEntry {
            binding: 0,
            visibility: ShaderVisibility::Fragment,
            ty: BindingTypeKind::Texture,
        });
        let mut multisampled_eye_dome_image_layout: Vec<LayoutEntry> = Vec::new();
        multisampled_eye_dome_image_layout.push(LayoutEntry {
            binding: 0,
            visibility: ShaderVisibility::Fragment,
            ty: BindingTypeKind::MultisampledTexture,
        });
        let r = EyeDomePipeline { eye_dome_image_layout, multisampled_eye_dome_image_layout };
        proof {
            assert(r.eye_dome_image_layout@ =~= spec_eye_dome_image_layout());
            assert(r.multisampled_eye_dome_image_layout@
                =~= spec_multisampled_eye_dome_image_layout());
        }
        r
    }
}

/// The full variant state of one compiled point-splat pipeline: which
/// entity layout it binds, the shader defines of both stages, the vertex
/// layout of the quad corners, the two color targets (the view's color
/// and the auxiliary per-pixel depth the lighting pass reads, both with
/// the replacing blend), the strip topology, and the depth state.
#[derive(Clone, Copy, PartialEq, Eq, Structural, Debug)]
pub struct PointCloudPipelineDescriptor {
    pub entity_layout: BindGroupLayoutKind,
    pub colored_define: bool,
    pub animated_define: bool,
    pub topology: PrimitiveTopologyKind,
    pub vertex_stride: u64,
    pub vertex_attribute: VertexAttributeModel,
    pub color_target: ColorTargetModel,
    pub depth_position_target: ColorTargetModel,
    pub depth_format: TextureFormatKind,
    pub depth_compare: DepthCompare,
    pub depth_write_enabled: bool,
    pub sample_count: u32,
}

/// What specialization makes of a variant key. Every constant here must
/// match the shaders bit for bit: the reversed-depth greater comparison,
/// the 8-byte two-float quad corner attribute, and the two replacing
/// color targets.
pub open spec fn spec_specialize(key: PointCloudPipelineKey) -> PointCloudPipelineDescriptor {
    PointCloudPipelineDescriptor {
        entity_layout: if key.animated {
            BindGroupLayoutKind::AnimatedEntity
        } else {
            BindGroupLayoutKind::Entity
        },
        colored_define: key.colored,
        animated_define: key.animated,
        topology: PrimitiveTopologyKind::TriangleStrip,
        vertex_stride: 8,
        vertex_attribute: VertexAttributeModel {
            format: VertexFormatKind::Float32x2,
            offset: 0,
            shader_location: 0,
        },
        color_target: ColorTargetModel {
            format: TextureFormatKind::Rgba8UnormSrgb,
            color_blend: spec_replace_blend(),
            alpha_blend: spec_replace_blend(),
            write_mask: ColorWriteMaskKind::All,
        },
        depth_position_target: ColorTargetModel {
            format: TextureFormatKind::R32Float,
            color_blend: spec_replace_blend(),
            alpha_blend: spec_replace_blend(),
            write_mask: ColorWriteMaskKind::Red,
        },
        depth_format: TextureFormatKind::Depth32Float,
        depth_compare: DepthCompare::Greater,
        depth_write_enabled: true,
        sample_count: key.msaa,
    }
}

/// Builds the pipeline state of one variant key: the animated layout for
/// animated assets, the matching shader defines, the quad vertex layout,
/// depth kept at the greater value (reversed depth), and the key's sample
/// count.
pub fn specialize(key: PointCloudPipelineKey) -> (r: PointCloudPipelineDescriptor)
    ensures
        r == spec_specialize(key),
{
    let replace = BlendComponentModel {
        src_factor: BlendFactorKind::One,
        dst_factor: BlendFactorKind::Zero,
    };
    PointCloudPipelineDescriptor {
        entity_layout: if key.animated {
            BindGroupLayoutKind::AnimatedEntity
        } else {
            BindGroupLayoutKind::Entity
        },
        colored_define: key.colored,
        animated_define: key.animated,
        topology: PrimitiveTopologyKind::TriangleStrip,
        vertex_stride: 8,
        vertex_attribute: VertexAttributeModel {
            format: VertexFormatKind::Float32x2,
            offset: 0,
            shader_location: 0,
        },
        color_target: ColorTargetModel {
            format: TextureFormatKind::Rgba8UnormSrgb,
            color_blend: replace,
            alpha_blend: replace,
            write_mask: ColorWriteMaskKind::All,
        },
        depth_position_target: ColorTargetModel {
            format: TextureFormatKind::R32Float,
            color_blend: replace,
            alpha_blend: replace,
            write_mask: ColorWriteMaskKind::Red,
        },
        depth_format: TextureFormatKind::Depth32Float,
        depth_compare: DepthCompare::Greater,
        depth_write_enabled: true,
        sample_count: key.msaa,
    }
}

/// The variant state of one compiled eye-dome-lighting pipeline: which
/// image layout it binds, whether the multisampled shader variant is
/// compiled, the blend of the composite onto the color target, and the
/// 4-byte push-constant range carrying the lighting strength.
#[derive(Clone, Copy, PartialEq, Eq, Structural, Debug)]
pub struct EyeDomePipelineDescriptor {
    pub multisampled_layout: bool,
    pub multisampled_define: bool,
    pub sample_count: u32,
    pub topology: PrimitiveTopologyKind,
    pub vertex_stride: u64,
    pub vertex_attribute: VertexAttributeModel,
    pub target_format: TextureFormatKind,
    pub color_blend: BlendComponentModel,
    pub alpha_blend: BlendComponentModel,
    pub write_mask: ColorWriteMaskKind,
    pub push_constant_bytes: u32,
}

/// What eye-dome specialization makes of a sample count: the multisampled
/// image layout and shader variant above one sample, and a composite that
/// multiplies the destination color by the computed occlusion (source
/// alpha) while keeping the destination alpha.
pub open spec fn spec_eye_dome_specialize(key: EyeDomePipelineKey) -> EyeDomePipelineDescriptor {
    EyeDomePipelineDescriptor {
        multisampled_layout: key.msaa > 1,
        multisampled_define: key.msaa > 1,
        sample_count: key.msaa,
        topology: PrimitiveTopologyKind::TriangleStrip,
        vertex_stride: 8,
        vertex_attribute: VertexAttributeModel {
            format: VertexFormatKind::Float32x2,
            offset: 0,
            shader_location: 0,
        },
        target_format: TextureFormatKind::Rgba8UnormSrgb,
        color_blend: BlendComponentModel {
            src_factor: BlendFactorKind::Zero,
            dst_factor: BlendFactorKind::SrcAlpha,
        },
        alpha_blend: BlendComponentModel {
            src_factor: BlendFactorKind::One,
            dst_factor: BlendFactorKind::Zero,
        },
        write_mask: ColorWriteMaskKind::Color,
        push_constant_bytes: 4,
    }
}

/// Builds the eye-dome-lighting pipeline state for a sample count.
pub fn eye_dome_specialize(key: EyeDomePipelineKey) -> (r: EyeDomePipelineDescriptor)
    ensures
        r == spec_eye_dome_specialize(key),
{
    EyeDomePipelineDescriptor {
        multisampled_layout: key.msaa > 1,
        multisampled_define: key.msaa > 1,
        sample_count: key.msaa,
        topology: PrimitiveTopologyKind::TriangleStrip,
        vertex_stride: 8,
        vertex_attribute: VertexAttributeModel {
            format: VertexFormatKind::Float32x2,
            offset: 0,
            shader_location: 0,
        },
        target_format: TextureFormatKind::Rgba8UnormSrgb,
        color_blend: BlendComponentModel {
            src_factor: BlendFactorKind::Zero,
            dst_factor: BlendFactorKind::SrcAlpha,
        },
        alpha_blend: BlendComponentModel {
            src_factor: BlendFactorKind::One,
            dst_factor: BlendFactorKind::Zero,
        },
        write_mask: ColorWriteMaskKind::Color,
        push_constant_bytes: 4,
    }
}

/// The memoizing cache of compiled point-splat pipeline variants. A
/// pipeline id is an index into the cache; one key is compiled at most
/// once, so equal keys always resolve to the same id.
#[derive(Clone, Debug)]
pub struct SpecializedPointCloudPipelines {
    pub keys: Vec<PointCloudPipelineKey>,
    pub descriptors: Vec<PointCloudPipelineDescriptor>,
}

impl SpecializedPointCloudPipelines {
    /// Cache coherence: one descriptor per key, each the key's
    /// specialization, with no key compiled twice.
    pub open spec fn wf(self) -> bool {
        &&& self.keys@.len() == self.descriptors@.len()
        &&& forall|i: int|
            0 <= i < self.keys@.len() ==> self.descriptors@[i] == spec_specialize(
                #[trigger] self.keys@[i],
            )
        &&& forall|i: int, j: int|
            0 <= i < j < self.keys@.len() ==> self.keys@[i] != self.keys@[j]
    }

    /// An empty cache.
    pub fn new() -> (r: Self)
        ensures
            r.wf(),
            r.keys@.len() == 0,
    {
        SpecializedPointCloudPipelines { keys: Vec::new(), descriptors: Vec::new() }
    }

    /// Resolves the pipeline id of a variant key, compiling the variant on
    /// first use and returning the cached id on every later one.
    pub fn specialize_cached(&mut self, key: PointCloudPipelineKey) -> (id: usize)
        requires
            old(self).wf(),
        ensures
            final(self).wf(),
            id < final(self).keys@.len(),
            final(self).keys@[id as int] == key,
            final(self).descriptors@[id as int] == spec_specialize(key),
            forall|i: int|
                0 <= i < old(self).keys@.len() ==> final(self).keys@[i] == old(self).keys@[i]
                    && final(self).descriptors@[i] == old(self).descriptors@[i],
            old(self).keys@.contains(key) ==> *final(self) == *old(self),
            final(self).keys@.len() <= old(self).keys@.len() + 1,
    {
        let mut i: usize = 0;
        while i < self.keys.len()
            invariant
                i <= self.keys@.len(),
                self.wf(),
                forall|j: int| 0 <= j < i ==> self.keys@[j] != key,
            decreases self.keys@.len() - i,
        {
            if self.keys[i].colored == key.colored && self.keys[i].animated == key.animated
                && self.keys[i].msaa == key.msaa {
                proof {
                    assert(self.keys@[i as int] == key);
                }
                return i;
            }
            i = i + 1;
        }
        proof {
            assert(!self.keys@.contains(key));
        }
        let id = self.keys.len();
        self.keys.push(key);
        self.descriptors.push(specialize(key));
        id
    }
}

/// The memoizing cache of compiled eye-dome-lighting pipeline variants.
#[derive(Clone, Debug)]
pub struct SpecializedEyeDomePipelines {
    pub keys: Vec<EyeDomePipelineKey>,
    pub descriptors: Vec<EyeDomePipelineDescriptor>,
}

impl SpecializedEyeDomePipelines {
    /// Cache coherence, as for the splat pipelines.
    pub open spec fn wf(self) -> bool {
        &&& self.keys@.len() == self.descriptors@.len()
        &&& forall|i: int|
            0 <= i < self.keys@.len() ==> self.descriptors@[i] == spec_eye_dome_specialize(
                #[trigger] self.keys@[i],
            )
        &&& forall|i: int, j: int|
            0 <= i < j < self.keys@.len() ==> self.keys@[i] != self.keys@[j]
    }

    /// An empty cache.
    pub fn new() -> (r: Self)
        ensures
            r.wf(),
            r.keys@.len() == 0,
    {
        SpecializedEyeDomePipelines { keys: Vec::new(), descriptors: Vec::new() }
    }

    /// Resolves the pipeline id of a sample count, compiling on first use.
    pub fn specialize_cached(&mut self, key: EyeDomePipelineKey) -> (id: usize)
        requires
            old(self).wf(),
        ensures
            final(self).wf(),
            id < final(self).keys@.len(),
            final(self).keys@[id as int] == key,
            final(self).descriptors@[id as int] == spec_eye_dome_specialize(key),
            forall|i: int|
                0 <= i < old(self).keys@.len() ==> final(self).keys@[i] == old(self).keys@[i]
                    && final(self).descriptors@[i] == old(self).descriptors@[i],
            old(self).keys@.contains(key) ==> *final(self) == *old(self),
    {
        let mut i: usize = 0;
        while i < self.keys.len()
            invariant
                i <= self.keys@.len(),
                self.wf(),
                forall|j: int| 0 <= j < i ==> self.keys@[j] != key,
            decreases self.keys@.len() - i,
        {
            if self.keys[i].msaa == key.msaa {
                proof {
                    assert(self.keys@[i as int] == key);
                }
                return i;
            }
            i = i + 1;
        }
        proof {
            assert(!self.keys@.contains(key));
        }
        let id = self.keys.len();
        self.keys.push(key);
        self.descriptors.push(eye_dome_specialize(key));
        id
    }
}

/// The view-level bind groups of the splat pass: the view + clipping
/// uniform group, and the per-model uniform group, each present only once
/// its backing uniform buffer is.
#[derive(Clone, Copy, PartialEq, Eq, Structural, Debug)]
pub struct PointCloudBindGroup {
    pub bind_group_present: bool,
    pub model_bind_group_present: bool,
}

/// Rebuilds the view-level bind groups from which uniform buffers are
/// available this frame: the view group needs both the view uniform and
/// the clipping-plane uniform, the model group its component uniform.
pub fn queue_point_cloud_bind_group(
    view_uniform_available: bool,
    clipping_uniform_available: bool,
    model_uniform_available: bool,
) -> (r: PointCloudBindGroup)
    ensures
        r.bind_group_present == (view_uniform_available && clipping_uniform_available),
        r.model_bind_group_present == model_uniform_available,
{
    PointCloudBindGroup {
        bind_group_present: view_uniform_available && clipping_uniform_available,
        model_bind_group_present: model_uniform_available,
    }
}

/// The physical size of a camera's render target, in pixels.
#[derive(Clone, Copy, PartialEq, Eq, Structural, Debug)]
pub struct TargetSize {
    pub width: u32,
    pub height: u32,
}

/// What the view-target pass reads of one camera: its view entity, the
/// render target it draws to, and the target's physical size when the
/// camera has one.
#[derive(Clone, Copy, PartialEq, Eq, Structural, Debug)]
pub struct CameraViewInput {
    pub entity: u64,
    pub render_target: u64,
    pub physical_size: Option<TargetSize>,
}

/// The per-render-target eye-dome resources: the auxiliary depth
/// texture's exact size and sample count, the image layout variant its
/// bind group was built against, and the cached lighting pipeline id.
#[derive(Clone, Copy, PartialEq, Eq, Structural, Debug)]
pub struct EyeDomeViewTarget {
    pub size: TargetSize,
    pub sample_count: u32,
    pub multisampled: bool,
    pub pipeline_id: usize,
}

/// One frame's auxiliary textures, keyed by render target: cameras that
/// draw to one render target share one texture and bind group.
#[derive(Clone, Debug)]
pub struct EyeDomeViewTargets {
    pub render_targets: Vec<u64>,
    pub entries: Vec<EyeDomeViewTarget>,
}

impl EyeDomeViewTargets {
    /// One entry per render target.
    pub open spec fn wf(self) -> bool {
        &&& self.render_targets@.len() == self.entries@.len()
        &&& forall|i: int, j: int|
            0 <= i < j < self.render_targets@.len() ==> self.render_targets@[i]
                != self.render_targets@[j]
    }
}

/// The assignment of one camera: the index of its shared target entry, or
/// nothing for a camera without a physical target size.
#[derive(Clone, Copy, PartialEq, Eq, Structural, Debug)]
pub struct CameraTargetAssignment {
    pub entity: u64,
    pub target_index: Option<usize>,
}

/// The first camera, in iteration order, that has a physical size and
/// draws to render target `t`: the shared texture is created with its
/// size, and later cameras on the same target reuse it.
pub open spec fn is_first_sized_camera(cams: Seq<CameraViewInput>, t: u64, i: int) -> bool {
    &&& 0 <= i < cams.len()
    &&& cams[i].render_target == t
    &&& cams[i].physical_size is Some
    &&& forall|j: int|
        0 <= j < i ==> !((#[trigger] cams[j]).render_target == t && cams[j].physical_size
            is Some)
}

/// The position of a render target in the table, if it holds one.
fn target_index_of(targets: &EyeDomeViewTargets, t: u64) -> (r: Option<usize>)
    ensures
        match r {
            Some(x) => x < targets.render_targets@.len() && targets.render_targets@[x as int]
                == t,
            None => forall|x: int|
                0 <= x < targets.render_targets@.len() ==> targets.render_targets@[x] != t,
        },
{
    let mut x: usize = 0;
    while x < targets.render_targets.len()
        invariant
            x <= targets.render_targets@.len(),
            forall|y: int| 0 <= y < x ==> targets.render_targets@[y] != t,
        decreases targets.render_targets@.len() - x,
    {
        if targets.render_targets[x] == t {
            return Some(x);
        }
        x = x + 1;
    }
    None
}

/// Builds the frame's eye-dome view targets: every camera with a physical
/// target size is assigned one entry, cameras sharing a render target
/// share the same entry (the table holds one entry per render target),
/// each texture carries the size of the first camera that introduced its
/// target and the frame's sample count, its bind group uses the
/// multisampled image layout above one sample, and its lighting pipeline
/// is the cached variant of the frame's sample count.
pub fn queue_view_targets(
    cameras: &Vec<CameraViewInput>,
    msaa: u32,
    pipelines: &mut SpecializedEyeDomePipelines,
) -> (r: (Vec<CameraTargetAssignment>, EyeDomeViewTargets))
    requires
        old(pipelines).wf(),
    ensures
        final(pipelines).wf(),
        r.1.wf(),
        r.0@.len() == cameras@.len(),
        forall|i: int|
            0 <= i < cameras@.len() ==> {
                &&& (#[trigger] r.0@[i]).entity == cameras@[i].entity
                &&& (r.0@[i].target_index is Some <==> cameras@[i].physical_size is Some)
                &&& (r.0@[i].target_index matches Some(x) ==> x < r.1.entries@.len()
                    && r.1.render_targets@[x as int] == cameras@[i].render_target)
            },
        forall|x: int|
            0 <= x < r.1.entries@.len() ==> {
                &&& (#[trigger] r.1.entries@[x]).sample_count == msaa
                &&& r.1.entries@[x].multisampled == (msaa > 1)
                &&& r.1.entries@[x].pipeline_id < final(pipelines).keys@.len()
                &&& final(pipelines).descriptors@[r.1.entries@[x].pipeline_id as int]
                    == spec_eye_dome_specialize(EyeDomePipelineKey { msaa })
                &&& exists|i: int|
                    is_first_sized_camera(cameras@, r.1.render_targets@[x], i) && Some(
                        r.1.entries@[x].size,
                    ) == cameras@[i].physical_size
            },
{
    let mut targets = EyeDomeViewTargets { render_targets: Vec::new(), entries: Vec::new() };
    let mut out: Vec<CameraTargetAssignment> = Vec::new();
    let mut i: usize = 0;
    while i < cameras.len()
        invariant
            i <= cameras@.len(),
            pipelines.wf(),
            targets.wf(),
            out@.len() == i,
            forall|k: int|
                0 <= k < i ==> {
                    &&& (#[trigger] out@[k]).entity == cameras@[k].entity
                    &&& (out@[k].target_index is Some <==> cameras@[k].physical_size is Some)
                    &&& (out@[k].target_index matches Some(x) ==> x < targets.entries@.len()
                        && targets.render_targets@[x as int] == cameras@[k].render_target)
                },
            forall|k: int|
                0 <= k < i && (#[trigger] cameras@[k]).physical_size is Some ==> exists|x: int|
                    0 <= x < targets.render_targets@.len() && targets.render_targets@[x]
                        == cameras@[k].render_target,
            forall|x: int|
                0 <= x < targets.entries@.len() ==> {
                    &&& (#[trigger] targets.entries@[x]).sample_count == msaa
                    &&& targets.entries@[x].multisampled == (msaa > 1)
                    &&& targets.entries@[x].pipeline_id < pipelines.keys@.len()
                    &&& pipelines.descriptors@[targets.entries@[x].pipeline_id as int]
                        == spec_eye_dome_specialize(EyeDomePipelineKey { msaa })
                    &&& exists|c: int|
                        is_first_sized_camera(cameras@, targets.render_targets@[x], c) && Some(
                            targets.entries@[x].size,
                        ) == cameras@[c].physical_size
                },
        decreases cameras@.len() - i,
    {
        let ghost rt0 = targets.render_targets@;
        let cam = cameras[i];
        match cam.physical_size {
            None => {
                out.push(CameraTargetAssignment { entity: cam.entity, target_index: None });
            },
            Some(size) => {
                let idx: usize = match target_index_of(&targets, cam.render_target) {
                    Some(x) => x,
                    None => {
                        proof {
                            assert forall|j: int|
                                0 <= j < i implies !((#[trigger] cameras@[j]).render_target
                                == cam.render_target && cameras@[j].physical_size is Some) by {
                                if cameras@[j].render_target == cam.render_target
                                    && cameras@[j].physical_size is Some {
                                    let x = choose|x: int|
                                        0 <= x < targets.render_targets@.len()
                                            && targets.render_targets@[x] == cameras@[
                                        j].render_target;
                                    assert(targets.render_targets@[x] != cam.render_target);
                                }
                            }
                            assert(is_first_sized_camera(
                                cameras@,
                                cam.render_target,
                                i as int,
                            ));
                        }
                        let ghost old_rt = targets.render_targets@;
                        let ghost old_en = targets.entries@;
                        let ghost old_pipes = *pipelines;
                        let pipeline_id = pipelines.specialize_cached(
                            EyeDomePipelineKey { msaa },
                        );
                        targets.render_targets.push(cam.render_target);
                        targets.entries.push(EyeDomeViewTarget {
                            size,
                            sample_count: msaa,
                            multisampled: msaa > 1,
                            pipeline_id,
                        });
                        proof {
                            assert forall|x: int|
                                0 <= x < targets.entries@.len() implies {
                                    &&& (#[trigger] targets.entries@[x]).sample_count == msaa
                                    &&& targets.entries@[x].multisampled == (msaa > 1)
                                    &&& targets.entries@[x].pipeline_id < pipelines.keys@.len()
                                    &&& pipelines.descriptors@[targets.entries@[x].pipeline_id
                                        as int] == spec_eye_dome_specialize(
                                        EyeDomePipelineKey { msaa },
                                    )
                                    &&& exists|c: int|
                                        is_first_sized_camera(
                                            cameras@,
                                            targets.render_targets@[x],
                                            c,
                                        ) && Some(targets.entries@[x].size) == cameras@[
                                        c].physical_size
                                } by {
                                if x < old_en.len() {
                                    assert(targets.entries@[x] == old_en[x]);
                                    assert(targets.render_targets@[x] == old_rt[x]);
                                    assert(old_en[x].pipeline_id < old_pipes.keys@.len());
                                    assert(pipelines.descriptors@[old_en[x].pipeline_id as int]
                                        == old_pipes.descriptors@[old_en[x].pipeline_id
                                        as int]);
                                } else {
                                    assert(targets.render_targets@[x] == cam.render_target);
                                    assert(is_first_sized_camera(
                                        cameras@,
                                        cam.render_target,
                                        i as int,
                                    ) && Some(targets.entries@[x].size) == cameras@[
                                    i as int].physical_size);
                                }
                            }
                        }
                        targets.render_targets.len() - 1
                    },
                };
                proof {
                    assert(targets.render_targets@[idx as int] == cam.render_target);
                }
                out.push(CameraTargetAssignment {
                    entity: cam.entity,
                    target_index: Some(idx),
                });
                proof {
                    assert forall|k: int|
                        0 <= k < i + 1 && (#[trigger] cameras@[k]).physical_size
                        is Some implies exists|x: int|
                        0 <= x < targets.render_targets@.len() && targets.render_targets@[x]
                            == cameras@[k].render_target by {
                        if k < i {
                            let x = choose|x: int|
                                0 <= x < rt0.len() && rt0[x] == cameras@[k].render_target;
                            assert(targets.render_targets@[x] == cameras@[k].render_target);
                        } else {
                            assert(targets.render_targets@[idx as int] == cameras@[
                            k].render_target);
                        }
                    }
                }
            },
        }
        i = i + 1;
    }
    (out, targets)
}

/// One visible point-cloud instance, as the earlier queue phase resolved
/// it: the entity and what its prepared asset is.
#[derive(Clone, Copy, PartialEq, Eq, Structural, Debug)]
pub struct QueueItem {
    pub entity: u64,
    pub colored: bool,
    pub animated: bool,
}

/// One entry of a view's draw list: the entity and its resolved pipeline.
#[derive(Clone, Copy, PartialEq, Eq, Structural, Debug)]
pub struct PointCloudDrawData {
    pub entity: u64,
    pub pipeline_id: usize,
}

/// The draw list of one view.
#[derive(Clone, Debug)]
pub struct PointCloudDrawList {
    pub list: Vec<PointCloudDrawData>,
}

/// The variant key of one visible instance under a view's sample count.
pub open spec fn spec_key_of(item: QueueItem, msaa: u32) -> PointCloudPipelineKey {
    PointCloudPipelineKey { colored: item.colored, animated: item.animated, msaa }
}

/// Builds one view's draw list: every visible instance, in order, with
/// the pipeline variant its asset and the view's sample count demand,
/// resolved through the memoizing cache.
pub fn queue_point_cloud(
    items: &Vec<QueueItem>,
    msaa: u32,
    pipelines: &mut SpecializedPointCloudPipelines,
) -> (r: PointCloudDrawList)
    requires
        old(pipelines).wf(),
    ensures
        final(pipelines).wf(),
        r.list@.len() == items@.len(),
        forall|i: int|
            0 <= i < items@.len() ==> {
                &&& (#[trigger] r.list@[i]).entity == items@[i].entity
                &&& r.list@[i].pipeline_id < final(pipelines).keys@.len()
                &&& final(pipelines).descriptors@[r.list@[i].pipeline_id as int]
                    == spec_specialize(spec_key_of(items@[i], msaa))
            },
{
    let mut list: Vec<PointCloudDrawData> = Vec::new();
    let mut i: usize = 0;
    while i < items.len()
        invariant
            i <= items@.len(),
            pipelines.wf(),
            list@.len() == i,
            forall|j: int|
                0 <= j < i ==> {
                    &&& (#[trigger] list@[j]).entity == items@[j].entity
                    &&& list@[j].pipeline_id < pipelines.keys@.len()
                    &&& pipelines.descriptors@[list@[j].pipeline_id as int] == spec_specialize(
                        spec_key_of(items@[j], msaa),
                    )
                },
        decreases items@.len() - i,
    {
        let item = items[i];
        let key = PointCloudPipelineKey { colored: item.colored, animated: item.animated, msaa };
        let pipeline_id = pipelines.specialize_cached(key);
        list.push(PointCloudDrawData { entity: item.entity, pipeline_id });
        i = i + 1;
    }
    PointCloudDrawList { list }
}

} // verus!
