//! What the three pipelines of a frame are made of.

use crate::texture::{
    Format, TX_FORMAT_COLOR, TX_FORMAT_DEPTH, TX_FORMAT_NORMAL, TX_FORMAT_POSITION,
};
use vstd::prelude::*;

verus! {

/// How vertices are assembled into triangles.
#[derive(Clone, Copy, Debug, PartialEq, Eq, Structural)]
pub enum Topology {
    TriangleList,
    TriangleStrip,
}

/// The sets of resources that a pipeline can have bound.
#[derive(Clone, Copy, Debug, PartialEq, Eq, Structural)]
pub enum BindGroup {
    /// The camera's view-projection matrix.
    Camera,
    /// The albedo and emission textures of a material, with their samplers.
    Material,
    /// Ray origins and directions, the acceleration structure and the world
    /// transforms.
    RayRead,
    /// The instance range, the geometry ranges and buffer, and the emission
    /// texture of one registered mesh.
    Mesh,
    /// The colour attachments of an attachment set, to read.
    GBufferRead,
    /// The colour attachments of an attachment set, to write.
    GBufferWrite,
    /// The entries of the irradiance cache.
    IrradianceCache,
}

/// The vertex buffers that a pipeline can read.
#[derive(Clone, Copy, Debug, PartialEq, Eq, Structural)]
pub enum VertexInput {
    Position,
    TexCoord,
    Instance,
}

/// What a render pipeline writes a colour to: an attachment of a given
/// format, or the presentation surface in the format it was configured with.
/// Every channel of a target is written.
#[derive(Clone, Copy, Debug, PartialEq, Eq, Structural)]
pub enum ColorTarget {
    Attachment(Format),
    Surface,
}

/// How a colour that is written combines with the colour that is there.
#[derive(Clone, Copy, Debug, PartialEq, Eq, Structural)]
pub enum Blend {
    /// The written colour replaces what is there, opaquely.
    Replace,
    /// The written colour is laid over what is there by its alpha.
    AlphaBlending,
}

/// When a fragment passes the depth test.
#[derive(Clone, Copy, Debug, PartialEq, Eq, Structural)]
pub enum Compare {
    /// Where it is nearer than what is there.
    Less,
    /// Where it is nearer than what is there, or as near.
    LessEqual,
}

/// The depth test of a render pipeline: the format of the depth attachment,
/// the comparison, and whether the depth of a passing fragment is written.
#[derive(Clone, Copy, Debug, PartialEq, Eq, Structural)]
pub struct DepthTest {
    pub format: Format,
    pub compare: Compare,
    pub write: bool,
}

/// A render pipeline. Front faces wind counter-clockwise and back faces are
/// culled. Every colour target is written with `blend`. Without a depth test
/// every fragment is written.
#[derive(Clone, Debug, PartialEq, Eq)]
pub struct RenderPipeline {
    pub bind_groups: Vec<BindGroup>,
    pub vertex_buffers: Vec<VertexInput>,
    pub targets: Vec<ColorTarget>,
    pub blend: Blend,
    pub topology: Topology,
    pub depth: Option<DepthTest>,
}

/// A compute pipeline.
#[derive(Clone, Debug, PartialEq, Eq)]
pub struct ComputePipeline {
    pub bind_groups: Vec<BindGroup>,
}

impl RenderPipeline {
    /// The pipeline is the shared geometry pipeline: it reads the camera and
    /// a material, takes positions, texture coordinates and instance
    /// transforms, and writes albedo, emission, position and normal, in
    /// this order, each replacing what is there; a fragment passes where it
    /// is nearer than what is there, and its depth is written.
    pub open spec fn is_geometry(self) -> bool {
        &&& self.bind_groups@ == seq![BindGroup::Camera, BindGroup::Material]
        &&& self.vertex_buffers@ == seq![
            VertexInput::Position,
            VertexInput::TexCoord,
            VertexInput::Instance,
        ]
        &&& self.targets@ == seq![
            ColorTarget::Attachment(TX_FORMAT_COLOR),
            ColorTarget::Attachment(TX_FORMAT_COLOR),
            ColorTarget::Attachment(TX_FORMAT_POSITION),
            ColorTarget::Attachment(TX_FORMAT_NORMAL),
        ]
        &&& self.blend == Blend::Replace
        &&& self.topology == Topology::TriangleList
        &&& self.depth == Some(
            DepthTest { format: TX_FORMAT_DEPTH, compare: Compare::Less, write: true },
        )
    }

    /// The pipeline is the composition pipeline: it reads an attachment set
    /// and the irradiance cache, takes no vertex buffer, and writes a
    /// triangle strip to the surface, replacing what is there, without a
    /// depth test.
    pub open spec fn is_composition(self) -> bool {
        &&& self.bind_groups@ == seq![BindGroup::GBufferRead, BindGroup::IrradianceCache]
        &&& self.vertex_buffers@ == Seq::<VertexInput>::empty()
        &&& self.targets@ == seq![ColorTarget::Surface]
        &&& self.blend == Blend::Replace
        &&& self.topology == Topology::TriangleStrip
        &&& self.depth == None::<DepthTest>
    }

    /// The shared geometry pipeline.
    pub fn geometry() -> (pipeline: RenderPipeline)
        ensures
            pipeline.is_geometry(),
    {
        let mut bind_groups: Vec<BindGroup> = Vec::new();
        bind_groups.push(BindGroup::Camera);
        bind_groups.push(BindGroup::Material);
        let mut vertex_buffers: Vec<VertexInput> = Vec::new();
        vertex_buffers.push(VertexInput::Position);
        vertex_buffers.push(VertexInput::TexCoord);
        vertex_buffers.push(VertexInput::Instance);
        let mut targets: Vec<ColorTarget> = Vec::new();
        targets.push(ColorTarget::Attachment(TX_FORMAT_COLOR));
        targets.push(ColorTarget::Attachment(TX_FORMAT_COLOR));
        targets.push(ColorTarget::Attachment(TX_FORMAT_POSITION));
        targets.push(ColorTarget::Attachment(TX_FORMAT_NORMAL));
        assert(bind_groups@ =~= seq![BindGroup::Camera, BindGroup::Material]);
        assert(vertex_buffers@ =~= seq![
            VertexInput::Position,
            VertexInput::TexCoord,
            VertexInput::Instance,
        ]);
        assert(targets@ =~= seq![
            ColorTarget::Attachment(TX_FORMAT_COLOR),
            ColorTarget::Attachment(TX_FORMAT_COLOR),
            ColorTarget::Attachment(TX_FORMAT_POSITION),
            ColorTarget::Attachment(TX_FORMAT_NORMAL),
        ]);
        RenderPipeline {
            bind_groups,
            vertex_buffers,
            targets,
            blend: Blend::Replace,
            topology: Topology::TriangleList,
            depth: Some(DepthTest { format: TX_FORMAT_DEPTH, compare: Compare::Less, write: true }),
        }
    }

    /// The composition pipeline.
    pub fn composition() -> (pipeline: RenderPipeline)
        ensures
            pipeline.is_composition(),
    {
        let mut bind_groups: Vec<BindGroup> = Vec::new();
        bind_groups.push(BindGroup::GBufferRead);
        bind_groups.push(BindGroup::IrradianceCache);
        let mut targets: Vec<ColorTarget> = Vec::new();
        targets.push(ColorTarget::Surface);
        assert(bind_groups@ =~= seq![BindGroup::GBufferRead, BindGroup::IrradianceCache]);
        assert(targets@ =~= seq![ColorTarget::Surface]);
        RenderPipeline {
            bind_groups,
            vertex_buffers: Vec::new(),
            targets,
            blend: Blend::Replace,
            topology: Topology::TriangleStrip,
            depth: None,
        }
    }
}

impl ComputePipeline {
    /// The pipeline is the shared ray pipeline: it reads the ray buffer, a
    /// mesh and one attachment set, and writes the other attachment set.
    pub open spec fn is_ray(self) -> bool {
        self.bind_groups@ == seq![
            BindGroup::RayRead,
            BindGroup::Mesh,
            BindGroup::GBufferRead,
            BindGroup::GBufferWrite,
        ]
    }

    /// The shared ray pipeline.
    pub fn ray() -> (pipeline: ComputePipeline)
        ensures
            pipeline.is_ray(),
    {
        let mut bind_groups: Vec<BindGroup> = Vec::new();
        bind_groups.push(BindGroup::RayRead);
        bind_groups.push(BindGroup::Mesh);
        bind_groups.push(BindGroup::GBufferRead);
        bind_groups.push(BindGroup::GBufferWrite);
        assert(bind_groups@ =~= seq![
            BindGroup::RayRead,
            BindGroup::Mesh,
            BindGroup::GBufferRead,
            BindGroup::GBufferWrite,
        ]);
        ComputePipeline { bind_groups }
    }
}

} // verus!
