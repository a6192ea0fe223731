//! The render orchestrator: which passes a frame is made of, in which order,
//! and what each of them records.

use crate::graphics::Graphics;
use crate::instance::Properties;
use crate::irradiance_cache::IrradianceCache;
use crate::mesh::Mesh;
use crate::pipeline::{ComputePipeline, RenderPipeline};
use crate::scene::{Scene, SceneView};
use std::ops::Range;
use vstd::prelude::*;

verus! {

/// The pass that is due next. A frame is a geometry pass, then a ray pass,
/// then a composition pass.
#[derive(Clone, Copy, Debug, PartialEq, Eq, Structural)]
pub enum Phase {
    Geometry,
    Ray,
    Composition,
}

/// The pipeline a mesh is processed with: the orchestrator's shared one, or
/// one of the mesh's own, by its index in the caller's table.
#[derive(Clone, Copy, Debug, PartialEq, Eq, Structural)]
pub enum Pipeline {
    Shared,
    Own(usize),
}

/// The buffer that instance transforms are read from: the shared transform
/// buffer, or one of the caller's own, by its index in the caller's table.
#[derive(Clone, Copy, Debug, PartialEq, Eq, Structural)]
pub enum InstanceSource {
    Shared,
    Own(usize),
}

/// What happens to a colour attachment when a pass begins.
#[derive(Clone, Copy, Debug, PartialEq, Eq, Structural)]
pub enum LoadOp {
    /// The attachment is cleared to opaque black.
    ClearBlack,
    /// What was written before is kept.
    Load,
}

/// What happens to the depth attachment when a pass begins.
#[derive(Clone, Copy, Debug, PartialEq, Eq, Structural)]
pub enum DepthLoadOp {
    /// The attachment is cleared to the far plane, the greatest depth.
    ClearFar,
    /// What was written before is kept.
    Load,
}

/// The width of the indices of an indexed draw.
#[derive(Clone, Copy, Debug, PartialEq, Eq, Structural)]
pub enum IndexFormat {
    Uint16,
    Uint32,
}

/// One indexed draw of the geometry pass: the instances of one mesh.
#[derive(Debug, PartialEq, Eq)]
pub struct DrawCall {
    pub mesh: usize,
    pub pipeline: Pipeline,
    pub material: usize,
    pub buffer: usize,
    pub vertex: Range<u64>,
    pub instances: InstanceSource,
    pub instance_range: Range<u64>,
    pub uv: Range<u64>,
    pub index: Range<u64>,
    pub index_format: IndexFormat,
    pub elements: u32,
    pub instance_count: u32,
}

/// What the geometry pass records: the attachment set it rasterises into,
/// what becomes of each attachment at its start, and one draw for each
/// registered mesh, in the order of the handles.
#[derive(Debug, PartialEq, Eq)]
pub struct GeometryPass {
    pub target: usize,
    pub albedo: LoadOp,
    pub emission: LoadOp,
    pub position: LoadOp,
    pub normal: LoadOp,
    pub depth: DepthLoadOp,
    pub draws: Vec<DrawCall>,
}

/// One compute dispatch of the ray pass: the attachment set it reads, the
/// one it writes, and the number of workgroups along each axis.
#[derive(Clone, Copy, Debug, PartialEq, Eq)]
pub struct RayDispatch {
    pub mesh: usize,
    pub pipeline: Pipeline,
    pub read: usize,
    pub write: usize,
    pub workgroups: [u32; 3],
}

/// What the composition pass records: one draw of a full-screen quad as a
/// triangle strip, which reads the selected attachment set and the
/// irradiance cache.
#[derive(Clone, Copy, Debug, PartialEq, Eq, Structural)]
pub struct ComposePass {
    pub g_buffer: usize,
    pub vertices: u32,
    pub instances: u32,
}

/// The three passes of a frame, in the order in which they are recorded.
#[derive(Debug, PartialEq, Eq)]
pub struct Frame {
    pub geometry: GeometryPass,
    pub ray: Vec<RayDispatch>,
    pub composition: ComposePass,
}

/// The render orchestrator: the three shared pipelines, the irradiance
/// cache, the extent its size-dependent resources were built for, and the
/// pass that is due.
pub struct Renderer {
    extent: Graphics,
    irradiance_cache: IrradianceCache,
    g_pipeline: RenderPipeline,
    ray_pipeline: ComputePipeline,
    comp_pipeline: RenderPipeline,
    phase: Phase,
}

/// The draw of the mesh with handle `k`.
pub open spec fn draw_of(mesh: Mesh, props: Properties, k: int) -> DrawCall {
    DrawCall {
        mesh: k as usize,
        pipeline: match mesh.geometry.g_pipeline {
            Some(pipeline) => Pipeline::Own(pipeline),
            None => Pipeline::Shared,
        },
        material: mesh.material,
        buffer: mesh.geometry.buffer,
        vertex: Range {
            start: mesh.geometry.ranges.vertex[0] as u64,
            end: mesh.geometry.ranges.vertex[1] as u64,
        },
        instances: match props.buffer {
            Some(buffer) => InstanceSource::Own(buffer),
            None => InstanceSource::Shared,
        },
        instance_range: Range { start: props.range[0] as u64, end: props.range[1] as u64 },
        uv: Range {
            start: mesh.geometry.ranges.uv[0] as u64,
            end: mesh.geometry.ranges.uv[1] as u64,
        },
        index: Range {
            start: mesh.geometry.ranges.index[0] as u64,
            end: mesh.geometry.ranges.index[1] as u64,
        },
        index_format: IndexFormat::Uint16,
        elements: mesh.geometry.elm_amt,
        instance_count: props.amt,
    }
}

/// The attachment set that is read after `k` dispatches, where `start` was
/// read before the first.
pub open spec fn read_after(start: int, k: int) -> int {
    (start + k) % 2
}

/// Each dispatch makes the two attachment sets trade places exactly once:
/// before the first the set `start` is read, after each the other one than
/// before it; so after `k` dispatches that began at set 0, set `k mod 2` is
/// read.
pub proof fn lemma_toggles_once_per_dispatch(start: int, k: int)
    requires
        0 <= start < 2,
        0 <= k,
    ensures
        read_after(start, 0) == start,
        read_after(start, k + 1) == 1 - read_after(start, k),
        read_after(0, k) == k % 2,
{
}

/// The dispatch of the mesh with handle `k` in a ray pass that began with
/// the attachment set `start` selected.
pub open spec fn dispatch_of(mesh: Mesh, start: int, k: int) -> RayDispatch {
    RayDispatch {
        mesh: k as usize,
        pipeline: match mesh.geometry.ray_pipeline {
            Some(pipeline) => Pipeline::Own(pipeline),
            None => Pipeline::Shared,
        },
        read: read_after(start, k) as usize,
        write: (1 - read_after(start, k)) as usize,
        workgroups: [1u32, 1u32, 1u32],
    }
}

impl GeometryPass {
    /// The pass is the geometry pass of a scene with these meshes and
    /// instance properties: it rasterises into attachment set 0, clears
    /// albedo and emission to black and depth to the far plane, keeps
    /// position and normal, and draws every registered mesh once, with
    /// 16-bit indices, in the order of the handles.
    pub open spec fn records(self, meshes: Seq<Mesh>, props: Seq<Properties>) -> bool {
        &&& self.target == 0
        &&& self.albedo == LoadOp::ClearBlack
        &&& self.emission == LoadOp::ClearBlack
        &&& self.position == LoadOp::Load
        &&& self.normal == LoadOp::Load
        &&& self.depth == DepthLoadOp::ClearFar
        &&& self.draws@.len() == meshes.len()
        &&& forall|k: int|
            0 <= k < meshes.len() ==> #[trigger] self.draws@[k] == draw_of(meshes[k], props[k], k)
    }
}

/// The dispatches are those of a ray pass over `meshes` that began with the
/// attachment set `start` selected: one for each mesh, in the order of the
/// handles, each reading what the one before it wrote.
pub open spec fn ray_pass_records(
    dispatches: Seq<RayDispatch>,
    meshes: Seq<Mesh>,
    start: int,
) -> bool {
    &&& dispatches.len() == meshes.len()
    &&& forall|k: int|
        0 <= k < meshes.len() ==> #[trigger] dispatches[k] == dispatch_of(meshes[k], start, k)
}

impl Renderer {
    /// The pass that is due next.
    pub closed spec fn due(&self) -> Phase {
        self.phase
    }

    /// The extent that the size-dependent resources were built for.
    pub closed spec fn built_for(&self) -> Graphics {
        self.extent
    }

    /// The entries of the irradiance cache.
    pub closed spec fn cache(&self) -> Seq<crate::irradiance_cache::Entry> {
        self.irradiance_cache@
    }

    /// The three shared pipelines are what they were built as.
    pub closed spec fn wf(&self) -> bool {
        &&& self.g_pipeline.is_geometry()
        &&& self.ray_pipeline.is_ray()
        &&& self.comp_pipeline.is_composition()
        &&& self.irradiance_cache@.len() == crate::irradiance_cache::CAPACITY
    }

    /// What `wf` says of an orchestrator, in terms of what callers can see:
    /// the irradiance cache keeps its capacity.
    pub proof fn lemma_wf(&self)
        requires
            self.wf(),
        ensures
            self.cache().len() == crate::irradiance_cache::CAPACITY,
    {
    }

    /// An orchestrator for a surface, with a cleared irradiance cache, at
    /// the start of a frame.
    pub fn new(graphics: &Graphics) -> (renderer: Renderer)
        ensures
            renderer.wf(),
            renderer.due() == Phase::Geometry,
            renderer.built_for() == *graphics,
            renderer.cache().len() == crate::irradiance_cache::CAPACITY,
            forall|i: int|
                0 <= i < renderer.cache().len() ==> (#[trigger] renderer.cache()[i]).cleared(),
    {
        Renderer {
            extent: *graphics,
            irradiance_cache: IrradianceCache::new(),
            g_pipeline: RenderPipeline::geometry(),
            ray_pipeline: ComputePipeline::ray(),
            comp_pipeline: RenderPipeline::composition(),
            phase: Phase::Geometry,
        }
    }

    /// The pipeline that the geometry pass uses for a mesh that has none of
    /// its own.
    pub fn g_pipeline(&self) -> (pipeline: &RenderPipeline)
        requires
            self.wf(),
        ensures
            pipeline.is_geometry(),
    {
        &self.g_pipeline
    }

    /// The pipeline that the ray pass uses for a mesh that has none of its
    /// own.
    pub fn ray_pipeline(&self) -> (pipeline: &ComputePipeline)
        requires
            self.wf(),
        ensures
            pipeline.is_ray(),
    {
        &self.ray_pipeline
    }

    /// The pipeline of the composition pass.
    pub fn comp_pipeline(&self) -> (pipeline: &RenderPipeline)
        requires
            self.wf(),
        ensures
            pipeline.is_composition(),
    {
        &self.comp_pipeline
    }

    /// The pass that is due next.
    pub fn phase(&self) -> (phase: Phase)
        ensures
            phase == self.due(),
    {
        self.phase
    }

    /// The extent that the size-dependent resources were built for.
    pub fn extent(&self) -> (extent: Graphics)
        ensures
            extent == self.built_for(),
    {
        self.extent
    }

    /// The irradiance cache, which has the capacity it was made with.
    pub fn irradiance_cache(&self) -> (cache: &IrradianceCache)
        requires
            self.wf(),
        ensures
            cache@ == self.cache(),
            cache@.len() == crate::irradiance_cache::CAPACITY,
    {
        &self.irradiance_cache
    }

    /// Takes over the extent of the surface for the size-dependent
    /// resources. A degenerate extent is ignored: the orchestrator stays as
    /// it is. Returns whether the resources are to be rebuilt.
    pub fn resize(&mut self, graphics: &Graphics) -> (rebuilt: bool)
        requires
            old(self).wf(),
        ensures
            final(self).wf(),
            rebuilt == !Graphics::degenerate(graphics.width, graphics.height),
            rebuilt ==> final(self).built_for() == *graphics,
            !rebuilt ==> final(self).built_for() == old(self).built_for(),
            final(self).due() == old(self).due(),
            final(self).cache() == old(self).cache(),
    {
        if graphics.width == 0 || graphics.height == 0 {
            return false;
        }
        self.extent = *graphics;
        true
    }

    /// Plans the geometry pass: one indexed draw for each registered mesh
    /// with its instance range, with the mesh's own pipeline where it has
    /// one. The ray pass is due next.
    pub fn geometry_pass<T: Copy>(&mut self, scene: &Scene<T>) -> (pass: GeometryPass)
        requires
            old(self).wf(),
            old(self).due() == Phase::Geometry,
            scene.wf(),
        ensures
            final(self).wf(),
            pass.records(scene@.meshes, scene@.props),
            final(self).due() == Phase::Ray,
            final(self).built_for() == old(self).built_for(),
            final(self).cache() == old(self).cache(),
    {
        proof {
            scene.lemma_wf();
        }
        let meshes = scene.meshes();
        let props = scene.inst_props();
        let mut draws: Vec<DrawCall> = Vec::new();
        let mut k: usize = 0;
        while k < meshes.len()
            invariant
                k <= meshes@.len(),
                meshes@.len() == props@.len(),
                draws@.len() == k,
                forall|j: int|
                    0 <= j < k ==> #[trigger] draws@[j] == draw_of(meshes@[j], props@[j], j),
            decreases meshes@.len() - k,
        {
            let mesh = &meshes[k];
            let inst_prop = &props[k];
            let pipeline = match mesh.geometry.g_pipeline {
                Some(pipeline) => Pipeline::Own(pipeline),
                None => Pipeline::Shared,
            };
            let instances = match inst_prop.buffer {
                Some(buffer) => InstanceSource::Own(buffer),
                None => InstanceSource::Shared,
            };
            let draw = DrawCall {
                mesh: k,
                pipeline,
                material: mesh.material,
                buffer: mesh.geometry.buffer,
                vertex: mesh.geometry.ranges.vertex(),
                instances,
                instance_range: inst_prop.range(),
                uv: mesh.geometry.ranges.uv(),
                index: mesh.geometry.ranges.index(),
                index_format: IndexFormat::Uint16,
                elements: mesh.geometry.elm_amt,
                instance_count: inst_prop.amt,
            };
            draws.push(draw);
            k = k + 1;
        }
        self.phase = Phase::Ray;
        GeometryPass {
            target: 0,
            albedo: LoadOp::ClearBlack,
            emission: LoadOp::ClearBlack,
            position: LoadOp::Load,
            normal: LoadOp::Load,
            depth: DepthLoadOp::ClearFar,
            draws,
        }
    }

    /// Plans the ray pass: one dispatch for each registered mesh, which reads
    /// the selected attachment set and writes the other one. After each
    /// dispatch the two sets trade places, so that each mesh reads what the
    /// mesh before it wrote. The composition pass is due next.
    pub fn ray_pass<T: Copy>(&mut self, scene: &mut Scene<T>) -> (dispatches: Vec<RayDispatch>)
        requires
            old(self).wf(),
            old(self).due() == Phase::Ray,
            old(scene).wf(),
        ensures
            final(scene).wf(),
            final(self).wf(),
            ray_pass_records(dispatches@, old(scene)@.meshes, old(scene)@.g_buffer_ind as int),
            final(scene)@ == (SceneView {
                g_buffer_ind: read_after(
                    old(scene)@.g_buffer_ind as int,
                    old(scene)@.meshes.len() as int,
                ) as usize,
                ..old(scene)@
            }),
            final(self).due() == Phase::Composition,
            final(self).built_for() == old(self).built_for(),
            final(self).cache() == old(self).cache(),
    {
        proof {
            scene.lemma_wf();
        }
        let ghost start = scene@.g_buffer_ind as int;
        let count = scene.meshes().len();
        let mut dispatches: Vec<RayDispatch> = Vec::new();
        let mut k: usize = 0;
        while k < count
            invariant
                scene.wf(),
                0 <= start < 2,
                k <= count == scene@.meshes.len(),
                scene@ == (SceneView {
                    g_buffer_ind: read_after(start, k as int) as usize,
                    ..old(scene)@
                }),
                dispatches@.len() == k,
                forall|j: int|
                    0 <= j < k ==> #[trigger] dispatches@[j] == dispatch_of(
                        old(scene)@.meshes[j],
                        start,
                        j,
                    ),
            decreases count - k,
        {
            let pipeline = match scene.meshes()[k].geometry.ray_pipeline {
                Some(pipeline) => Pipeline::Own(pipeline),
                None => Pipeline::Shared,
            };
            let read = scene.ray_buffer().g_buffer_ind;
            let write = scene.ray_buffer().write_index();
            let dispatch = RayDispatch { mesh: k, pipeline, read, write, workgroups: [1, 1, 1] };
            proof {
                let planned = dispatch_of(old(scene)@.meshes[k as int], start, k as int);
                assert(dispatch.workgroups =~= planned.workgroups);
            }
            dispatches.push(dispatch);
            scene.toggle_g_buffer();
            k = k + 1;
        }
        self.phase = Phase::Composition;
        dispatches
    }

    /// Plans the composition pass: a full-screen quad of four vertices that
    /// reads the attachment set the ray pass left selected, and the
    /// irradiance cache. With it the frame ends: the geometry pass is due
    /// next.
    pub fn compose_pass<T: Copy>(&mut self, scene: &Scene<T>) -> (pass: ComposePass)
        requires
            old(self).wf(),
            old(self).due() == Phase::Composition,
            scene.wf(),
        ensures
            final(self).wf(),
            pass == (ComposePass { g_buffer: scene@.g_buffer_ind, vertices: 4, instances: 1 }),
            final(self).due() == Phase::Geometry,
            final(self).built_for() == old(self).built_for(),
            final(self).cache() == old(self).cache(),
    {
        self.phase = Phase::Geometry;
        ComposePass { g_buffer: scene.ray_buffer().g_buffer_ind, vertices: 4, instances: 1 }
    }

    /// Plans a whole frame: the geometry pass, the ray pass and the
    /// composition pass, in this order, none left out.
    pub fn render<T: Copy>(&mut self, scene: &mut Scene<T>) -> (frame: Frame)
        requires
            old(self).wf(),
            old(self).due() == Phase::Geometry,
            old(scene).wf(),
        ensures
            final(scene).wf(),
            final(self).wf(),
            frame.geometry.records(old(scene)@.meshes, old(scene)@.props),
            ray_pass_records(frame.ray@, old(scene)@.meshes, old(scene)@.g_buffer_ind as int),
            frame.composition == (ComposePass {
                g_buffer: final(scene)@.g_buffer_ind,
                vertices: 4,
                instances: 1,
            }),
            final(scene)@ == (SceneView {
                g_buffer_ind: read_after(
                    old(scene)@.g_buffer_ind as int,
                    old(scene)@.meshes.len() as int,
                ) as usize,
                ..old(scene)@
            }),
            final(self).due() == Phase::Geometry,
            final(self).built_for() == old(self).built_for(),
            final(self).cache() == old(self).cache(),
    {
        let geometry = self.geometry_pass(scene);
        let ray = self.ray_pass(scene);
        let composition = self.compose_pass(scene);
        Frame { geometry, ray, composition }
    }
}

} // verus!
