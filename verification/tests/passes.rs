use mg_render::geometry::{Geometry, Ranges};
use mg_render::graphics::Graphics;
use mg_render::instance::Params;
use mg_render::irradiance_cache::{Entry, IrradianceCache, CAPACITY, ENTRY_SIZE, GRID_RESOLUTION};
use mg_render::mesh::Mesh;
use mg_render::pipeline::{
    BindGroup, Blend, ColorTarget, Compare, ComputePipeline, DepthTest, RenderPipeline, Topology,
    VertexInput,
};
use mg_render::texture::Format;
use mg_render::renderer::{
    ComposePass, DepthLoadOp, DrawCall, IndexFormat, InstanceSource, LoadOp, Phase, Pipeline,
    RayDispatch, Renderer,
};
use mg_render::scene::Scene;
use std::sync::Arc;

fn surface() -> Graphics {
    Graphics { width: 1280, height: 720 }
}

fn mesh(g_pipeline: Option<usize>, ray_pipeline: Option<usize>, material: usize) -> Mesh {
    Mesh {
        name: String::from("mesh"),
        geometry: Arc::new(Geometry {
            elm_amt: 36,
            ranges: Ranges { index: [0, 72], vertex: [72, 360], uv: [360, 552] },
            buffer: 3,
            g_pipeline,
            ray_pipeline,
        }),
        material,
    }
}

fn scene_of(count: usize) -> Scene<u8> {
    let g = surface();
    let mut scene: Scene<u8> = Scene::new(&g, 0);
    for i in 0..count {
        scene.instantiate_mesh(
            &g,
            mesh(None, None, i),
            Params { amt: 1, bin: None, buffer: None, range: None },
        );
    }
    scene
}

#[test]
fn the_ray_pass_toggles_once_for_each_mesh() {
    for count in 0..6usize {
        let mut scene = scene_of(count);
        let mut renderer = Renderer::new(&surface());
        renderer.geometry_pass(&scene);
        assert_eq!(scene.ray_buffer().g_buffer_ind, 0);
        let dispatches = renderer.ray_pass(&mut scene);
        assert_eq!(dispatches.len(), count);
        assert_eq!(scene.ray_buffer().g_buffer_ind, count % 2);
        for (k, d) in dispatches.iter().enumerate() {
            assert_eq!(d.mesh, k);
            assert_eq!(d.read, k % 2);
            assert_eq!(d.write, (k + 1) % 2);
            assert_eq!(d.workgroups, [1, 1, 1]);
            if k > 0 {
                assert_eq!(d.read, dispatches[k - 1].write);
            }
        }
    }
}

#[test]
fn the_ray_pass_goes_on_from_the_set_it_finds_selected() {
    let mut scene = scene_of(3);
    let mut renderer = Renderer::new(&surface());
    renderer.render(&mut scene);
    assert_eq!(scene.ray_buffer().g_buffer_ind, 1);
    let frame = renderer.render(&mut scene);
    assert_eq!(
        frame.ray,
        vec![
            RayDispatch { mesh: 0, pipeline: Pipeline::Shared, read: 1, write: 0, workgroups: [1, 1, 1] },
            RayDispatch { mesh: 1, pipeline: Pipeline::Shared, read: 0, write: 1, workgroups: [1, 1, 1] },
            RayDispatch { mesh: 2, pipeline: Pipeline::Shared, read: 1, write: 0, workgroups: [1, 1, 1] },
        ]
    );
    assert_eq!(scene.ray_buffer().g_buffer_ind, 0);
    assert_eq!(frame.composition.g_buffer, 0);
}

#[test]
fn the_geometry_pass_draws_every_mesh_with_its_instances() {
    let g = surface();
    let mut scene: Scene<u8> = Scene::new(&g, 0);
    scene.instantiate_mesh(
        &g,
        mesh(None, None, 5),
        Params { amt: 4, bin: None, buffer: None, range: None },
    );
    scene.instantiate_mesh(
        &g,
        mesh(Some(7), Some(8), 6),
        Params { amt: 100, bin: None, buffer: Some(2), range: Some([640, 7040]) },
    );
    let mut renderer = Renderer::new(&g);
    let pass = renderer.geometry_pass(&scene);
    assert_eq!(pass.target, 0);
    assert_eq!(pass.albedo, LoadOp::ClearBlack);
    assert_eq!(pass.emission, LoadOp::ClearBlack);
    assert_eq!(pass.position, LoadOp::Load);
    assert_eq!(pass.normal, LoadOp::Load);
    assert_eq!(pass.depth, DepthLoadOp::ClearFar);
    assert_eq!(
        pass.draws,
        vec![
            DrawCall {
                mesh: 0,
                pipeline: Pipeline::Shared,
                material: 5,
                buffer: 3,
                vertex: 72..360,
                instances: InstanceSource::Shared,
                instance_range: 64..320,
                uv: 360..552,
                index: 0..72,
                index_format: IndexFormat::Uint16,
                elements: 36,
                instance_count: 4,
            },
            DrawCall {
                mesh: 1,
                pipeline: Pipeline::Own(7),
                material: 6,
                buffer: 3,
                vertex: 72..360,
                instances: InstanceSource::Own(2),
                instance_range: 640..7040,
                uv: 360..552,
                index: 0..72,
                index_format: IndexFormat::Uint16,
                elements: 36,
                instance_count: 100,
            },
        ]
    );
    let dispatches = renderer.ray_pass(&mut scene);
    assert_eq!(dispatches[0].pipeline, Pipeline::Shared);
    assert_eq!(dispatches[1].pipeline, Pipeline::Own(8));
}

#[test]
fn a_scene_without_meshes_is_rendered() {
    let mut scene = scene_of(0);
    let mut renderer = Renderer::new(&surface());
    let frame = renderer.render(&mut scene);
    assert!(frame.geometry.draws.is_empty());
    assert_eq!(frame.geometry.albedo, LoadOp::ClearBlack);
    assert_eq!(frame.geometry.depth, DepthLoadOp::ClearFar);
    assert!(frame.ray.is_empty());
    assert_eq!(frame.composition, ComposePass { g_buffer: 0, vertices: 4, instances: 1 });
    assert_eq!(scene.ray_buffer().g_buffer_ind, 0);
}

#[test]
fn the_passes_come_in_order() {
    let mut scene = scene_of(1);
    let mut renderer = Renderer::new(&surface());
    assert_eq!(renderer.phase(), Phase::Geometry);
    renderer.geometry_pass(&scene);
    assert_eq!(renderer.phase(), Phase::Ray);
    renderer.ray_pass(&mut scene);
    assert_eq!(renderer.phase(), Phase::Composition);
    let pass = renderer.compose_pass(&scene);
    assert_eq!(pass, ComposePass { g_buffer: 1, vertices: 4, instances: 1 });
    assert_eq!(renderer.phase(), Phase::Geometry);
    renderer.render(&mut scene);
    assert_eq!(renderer.phase(), Phase::Geometry);
}

#[test]
fn a_degenerate_extent_is_no_resize() {
    let g = surface();
    let mut graphics = g;
    let mut renderer = Renderer::new(&g);
    let mut scene = scene_of(3);
    renderer.geometry_pass(&scene);
    renderer.ray_pass(&mut scene);
    let ind = scene.ray_buffer().g_buffer_ind;
    assert_eq!(ind, 1);
    let sets = scene.ray_buffer().g_buffers;
    for (width, height) in [(0u32, 600u32), (800, 0), (0, 0)] {
        assert!(!graphics.resize(width, height));
        assert_eq!(graphics, g);
        let degenerate = Graphics { width, height };
        assert!(!renderer.resize(&degenerate));
        assert_eq!(renderer.extent(), g);
        assert_eq!(renderer.phase(), Phase::Composition);
        assert!(!scene.resize(&degenerate));
        assert_eq!(scene.ray_buffer().g_buffer_ind, ind);
        assert_eq!(scene.ray_buffer().g_buffers, sets);
        assert_eq!(scene.ray_buffer().world_tsfs.len(), 4);
    }
}

#[test]
fn a_resize_rebuilds_what_depends_on_the_extent() {
    let g = surface();
    let mut graphics = g;
    let mut renderer = Renderer::new(&g);
    let mut scene = scene_of(3);
    renderer.geometry_pass(&scene);
    renderer.ray_pass(&mut scene);
    assert!(graphics.resize(1, 1));
    assert_eq!(graphics, Graphics { width: 1, height: 1 });
    assert!(renderer.resize(&graphics));
    assert_eq!(renderer.extent(), graphics);
    assert!(scene.resize(&graphics));
    assert_eq!(scene.ray_buffer().g_buffer_ind, 0);
    assert_eq!(scene.ray_buffer().world_tsfs, vec![0, 0, 0, 0]);
    assert_eq!(scene.ray_buffer().g_buffers[0].albedo_texture.width, 1);
    assert_eq!(scene.ray_buffer().g_buffers[1].depth_texture.height, 1);
    assert_eq!(scene.ray_buffer().origin_texture.width, 1);
    assert_eq!(scene.meshes().len(), 3);
    assert_eq!(scene.inst_props()[2].range, [192, 256]);
}

#[test]
fn the_irradiance_cache_has_its_capacity_from_the_start() {
    assert_eq!(GRID_RESOLUTION * GRID_RESOLUTION * GRID_RESOLUTION * GRID_RESOLUTION, CAPACITY);
    assert_eq!(CAPACITY, 65536);
    assert_eq!(ENTRY_SIZE, 16);
    let cache = IrradianceCache::new();
    assert_eq!(cache.capacity(), 65536);
    assert_eq!(cache.entries().len(), 65536);
    assert!(cache.entries().iter().all(|e| *e == Entry { lifetime: 0, color: [0, 0, 0] }));
    let renderer = Renderer::new(&surface());
    assert_eq!(renderer.irradiance_cache().capacity(), CAPACITY);
}

#[test]
fn the_first_srgb_format_is_presented_in() {
    assert_eq!(Graphics::surface_format(&vec![]), None);
    assert_eq!(Graphics::surface_format(&vec![false]), Some(0));
    assert_eq!(Graphics::surface_format(&vec![true]), Some(0));
    assert_eq!(Graphics::surface_format(&vec![false, false, true, true]), Some(2));
    assert_eq!(Graphics::surface_format(&vec![false, false, false]), Some(0));
    assert_eq!(Graphics::surface_format(&vec![false, true, false]), Some(1));
}

#[test]
fn the_shared_pipelines_are_what_the_passes_need() {
    let renderer = Renderer::new(&surface());
    assert_eq!(
        *renderer.g_pipeline(),
        RenderPipeline {
            bind_groups: vec![BindGroup::Camera, BindGroup::Material],
            vertex_buffers: vec![VertexInput::Position, VertexInput::TexCoord, VertexInput::Instance],
            targets: vec![
                ColorTarget::Attachment(Format::Rgba8Unorm),
                ColorTarget::Attachment(Format::Rgba8Unorm),
                ColorTarget::Attachment(Format::Rgba16Float),
                ColorTarget::Attachment(Format::Rgba8Unorm),
            ],
            blend: Blend::Replace,
            topology: Topology::TriangleList,
            depth: Some(DepthTest {
                format: Format::Depth32Float,
                compare: Compare::Less,
                write: true,
            }),
        }
    );
    assert_eq!(
        *renderer.ray_pipeline(),
        ComputePipeline {
            bind_groups: vec![
                BindGroup::RayRead,
                BindGroup::Mesh,
                BindGroup::GBufferRead,
                BindGroup::GBufferWrite,
            ],
        }
    );
    assert_eq!(
        *renderer.comp_pipeline(),
        RenderPipeline {
            bind_groups: vec![BindGroup::GBufferRead, BindGroup::IrradianceCache],
            vertex_buffers: vec![],
            targets: vec![ColorTarget::Surface],
            blend: Blend::Replace,
            topology: Topology::TriangleStrip,
            depth: None,
        }
    );
    assert_eq!(*renderer.g_pipeline(), RenderPipeline::geometry());
    assert_eq!(*renderer.comp_pipeline(), RenderPipeline::composition());
    assert_eq!(*renderer.ray_pipeline(), ComputePipeline::ray());
}
