use mg_render::g_buffer::GBuffer;
use mg_render::geometry::{Geometry, Ranges};
use mg_render::graphics::Graphics;
use mg_render::instance::{append_range, Params, Properties, INST_SIZE};
use mg_render::mesh::Mesh;
use mg_render::ray_buffer::RayBuffer;
use mg_render::scene::{Scene, ACCEL_STRUCT_WORDS};
use mg_render::texture::{Format, Texture, Usage};
use std::sync::Arc;

fn mesh(name: &str) -> Mesh {
    Mesh {
        name: String::from(name),
        geometry: Arc::new(Geometry {
            elm_amt: 3,
            ranges: Ranges { index: [0, 6], vertex: [8, 44], uv: [44, 68] },
            buffer: 2,
            g_pipeline: None,
            ray_pipeline: None,
        }),
        material: 1,
    }
}

fn auto(amt: u32) -> Params {
    Params { amt, bin: None, buffer: None, range: None }
}

fn surface() -> Graphics {
    Graphics { width: 640, height: 480 }
}

#[test]
fn five_instances_after_byte_128_take_128_to_448() {
    let g = surface();
    let mut scene: Scene<u8> = Scene::new(&g, 0);
    scene.instantiate_mesh(&g, mesh("first"), auto(1));
    assert_eq!(scene.ray_buffer().world_tsfs.len() * 64, 128);
    let handle = scene.instantiate_mesh(&g, mesh("second"), auto(5));
    assert_eq!(scene.inst_props()[handle].range, [128, 448]);
    assert_eq!(scene.inst_props()[handle].range(), 128u64..448u64);
    assert_eq!(scene.inst_props()[handle].amt, 5);
    assert_eq!(scene.ray_buffer().world_tsfs.len(), 7);
}

#[test]
fn append_range_starts_at_the_end_of_the_buffer() {
    assert_eq!(INST_SIZE, 64);
    assert_eq!(append_range(2, 5), Some([128, 448]));
    assert_eq!(append_range(0, 0), Some([0, 0]));
    assert_eq!(append_range(1, 1), Some([64, 128]));
    assert_eq!(append_range(3, 0), Some([192, 192]));
    // the last range that 32 bits hold, and the first that they do not
    assert_eq!(append_range(67108862, 1), Some([4294967168, 4294967232]));
    assert_eq!(append_range(67108863, 0), Some([4294967232, 4294967232]));
    assert_eq!(append_range(67108863, 1), None);
    assert_eq!(append_range(67108864, 0), None);
    assert_eq!(append_range(0, u32::MAX), None);
    assert_eq!(append_range(usize::MAX, 0), None);
}

#[test]
fn allocated_ranges_are_disjoint_and_rise() {
    let g = surface();
    let mut scene: Scene<u8> = Scene::new(&g, 0);
    let amounts = [3u32, 0, 7, 1, 1, 12];
    for amt in amounts {
        scene.instantiate_mesh(&g, mesh("m"), auto(amt));
    }
    let props = scene.inst_props();
    assert_eq!(props.len(), 6);
    assert_eq!(props[0].range, [64, 256]);
    assert_eq!(props[1].range, [256, 256]);
    assert_eq!(props[2].range, [256, 704]);
    for j in 0..props.len() {
        assert!(props[j].range[0] <= props[j].range[1]);
        assert_eq!(props[j].range[1] - props[j].range[0], amounts[j] * 64);
        for k in j + 1..props.len() {
            assert!(props[j].range[1] <= props[k].range[0]);
            assert!(props[j].range[0] <= props[k].range[0]);
        }
    }
    assert_eq!(props[5].range[1] as usize, scene.ray_buffer().world_tsfs.len() * 64);
}

#[test]
fn a_range_of_the_caller_is_kept_and_moves_no_allocation() {
    let g = surface();
    let mut scene: Scene<u8> = Scene::new(&g, 0);
    scene.instantiate_mesh(&g, mesh("a"), auto(2));
    let bin: Box<[u8]> = vec![1u8, 2, 3].into_boxed_slice();
    let own = Params { amt: 10, bin: Some(bin.clone()), buffer: Some(4), range: Some([0, 640]) };
    assert!(scene.can_instantiate(&own));
    let handle = scene.instantiate_mesh(&g, mesh("particles"), own);
    assert_eq!(handle, 1);
    assert_eq!(scene.inst_props()[1].range, [0, 640]);
    assert_eq!(scene.inst_props()[1].buffer, Some(4));
    assert_eq!(scene.inst_props()[1].bin, Some(bin));
    assert_eq!(scene.inst_props()[1].amt, 10);
    assert_eq!(scene.ray_buffer().world_tsfs.len(), 3);
    let handle = scene.instantiate_mesh(&g, mesh("b"), auto(1));
    assert_eq!(handle, 2);
    assert_eq!(scene.inst_props()[0].range, [64, 192]);
    assert_eq!(scene.inst_props()[2].range, [192, 256]);
}

#[test]
fn handles_index_the_tables() {
    let g = surface();
    let mut scene: Scene<u8> = Scene::new(&g, 0);
    for (i, name) in ["a", "b", "c"].iter().enumerate() {
        let handle = scene.instantiate_mesh(&g, mesh(name), auto(1));
        assert_eq!(handle, i);
        assert_eq!(scene.meshes()[handle].name, *name);
        assert_eq!(scene.meshes().len(), scene.inst_props().len());
    }
}

#[test]
fn a_range_beyond_32_bits_has_no_room() {
    let g = surface();
    let scene: Scene<u8> = Scene::new(&g, 0);
    assert!(scene.can_instantiate(&auto(67108862)));
    assert!(!scene.can_instantiate(&auto(67108863)));
    assert!(!scene.can_instantiate(&auto(u32::MAX)));
    let own = Params { amt: u32::MAX, bin: None, buffer: Some(0), range: Some([0, u32::MAX]) };
    assert!(scene.can_instantiate(&own));
}

#[test]
fn instantiating_rebuilds_the_ray_buffer() {
    let g = surface();
    let mut scene: Scene<u8> = Scene::new(&g, 9);
    assert_eq!(scene.ray_buffer().world_tsfs, vec![9]);
    scene.instantiate_mesh(&g, mesh("a"), auto(2));
    assert!(scene.set_graph(
        1,
        vec![mg_render::hierarchy::LocalNode { child_count: 0, tsf: 5, mesh: 0, dirty: true }]
    ));
    scene.update(&|a: u8, b: u8| a + b);
    assert_eq!(scene.ray_buffer().world_tsfs, vec![5, 9, 9]);
    let wide = Graphics { width: 1024, height: 768 };
    scene.instantiate_mesh(&wide, mesh("b"), auto(1));
    assert_eq!(scene.ray_buffer().world_tsfs, vec![9, 9, 9, 9]);
    assert_eq!(scene.ray_buffer().g_buffer_ind, 0);
    assert_eq!(scene.ray_buffer().g_buffers[0], GBuffer::new(&wide));
    assert_eq!(scene.ray_buffer().g_buffers[1], GBuffer::new(&wide));
    assert_eq!(scene.nodes().len(), 1);
}

#[test]
fn a_new_scene_is_empty() {
    let g = surface();
    let scene: Scene<i32> = Scene::new(&g, -1);
    assert_eq!(scene.root_count(), 0);
    assert!(scene.nodes().is_empty());
    assert!(scene.meshes().is_empty());
    assert!(scene.inst_props().is_empty());
    assert_eq!(scene.accel_struct().len(), ACCEL_STRUCT_WORDS);
    assert_eq!(scene.accel_struct().len(), 65536);
    assert!(scene.accel_struct().iter().all(|w| *w == 0));
    assert_eq!(scene.ray_buffer().g_buffer_ind, 0);
    assert_eq!(scene.ray_buffer().world_tsfs, vec![-1]);
    assert_eq!(scene.ray_buffer().g_buffers[0], GBuffer::new(&g));
}

#[test]
fn a_ray_buffer_is_never_empty() {
    let g = surface();
    let rb: RayBuffer<u16> = RayBuffer::new(&g, 0, 7);
    assert_eq!(rb.world_tsfs, vec![7]);
    let rb: RayBuffer<u16> = RayBuffer::new(&g, 1, 7);
    assert_eq!(rb.world_tsfs, vec![7]);
    let rb: RayBuffer<u16> = RayBuffer::new(&g, 4, 7);
    assert_eq!(rb.world_tsfs, vec![7, 7, 7, 7]);
    assert_eq!(rb.g_buffer_ind, 0);
    assert_eq!(rb.g_buffers[0], rb.g_buffers[1]);
    let ray_usage = Usage {
        storage_binding: true,
        render_attachment: false,
        texture_binding: true,
        copy_dst: false,
    };
    assert_eq!(
        rb.origin_texture,
        Texture { width: 640, height: 480, format: Format::Rgba16Float, usage: ray_usage }
    );
    assert_eq!(
        rb.direction_texture,
        Texture { width: 640, height: 480, format: Format::Rgba8Unorm, usage: ray_usage }
    );
}

#[test]
fn the_two_attachment_sets_trade_places() {
    let g = surface();
    let mut rb: RayBuffer<u16> = RayBuffer::new(&g, 0, 7);
    assert_eq!(rb.write_index(), 1);
    rb.toggle();
    assert_eq!(rb.g_buffer_ind, 1);
    assert_eq!(rb.write_index(), 0);
    rb.toggle();
    assert_eq!(rb.g_buffer_ind, 0);
    assert_eq!(rb.world_tsfs, vec![7]);
}

#[test]
fn properties_hand_out_their_range() {
    let props = Properties { amt: 2, bin: None, buffer: None, range: [4294967168, 4294967295] };
    assert_eq!(props.range(), 4294967168u64..4294967295u64);
    let props = Properties { amt: 0, bin: None, buffer: None, range: [0, 0] };
    assert_eq!(props.range(), 0u64..0u64);
}
