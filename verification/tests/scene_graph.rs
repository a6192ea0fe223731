use mg_render::graphics::Graphics;
use mg_render::geometry::{Geometry, Ranges};
use mg_render::hierarchy::{LocalNode, WorldNode};
use mg_render::instance::Params;
use mg_render::mesh::Mesh;
use mg_render::scene::{is_level_order, Scene};
use parry3d::na::{Matrix4, Vector3};
use std::sync::Arc;

type Mat = [[f32; 4]; 4];

fn identity() -> Mat {
    let mut m = [[0.0f32; 4]; 4];
    for i in 0..4 {
        m[i][i] = 1.0;
    }
    m
}

fn translation(x: f32, y: f32, z: f32) -> Mat {
    let mut m = identity();
    m[0][3] = x;
    m[1][3] = y;
    m[2][3] = z;
    m
}

fn scaling(s: f32) -> Mat {
    let mut m = identity();
    m[0][0] = s;
    m[1][1] = s;
    m[2][2] = s;
    m
}

fn mul(a: Mat, b: Mat) -> Mat {
    let mut m = [[0.0f32; 4]; 4];
    for i in 0..4 {
        for j in 0..4 {
            let mut sum = 0.0f32;
            for k in 0..4 {
                sum += a[i][k] * b[k][j];
            }
            m[i][j] = sum;
        }
    }
    m
}

fn node(child_count: usize, tsf: Mat, dirty: bool) -> LocalNode<Mat> {
    LocalNode { child_count, tsf, mesh: 0, dirty }
}

fn some_mesh() -> Mesh {
    Mesh {
        name: String::from("quad"),
        geometry: Arc::new(Geometry {
            elm_amt: 6,
            ranges: Ranges { index: [0, 12], vertex: [12, 60], uv: [60, 92] },
            buffer: 0,
            g_pipeline: None,
            ray_pipeline: None,
        }),
        material: 0,
    }
}

fn surface() -> Graphics {
    Graphics { width: 800, height: 600 }
}

fn scene_with_slots(slots: u32) -> Scene<Mat> {
    let g = surface();
    let mut scene = Scene::new(&g, identity());
    if slots > 1 {
        let params = Params { amt: slots - 1, bin: None, buffer: None, range: None };
        assert!(scene.can_instantiate(&params));
        scene.instantiate_mesh(&g, some_mesh(), params);
    }
    scene
}

/// Two roots; the first has two children, the second one; the first child of
/// the first root has one child.
fn forest(dirty: [bool; 6]) -> (usize, Vec<LocalNode<Mat>>) {
    (
        2,
        vec![
            node(2, translation(1.0, 0.0, 0.0), dirty[0]),
            node(1, scaling(2.0), dirty[1]),
            node(1, scaling(3.0), dirty[2]),
            node(0, translation(0.0, 5.0, 0.0), dirty[3]),
            node(0, translation(0.0, 0.0, 7.0), dirty[4]),
            node(0, translation(1.0, 1.0, 1.0), dirty[5]),
        ],
    )
}

#[test]
fn root_with_two_children_then_one_dirty_child() {
    let t1 = translation(1.0, 2.0, 3.0);
    let t2 = mul(scaling(2.0), translation(0.0, -1.0, 0.0));
    let mut scene = scene_with_slots(3);
    assert!(scene.set_graph(
        1,
        vec![node(2, identity(), true), node(0, t1, true), node(0, t2, true)]
    ));
    let report = scene.update(&mul);
    assert_eq!(report.written, vec![0, 1, 2]);
    assert_eq!(scene.ray_buffer().world_tsfs, vec![identity(), mul(identity(), t1), mul(identity(), t2)]);
    assert_eq!(scene.ray_buffer().world_tsfs[1], t1);
    assert_eq!(scene.ray_buffer().world_tsfs[2], t2);

    assert!(scene.nodes().iter().all(|n| !n.dirty));
    assert!(scene.set_dirty(1, true));
    let report = scene.update(&mul);
    assert_eq!(report.written, vec![1]);
    assert_eq!(scene.ray_buffer().world_tsfs, vec![identity(), t1, t2]);
}

#[test]
fn world_transform_is_the_product_along_the_root_path() {
    let (roots, nodes) = forest([true; 6]);
    let local: Vec<Mat> = nodes.iter().map(|n| n.tsf).collect();
    let mut scene = scene_with_slots(6);
    assert!(scene.set_graph(roots, nodes));
    scene.update(&mul);
    let world = &scene.ray_buffer().world_tsfs;
    assert_eq!(world[0], local[0]);
    assert_eq!(world[1], local[1]);
    assert_eq!(world[2], mul(local[0], local[2]));
    assert_eq!(world[3], mul(local[0], local[3]));
    assert_eq!(world[4], mul(local[1], local[4]));
    assert_eq!(world[5], mul(mul(local[0], local[2]), local[5]));
    // parent to child, not child to parent
    assert_ne!(world[5], mul(local[5], mul(local[2], local[0])));
    // translate by 1, scale by 3, translate by (1, 1, 1)
    assert_eq!(world[5][0][3], 4.0);
    assert_eq!(world[5][1][3], 3.0);
    assert_eq!(world[5][0][0], 3.0);
}

#[test]
fn a_dirty_node_writes_itself_and_its_descendants_only() {
    let cases: [([bool; 6], Vec<usize>); 6] = [
        ([false; 6], vec![]),
        ([false, false, true, false, false, false], vec![2, 5]),
        ([false, false, false, true, false, false], vec![3]),
        ([true, false, false, false, false, false], vec![0, 2, 3, 5]),
        ([false, true, false, false, false, false], vec![1, 4]),
        ([false, false, false, false, false, true], vec![5]),
    ];
    for (dirty, expected) in cases {
        let (roots, nodes) = forest(dirty);
        let mut scene = scene_with_slots(6);
        assert!(scene.set_graph(roots, nodes));
        let before = scene.ray_buffer().world_tsfs.clone();
        let report = scene.update(&mul);
        assert_eq!(report.written, expected);
        for i in 0..6 {
            if !expected.contains(&i) {
                assert_eq!(scene.ray_buffer().world_tsfs[i], before[i]);
            }
        }
    }
}

#[test]
fn clean_subtrees_are_traversed_but_not_written() {
    let (roots, nodes) = forest([false; 6]);
    let mut scene = scene_with_slots(6);
    assert!(scene.set_graph(roots, nodes));
    let report = scene.update(&mul);
    assert!(report.written.is_empty());
    assert_eq!(report.visited, 6);
    assert_eq!(report.blocks, 3);
    assert_eq!(scene.ray_buffer().world_tsfs, vec![identity(); 6]);
}

#[test]
fn one_queue_turn_for_each_node_with_children() {
    let (roots, nodes) = forest([true; 6]);
    let mut scene = scene_with_slots(6);
    assert!(scene.set_graph(roots, nodes));
    let report = scene.update(&mul);
    assert_eq!(report.blocks, 3);
    assert_eq!(report.visited, scene.nodes().len());

    let mut flat = scene_with_slots(4);
    assert!(flat.set_graph(
        4,
        vec![
            node(0, identity(), true),
            node(0, identity(), false),
            node(0, identity(), true),
            node(0, identity(), false),
        ]
    ));
    let report = flat.update(&mul);
    assert_eq!(report.blocks, 0);
    assert_eq!(report.visited, 4);
    assert_eq!(report.written, vec![0, 2]);
}

#[test]
fn an_empty_scene_propagates_nothing() {
    let mut scene = scene_with_slots(1);
    let report = scene.update(&mul);
    assert_eq!(report.visited, 0);
    assert_eq!(report.blocks, 0);
    assert!(report.written.is_empty());
    assert_eq!(scene.ray_buffer().world_tsfs, vec![identity()]);
}

#[test]
fn a_childless_dirty_root_updates_its_slot_and_nothing_else() {
    let t = translation(9.0, 8.0, 7.0);
    let mut scene = scene_with_slots(2);
    assert!(scene.set_graph(1, vec![node(0, t, true)]));
    let report = scene.update(&mul);
    assert_eq!(report.written, vec![0]);
    assert_eq!(report.blocks, 0);
    assert_eq!(scene.ray_buffer().world_tsfs, vec![t, identity()]);
}

#[test]
fn propagation_clears_every_flag_and_nothing_else() {
    let (roots, nodes) = forest([false, false, true, false, true, false]);
    let before = nodes.clone();
    let mut scene = scene_with_slots(6);
    assert!(scene.set_graph(roots, nodes));
    assert_eq!(scene.update(&mul).written, vec![2, 4, 5]);
    for (after, before) in scene.nodes().iter().zip(before.iter()) {
        assert!(!after.dirty);
        assert_eq!(after.child_count, before.child_count);
        assert_eq!(after.tsf, before.tsf);
        assert_eq!(after.mesh, before.mesh);
    }
    assert_eq!(scene.nodes().len(), 6);
    assert_eq!(scene.root_count(), 2);
}

#[test]
fn a_second_propagation_writes_nothing() {
    let (roots, nodes) = forest([true; 6]);
    let mut scene = scene_with_slots(6);
    assert!(scene.set_graph(roots, nodes));
    let first = scene.update(&mul);
    assert_eq!(first.written, vec![0, 1, 2, 3, 4, 5]);
    let world = scene.ray_buffer().world_tsfs.clone();
    let second = scene.update(&mul);
    assert!(second.written.is_empty());
    assert_eq!(second.visited, 6);
    assert_eq!(second.blocks, 3);
    assert_eq!(scene.ray_buffer().world_tsfs, world);
}

#[test]
fn a_change_after_propagation_is_written_by_the_next() {
    let (roots, nodes) = forest([true; 6]);
    let local: Vec<Mat> = nodes.iter().map(|n| n.tsf).collect();
    let mut scene = scene_with_slots(6);
    assert!(scene.set_graph(roots, nodes));
    scene.update(&mul);
    let moved = translation(0.0, 0.0, -2.0);
    assert!(scene.set_transform(2, moved));
    let report = scene.update(&mul);
    assert_eq!(report.written, vec![2, 5]);
    assert_eq!(scene.ray_buffer().world_tsfs[2], mul(local[0], moved));
    assert_eq!(scene.ray_buffer().world_tsfs[5], mul(mul(local[0], moved), local[5]));
    assert_eq!(scene.ray_buffer().world_tsfs[3], mul(local[0], local[3]));
    assert!(scene.update(&mul).written.is_empty());
}

#[test]
fn set_transform_marks_the_node_dirty() {
    let (roots, nodes) = forest([false; 6]);
    let mut scene = scene_with_slots(6);
    assert!(scene.set_graph(roots, nodes));
    let t = translation(4.0, 4.0, 4.0);
    assert!(scene.set_transform(4, t));
    assert!(!scene.set_transform(6, t));
    assert!(!scene.set_dirty(6, true));
    assert!(scene.nodes()[4].dirty);
    assert_eq!(scene.nodes()[4].tsf, t);
    assert_eq!(scene.nodes()[4].child_count, 0);
    let report = scene.update(&mul);
    assert_eq!(report.written, vec![4]);
    assert_eq!(scene.ray_buffer().world_tsfs[4], mul(scaling(2.0), t));
    assert!(!scene.nodes()[4].dirty);
    assert_eq!(scene.nodes()[4].tsf, t);
}

#[test]
fn level_order_is_checked() {
    let (roots, nodes) = forest([false; 6]);
    assert!(is_level_order(roots, &nodes));
    // more roots than nodes
    assert!(!is_level_order(7, &nodes));
    // the blocks would end before the array does
    assert!(!is_level_order(1, &nodes));
    // the blocks would end after the array does
    assert!(!is_level_order(3, &nodes));
    // no roots, yet nodes
    assert!(!is_level_order(0, &nodes));
    // nothing at all
    assert!(is_level_order(0, &Vec::<LocalNode<Mat>>::new()));
    // a node that would be its own child
    let cycle = vec![node(0, identity(), false), node(1, identity(), false)];
    assert!(!is_level_order(1, &cycle));
    // a child count that overflows the running sum
    let huge = vec![node(usize::MAX, identity(), false), node(2, identity(), false)];
    assert!(!is_level_order(1, &huge));
}

#[test]
fn set_graph_refuses_what_is_not_a_forest_or_has_no_slots() {
    let (roots, nodes) = forest([true; 6]);
    let mut scene = scene_with_slots(5);
    assert!(!scene.set_graph(roots, nodes));
    assert_eq!(scene.nodes().len(), 0);
    assert_eq!(scene.root_count(), 0);

    let (_, nodes) = forest([true; 6]);
    let mut scene = scene_with_slots(6);
    assert!(!scene.set_graph(1, nodes));
    assert_eq!(scene.nodes().len(), 0);

    let (roots, nodes) = forest([true; 6]);
    assert!(scene.set_graph(roots, nodes));
    assert_eq!(scene.nodes().len(), 6);
    assert_eq!(scene.root_count(), 2);
}

#[test]
fn world_nodes_compose_parent_before_child() {
    let parent = WorldNode { child_count: 1, tsf: scaling(2.0), dirty: false };
    let local = node(3, translation(1.0, 0.0, 0.0), true);
    let root = WorldNode::from_local(&local);
    assert_eq!(root.child_count, 3);
    assert_eq!(root.tsf, local.tsf);
    assert!(root.dirty);
    let child = parent.add_local(&local, &mul);
    assert_eq!(child.child_count, 3);
    assert_eq!(child.tsf, mul(scaling(2.0), translation(1.0, 0.0, 0.0)));
    assert_eq!(child.tsf[0][3], 2.0);
    assert!(child.dirty);
    let clean = node(0, identity(), false);
    assert!(!parent.add_local(&clean, &mul).dirty);
    assert!(root.add_local(&clean, &mul).dirty);
}

#[test]
fn matrices_of_the_algebra_crate_propagate() {
    let g = surface();
    let mut scene: Scene<Matrix4<f32>> = Scene::new(&g, Matrix4::identity());
    scene.instantiate_mesh(
        &g,
        some_mesh(),
        Params { amt: 2, bin: None, buffer: None, range: None },
    );
    let r = Matrix4::new_scaling(2.0f32);
    let a = Matrix4::new_translation(&Vector3::new(1.0f32, 2.0, 3.0));
    let b = Matrix4::new_translation(&Vector3::new(-1.0f32, 0.0, 0.5));
    assert!(scene.set_graph(
        1,
        vec![
            LocalNode { child_count: 1, tsf: r, mesh: 0, dirty: false },
            LocalNode { child_count: 1, tsf: a, mesh: 0, dirty: true },
            LocalNode { child_count: 0, tsf: b, mesh: 0, dirty: false },
        ]
    ));
    let report = scene.update(&|p: Matrix4<f32>, l: Matrix4<f32>| p * l);
    assert_eq!(report.written, vec![1, 2]);
    assert_eq!(report.blocks, 2);
    let world = &scene.ray_buffer().world_tsfs;
    assert_eq!(world[0], Matrix4::identity());
    assert_eq!(world[1], r * a);
    assert_eq!(world[2], (r * a) * b);
    assert_eq!(world[2][(0, 3)], 0.0);
    assert_eq!(world[2][(1, 3)], 4.0);
    assert_eq!(world[2][(2, 3)], 7.0);
}
