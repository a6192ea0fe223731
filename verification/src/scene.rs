//! The scene: the transform tree, the registered meshes with their instance
//! ranges, and the ray buffer that holds every instance's world transform.

use crate::g_buffer::GBuffer;
use crate::graphics::Graphics;
use crate::hierarchy::{
    child_end, flags_cleared, inherits_dirty, internal_count, is_parent, is_world,
    lemma_child_end_monotone, lemma_fold_push, lemma_leaves_flat, lemma_level_order_by_counts,
    lemma_path_nonempty, lemma_path_of_child, lemma_path_of_root, level_order, lists_dirty_upto,
    path_transforms, propagated_upto, LocalNode, WorldNode,
};
use crate::instance::{append_range, appended, Params, Properties, INST_SIZE};
use crate::mesh::Mesh;
use crate::ray_buffer::RayBuffer;
use crate::texture::Texture;
use std::collections::VecDeque;
use vstd::prelude::*;

verus! {

/// Words of the acceleration structure that the ray pass reads.
pub const ACCEL_STRUCT_WORDS: usize = 65536;

/// A scene. `T` is the type of a transform; the scene composes transforms
/// with the operation its caller hands to `update` and otherwise only copies
/// them.
pub struct Scene<T> {
    root_count: usize,
    world_deque: VecDeque<WorldNode<T>>,
    nodes: Vec<LocalNode<T>>,
    meshes: Vec<Mesh>,
    inst_props: Vec<Properties>,
    ray_buffer: RayBuffer<T>,
    accel_struct: Vec<u32>,
    identity: T,
    allocated: Ghost<Seq<int>>,
}

/// The registrations `allocated` have ranges that the allocator chose: each
/// holds its instances exactly and lies inside a buffer of `count`
/// instances, and each begins at or after the end of those registered
/// before it.
pub open spec fn allocation_ordered(
    props: Seq<Properties>,
    allocated: Seq<int>,
    count: int,
) -> bool {
    &&& forall|j: int|
        0 <= j < allocated.len() ==> {
            &&& 0 <= #[trigger] allocated[j] < props.len()
            &&& 0 <= props[allocated[j]].start() <= props[allocated[j]].end() <= count * INST_SIZE
            &&& props[allocated[j]].end() == props[allocated[j]].start() + props[allocated[j]].amt
                * INST_SIZE
        }
    &&& forall|j: int, k: int|
        0 <= j < k < allocated.len() ==> {
            &&& #[trigger] allocated[j] < #[trigger] allocated[k]
            &&& props[allocated[j]].end() <= props[allocated[k]].start()
        }
}

/// What a scene holds, as mathematical values.
pub struct SceneView<T> {
    /// The nodes of the transform tree, in level order.
    pub graph: Seq<LocalNode<T>>,
    /// The number of roots of the transform tree.
    pub roots: int,
    /// The world nodes that wait for their children to be propagated. They
    /// live within one propagation only.
    pub queue: Seq<WorldNode<T>>,
    /// The world transform of every instance slot.
    pub world: Seq<T>,
    /// Which of the two attachment sets is read next.
    pub g_buffer_ind: usize,
    /// The two attachment sets.
    pub g_buffers: [GBuffer; 2],
    /// The ray origin attachment.
    pub origin_texture: Texture,
    /// The ray direction attachment.
    pub direction_texture: Texture,
    /// The registered meshes, in the order of their handles.
    pub meshes: Seq<Mesh>,
    /// The instance properties of the registered meshes, in the order of
    /// their handles.
    pub props: Seq<Properties>,
    /// The handles of the registrations whose range the allocator chose, in
    /// the order in which they were made.
    pub allocated: Seq<int>,
    /// The transform every slot of a rebuilt ray buffer starts from.
    pub identity: T,
    /// The words of the acceleration structure.
    pub accel: Seq<u32>,
}

impl<T: Copy> View for Scene<T> {
    type V = SceneView<T>;

    closed spec fn view(&self) -> SceneView<T> {
        SceneView {
            graph: self.nodes@,
            roots: self.root_count as int,
            queue: self.world_deque@,
            world: self.ray_buffer.world_tsfs@,
            g_buffer_ind: self.ray_buffer.g_buffer_ind,
            g_buffers: self.ray_buffer.g_buffers,
            origin_texture: self.ray_buffer.origin_texture,
            direction_texture: self.ray_buffer.direction_texture,
            meshes: self.meshes@,
            props: self.inst_props@,
            allocated: self.allocated@,
            identity: self.identity,
            accel: self.accel_struct@,
        }
    }
}

impl<T: Copy> Scene<T> {
    /// The ray buffer `ray_buffer` is the one of this scene.
    pub open spec fn has_ray_buffer(&self, ray_buffer: RayBuffer<T>) -> bool {
        &&& ray_buffer.g_buffer_ind == self@.g_buffer_ind
        &&& ray_buffer.g_buffers == self@.g_buffers
        &&& ray_buffer.origin_texture == self@.origin_texture
        &&& ray_buffer.direction_texture == self@.direction_texture
        &&& ray_buffer.world_tsfs@ == self@.world
    }

    /// The scene is well formed: the nodes are a forest in level order, each
    /// node has an instance slot, each mesh has its instance properties, the
    /// ray buffer selects one of its two attachment sets, and the ranges that
    /// the allocator chose lie in the shared buffer, one after the other.
    pub closed spec fn wf(&self) -> bool {
        &&& level_order(self.nodes@, self.root_count as int)
        &&& self.nodes@.len() <= self.ray_buffer.world_tsfs@.len()
        &&& self.ray_buffer.world_tsfs@.len() >= 1
        &&& self.ray_buffer.wf()
        &&& self.meshes@.len() == self.inst_props@.len()
        &&& self.accel_struct@.len() == ACCEL_STRUCT_WORDS
        &&& allocation_ordered(
            self.inst_props@,
            self.allocated@,
            self.ray_buffer.world_tsfs@.len() as int,
        )
    }

    /// What `wf` says of a scene, in terms of what callers can see.
    pub proof fn lemma_wf(&self)
        requires
            self.wf(),
        ensures
            level_order(self@.graph, self@.roots),
            self@.graph.len() <= self@.world.len(),
            self@.world.len() >= 1,
            self@.g_buffer_ind < 2,
            self@.meshes.len() == self@.props.len(),
            self@.accel.len() == ACCEL_STRUCT_WORDS,
            allocation_ordered(self@.props, self@.allocated, self@.world.len() as int),
    {
    }

    /// The ranges that the allocator chose never overlap, and their starts
    /// rise in the order in which they were chosen: a range starts at or
    /// after the end of each range chosen before it, and so after the start
    /// of each such range that holds an instance.
    pub proof fn lemma_allocated_ranges_disjoint(&self, j: int, k: int)
        requires
            self.wf(),
            0 <= j < k < self@.allocated.len(),
        ensures
            self@.props[self@.allocated[j]].start() <= self@.props[self@.allocated[j]].end(),
            self@.props[self@.allocated[j]].end() <= self@.props[self@.allocated[k]].start(),
            self@.props[self@.allocated[j]].start() <= self@.props[self@.allocated[k]].start(),
            self@.props[self@.allocated[j]].amt > 0 ==> self@.props[self@.allocated[j]].start()
                < self@.props[self@.allocated[k]].start(),
    {
        let first = self@.props[self@.allocated[j]];
        assert(first.amt > 0 ==> first.amt * INST_SIZE > 0) by (nonlinear_arith);
    }

    /// An empty scene for a surface: no node, no mesh, a zeroed acceleration
    /// structure, and a ray buffer with one slot at `identity`.
    pub fn new(graphics: &Graphics, identity: T) -> (scene: Self)
        ensures
            scene.wf(),
            scene@.graph.len() == 0,
            scene@.roots == 0,
            scene@.queue.len() == 0,
            scene@.meshes.len() == 0,
            scene@.props.len() == 0,
            scene@.allocated.len() == 0,
            scene@.identity == identity,
            scene@.accel.len() == ACCEL_STRUCT_WORDS,
            forall|i: int| 0 <= i < scene@.accel.len() ==> scene@.accel[i] == 0,
            scene@.g_buffer_ind == 0,
            scene@.g_buffers[0] == GBuffer::sized(graphics.width, graphics.height),
            scene@.g_buffers[1] == GBuffer::sized(graphics.width, graphics.height),
            scene@.origin_texture == RayBuffer::<T>::origin_sized(graphics.width, graphics.height),
            scene@.direction_texture == RayBuffer::<T>::direction_sized(
                graphics.width,
                graphics.height,
            ),
            scene@.world == seq![identity],
    {
        let mut accel_struct: Vec<u32> = Vec::new();
        let mut i: usize = 0;
        while i < ACCEL_STRUCT_WORDS
            invariant
                i <= ACCEL_STRUCT_WORDS,
                accel_struct@.len() == i,
                forall|k: int| 0 <= k < accel_struct@.len() ==> accel_struct@[k] == 0,
            decreases ACCEL_STRUCT_WORDS - i,
        {
            accel_struct.push(0);
            i = i + 1;
        }
        let ray_buffer = RayBuffer::new(graphics, 0, identity);
        assert(ray_buffer.world_tsfs@ =~= seq![identity]);
        let scene = Scene {
            root_count: 0,
            world_deque: VecDeque::new(),
            nodes: Vec::new(),
            meshes: Vec::new(),
            inst_props: Vec::new(),
            ray_buffer,
            accel_struct,
            identity,
            allocated: Ghost(Seq::empty()),
        };
        scene
    }

    /// The number of roots.
    pub fn root_count(&self) -> (n: usize)
        ensures
            n == self@.roots,
    {
        self.root_count
    }

    /// The nodes of the transform tree.
    pub fn nodes(&self) -> (nodes: &Vec<LocalNode<T>>)
        ensures
            nodes@ == self@.graph,
    {
        &self.nodes
    }

    /// The registered meshes.
    pub fn meshes(&self) -> (meshes: &Vec<Mesh>)
        ensures
            meshes@ == self@.meshes,
    {
        &self.meshes
    }

    /// The instance properties of the registered meshes.
    pub fn inst_props(&self) -> (props: &Vec<Properties>)
        ensures
            props@ == self@.props,
    {
        &self.inst_props
    }

    /// The ray buffer.
    pub fn ray_buffer(&self) -> (ray_buffer: &RayBuffer<T>)
        ensures
            self.has_ray_buffer(*ray_buffer),
    {
        &self.ray_buffer
    }

    /// The words of the acceleration structure.
    pub fn accel_struct(&self) -> (words: &Vec<u32>)
        ensures
            words@ == self@.accel,
    {
        &self.accel_struct
    }
}

/// Whether `nodes`, with its first `root_count` nodes as roots, is a forest
/// in level order.
pub fn is_level_order<T>(root_count: usize, nodes: &Vec<LocalNode<T>>) -> (ok: bool)
    ensures
        ok == level_order(nodes@, root_count as int),
{
    let n = nodes.len();
    if root_count > n {
        return false;
    }
    let mut end: usize = root_count;
    let mut k: usize = 0;
    while k < n
        invariant
            n == nodes@.len(),
            root_count <= n,
            k <= n,
            end == child_end(nodes@, root_count as int, k as int),
            end <= n,
            forall|j: int|
                root_count <= j < k ==> j < #[trigger] child_end(nodes@, root_count as int, j),
        decreases n - k,
    {
        if k >= root_count && k >= end {
            return false;
        }
        let count = nodes[k].child_count;
        if count > n - end {
            proof {
                lemma_child_end_monotone(nodes@, root_count as int, k + 1, n as int);
            }
            return false;
        }
        end = end + count;
        k = k + 1;
    }
    end == n
}

/// What one propagation did: the slots it wrote, in rising order, the number
/// of child blocks it took off the queue, and the number of nodes it visited.
#[derive(Debug)]
pub struct Propagation {
    pub written: Vec<usize>,
    pub blocks: usize,
    pub visited: usize,
}

/// The queue holds, in the order of `ids`, the world nodes of the nodes
/// `ids`, and `ids` are the nodes from `lo` up to `hi` that have children.
spec fn queue_tracks<T, F: Fn(T, T) -> T>(
    nodes: Seq<LocalNode<T>>,
    roots: int,
    compose: F,
    queue: Seq<WorldNode<T>>,
    ids: Seq<int>,
    lo: int,
    hi: int,
) -> bool {
    &&& queue.len() == ids.len()
    &&& forall|j: int|
        0 <= j < ids.len() ==> {
            &&& lo <= #[trigger] ids[j] < hi
            &&& nodes[ids[j]].child_count != 0
            &&& queue[j].child_count == nodes[ids[j]].child_count
            &&& queue[j].dirty == inherits_dirty(nodes, roots, ids[j])
            &&& is_world(nodes, roots, compose, ids[j], queue[j].tsf)
        }
    &&& forall|j: int, k: int| 0 <= j < k < ids.len() ==> ids[j] < ids[k]
    &&& forall|k: int| lo <= k < hi && (#[trigger] nodes[k]).child_count != 0 ==> ids.contains(k)
}

/// Visits node `i`, whose world node is `world`: writes its slot where it
/// inherits a dirty flag, and queues it where it has children.
fn visit<T: Copy, F: Fn(T, T) -> T>(
    nodes: &Vec<LocalNode<T>>,
    slots: &mut Vec<T>,
    queue: &mut VecDeque<WorldNode<T>>,
    written: &mut Vec<usize>,
    i: usize,
    world: WorldNode<T>,
    compose: &F,
    Ghost(roots): Ghost<int>,
    Ghost(before): Ghost<Seq<T>>,
    Ghost(ids): Ghost<Seq<int>>,
    Ghost(lo): Ghost<int>,
) -> (now: Ghost<Seq<int>>)
    requires
        i < nodes@.len() <= old(slots)@.len(),
        0 <= lo <= i,
        world.child_count == nodes@[i as int].child_count,
        world.dirty == inherits_dirty(nodes@, roots, i as int),
        is_world(nodes@, roots, *compose, i as int, world.tsf),
        queue_tracks(nodes@, roots, *compose, old(queue)@, ids, lo, i as int),
        propagated_upto(nodes@, roots, *compose, before, old(slots)@, i as int),
        lists_dirty_upto(nodes@, roots, old(written)@, i as int),
    ensures
        queue_tracks(nodes@, roots, *compose, final(queue)@, now@, lo, i + 1),
        propagated_upto(nodes@, roots, *compose, before, final(slots)@, i + 1),
        lists_dirty_upto(nodes@, roots, final(written)@, i + 1),
{
    let ghost mut now = ids;
    if world.dirty {
        slots.set(i, world.tsf);
        written.push(i);
        proof {
            let earlier = old(written)@;
            let later = written@;
            assert(later[earlier.len() as int] == i);
            assert forall|x: usize| x < i + 1 implies (#[trigger] later.contains(x)
                <==> inherits_dirty(nodes@, roots, x as int)) by {
                if x < i {
                    if earlier.contains(x) {
                        let j = choose|j: int| 0 <= j < earlier.len() && earlier[j] == x;
                        assert(later[j] == x);
                    }
                    if later.contains(x) {
                        let j = choose|j: int| 0 <= j < later.len() && later[j] == x;
                        assert(earlier[j] == x);
                    }
                }
            }
        }
    } else {
        proof {
            let earlier = old(written)@;
            if earlier.contains(i) {
                let j = choose|j: int| 0 <= j < earlier.len() && earlier[j] == i;
                assert(earlier[j] < i);
            }
        }
    }
    if world.child_count != 0 {
        queue.push_back(world);
        proof {
            now = ids.push(i as int);
            assert(now[ids.len() as int] == i);
            assert forall|k: int|
                lo <= k < i + 1 && (#[trigger] nodes@[k]).child_count != 0 implies now.contains(
                k,
            ) by {
                if k < i {
                    let j = choose|j: int| 0 <= j < ids.len() && ids[j] == k;
                    assert(now[j] == k);
                }
            }
        }
    }
    Ghost(now)
}

/// Of the first `k` nodes at most `k` have children.
proof fn lemma_internal_count_bound<T>(nodes: Seq<LocalNode<T>>, k: int)
    requires
        0 <= k,
    ensures
        0 <= internal_count(nodes, k) <= k,
    decreases k,
{
    if k > 0 {
        lemma_internal_count_bound(nodes, k - 1);
    }
}

impl<T: Copy> Scene<T> {
    /// Takes the children of `parent`, which is node `q`, from `offset` on:
    /// gives each its world transform, writes the slots of those that
    /// inherit a dirty flag, and queues those that have children. Returns
    /// where the block ends.
    fn update_children<F: Fn(T, T) -> T>(
        nodes: &Vec<LocalNode<T>>,
        slots: &mut Vec<T>,
        queue: &mut VecDeque<WorldNode<T>>,
        written: &mut Vec<usize>,
        offset: usize,
        parent: WorldNode<T>,
        compose: &F,
        Ghost(roots): Ghost<int>,
        Ghost(before): Ghost<Seq<T>>,
        Ghost(ids): Ghost<Seq<int>>,
        Ghost(q): Ghost<int>,
    ) -> (block: (usize, Ghost<Seq<int>>))
        requires
            level_order(nodes@, roots),
            nodes@.len() <= old(slots)@.len(),
            forall|a: T, b: T| compose.requires((a, b)),
            0 <= q < offset <= nodes@.len(),
            roots <= offset,
            offset == child_end(nodes@, roots, q),
            parent.child_count == nodes@[q].child_count,
            parent.dirty == inherits_dirty(nodes@, roots, q),
            is_world(nodes@, roots, *compose, q, parent.tsf),
            queue_tracks(nodes@, roots, *compose, old(queue)@, ids, q + 1, offset as int),
            propagated_upto(nodes@, roots, *compose, before, old(slots)@, offset as int),
            lists_dirty_upto(nodes@, roots, old(written)@, offset as int),
        ensures
            block.0 == child_end(nodes@, roots, q + 1),
            block.0 == offset + parent.child_count,
            block.0 <= nodes@.len(),
            queue_tracks(nodes@, roots, *compose, final(queue)@, block.1@, q + 1, block.0 as int),
            propagated_upto(nodes@, roots, *compose, before, final(slots)@, block.0 as int),
            lists_dirty_upto(nodes@, roots, final(written)@, block.0 as int),
    {
        proof {
            lemma_child_end_monotone(nodes@, roots, 0, q);
            lemma_child_end_monotone(nodes@, roots, q + 1, nodes@.len() as int);
            assert(child_end(nodes@, roots, q + 1) == child_end(nodes@, roots, q)
                + nodes@[q].child_count);
        }
        let len: usize = nodes.len();
        assert(offset + parent.child_count <= len);
        let end: usize = offset + parent.child_count;
        let ghost mut now = ids;
        let mut i: usize = offset;
        while i < end
            invariant
                level_order(nodes@, roots),
                nodes@.len() <= slots@.len(),
                forall|a: T, b: T| compose.requires((a, b)),
                0 <= q < offset <= i <= end <= nodes@.len(),
                roots <= offset,
                offset == child_end(nodes@, roots, q),
                end == child_end(nodes@, roots, q + 1),
                parent.dirty == inherits_dirty(nodes@, roots, q),
                is_world(nodes@, roots, *compose, q, parent.tsf),
                queue_tracks(nodes@, roots, *compose, queue@, now, q + 1, i as int),
                propagated_upto(nodes@, roots, *compose, before, slots@, i as int),
                lists_dirty_upto(nodes@, roots, written@, i as int),
            decreases end - i,
        {
            let node = nodes[i];
            let world = parent.add_local(&node, compose);
            proof {
                assert(is_parent(nodes@, roots, q, i as int));
                lemma_path_of_child(nodes@, roots, q, i as int);
                lemma_path_nonempty(nodes@, roots, q);
                lemma_fold_push(
                    *compose,
                    path_transforms(nodes@, roots, q),
                    parent.tsf,
                    node.tsf,
                    world.tsf,
                );
            }
            let next = visit(
                nodes,
                slots,
                queue,
                written,
                i,
                world,
                compose,
                Ghost(roots),
                Ghost(before),
                Ghost(now),
                Ghost(q + 1),
            );
            proof {
                now = next@;
            }
            i = i + 1;
        }
        (end, Ghost(now))
    }
}

impl<T: Copy> Scene<T> {
    /// Propagates the local transforms of `nodes` into the world transforms
    /// `slots`: first the roots, then the child blocks in the order in which
    /// their parents were queued.
    fn propagate<F: Fn(T, T) -> T>(
        nodes: &Vec<LocalNode<T>>,
        root_count: usize,
        slots: &mut Vec<T>,
        queue: &mut VecDeque<WorldNode<T>>,
        compose: &F,
    ) -> (report: Propagation)
        requires
            level_order(nodes@, root_count as int),
            nodes@.len() <= old(slots)@.len(),
            forall|a: T, b: T| compose.requires((a, b)),
        ensures
            propagated_upto(
                nodes@,
                root_count as int,
                *compose,
                old(slots)@,
                final(slots)@,
                nodes@.len() as int,
            ),
            lists_dirty_upto(nodes@, root_count as int, report.written@, nodes@.len() as int),
            report.blocks == internal_count(nodes@, nodes@.len() as int),
            report.visited == nodes@.len(),
            final(queue)@.len() == 0,
    {
        let ghost roots = root_count as int;
        let ghost before = slots@;
        let ghost mut ids: Seq<int> = Seq::empty();
        let len: usize = nodes.len();
        let mut written: Vec<usize> = Vec::new();
        queue.clear();
        let mut i: usize = 0;
        while i < root_count
            invariant
                level_order(nodes@, roots),
                roots == root_count,
                len == nodes@.len(),
                i <= root_count <= len <= slots@.len(),
                queue_tracks(nodes@, roots, *compose, queue@, ids, 0, i as int),
                propagated_upto(nodes@, roots, *compose, before, slots@, i as int),
                lists_dirty_upto(nodes@, roots, written@, i as int),
            decreases root_count - i,
        {
            let node = nodes[i];
            let world = WorldNode::from_local(&node);
            proof {
                lemma_path_of_root(nodes@, roots, i as int);
            }
            let next = visit(
                nodes,
                slots,
                queue,
                &mut written,
                i,
                world,
                compose,
                Ghost(roots),
                Ghost(before),
                Ghost(ids),
                Ghost(0),
            );
            proof {
                ids = next@;
            }
            i = i + 1;
        }
        let mut offset: usize = root_count;
        let mut blocks: usize = 0;
        let ghost mut p: int = 0;
        loop
            invariant
                level_order(nodes@, roots),
                roots == root_count,
                len == nodes@.len(),
                len <= slots@.len(),
                forall|a: T, b: T| compose.requires((a, b)),
                0 <= p <= offset <= len,
                roots <= offset,
                offset == child_end(nodes@, roots, p),
                queue_tracks(nodes@, roots, *compose, queue@, ids, p, offset as int),
                propagated_upto(nodes@, roots, *compose, before, slots@, offset as int),
                lists_dirty_upto(nodes@, roots, written@, offset as int),
                blocks == internal_count(nodes@, p),
            ensures
                queue@.len() == 0,
            decreases len - p,
        {
            match queue.pop_front() {
                Some(parent) => {
                    let ghost q = ids[0];
                    let ghost rest = ids.subrange(1, ids.len() as int);
                    proof {
                        assert forall|k: int| p <= k < q implies (#[trigger] nodes@[k]).child_count
                            == 0 by {
                            if nodes@[k].child_count != 0 {
                                let j = choose|j: int| 0 <= j < ids.len() && ids[j] == k;
                                assert(ids[0] <= ids[j]);
                            }
                        }
                        lemma_leaves_flat(nodes@, roots, p, q);
                        lemma_internal_count_bound(nodes@, q);
                        assert forall|k: int|
                            q + 1 <= k < offset && (#[trigger] nodes@[k]).child_count
                                != 0 implies rest.contains(k) by {
                            let j = choose|j: int| 0 <= j < ids.len() && ids[j] == k;
                            assert(rest[j - 1] == k);
                        }
                        assert forall|j: int| 0 <= j < rest.len() implies q + 1 <= #[trigger] rest[j]
                            < offset by {
                            assert(ids[0] < ids[j + 1]);
                        }
                        assert(queue_tracks(
                            nodes@,
                            roots,
                            *compose,
                            queue@,
                            rest,
                            q + 1,
                            offset as int,
                        ));
                    }
                    let block = Self::update_children(
                        nodes,
                        slots,
                        queue,
                        &mut written,
                        offset,
                        parent,
                        compose,
                        Ghost(roots),
                        Ghost(before),
                        Ghost(rest),
                        Ghost(q),
                    );
                    offset = block.0;
                    blocks = blocks + 1;
                    proof {
                        ids = block.1@;
                        p = q + 1;
                    }
                },
                None => {
                    break ;
                },
            }
        }
        proof {
            assert forall|k: int| p <= k < offset implies (#[trigger] nodes@[k]).child_count
                == 0 by {
                if nodes@[k].child_count != 0 {
                    let j = choose|j: int| 0 <= j < ids.len() && ids[j] == k;
                }
            }
            lemma_leaves_flat(nodes@, roots, p, offset as int);
        }
        Propagation { written, blocks, visited: offset }
    }
}

/// Clears the dirty flag of every node.
fn clear_flags<T: Copy>(nodes: &mut Vec<LocalNode<T>>)
    ensures
        final(nodes)@ == flags_cleared(old(nodes)@),
{
    let len = nodes.len();
    let mut i: usize = 0;
    while i < len
        invariant
            len == nodes@.len() == old(nodes)@.len(),
            i <= len,
            forall|k: int| 0 <= k < i ==> nodes@[k] == flags_cleared(old(nodes)@)[k],
            forall|k: int| i <= k < len ==> nodes@[k] == old(nodes)@[k],
        decreases len - i,
    {
        let node = nodes[i];
        nodes.set(i, LocalNode { dirty: false, ..node });
        i = i + 1;
    }
    assert(nodes@ =~= flags_cleared(old(nodes)@));
}

impl<T: Copy> Scene<T> {
    /// Recomputes the world transform of every node and writes it into the
    /// node's instance slot where the node or one of its ancestors is dirty.
    /// `compose(parent, local)` gives the world transform of a child from its
    /// parent's world transform and its own local one; a root's world
    /// transform is its local one.
    ///
    /// Every node is visited, whether dirty or not, and each node with
    /// children takes one turn of the queue. Slots of nodes that inherit no
    /// dirty flag, and slots beyond the nodes, stay as they are. The report
    /// lists the written slots.
    ///
    /// With the propagation done, no transform has changed since: every
    /// dirty flag is cleared, and nothing else of a node changes. The queue
    /// of world nodes is left empty.
    pub fn update<F: Fn(T, T) -> T>(&mut self, compose: &F) -> (report: Propagation)
        requires
            old(self).wf(),
            forall|a: T, b: T| compose.requires((a, b)),
        ensures
            final(self).wf(),
            final(self)@ == (SceneView {
                graph: flags_cleared(old(self)@.graph),
                queue: Seq::empty(),
                world: final(self)@.world,
                ..old(self)@
            }),
            propagated_upto(
                old(self)@.graph,
                old(self)@.roots,
                *compose,
                old(self)@.world,
                final(self)@.world,
                old(self)@.graph.len() as int,
            ),
            lists_dirty_upto(
                old(self)@.graph,
                old(self)@.roots,
                report.written@,
                old(self)@.graph.len() as int,
            ),
            report.blocks == internal_count(old(self)@.graph, old(self)@.graph.len() as int),
            report.visited == old(self)@.graph.len(),
    {
        let report = Self::propagate(
            &self.nodes,
            self.root_count,
            &mut self.ray_buffer.world_tsfs,
            &mut self.world_deque,
            compose,
        );
        clear_flags(&mut self.nodes);
        proof {
            lemma_level_order_by_counts(old(self).nodes@, self.nodes@, self.root_count as int);
            assert(self.world_deque@ =~= Seq::empty());
        }
        report
    }

    /// Replaces the transform tree by `nodes`, whose first `root_count`
    /// nodes are the roots. The tree is taken over where it is a forest in
    /// level order that has an instance slot for each node; otherwise the
    /// scene stays as it is. Returns whether the tree was taken over.
    pub fn set_graph(&mut self, root_count: usize, nodes: Vec<LocalNode<T>>) -> (installed: bool)
        requires
            old(self).wf(),
        ensures
            final(self).wf(),
            installed == (level_order(nodes@, root_count as int) && nodes@.len() <= old(
                self,
            )@.world.len()),
            installed ==> final(self)@ == (SceneView {
                graph: nodes@,
                roots: root_count as int,
                ..old(self)@
            }),
            !installed ==> final(self)@ == old(self)@,
    {
        if nodes.len() > self.ray_buffer.world_tsfs.len() {
            return false;
        }
        if !is_level_order(root_count, &nodes) {
            return false;
        }
        self.root_count = root_count;
        self.nodes = nodes;
        true
    }

    /// Gives node `index` the local transform `tsf` and marks the node
    /// dirty. Returns `false`, and changes nothing, where there is no such
    /// node.
    pub fn set_transform(&mut self, index: usize, tsf: T) -> (found: bool)
        requires
            old(self).wf(),
        ensures
            final(self).wf(),
            found == (index < old(self)@.graph.len()),
            found ==> final(self)@ == (SceneView {
                graph: old(self)@.graph.update(
                    index as int,
                    LocalNode { tsf, dirty: true, ..old(self)@.graph[index as int] },
                ),
                ..old(self)@
            }),
            !found ==> final(self)@ == old(self)@,
    {
        if index >= self.nodes.len() {
            return false;
        }
        let node = self.nodes[index];
        let ghost before = self.nodes@;
        self.nodes.set(index, LocalNode { tsf, dirty: true, ..node });
        proof {
            lemma_level_order_by_counts(before, self.nodes@, self.root_count as int);
        }
        true
    }

    /// Sets or clears the dirty flag of node `index`. Returns `false`, and
    /// changes nothing, where there is no such node.
    pub fn set_dirty(&mut self, index: usize, dirty: bool) -> (found: bool)
        requires
            old(self).wf(),
        ensures
            final(self).wf(),
            found == (index < old(self)@.graph.len()),
            found ==> final(self)@ == (SceneView {
                graph: old(self)@.graph.update(
                    index as int,
                    LocalNode { dirty, ..old(self)@.graph[index as int] },
                ),
                ..old(self)@
            }),
            !found ==> final(self)@ == old(self)@,
    {
        if index >= self.nodes.len() {
            return false;
        }
        let node = self.nodes[index];
        let ghost before = self.nodes@;
        self.nodes.set(index, LocalNode { dirty, ..node });
        proof {
            lemma_level_order_by_counts(before, self.nodes@, self.root_count as int);
        }
        true
    }

    /// The shared transform buffer can take what `inst_param` asks for: a
    /// range of the caller's own always fits, an appended one where its end
    /// can be held in 32 bits.
    pub open spec fn has_room(&self, inst_param: Params) -> bool {
        inst_param.range is None ==> appended(
            self@.world.len() as int,
            inst_param.amt as int,
        ).1 <= u32::MAX
    }

    /// Whether `instantiate_mesh` can take `inst_param`.
    pub fn can_instantiate(&self, inst_param: &Params) -> (ok: bool)
        ensures
            ok == self.has_room(*inst_param),
    {
        match inst_param.range {
            Some(_) => true,
            None => append_range(self.ray_buffer.world_tsfs.len(), inst_param.amt).is_some(),
        }
    }

    /// Registers a mesh with `inst_param.amt` instances and returns its
    /// handle: the index of the mesh, and of its instance properties, in the
    /// scene's tables.
    ///
    /// Without a range of the caller's own, the instances are appended to
    /// the shared transform buffer: their range starts where the buffer
    /// ends, and the buffer grows by `amt` slots. With one, that range is
    /// kept as it is and the buffer keeps its size. Either way the ray
    /// buffer is rebuilt for the surface: every slot at the identity, the
    /// first attachment set selected.
    pub fn instantiate_mesh(
        &mut self,
        graphics: &Graphics,
        mesh: Mesh,
        inst_param: Params,
    ) -> (handle: usize)
        requires
            old(self).wf(),
            old(self).has_room(inst_param),
        ensures
            final(self).wf(),
            handle == old(self)@.meshes.len(),
            final(self)@.meshes == old(self)@.meshes.push(mesh),
            final(self)@.props.len() == handle + 1,
            final(self)@.props.subrange(0, handle as int) == old(self)@.props,
            final(self)@.props[handle as int].amt == inst_param.amt,
            final(self)@.props[handle as int].bin == inst_param.bin,
            final(self)@.props[handle as int].buffer == inst_param.buffer,
            match inst_param.range {
                Some(range) => {
                    &&& final(self)@.props[handle as int].start() == range[0]
                    &&& final(self)@.props[handle as int].end() == range[1]
                    &&& final(self)@.allocated == old(self)@.allocated
                    &&& final(self)@.world.len() == old(self)@.world.len()
                },
                None => {
                    &&& (
                        final(self)@.props[handle as int].start(),
                        final(self)@.props[handle as int].end(),
                    ) == appended(old(self)@.world.len() as int, inst_param.amt as int)
                    &&& final(self)@.allocated == old(self)@.allocated.push(handle as int)
                    &&& final(self)@.world.len() == old(self)@.world.len() + inst_param.amt
                },
            },
            forall|i: int|
                0 <= i < final(self)@.world.len() ==> final(self)@.world[i] == old(self)@.identity,
            final(self)@ == (SceneView {
                meshes: final(self)@.meshes,
                props: final(self)@.props,
                allocated: final(self)@.allocated,
                world: final(self)@.world,
                g_buffer_ind: 0,
                g_buffers: final(self)@.g_buffers,
                origin_texture: final(self)@.origin_texture,
                direction_texture: final(self)@.direction_texture,
                ..old(self)@
            }),
            final(self)@.g_buffers[0] == GBuffer::sized(graphics.width, graphics.height),
            final(self)@.g_buffers[1] == GBuffer::sized(graphics.width, graphics.height),
            final(self)@.origin_texture == RayBuffer::<T>::origin_sized(
                graphics.width,
                graphics.height,
            ),
            final(self)@.direction_texture == RayBuffer::<T>::direction_sized(
                graphics.width,
                graphics.height,
            ),
    {
        let count = self.ray_buffer.world_tsfs.len();
        let handle = self.meshes.len();
        let ghost before = self.inst_props@;
        let ghost chosen = self.allocated@;
        let slots: usize;
        let range: [u32; 2];
        match inst_param.range {
            Some(r) => {
                range = r;
                slots = count;
            },
            None => {
                range = append_range(count, inst_param.amt).unwrap();
                slots = count + inst_param.amt as usize;
                proof {
                    self.allocated@ = chosen.push(handle as int);
                }
            },
        }
        self.inst_props.push(
            Properties {
                amt: inst_param.amt,
                bin: inst_param.bin,
                buffer: inst_param.buffer,
                range,
            },
        );
        self.meshes.push(mesh);
        self.ray_buffer = RayBuffer::new(graphics, slots, self.identity);
        proof {
            assert(self.inst_props@.subrange(0, handle as int) =~= before);
            assert(count * INST_SIZE <= slots * INST_SIZE) by (nonlinear_arith)
                requires
                    count <= slots,
            ;
        }
        handle
    }

    /// Rebuilds what depends on the extent of the surface: the ray buffer,
    /// with every slot at the identity and the first attachment set
    /// selected. A degenerate extent is ignored: the scene stays as it is.
    /// Returns whether the ray buffer was rebuilt.
    pub fn resize(&mut self, graphics: &Graphics) -> (rebuilt: bool)
        requires
            old(self).wf(),
        ensures
            final(self).wf(),
            rebuilt == !Graphics::degenerate(graphics.width, graphics.height),
            !rebuilt ==> final(self)@ == old(self)@,
            rebuilt ==> {
                &&& final(self)@ == (SceneView {
                    world: final(self)@.world,
                    g_buffer_ind: 0,
                    g_buffers: final(self)@.g_buffers,
                    origin_texture: final(self)@.origin_texture,
                    direction_texture: final(self)@.direction_texture,
                    ..old(self)@
                })
                &&& final(self)@.world.len() == old(self)@.world.len()
                &&& forall|i: int|
                    0 <= i < final(self)@.world.len() ==> final(self)@.world[i] == old(
                        self,
                    )@.identity
                &&& final(self)@.g_buffers[0] == GBuffer::sized(graphics.width, graphics.height)
                &&& final(self)@.g_buffers[1] == GBuffer::sized(graphics.width, graphics.height)
                &&& final(self)@.origin_texture == RayBuffer::<T>::origin_sized(
                    graphics.width,
                    graphics.height,
                )
                &&& final(self)@.direction_texture == RayBuffer::<T>::direction_sized(
                    graphics.width,
                    graphics.height,
                )
            },
    {
        if graphics.width == 0 || graphics.height == 0 {
            return false;
        }
        let slots = self.ray_buffer.world_tsfs.len();
        self.ray_buffer = RayBuffer::new(graphics, slots, self.identity);
        true
    }

    /// Trades the places of the two attachment sets of the ray buffer.
    pub(crate) fn toggle_g_buffer(&mut self)
        requires
            old(self).wf(),
        ensures
            final(self).wf(),
            final(self)@ == (SceneView {
                g_buffer_ind: (1 - old(self)@.g_buffer_ind) as usize,
                ..old(self)@
            }),
    {
        self.ray_buffer.toggle();
    }
}

} // verus!
