//! The flattened transform tree: nodes in level order, and what that order
//! means.
//!
//! All nodes lie in one array. The roots come first. After them come the
//! children of each node that has any, block after block, in the order in
//! which those nodes themselves lie in the array. A node holds no reference
//! to another: the block of a node's children starts where the blocks of all
//! nodes before it end.

use vstd::prelude::*;

verus! {

/// A node of the scene graph: its transform relative to its parent, the
/// number of its children, the mesh it places, and whether its transform
/// changed since it was last propagated.
#[derive(Clone, Copy, Debug)]
pub struct LocalNode<T> {
    pub child_count: usize,
    pub tsf: T,
    pub mesh: usize,
    pub dirty: bool,
}

/// A node as propagation sees it: its transform relative to the world, and
/// whether that transform has to be written out.
#[derive(Clone, Copy, Debug)]
pub struct WorldNode<T> {
    pub child_count: usize,
    pub tsf: T,
    pub dirty: bool,
}

impl<T: Copy> WorldNode<T> {
    /// A root as a world node: its local transform is its world transform.
    pub fn from_local(local: &LocalNode<T>) -> (world: WorldNode<T>)
        ensures
            world.child_count == local.child_count,
            world.tsf == local.tsf,
            world.dirty == local.dirty,
    {
        WorldNode { child_count: local.child_count, tsf: local.tsf, dirty: local.dirty }
    }

    /// A child of `self` as a world node: `compose` of the parent's world
    /// transform and the child's local one, dirty where either is.
    pub fn add_local<F: Fn(T, T) -> T>(
        &self,
        local: &LocalNode<T>,
        compose: &F,
    ) -> (world: WorldNode<T>)
        requires
            compose.requires((self.tsf, local.tsf)),
        ensures
            world.child_count == local.child_count,
            compose.ensures((self.tsf, local.tsf), world.tsf),
            world.dirty == (self.dirty || local.dirty),
    {
        WorldNode {
            child_count: local.child_count,
            tsf: compose(self.tsf, local.tsf),
            dirty: self.dirty || local.dirty,
        }
    }
}

/// Where the child blocks of the first `k` nodes end: the number of roots
/// plus the child counts of those nodes. The children of node `k` lie from
/// here up to `child_end(nodes, roots, k + 1)`.
pub open spec fn child_end<T>(nodes: Seq<LocalNode<T>>, roots: int, k: int) -> int
    decreases k,
{
    if k <= 0 {
        roots
    } else {
        child_end(nodes, roots, k - 1) + nodes[k - 1].child_count
    }
}

/// The array is a forest in level order: the roots fit, every other node
/// lies in the child block of a node before it, and the blocks cover the
/// array exactly.
pub open spec fn level_order<T>(nodes: Seq<LocalNode<T>>, roots: int) -> bool {
    &&& 0 <= roots <= nodes.len()
    &&& child_end(nodes, roots, nodes.len() as int) == nodes.len()
    &&& forall|k: int| roots <= k < nodes.len() ==> k < #[trigger] child_end(nodes, roots, k)
}

/// Node `c` lies in the child block of node `p`.
pub open spec fn is_parent<T>(nodes: Seq<LocalNode<T>>, roots: int, p: int, c: int) -> bool {
    0 <= p < c && child_end(nodes, roots, p) <= c < child_end(nodes, roots, p + 1)
}

/// The parent of a node that is no root.
pub open spec fn parent_of<T>(nodes: Seq<LocalNode<T>>, roots: int, c: int) -> int {
    choose|p: int| is_parent(nodes, roots, p, c)
}

/// The nodes from a root down to node `i`, both included.
pub open spec fn root_path<T>(nodes: Seq<LocalNode<T>>, roots: int, i: int) -> Seq<int>
    decreases i,
{
    let p = parent_of(nodes, roots, i);
    if i < roots || !(0 <= p < i) {
        seq![i]
    } else {
        root_path(nodes, roots, p).push(i)
    }
}

/// The local transforms along the path from a root down to node `i`.
pub open spec fn path_transforms<T>(nodes: Seq<LocalNode<T>>, roots: int, i: int) -> Seq<T> {
    let path = root_path(nodes, roots, i);
    Seq::new(path.len(), |k: int| nodes[path[k]].tsf)
}

/// Node `i` or one of its ancestors has its dirty flag set.
pub open spec fn inherits_dirty<T>(nodes: Seq<LocalNode<T>>, roots: int, i: int) -> bool {
    let path = root_path(nodes, roots, i);
    exists|k: int| 0 <= k < path.len() && nodes[#[trigger] path[k]].dirty
}

/// `w` is a product of the transforms `ts`, taken from left to right: with
/// one transform the transform itself, with more what `compose` may return
/// for a product of all but the last and the last.
pub open spec fn folds_to<T, F: Fn(T, T) -> T>(compose: F, ts: Seq<T>, w: T) -> bool
    decreases ts.len(),
{
    if ts.len() == 0 {
        false
    } else if ts.len() == 1 {
        w == ts[0]
    } else {
        exists|p: T|
            folds_to(compose, ts.drop_last(), p) && #[trigger] compose.ensures((p, ts.last()), w)
    }
}

/// `w` is a world transform of node `i`: a product of the local transforms
/// along its root path, from the root to the node.
pub open spec fn is_world<T, F: Fn(T, T) -> T>(
    nodes: Seq<LocalNode<T>>,
    roots: int,
    compose: F,
    i: int,
    w: T,
) -> bool {
    folds_to(compose, path_transforms(nodes, roots, i), w)
}

/// How many of the first `k` nodes have children.
pub open spec fn internal_count<T>(nodes: Seq<LocalNode<T>>, k: int) -> int
    decreases k,
{
    if k <= 0 {
        0
    } else {
        internal_count(nodes, k - 1) + if nodes[k - 1].child_count != 0 {
            1int
        } else {
            0int
        }
    }
}

/// The world transforms `now` are what propagation over the first `k` nodes
/// leaves of `before`: the slot of each of those nodes that inherits a dirty
/// flag holds a world transform of the node, and every other slot is as it
/// was.
pub open spec fn propagated_upto<T, F: Fn(T, T) -> T>(
    nodes: Seq<LocalNode<T>>,
    roots: int,
    compose: F,
    before: Seq<T>,
    now: Seq<T>,
    k: int,
) -> bool {
    &&& now.len() == before.len()
    &&& forall|i: int|
        0 <= i < k && i < now.len() ==> if inherits_dirty(nodes, roots, i) {
            is_world(nodes, roots, compose, i, #[trigger] now[i])
        } else {
            now[i] == before[i]
        }
    &&& forall|i: int| k <= i < now.len() ==> #[trigger] now[i] == before[i]
}

/// `written` lists, in rising order, exactly those of the first `k` nodes
/// that inherit a dirty flag.
pub open spec fn lists_dirty_upto<T>(
    nodes: Seq<LocalNode<T>>,
    roots: int,
    written: Seq<usize>,
    k: int,
) -> bool {
    &&& forall|j: int| 0 <= j < written.len() ==> #[trigger] written[j] < k
    &&& forall|j: int, l: int| 0 <= j < l < written.len() ==> written[j] < written[l]
    &&& forall|i: usize|
        i < k ==> (#[trigger] written.contains(i) <==> inherits_dirty(nodes, roots, i as int))
}

/// The nodes with every dirty flag cleared and nothing else changed.
pub open spec fn flags_cleared<T>(nodes: Seq<LocalNode<T>>) -> Seq<LocalNode<T>> {
    Seq::new(nodes.len(), |i: int| LocalNode { dirty: false, ..nodes[i] })
}

/// Block ends depend on the child counts alone.
pub proof fn lemma_child_end_by_counts<T>(
    a: Seq<LocalNode<T>>,
    b: Seq<LocalNode<T>>,
    roots: int,
    k: int,
)
    requires
        a.len() == b.len(),
        0 <= k <= a.len(),
        forall|i: int| 0 <= i < a.len() ==> (#[trigger] a[i]).child_count == b[i].child_count,
    ensures
        child_end(a, roots, k) == child_end(b, roots, k),
    decreases k,
{
    if k > 0 {
        lemma_child_end_by_counts(a, b, roots, k - 1);
        assert(a[k - 1].child_count == b[k - 1].child_count);
    }
}

/// Whether an array is a forest in level order depends on the child counts
/// alone.
pub proof fn lemma_level_order_by_counts<T>(
    a: Seq<LocalNode<T>>,
    b: Seq<LocalNode<T>>,
    roots: int,
)
    requires
        a.len() == b.len(),
        forall|i: int| 0 <= i < a.len() ==> (#[trigger] a[i]).child_count == b[i].child_count,
        level_order(a, roots),
    ensures
        level_order(b, roots),
{
    lemma_child_end_by_counts(a, b, roots, a.len() as int);
    assert forall|k: int| roots <= k < b.len() implies k < #[trigger] child_end(b, roots, k) by {
        lemma_child_end_by_counts(a, b, roots, k);
    }
}

/// Block ends never go down.
pub proof fn lemma_child_end_monotone<T>(nodes: Seq<LocalNode<T>>, roots: int, a: int, b: int)
    requires
        0 <= a <= b,
    ensures
        child_end(nodes, roots, a) <= child_end(nodes, roots, b),
    decreases b - a,
{
    if a < b {
        lemma_child_end_monotone(nodes, roots, a, b - 1);
    }
}

/// Nodes without children move neither the block end nor the count of
/// nodes with children.
pub proof fn lemma_leaves_flat<T>(nodes: Seq<LocalNode<T>>, roots: int, a: int, b: int)
    requires
        0 <= a <= b,
        forall|k: int| a <= k < b ==> (#[trigger] nodes[k]).child_count == 0,
    ensures
        child_end(nodes, roots, a) == child_end(nodes, roots, b),
        internal_count(nodes, a) == internal_count(nodes, b),
    decreases b - a,
{
    if a < b {
        lemma_leaves_flat(nodes, roots, a, b - 1);
        assert(nodes[b - 1].child_count == 0);
    }
}

/// A node lies in the child block of at most one node.
pub proof fn lemma_parent_unique<T>(nodes: Seq<LocalNode<T>>, roots: int, p: int, q: int, c: int)
    requires
        is_parent(nodes, roots, p, c),
        is_parent(nodes, roots, q, c),
    ensures
        p == q,
{
    if p < q {
        lemma_child_end_monotone(nodes, roots, p + 1, q);
    } else if q < p {
        lemma_child_end_monotone(nodes, roots, q + 1, p);
    }
}

/// Every node of a level-order array that is no root has a parent.
pub proof fn lemma_parent_exists<T>(nodes: Seq<LocalNode<T>>, roots: int, c: int)
    requires
        level_order(nodes, roots),
        roots <= c < nodes.len(),
    ensures
        is_parent(nodes, roots, parent_of(nodes, roots, c), c),
{
    let p = lemma_block_search(nodes, roots, c, c);
    assert(is_parent(nodes, roots, p, c));
}

/// Below a position whose block end lies beyond `c` there is a node whose
/// child block holds `c`.
proof fn lemma_block_search<T>(nodes: Seq<LocalNode<T>>, roots: int, c: int, k: int) -> (p: int)
    requires
        0 <= roots <= c,
        0 <= k <= c,
        c < child_end(nodes, roots, k),
    ensures
        0 <= p < k,
        child_end(nodes, roots, p) <= c < child_end(nodes, roots, p + 1),
    decreases k,
{
    if child_end(nodes, roots, k - 1) <= c {
        k - 1
    } else {
        lemma_block_search(nodes, roots, c, k - 1)
    }
}

/// The path of a root is the root alone.
pub proof fn lemma_path_of_root<T>(nodes: Seq<LocalNode<T>>, roots: int, i: int)
    requires
        0 <= i < roots,
    ensures
        root_path(nodes, roots, i) == seq![i],
        path_transforms(nodes, roots, i) == seq![nodes[i].tsf],
        inherits_dirty(nodes, roots, i) == nodes[i].dirty,
{
    let path = root_path(nodes, roots, i);
    assert(path == seq![i]);
    assert(path_transforms(nodes, roots, i) =~= seq![nodes[i].tsf]);
    if nodes[i].dirty {
        assert(nodes[path[0]].dirty);
    }
}

/// The path of a child is the path of its parent and then the child.
pub proof fn lemma_path_of_child<T>(nodes: Seq<LocalNode<T>>, roots: int, p: int, c: int)
    requires
        roots <= c,
        is_parent(nodes, roots, p, c),
    ensures
        parent_of(nodes, roots, c) == p,
        root_path(nodes, roots, c) == root_path(nodes, roots, p).push(c),
        path_transforms(nodes, roots, c) == path_transforms(nodes, roots, p).push(nodes[c].tsf),
        inherits_dirty(nodes, roots, c) == (inherits_dirty(nodes, roots, p) || nodes[c].dirty),
{
    let q = parent_of(nodes, roots, c);
    lemma_parent_unique(nodes, roots, p, q, c);
    let up = root_path(nodes, roots, p);
    let down = root_path(nodes, roots, c);
    assert(down == up.push(c));
    assert(path_transforms(nodes, roots, c) =~= path_transforms(nodes, roots, p).push(
        nodes[c].tsf,
    ));
    if inherits_dirty(nodes, roots, p) {
        let k = choose|k: int| 0 <= k < up.len() && nodes[#[trigger] up[k]].dirty;
        assert(nodes[down[k]].dirty);
    }
    if nodes[c].dirty {
        assert(nodes[down[up.len() as int]].dirty);
    }
    if inherits_dirty(nodes, roots, c) {
        let k = choose|k: int| 0 <= k < down.len() && nodes[#[trigger] down[k]].dirty;
        if k < up.len() {
            assert(nodes[up[k]].dirty);
        }
    }
}

/// The world transform of a root is its local transform.
pub proof fn lemma_world_of_root<T, F: Fn(T, T) -> T>(
    nodes: Seq<LocalNode<T>>,
    roots: int,
    compose: F,
    i: int,
    w: T,
)
    requires
        0 <= i < roots,
    ensures
        is_world(nodes, roots, compose, i, w) <==> w == nodes[i].tsf,
{
    lemma_path_of_root(nodes, roots, i);
}

/// The world transforms of a child are what `compose` may return for a world
/// transform of its parent and the child's local transform.
pub proof fn lemma_world_of_child<T, F: Fn(T, T) -> T>(
    nodes: Seq<LocalNode<T>>,
    roots: int,
    compose: F,
    p: int,
    c: int,
    w: T,
)
    requires
        roots <= c,
        is_parent(nodes, roots, p, c),
    ensures
        is_world(nodes, roots, compose, c, w) <==> exists|pw: T|
            is_world(nodes, roots, compose, p, pw) && #[trigger] compose.ensures(
                (pw, nodes[c].tsf),
                w,
            ),
{
    lemma_path_of_child(nodes, roots, p, c);
    lemma_path_nonempty(nodes, roots, p);
    let up = path_transforms(nodes, roots, p);
    let down = path_transforms(nodes, roots, c);
    assert(down.drop_last() =~= up);
    assert(down.last() == nodes[c].tsf);
}

/// A path holds at least its own node.
pub proof fn lemma_path_nonempty<T>(nodes: Seq<LocalNode<T>>, roots: int, i: int)
    ensures
        root_path(nodes, roots, i).len() >= 1,
        root_path(nodes, roots, i).last() == i,
        path_transforms(nodes, roots, i).len() == root_path(nodes, roots, i).len(),
    decreases i,
{
    let p = parent_of(nodes, roots, i);
    if !(i < roots || !(0 <= p < i)) {
        lemma_path_nonempty(nodes, roots, p);
    }
}

/// A product of transforms, composed with one more transform on the right,
/// is a product of the longer sequence.
pub proof fn lemma_fold_push<T, F: Fn(T, T) -> T>(compose: F, ts: Seq<T>, p: T, x: T, w: T)
    requires
        folds_to(compose, ts, p),
        compose.ensures((p, x), w),
    ensures
        folds_to(compose, ts.push(x), w),
{
    let longer = ts.push(x);
    assert(longer.drop_last() =~= ts);
    assert(longer.last() == x);
    assert(ts.len() >= 1);
}

/// A path holds no node beyond its own.
pub proof fn lemma_path_bounded<T>(nodes: Seq<LocalNode<T>>, roots: int, i: int, k: int)
    requires
        0 <= i,
        0 <= k < root_path(nodes, roots, i).len(),
    ensures
        0 <= root_path(nodes, roots, i)[k] <= i,
    decreases i,
{
    let p = parent_of(nodes, roots, i);
    if !(i < roots || !(0 <= p < i)) {
        if k < root_path(nodes, roots, p).len() {
            lemma_path_bounded(nodes, roots, p, k);
        }
    }
}

/// Where no node is dirty, no node inherits a dirty flag.
pub proof fn lemma_clean_tree_inherits_nothing<T>(nodes: Seq<LocalNode<T>>, roots: int, i: int)
    requires
        0 <= i < nodes.len(),
        forall|k: int| 0 <= k < nodes.len() ==> !(#[trigger] nodes[k]).dirty,
    ensures
        !inherits_dirty(nodes, roots, i),
{
    if inherits_dirty(nodes, roots, i) {
        let path = root_path(nodes, roots, i);
        let k = choose|k: int| 0 <= k < path.len() && nodes[#[trigger] path[k]].dirty;
        lemma_path_bounded(nodes, roots, i, k);
    }
}

/// Where no node is dirty, propagation leaves every world transform as it
/// was. So it is after a propagation, which clears every flag: a second one
/// that follows at once changes no slot.
pub proof fn lemma_clean_tree_keeps_world<T, F: Fn(T, T) -> T>(
    nodes: Seq<LocalNode<T>>,
    roots: int,
    compose: F,
    before: Seq<T>,
    now: Seq<T>,
)
    requires
        propagated_upto(nodes, roots, compose, before, now, nodes.len() as int),
        forall|k: int| 0 <= k < nodes.len() ==> !(#[trigger] nodes[k]).dirty,
    ensures
        now == before,
{
    assert forall|i: int| 0 <= i < now.len() implies now[i] == before[i] by {
        if i < nodes.len() {
            lemma_clean_tree_inherits_nothing(nodes, roots, i);
        }
    }
    assert(now =~= before);
}

/// A propagation that follows one that cleared the flags writes nothing
/// and leaves every world transform as it was.
pub proof fn lemma_second_propagation_is_idle<T, F: Fn(T, T) -> T>(
    nodes: Seq<LocalNode<T>>,
    roots: int,
    compose: F,
    before: Seq<T>,
    now: Seq<T>,
    written: Seq<usize>,
)
    requires
        propagated_upto(
            flags_cleared(nodes),
            roots,
            compose,
            before,
            now,
            nodes.len() as int,
        ),
        lists_dirty_upto(flags_cleared(nodes), roots, written, nodes.len() as int),
    ensures
        written.len() == 0,
        now == before,
{
    lemma_clean_tree_writes_nothing(flags_cleared(nodes), roots, written);
    lemma_clean_tree_keeps_world(flags_cleared(nodes), roots, compose, before, now);
}

/// Where no node is dirty, propagation writes nothing.
pub proof fn lemma_clean_tree_writes_nothing<T>(
    nodes: Seq<LocalNode<T>>,
    roots: int,
    written: Seq<usize>,
)
    requires
        lists_dirty_upto(nodes, roots, written, nodes.len() as int),
        forall|i: int| 0 <= i < nodes.len() ==> !(#[trigger] nodes[i]).dirty,
    ensures
        written.len() == 0,
{
    if written.len() > 0 {
        let x = written[0];
        assert(written.contains(x));
        lemma_clean_tree_inherits_nothing(nodes, roots, x as int);
    }
}

/// A node is written exactly where it or one of its ancestors is dirty: a
/// root where it is dirty itself, any other node where it is dirty itself or
/// its parent is written.
pub proof fn lemma_written_iff_dirty_above<T>(
    nodes: Seq<LocalNode<T>>,
    roots: int,
    written: Seq<usize>,
    i: usize,
)
    requires
        level_order(nodes, roots),
        lists_dirty_upto(nodes, roots, written, nodes.len() as int),
        i < nodes.len(),
    ensures
        i < roots ==> (written.contains(i) <==> nodes[i as int].dirty),
        roots <= i ==> (written.contains(i) <==> nodes[i as int].dirty || written.contains(
            parent_of(nodes, roots, i as int) as usize,
        )),
{
    if i < roots {
        lemma_path_of_root(nodes, roots, i as int);
    } else {
        lemma_parent_exists(nodes, roots, i as int);
        let p = parent_of(nodes, roots, i as int);
        lemma_path_of_child(nodes, roots, p, i as int);
        assert(written.contains(p as usize) <==> inherits_dirty(nodes, roots, p as usize as int));
    }
}

/// With a composition that returns one value for each pair of transforms, a
/// sequence of transforms has one product.
pub proof fn lemma_product_unique<T, F: Fn(T, T) -> T>(compose: F, ts: Seq<T>, v: T, w: T)
    requires
        forall|a: T, b: T, r: T, s: T|
            #[trigger] compose.ensures((a, b), r) && #[trigger] compose.ensures((a, b), s) ==> r
                == s,
        folds_to(compose, ts, v),
        folds_to(compose, ts, w),
    ensures
        v == w,
    decreases ts.len(),
{
    if ts.len() >= 2 {
        let p = choose|p: T|
            folds_to(compose, ts.drop_last(), p) && #[trigger] compose.ensures((p, ts.last()), v);
        let q = choose|q: T|
            folds_to(compose, ts.drop_last(), q) && #[trigger] compose.ensures((q, ts.last()), w);
        lemma_product_unique(compose, ts.drop_last(), p, q);
    }
}

} // verus!
