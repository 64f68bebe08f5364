use vstd::prelude::*;

use super::{seq_sum, NodeData, OctreeData};
use crate::constants::{
    axis_number, neighbor_texture_index, other_axes, spec_neighbor_texture_index, Axis,
    Direction, Sign,
};

verus! {

/// Which attribute of the brick pool a pass works on.
#[derive(Debug, Clone, Copy, PartialEq, Eq, Structural)]
pub enum BrickPoolValues {
    Colors,
    Normals,
}

/// One GPU pass of the brick part of building an octree, once its nodes
/// exist. Levels are octree levels, the root being level `0`.
#[derive(Debug, Clone, Copy, PartialEq, Eq, Structural)]
pub enum BuildStep {
    /// Writes the voxel fragments into the bricks of the leaves.
    WriteLeafNodes,
    /// Spreads the leaf values over their whole bricks.
    SpreadLeafBricks(BrickPoolValues),
    /// Makes the voxels shared by neighbouring bricks of a level agree, over
    /// the geometry nodes of the level and then over its border nodes.
    BorderTransfer(u32, BrickPoolValues),
    /// Fills the centre voxel of every brick of a level from its children.
    MipmapCenter(u32, BrickPoolValues),
    /// Fills the face voxels of every brick of a level from its children.
    MipmapFaces(u32, BrickPoolValues),
    /// Fills the corner voxels of every brick of a level from its children.
    MipmapCorners(u32, BrickPoolValues),
    /// Fills the edge voxels of every brick of a level from its children.
    MipmapEdges(u32, BrickPoolValues),
}

/// The passes that fill the bricks of level `level` from the level below it:
/// the four mipmap passes on colours, then on normals, then, except for the
/// root, a border transfer of colours and of normals.
pub open spec fn mipmap_level_steps(level: u32) -> Seq<BuildStep> {
    seq![
        BuildStep::MipmapCenter(level, BrickPoolValues::Colors),
        BuildStep::MipmapFaces(level, BrickPoolValues::Colors),
        BuildStep::MipmapCorners(level, BrickPoolValues::Colors),
        BuildStep::MipmapEdges(level, BrickPoolValues::Colors),
        BuildStep::MipmapCenter(level, BrickPoolValues::Normals),
        BuildStep::MipmapFaces(level, BrickPoolValues::Normals),
        BuildStep::MipmapCorners(level, BrickPoolValues::Normals),
        BuildStep::MipmapEdges(level, BrickPoolValues::Normals),
    ] + if level > 0 {
        seq![
            BuildStep::BorderTransfer(level, BrickPoolValues::Colors),
            BuildStep::BorderTransfer(level, BrickPoolValues::Normals),
        ]
    } else {
        Seq::empty()
    }
}

/// The mipmap passes of levels `levels - 1` down to `0`, in that order.
pub open spec fn mipmap_steps(levels: nat) -> Seq<BuildStep>
    decreases levels,
{
    if levels == 0 {
        Seq::empty()
    } else {
        mipmap_level_steps((levels - 1) as u32) + mipmap_steps((levels - 1) as nat)
    }
}

/// The passes that fill the bricks of an octree of `octree_levels` levels:
/// the leaves are written and spread, their borders transferred, then every
/// upper level is mipmapped from the level below it, bottom up.
pub open spec fn spec_brick_build_plan(octree_levels: u32) -> Seq<BuildStep> {
    seq![
        BuildStep::WriteLeafNodes,
        BuildStep::SpreadLeafBricks(BrickPoolValues::Colors),
        BuildStep::SpreadLeafBricks(BrickPoolValues::Normals),
        BuildStep::BorderTransfer((octree_levels - 1) as u32, BrickPoolValues::Colors),
        BuildStep::BorderTransfer((octree_levels - 1) as u32, BrickPoolValues::Normals),
    ] + mipmap_steps((octree_levels - 1) as nat)
}

fn push_mipmap_level(plan: &mut Vec<BuildStep>, level: u32)
    ensures
        final(plan)@ == old(plan)@ + mipmap_level_steps(level),
{
    plan.push(BuildStep::MipmapCenter(level, BrickPoolValues::Colors));
    plan.push(BuildStep::MipmapFaces(level, BrickPoolValues::Colors));
    plan.push(BuildStep::MipmapCorners(level, BrickPoolValues::Colors));
    plan.push(BuildStep::MipmapEdges(level, BrickPoolValues::Colors));
    plan.push(BuildStep::MipmapCenter(level, BrickPoolValues::Normals));
    plan.push(BuildStep::MipmapFaces(level, BrickPoolValues::Normals));
    plan.push(BuildStep::MipmapCorners(level, BrickPoolValues::Normals));
    plan.push(BuildStep::MipmapEdges(level, BrickPoolValues::Normals));
    if level > 0 {
        plan.push(BuildStep::BorderTransfer(level, BrickPoolValues::Colors));
        plan.push(BuildStep::BorderTransfer(level, BrickPoolValues::Normals));
    }
    assert(final(plan)@ =~= old(plan)@ + mipmap_level_steps(level));
}

/// The passes, in order, that fill the bricks of an octree of
/// `octree_levels` levels once its nodes have been allocated.
pub fn brick_build_plan(octree_levels: u32) -> (plan: Vec<BuildStep>)
    requires
        octree_levels >= 1,
    ensures
        plan@ == spec_brick_build_plan(octree_levels),
        plan@.len() == if octree_levels == 1 {
            5
        } else {
            10 * octree_levels - 7
        },
        forall|level: u32|
            level + 1 < octree_levels ==> #[trigger] mipmap_passes_at(
                plan@,
                level_block_start(octree_levels, level),
                level,
            ),
        forall|level: u32|
            0 < level && level + 1 < octree_levels ==> #[trigger] border_transfers_at(
                plan@,
                level_block_start(octree_levels, level) + 8,
                level,
            ),
{
    proof {
        lemma_brick_build_plan_layout(octree_levels);
    }
    let last_level = octree_levels - 1;
    let mut plan: Vec<BuildStep> = Vec::new();
    plan.push(BuildStep::WriteLeafNodes);
    plan.push(BuildStep::SpreadLeafBricks(BrickPoolValues::Colors));
    plan.push(BuildStep::SpreadLeafBricks(BrickPoolValues::Normals));
    plan.push(BuildStep::BorderTransfer(last_level, BrickPoolValues::Colors));
    plan.push(BuildStep::BorderTransfer(last_level, BrickPoolValues::Normals));
    let ghost head = plan@;
    assert(head + mipmap_steps(last_level as nat) =~= spec_brick_build_plan(octree_levels));
    let mut remaining: u32 = last_level;
    while remaining > 0
        invariant
            remaining <= last_level,
            last_level == octree_levels - 1,
            plan@ + mipmap_steps(remaining as nat) == spec_brick_build_plan(octree_levels),
        decreases remaining,
    {
        let level = remaining - 1;
        let ghost before = plan@;
        push_mipmap_level(&mut plan, level);
        assert(mipmap_steps(remaining as nat) == mipmap_level_steps(level) + mipmap_steps(
            level as nat,
        ));
        assert(plan@ + mipmap_steps(level as nat) =~= before + mipmap_steps(remaining as nat));
        remaining = level;
    }
    assert(plan@ + mipmap_steps(0) =~= plan@);
    plan
}

/// `plan` holds, from position `start` on, the eight mipmap passes of level
/// `level`: centre, faces, corners and edges of the colours, then the same
/// four of the normals.
pub open spec fn mipmap_passes_at(plan: Seq<BuildStep>, start: int, level: u32) -> bool {
    &&& 0 <= start
    &&& start + 8 <= plan.len()
    &&& plan[start] == BuildStep::MipmapCenter(level, BrickPoolValues::Colors)
    &&& plan[start + 1] == BuildStep::MipmapFaces(level, BrickPoolValues::Colors)
    &&& plan[start + 2] == BuildStep::MipmapCorners(level, BrickPoolValues::Colors)
    &&& plan[start + 3] == BuildStep::MipmapEdges(level, BrickPoolValues::Colors)
    &&& plan[start + 4] == BuildStep::MipmapCenter(level, BrickPoolValues::Normals)
    &&& plan[start + 5] == BuildStep::MipmapFaces(level, BrickPoolValues::Normals)
    &&& plan[start + 6] == BuildStep::MipmapCorners(level, BrickPoolValues::Normals)
    &&& plan[start + 7] == BuildStep::MipmapEdges(level, BrickPoolValues::Normals)
}

/// `plan` holds, from position `start` on, the border transfers of level
/// `level`: colours, then normals.
pub open spec fn border_transfers_at(plan: Seq<BuildStep>, start: int, level: u32) -> bool {
    &&& 0 <= start
    &&& start + 2 <= plan.len()
    &&& plan[start] == BuildStep::BorderTransfer(level, BrickPoolValues::Colors)
    &&& plan[start + 1] == BuildStep::BorderTransfer(level, BrickPoolValues::Normals)
}

/// Where the passes of level `level` start in the plan of an octree of
/// `octree_levels` levels: after the five leaf passes, ten passes for each
/// level above the leaves and below `level`, bottom up.
pub open spec fn level_block_start(octree_levels: u32, level: u32) -> int {
    5 + 10 * (octree_levels - 2 - level)
}

proof fn lemma_mipmap_steps_layout(n: nat)
    requires
        1 <= n <= u32::MAX,
    ensures
        mipmap_steps(n).len() == 10 * n - 2,
        forall|level: u32|
            level < n ==> #[trigger] mipmap_passes_at(mipmap_steps(n), 10 * (n - 1 - level), level),
        forall|level: u32|
            0 < level < n ==> #[trigger] border_transfers_at(
                mipmap_steps(n),
                10 * (n - 1 - level) + 8,
                level,
            ),
    decreases n,
{
    let top = (n - 1) as u32;
    let head = mipmap_level_steps(top);
    let rest = mipmap_steps((n - 1) as nat);
    let all = mipmap_steps(n);
    assert(all == head + rest);
    lemma_mipmap_steps_len(n);
    assert(head.len() == if top > 0 { 10int } else { 8int });
    assert(mipmap_passes_at(all, 0, top)) by {
        assert(all[0] == head[0]);
        assert(all[1] == head[1]);
        assert(all[2] == head[2]);
        assert(all[3] == head[3]);
        assert(all[4] == head[4]);
        assert(all[5] == head[5]);
        assert(all[6] == head[6]);
        assert(all[7] == head[7]);
    }
    if top > 0 {
        assert(border_transfers_at(all, 8, top)) by {
            assert(all[8] == head[8]);
            assert(all[9] == head[9]);
        }
        lemma_mipmap_steps_layout((n - 1) as nat);
        assert forall|level: u32| level < n implies #[trigger] mipmap_passes_at(
            all,
            10 * (n - 1 - level),
            level,
        ) by {
            if level < top {
                let start = 10 * (n - 2 - level);
                assert(mipmap_passes_at(rest, start, level));
                assert(all[10 + start + 0] == rest[start + 0]);
                assert(all[10 + start + 1] == rest[start + 1]);
                assert(all[10 + start + 2] == rest[start + 2]);
                assert(all[10 + start + 3] == rest[start + 3]);
                assert(all[10 + start + 4] == rest[start + 4]);
                assert(all[10 + start + 5] == rest[start + 5]);
                assert(all[10 + start + 6] == rest[start + 6]);
                assert(all[10 + start + 7] == rest[start + 7]);
                assert(10 * (n - 1 - level) == 10 + start);
            }
        }
        assert forall|level: u32| 0 < level < n implies #[trigger] border_transfers_at(
            all,
            10 * (n - 1 - level) + 8,
            level,
        ) by {
            if level < top {
                let start = 10 * (n - 2 - level) + 8;
                assert(border_transfers_at(rest, start, level));
                assert(all[10 + start] == rest[start]);
                assert(all[10 + start + 1] == rest[start + 1]);
                assert(10 * (n - 1 - level) + 8 == 10 + start);
            }
        }
    } else {
        assert forall|level: u32| level < n implies #[trigger] mipmap_passes_at(
            all,
            10 * (n - 1 - level),
            level,
        ) by {
            assert(level == top);
        }
    }
}

/// The plan of an octree of `octree_levels` levels, pass by pass: the leaves
/// are written, their colours and normals spread and their borders
/// transferred; then, for every upper level from the deepest to the root,
/// its centre, faces, corners and edges are mipmapped on colours, then on
/// normals, followed, except at the root, by the border transfers of colours
/// and normals. Every position of the plan is one of these passes, so each
/// pass occurs exactly once.
pub proof fn lemma_brick_build_plan_layout(octree_levels: u32)
    requires
        octree_levels >= 1,
    ensures
        spec_brick_build_plan(octree_levels).len() == if octree_levels == 1 {
            5
        } else {
            10 * octree_levels - 7
        },
        spec_brick_build_plan(octree_levels)[0] == BuildStep::WriteLeafNodes,
        spec_brick_build_plan(octree_levels)[1] == BuildStep::SpreadLeafBricks(
            BrickPoolValues::Colors,
        ),
        spec_brick_build_plan(octree_levels)[2] == BuildStep::SpreadLeafBricks(
            BrickPoolValues::Normals,
        ),
        spec_brick_build_plan(octree_levels)[3] == BuildStep::BorderTransfer(
            (octree_levels - 1) as u32,
            BrickPoolValues::Colors,
        ),
        spec_brick_build_plan(octree_levels)[4] == BuildStep::BorderTransfer(
            (octree_levels - 1) as u32,
            BrickPoolValues::Normals,
        ),
        forall|level: u32|
            level + 1 < octree_levels ==> #[trigger] mipmap_passes_at(
                spec_brick_build_plan(octree_levels),
                level_block_start(octree_levels, level),
                level,
            ),
        forall|level: u32|
            0 < level && level + 1 < octree_levels ==> #[trigger] border_transfers_at(
                spec_brick_build_plan(octree_levels),
                level_block_start(octree_levels, level) + 8,
                level,
            ),
{
    let plan = spec_brick_build_plan(octree_levels);
    let n = (octree_levels - 1) as nat;
    let steps = mipmap_steps(n);
    if n == 0 {
        assert(steps.len() == 0);
    } else {
        lemma_mipmap_steps_layout(n);
        assert forall|level: u32| level + 1 < octree_levels implies #[trigger] mipmap_passes_at(
            plan,
            level_block_start(octree_levels, level),
            level,
        ) by {
            let start = 10 * (n - 1 - level);
            assert(mipmap_passes_at(steps, start, level));
            assert(plan[5 + start + 0] == steps[start + 0]);
            assert(plan[5 + start + 1] == steps[start + 1]);
            assert(plan[5 + start + 2] == steps[start + 2]);
            assert(plan[5 + start + 3] == steps[start + 3]);
            assert(plan[5 + start + 4] == steps[start + 4]);
            assert(plan[5 + start + 5] == steps[start + 5]);
            assert(plan[5 + start + 6] == steps[start + 6]);
            assert(plan[5 + start + 7] == steps[start + 7]);
        }
        assert forall|level: u32|
            0 < level && level + 1 < octree_levels implies #[trigger] border_transfers_at(
            plan,
            level_block_start(octree_levels, level) + 8,
            level,
        ) by {
            let start = 10 * (n - 1 - level) + 8;
            assert(border_transfers_at(steps, start, level));
            assert(plan[5 + start] == steps[start]);
            assert(plan[5 + start + 1] == steps[start + 1]);
        }
    }
}

/// Number of passes in the mipmap part of the plan: ten per level but the
/// root, which has no border transfer.
pub proof fn lemma_mipmap_steps_len(levels: nat)
    requires
        levels <= u32::MAX,
    ensures
        mipmap_steps(levels).len() == if levels == 0 {
            0
        } else {
            10 * levels - 2
        },
    decreases levels,
{
    if levels > 0 {
        lemma_mipmap_steps_len((levels - 1) as nat);
        let l = (levels - 1) as u32;
        assert(mipmap_level_steps(l).len() == if l > 0 {
            10int
        } else {
            8int
        });
    }
}

/// Every pass of the plan works on a level of the octree, and the levels are
/// mipmapped bottom up: the passes of level `l` come right after those of
/// level `l + 1`.
pub proof fn lemma_brick_build_plan_levels(octree_levels: u32, level: nat)
    requires
        octree_levels >= 1,
        level + 1 < octree_levels,
    ensures
        spec_brick_build_plan(octree_levels).len() == 5 + mipmap_steps(
            (octree_levels - 1) as nat,
        ).len(),
        mipmap_steps(level + 1) == mipmap_level_steps(level as u32) + mipmap_steps(level),
        forall|i: int|
            0 <= i < mipmap_steps((octree_levels - 1) as nat).len() ==> step_level(
                #[trigger] mipmap_steps((octree_levels - 1) as nat)[i],
            ) < octree_levels - 1,
{
    lemma_mipmap_steps_levels((octree_levels - 1) as nat);
}

/// Level a pass works on; the leaf passes work on no level in particular.
pub open spec fn step_level(step: BuildStep) -> int {
    match step {
        BuildStep::WriteLeafNodes => -1,
        BuildStep::SpreadLeafBricks(_) => -1,
        BuildStep::BorderTransfer(level, _) => level as int,
        BuildStep::MipmapCenter(level, _) => level as int,
        BuildStep::MipmapFaces(level, _) => level as int,
        BuildStep::MipmapCorners(level, _) => level as int,
        BuildStep::MipmapEdges(level, _) => level as int,
    }
}

/// The mipmap passes of the `levels` lowest-numbered levels all work on a
/// level below `levels`.
pub proof fn lemma_mipmap_steps_levels(levels: nat)
    ensures
        forall|i: int|
            0 <= i < mipmap_steps(levels).len() ==> step_level(#[trigger] mipmap_steps(levels)[i])
                < levels,
    decreases levels,
{
    if levels > 0 {
        let prev = (levels - 1) as nat;
        lemma_mipmap_steps_levels(prev);
        let l = (levels - 1) as u32;
        let head = mipmap_level_steps(l);
        assert forall|i: int| 0 <= i < mipmap_steps(levels).len() implies step_level(
            #[trigger] mipmap_steps(levels)[i],
        ) < levels by {
            if i < head.len() {
                assert(mipmap_steps(levels)[i] == head[i]);
            } else {
                assert(mipmap_steps(levels)[i] == mipmap_steps(prev)[i - head.len()]);
            }
        }
    }
}

/// `first_free + a0 + a1 + ...`: the first free node before each allocation
/// and after the last one, starting from `first_free`.
pub open spec fn allocation_starts(first_free: int, allocations: Seq<u32>) -> Seq<int>
    decreases allocations.len(),
{
    if allocations.len() == 0 {
        seq![first_free]
    } else {
        let before = allocation_starts(first_free, allocations.drop_last());
        before.push(before.last() + (allocations.last() as i32) as int)
    }
}

/// Index of the first node of the first level: `0` when the root is there,
/// `-1` when it is not.
pub open spec fn root_level_start(node_data: NodeData) -> int {
    if node_data.spec_nodes_per_level().len() > 0 && node_data.spec_nodes_per_level()[0] > 0 {
        0
    } else {
        -1
    }
}

/// The bookkeeping of allocating the nodes of an octree level by level: where
/// the next nodes go and where each level starts.
///
/// The GPU allocates the children of the nodes of one level at a time; after
/// each level the number it allocated is recorded here.
pub struct NodeAllocation {
    first_node_in_level: i32,
    first_free_node: i32,
    level_start_indices: Vec<i32>,
    root_start: Ghost<int>,
    initial_first_free_node: Ghost<int>,
    allocations: Ghost<Seq<u32>>,
}

impl NodeAllocation {
    /// Where the first level starts.
    pub closed spec fn spec_root_start(&self) -> int {
        self.root_start@
    }

    /// The first free node when the allocation started.
    pub closed spec fn spec_initial_first_free_node(&self) -> int {
        self.initial_first_free_node@
    }

    /// The node counts recorded so far, one per level below the first.
    pub closed spec fn spec_allocations(&self) -> Seq<u32> {
        self.allocations@
    }

    /// First free node after the allocations recorded so far.
    pub open spec fn spec_first_free_node(&self) -> int {
        allocation_starts(self.spec_initial_first_free_node(), self.spec_allocations()).last()
    }

    /// First node of the last level recorded (`0` before any).
    pub open spec fn spec_first_node_in_level(&self) -> int {
        let k = self.spec_allocations().len();
        if k == 0 {
            0
        } else {
            allocation_starts(self.spec_initial_first_free_node(), self.spec_allocations())[k - 1]
        }
    }

    /// Start of every level recorded so far, the first level included.
    pub open spec fn spec_level_start_indices(&self) -> Seq<int> {
        let k = self.spec_allocations().len();
        seq![self.spec_root_start()] + allocation_starts(
            self.spec_initial_first_free_node(),
            self.spec_allocations(),
        ).take(k as int)
    }

    pub closed spec fn wf(&self) -> bool {
        let starts = allocation_starts(self.initial_first_free_node@, self.allocations@);
        &&& starts.len() == self.allocations@.len() + 1
        &&& self.first_free_node == starts.last()
        &&& self.first_node_in_level == self.spec_first_node_in_level()
        &&& self.level_start_indices@.len() == self.allocations@.len() + 1
        &&& forall|j: int|
            0 <= j < self.level_start_indices@.len() ==> #[trigger] self.level_start_indices@[j]
                == self.spec_level_start_indices()[j]
    }

    /// Starts allocating below the first level of `node_data`, with the next
    /// nodes going at `first_free_node`.
    pub fn new(node_data: &NodeData, first_free_node: i32) -> (allocation: Self)
        ensures
            allocation.wf(),
            allocation.spec_root_start() == root_level_start(*node_data),
            allocation.spec_initial_first_free_node() == first_free_node,
            allocation.spec_allocations() == Seq::<u32>::empty(),
    {
        let first_level_start: i32 = if node_data.has_root() {
            0
        } else {
            -1
        };
        let mut level_start_indices: Vec<i32> = Vec::new();
        level_start_indices.push(first_level_start);
        let allocation = NodeAllocation {
            first_node_in_level: 0,
            first_free_node,
            level_start_indices,
            root_start: Ghost(first_level_start as int),
            initial_first_free_node: Ghost(first_free_node as int),
            allocations: Ghost(Seq::empty()),
        };
        assert(allocation_starts(first_free_node as int, Seq::empty()) == seq![
            first_free_node as int,
        ]);
        allocation
    }

    /// First node of the last level recorded; `0` before any.
    pub fn first_node_in_level(&self) -> (n: i32)
        requires
            self.wf(),
        ensures
            n == self.spec_first_node_in_level(),
    {
        self.first_node_in_level
    }

    /// Where the next nodes go.
    pub fn first_free_node(&self) -> (n: i32)
        requires
            self.wf(),
        ensures
            n == self.spec_first_free_node(),
    {
        self.first_free_node
    }

    /// Records that `nodes_allocated` nodes were allocated for the next level
    /// of `octree_data`: they start at the first free node, which moves past
    /// them.
    pub fn record_level(&mut self, octree_data: &mut OctreeData, nodes_allocated: u32)
        requires
            old(self).wf(),
            i32::MIN <= old(self).spec_first_free_node() + (nodes_allocated as i32) <= i32::MAX,
        ensures
            final(self).wf(),
            final(self).spec_root_start() == old(self).spec_root_start(),
            final(self).spec_initial_first_free_node() == old(self).spec_initial_first_free_node(),
            final(self).spec_allocations() == old(self).spec_allocations().push(nodes_allocated),
            final(self).spec_first_node_in_level() == old(self).spec_first_free_node(),
            final(self).spec_first_free_node() == old(self).spec_first_free_node() + (
            nodes_allocated as i32),
            final(self).spec_level_start_indices() == old(self).spec_level_start_indices().push(
                old(self).spec_first_free_node(),
            ),
            final(octree_data).spec_nodes_per_level() == old(octree_data).spec_nodes_per_level().push(
                nodes_allocated,
            ),
            *final(octree_data).spec_voxel_data() == *old(octree_data).spec_voxel_data(),
            final(octree_data).spec_node_data().spec_level_start_indices() == old(
                octree_data,
            ).spec_node_data().spec_level_start_indices(),
    {
        let ghost old_starts = allocation_starts(
            self.initial_first_free_node@,
            self.allocations@,
        );
        let ghost old_indices = self.spec_level_start_indices();
        octree_data.push_level(nodes_allocated);
        let previous_first_free_node = self.first_free_node;
        self.first_node_in_level = previous_first_free_node;
        self.first_free_node = previous_first_free_node + nodes_allocated as i32;
        self.level_start_indices.push(previous_first_free_node);
        proof {
            let new_allocations = self.allocations@.push(nodes_allocated);
            assert(new_allocations.drop_last() =~= self.allocations@);
            self.allocations = Ghost(new_allocations);
            let starts = allocation_starts(self.initial_first_free_node@, self.allocations@);
            assert(starts == old_starts.push(old_starts.last() + (nodes_allocated as i32) as int));
            let k = new_allocations.len();
            assert(starts.take(k as int) =~= old_starts);
            assert(old_starts.take((k - 1) as int).push(old_starts.last()) =~= old_starts);
            assert(self.spec_level_start_indices() =~= old_indices.push(old_starts.last()));
        }
    }

    /// Number of levels whose start is recorded: the first level and one
    /// more for every level allocated.
    pub fn levels_recorded(&self) -> (n: usize)
        requires
            self.wf(),
        ensures
            n == self.spec_allocations().len() + 1,
            n == self.spec_level_start_indices().len(),
    {
        self.level_start_indices.len()
    }

    /// The start of every level, and after them the first free node: the
    /// values handed to the level start indices texture.
    pub fn finish(self) -> (indices: Vec<i32>)
        requires
            self.wf(),
        ensures
            indices@.len() == self.spec_allocations().len() + 2,
            forall|j: int|
                0 <= j < indices@.len() ==> #[trigger] indices@[j] == self.spec_level_start_indices().push(
                    self.spec_first_free_node(),
                )[j],
    {
        let mut indices = self.level_start_indices;
        indices.push(self.first_free_node);
        indices
    }
}

/// Each level starts where the one before it ended: after the first entry,
/// consecutive start indices differ by the nodes allocated for the level, and
/// the first of them is the first free node the allocation started from.
pub proof fn lemma_allocation_starts_steps(first_free: int, allocations: Seq<u32>)
    ensures
        allocation_starts(first_free, allocations).len() == allocations.len() + 1,
        allocation_starts(first_free, allocations)[0] == first_free,
        forall|i: int|
            0 <= i < allocations.len() ==> #[trigger] allocation_starts(first_free, allocations)[i
                + 1] - allocation_starts(first_free, allocations)[i] == (allocations[i] as i32)
                as int,
    decreases allocations.len(),
{
    if allocations.len() > 0 {
        let prev = allocations.drop_last();
        lemma_allocation_starts_steps(first_free, prev);
        let before = allocation_starts(first_free, prev);
        let starts = allocation_starts(first_free, allocations);
        assert forall|i: int| 0 <= i < allocations.len() implies #[trigger] starts[i + 1]
            - starts[i] == (allocations[i] as i32) as int by {
            if i < prev.len() {
                assert(starts[i + 1] == before[i + 1]);
                assert(starts[i] == before[i]);
                assert(allocations[i] == prev[i]);
            }
        }
    }
}

/// Starts building both halves of an octree: the root is the only node of
/// the geometry half's first level, the border half's first level is empty,
/// and the next nodes go right after the root, at index `1`.
pub fn seed_root_levels(geometry_data: &mut OctreeData, border_data: &mut OctreeData) -> (first_free_node: i32)
    ensures
        first_free_node == 1,
        final(geometry_data).spec_nodes_per_level() == old(geometry_data).spec_nodes_per_level().push(1),
        final(border_data).spec_nodes_per_level() == old(border_data).spec_nodes_per_level().push(0),
        *final(geometry_data).spec_voxel_data() == *old(geometry_data).spec_voxel_data(),
        *final(border_data).spec_voxel_data() == *old(border_data).spec_voxel_data(),
        final(geometry_data).spec_node_data().spec_level_start_indices() == old(
            geometry_data,
        ).spec_node_data().spec_level_start_indices(),
        final(border_data).spec_node_data().spec_level_start_indices() == old(
            border_data,
        ).spec_node_data().spec_level_start_indices(),
{
    geometry_data.push_level(1);
    border_data.push_level(0);
    1
}

/// Whether every node count fits an `i32`, so that no allocation moves the
/// first free node backwards.
pub open spec fn counts_fit_i32(allocations: Seq<u32>) -> bool {
    forall|k: int| 0 <= k < allocations.len() ==> #[trigger] allocations[k] <= i32::MAX
}

/// With node counts that fit an `i32`, the level starts never decrease, and
/// none is below the first free node the allocation started from.
pub proof fn lemma_allocation_starts_increase(first_free: int, allocations: Seq<u32>)
    requires
        counts_fit_i32(allocations),
    ensures
        forall|i: int, j: int|
            0 <= i <= j < allocations.len() + 1 ==> #[trigger] allocation_starts(
                first_free,
                allocations,
            )[i] <= #[trigger] allocation_starts(first_free, allocations)[j],
        forall|i: int|
            0 <= i < allocations.len() + 1 ==> first_free <= #[trigger] allocation_starts(
                first_free,
                allocations,
            )[i],
    decreases allocations.len(),
{
    lemma_allocation_starts_steps(first_free, allocations);
    if allocations.len() > 0 {
        let prev = allocations.drop_last();
        assert(counts_fit_i32(prev)) by {
            assert forall|k: int| 0 <= k < prev.len() implies #[trigger] prev[k] <= i32::MAX by {
                assert(prev[k] == allocations[k]);
            }
        }
        lemma_allocation_starts_increase(first_free, prev);
        let before = allocation_starts(first_free, prev);
        let starts = allocation_starts(first_free, allocations);
        let n = allocations.len() as int;
        assert(allocations[n - 1] <= i32::MAX);
        assert((allocations[n - 1] as i32) as int >= 0);
        assert forall|i: int, j: int| 0 <= i <= j < n + 1 implies #[trigger] starts[i]
            <= #[trigger] starts[j] by {
            if j < n {
                assert(starts[i] == before[i]);
                assert(starts[j] == before[j]);
            } else {
                assert(starts[i] == before[i] || i == n);
                if i < n {
                    assert(starts[i] == before[i]);
                    assert(before[i] <= before[n - 1]);
                    assert(starts[n] == before[n - 1] + (allocations[n - 1] as i32) as int);
                }
            }
        }
        assert forall|i: int| 0 <= i < n + 1 implies first_free <= #[trigger] starts[i] by {
            assert(starts[0] <= starts[i]);
        }
    }
}

/// The border half's nodes come after the geometry half's: when the border
/// allocation starts at the geometry allocation's first free node, every
/// level of the border half starts at or after the start of every level of
/// the geometry half, and at or after every node the geometry half
/// allocated.
pub proof fn lemma_border_nodes_follow_geometry(geometry: NodeAllocation, border: NodeAllocation)
    requires
        border.spec_initial_first_free_node() == geometry.spec_first_free_node(),
        counts_fit_i32(geometry.spec_allocations()),
        counts_fit_i32(border.spec_allocations()),
    ensures
        forall|i: int, j: int|
            0 <= i < geometry.spec_allocations().len() + 1 && 0 <= j
                < border.spec_allocations().len() + 1 ==> #[trigger] allocation_starts(
                geometry.spec_initial_first_free_node(),
                geometry.spec_allocations(),
            )[i] <= #[trigger] allocation_starts(
                border.spec_initial_first_free_node(),
                border.spec_allocations(),
            )[j],
{
    let g = geometry.spec_allocations();
    let b = border.spec_allocations();
    let gs = allocation_starts(geometry.spec_initial_first_free_node(), g);
    let bs = allocation_starts(border.spec_initial_first_free_node(), b);
    lemma_allocation_starts_steps(geometry.spec_initial_first_free_node(), g);
    lemma_allocation_starts_steps(border.spec_initial_first_free_node(), b);
    lemma_allocation_starts_increase(geometry.spec_initial_first_free_node(), g);
    lemma_allocation_starts_increase(border.spec_initial_first_free_node(), b);
    assert forall|i: int, j: int| 0 <= i < g.len() + 1 && 0 <= j < b.len() + 1 implies #[trigger] gs[i]
        <= #[trigger] bs[j] by {
        assert(gs[i] <= gs[g.len() as int]);
        assert(gs.last() == gs[g.len() as int]);
        assert(border.spec_initial_first_free_node() <= bs[j]);
    }
}

/// Each level starts at the first free node the allocation started from
/// plus the nodes allocated for the levels before it.
pub proof fn lemma_allocation_starts_sum(first_free: int, allocations: Seq<u32>)
    requires
        counts_fit_i32(allocations),
    ensures
        allocation_starts(first_free, allocations).len() == allocations.len() + 1,
        forall|k: int|
            0 <= k <= allocations.len() ==> #[trigger] allocation_starts(first_free, allocations)[k]
                == first_free + seq_sum(allocations.take(k)),
    decreases allocations.len(),
{
    lemma_allocation_starts_steps(first_free, allocations);
    if allocations.len() == 0 {
        assert(allocations.take(0) =~= Seq::<u32>::empty());
    } else {
        let prev = allocations.drop_last();
        let n = allocations.len() as int;
        assert(counts_fit_i32(prev)) by {
            assert forall|k: int| 0 <= k < prev.len() implies #[trigger] prev[k] <= i32::MAX by {
                assert(prev[k] == allocations[k]);
            }
        }
        lemma_allocation_starts_sum(first_free, prev);
        let before = allocation_starts(first_free, prev);
        let starts = allocation_starts(first_free, allocations);
        assert(allocations[n - 1] <= i32::MAX);
        assert forall|k: int| 0 <= k <= n implies #[trigger] starts[k] == first_free + seq_sum(
            allocations.take(k),
        ) by {
            if k < n {
                assert(starts[k] == before[k]);
                assert(prev.take(k) =~= allocations.take(k));
            } else {
                assert(allocations.take(k) =~= allocations);
                assert(prev.take(n - 1) =~= prev);
                assert(starts[n] == before[n - 1] + (allocations[n - 1] as i32) as int);
            }
        }
    }
}

/// The sum of node counts that start with `first`.
proof fn lemma_seq_sum_prepend(first: u32, rest: Seq<u32>)
    ensures
        seq_sum(seq![first] + rest) == first + seq_sum(rest),
    decreases rest.len(),
{
    let all = seq![first] + rest;
    if rest.len() == 0 {
        assert(all.drop_last() =~= Seq::<u32>::empty());
        assert(seq_sum(all.drop_last()) == 0);
        assert(all.last() == first);
        assert(seq_sum(rest) == 0);
    } else {
        lemma_seq_sum_prepend(first, rest.drop_last());
        assert(all.drop_last() =~= seq![first] + rest.drop_last());
        assert(all.last() == rest.last());
    }
}

/// The level start indices of one half of an octree, first level first,
/// followed by the first free node after it: `first_level_start`, then the
/// running node totals `base + levels[0] + ... + levels[k]`.
pub open spec fn spec_half_start_indices(
    first_level_start: int,
    base: int,
    levels: Seq<u32>,
) -> Seq<int> {
    seq![first_level_start] + Seq::new(
        levels.len(),
        |k: int| base + seq_sum(levels.take(k + 1)),
    )
}

/// The level start indices the build writes for the two halves of an
/// octree: the geometry half has the root at `0` and its levels follow it
/// without gaps; the border half has no root (`-1`), its nodes follow all
/// the geometry nodes without overlap, and its last index, the first free
/// node, is the number of nodes of the whole octree.
///
/// `geometry` and `border` record the allocations of the two halves, whose
/// node counts are those of `geometry_data` and `border_data` below their
/// first level, after the build seeded the first levels (`1` and `0`) and
/// started the geometry nodes at `1`.
pub proof fn lemma_octree_build_level_starts(
    geometry_data: OctreeData,
    border_data: OctreeData,
    geometry: NodeAllocation,
    border: NodeAllocation,
)
    requires
        geometry_data.spec_nodes_per_level() == seq![1u32] + geometry.spec_allocations(),
        border_data.spec_nodes_per_level() == seq![0u32] + border.spec_allocations(),
        geometry.spec_root_start() == 0,
        geometry.spec_initial_first_free_node() == 1,
        border.spec_root_start() == -1,
        border.spec_initial_first_free_node() == geometry.spec_first_free_node(),
        counts_fit_i32(geometry.spec_allocations()),
        counts_fit_i32(border.spec_allocations()),
    ensures
        geometry.spec_first_free_node() == seq_sum(geometry_data.spec_nodes_per_level()),
        geometry.spec_level_start_indices().push(geometry.spec_first_free_node())
            == spec_half_start_indices(0, 0, geometry_data.spec_nodes_per_level()),
        border.spec_first_free_node() == seq_sum(geometry_data.spec_nodes_per_level()) + seq_sum(
            border_data.spec_nodes_per_level(),
        ),
        border.spec_level_start_indices().push(border.spec_first_free_node())
            == spec_half_start_indices(
            -1,
            seq_sum(geometry_data.spec_nodes_per_level()),
            border_data.spec_nodes_per_level(),
        ),
{
    let g = geometry.spec_allocations();
    let b = border.spec_allocations();
    let g_levels = geometry_data.spec_nodes_per_level();
    let b_levels = border_data.spec_nodes_per_level();
    lemma_allocation_starts_sum(1, g);
    let gs = allocation_starts(1, g);
    let total_g = seq_sum(g_levels);
    lemma_seq_sum_prepend(1, g);
    assert(g.take(g.len() as int) =~= g);
    assert(gs.last() == total_g);
    lemma_allocation_starts_sum(total_g, b);
    let bs = allocation_starts(total_g, b);
    lemma_seq_sum_prepend(0, b);
    assert(b.take(b.len() as int) =~= b);
    assert(bs.last() == total_g + seq_sum(b_levels));
    assert forall|k: int| 0 <= k < g_levels.len() implies #[trigger] seq_sum(g_levels.take(k + 1))
        == gs[k] by {
        lemma_seq_sum_prepend(1, g.take(k));
        assert(g_levels.take(k + 1) =~= seq![1u32] + g.take(k));
    }
    assert forall|k: int| 0 <= k < b_levels.len() implies #[trigger] seq_sum(b_levels.take(k + 1))
        == bs[k] - total_g by {
        lemma_seq_sum_prepend(0, b.take(k));
        assert(b_levels.take(k + 1) =~= seq![0u32] + b.take(k));
    }
    assert(geometry.spec_level_start_indices().push(geometry.spec_first_free_node())
        =~= spec_half_start_indices(0, 0, g_levels));
    assert(border.spec_level_start_indices().push(border.spec_first_free_node())
        =~= spec_half_start_indices(-1, total_g, b_levels));
}

/// The dispatches of a border transfer along `direction`, in order: the
/// value of the shader's axis uniform and the neighbour texture bound for
/// it. The two other axes go first, each with its positive neighbours, then
/// the direction's own axis with the direction's neighbours.
pub fn border_transfer_dispatches(direction: Direction) -> (dispatches: [(Axis, usize); 3])
    ensures
        dispatches[0].0 != direction.axis,
        dispatches[1].0 != direction.axis,
        axis_number(dispatches[0].0) < axis_number(dispatches[1].0),
        dispatches[0].1 == 2 * axis_number(dispatches[0].0),
        dispatches[1].1 == 2 * axis_number(dispatches[1].0),
        dispatches[2] == (direction.axis, spec_neighbor_texture_index(direction) as usize),
{
    let others = other_axes(direction.axis);
    let first = neighbor_texture_index(Direction::new(others[0], Sign::Pos));
    let second = neighbor_texture_index(Direction::new(others[1], Sign::Pos));
    let own = neighbor_texture_index(direction);
    [(others[0], first), (others[1], second), (direction.axis, own)]
}

/// A border transfer visits each of the three axes exactly once.
pub proof fn lemma_border_transfer_covers_axes(direction: Direction, dispatches: [(Axis, usize); 3])
    requires
        dispatches[0].0 != direction.axis,
        dispatches[1].0 != direction.axis,
        axis_number(dispatches[0].0) < axis_number(dispatches[1].0),
        dispatches[2].0 == direction.axis,
    ensures
        forall|axis: Axis|
            #![trigger axis_number(axis)]
            (axis == dispatches[0].0 || axis == dispatches[1].0 || axis == dispatches[2].0),
        dispatches[0].0 != dispatches[1].0,
{
}

/// Number of work groups the brick allocation pass dispatches for
/// `all_nodes_allocated` nodes.
pub fn brick_allocation_groups(all_nodes_allocated: u32, working_group_size: u32) -> (groups: u32)
    requires
        working_group_size > 0,
        all_nodes_allocated / working_group_size < u32::MAX,
    ensures
        groups == all_nodes_allocated / working_group_size + 1,
        groups * working_group_size > all_nodes_allocated,
{
    let groups = all_nodes_allocated / working_group_size + 1;
    assert(groups * working_group_size > all_nodes_allocated) by (nonlinear_arith)
        requires
            working_group_size > 0,
            groups == all_nodes_allocated / working_group_size + 1,
    ;
    groups
}

} // verus!
