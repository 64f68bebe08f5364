use vstd::prelude::*;

pub mod build;
pub mod visualize;

pub use visualize::BricksToShow;

verus! {

/// A buffer texture: the texture name and the name of the buffer behind it.
pub type BufferTexture = (u32, u32);

/// Name of a 2D texture.
pub type Texture2D = u32;

/// Name of a 3D texture.
pub type Texture3D = u32;

/// The GPU textures that hold a sparse voxel octree.
#[derive(Debug, Clone, Copy)]
pub struct OctreeTextures {
    pub node_pool: BufferTexture,
    pub brick_pointers: BufferTexture,
    pub node_positions: BufferTexture,
    /// One per main direction, in the order `+X, -X, +Y, -Y, +Z, -Z`.
    pub neighbors: [BufferTexture; 6],
    /// Anisotropic voxels, one texture per main direction.
    pub brick_pool_colors: [Texture3D; 6],
    pub brick_pool_normals: Texture3D,
    pub brick_pool_photons: Texture3D,
    pub photons_buffer: BufferTexture,
    pub children_buffer: BufferTexture,
    pub color_quad_textures: [Texture2D; 2],
}

/// Which half of the octree: the nodes built from the geometry's voxel
/// fragments, or those built from the border voxel fragments.
#[derive(Debug, Clone, Copy, PartialEq, Eq, Structural)]
pub enum OctreeDataType {
    Geometry,
    Border,
}

/// Sum of a sequence of node counts.
pub open spec fn seq_sum(s: Seq<u32>) -> int
    decreases s.len(),
{
    if s.len() == 0 {
        0
    } else {
        seq_sum(s.drop_last()) + s.last()
    }
}

/// Node counts of every octree level, first level first, and the texture
/// that holds the index of the first node of each level.
#[derive(Debug)]
pub struct NodeData {
    nodes_per_level: Vec<u32>,
    level_start_indices: BufferTexture,
}

impl NodeData {
    /// Node counts of the levels recorded so far, first level first.
    pub closed spec fn spec_nodes_per_level(&self) -> Seq<u32> {
        self.nodes_per_level@
    }

    pub closed spec fn spec_level_start_indices(&self) -> BufferTexture {
        self.level_start_indices
    }

    /// Node data with no level recorded yet.
    pub fn new(level_start_indices: BufferTexture) -> (node_data: Self)
        ensures
            node_data.spec_nodes_per_level() == Seq::<u32>::empty(),
            node_data.spec_level_start_indices() == level_start_indices,
    {
        NodeData { nodes_per_level: Vec::new(), level_start_indices }
    }

    /// Records the node count of the next level.
    pub fn push_level(&mut self, nodes_in_level: u32)
        ensures
            final(self).spec_nodes_per_level() == old(self).spec_nodes_per_level().push(
                nodes_in_level,
            ),
            final(self).spec_level_start_indices() == old(self).spec_level_start_indices(),
    {
        self.nodes_per_level.push(nodes_in_level);
    }

    /// Number of levels recorded so far.
    pub fn number_of_levels(&self) -> (n: usize)
        ensures
            n == self.spec_nodes_per_level().len(),
    {
        self.nodes_per_level.len()
    }

    /// Node count of level `level`.
    pub fn nodes_in_level(&self, level: usize) -> (n: u32)
        requires
            level < self.spec_nodes_per_level().len(),
        ensures
            n == self.spec_nodes_per_level()[level as int],
    {
        self.nodes_per_level[level]
    }

    /// The texture that holds the index of the first node of each level.
    pub fn level_start_indices(&self) -> (texture: BufferTexture)
        ensures
            texture == self.spec_level_start_indices(),
    {
        self.level_start_indices
    }

    /// Whether the first level holds a node, the root.
    pub fn has_root(&self) -> (b: bool)
        ensures
            b == (self.spec_nodes_per_level().len() > 0 && self.spec_nodes_per_level()[0] > 0),
    {
        self.nodes_per_level.len() > 0 && self.nodes_per_level[0] > 0
    }

    /// Total number of nodes over all levels.
    pub fn number_of_nodes(&self) -> (n: usize)
        requires
            seq_sum(self.spec_nodes_per_level()) <= u32::MAX,
        ensures
            n == seq_sum(self.spec_nodes_per_level()),
    {
        let mut total: u32 = 0;
        let mut i: usize = 0;
        while i < self.nodes_per_level.len()
            invariant
                i <= self.nodes_per_level@.len(),
                total == seq_sum(self.nodes_per_level@.take(i as int)),
                seq_sum(self.nodes_per_level@) <= u32::MAX,
            decreases self.nodes_per_level@.len() - i,
        {
            proof {
                let s = self.nodes_per_level@;
                assert(s.take(i + 1).drop_last() =~= s.take(i as int));
                lemma_seq_sum_prefix_bounded(s, i + 1);
            }
            total = total + self.nodes_per_level[i];
            i = i + 1;
        }
        assert(self.nodes_per_level@.take(i as int) =~= self.nodes_per_level@);
        total as usize
    }
}

/// A prefix of a sequence of counts sums to no more than the whole sequence.
pub proof fn lemma_seq_sum_prefix_bounded(s: Seq<u32>, k: int)
    requires
        0 <= k <= s.len(),
    ensures
        0 <= seq_sum(s.take(k)) <= seq_sum(s),
    decreases s.len() - k,
{
    if k < s.len() {
        lemma_seq_sum_prefix_bounded(s, k + 1);
        assert(s.take(k + 1).drop_last() =~= s.take(k));
    } else {
        assert(s.take(k) =~= s);
    }
    lemma_seq_sum_nonnegative(s.take(k));
}

/// A sum of counts is never negative.
pub proof fn lemma_seq_sum_nonnegative(s: Seq<u32>)
    ensures
        seq_sum(s) >= 0,
    decreases s.len(),
{
    if s.len() > 0 {
        lemma_seq_sum_nonnegative(s.drop_last());
    }
}

/// The voxel fragments an octree is built from.
#[derive(Debug)]
pub struct VoxelData {
    pub voxel_positions: BufferTexture,
    pub number_of_voxel_fragments: u32,
    pub voxel_colors: BufferTexture,
    pub voxel_normals: BufferTexture,
}

/// One half of an octree: its nodes and the voxel fragments they were built from.
#[derive(Debug)]
pub struct OctreeData {
    node_data: NodeData,
    voxel_data: VoxelData,
}

impl OctreeData {
    pub closed spec fn spec_node_data(&self) -> &NodeData {
        &self.node_data
    }

    pub closed spec fn spec_voxel_data(&self) -> &VoxelData {
        &self.voxel_data
    }

    /// Node counts of the levels recorded so far, first level first.
    pub open spec fn spec_nodes_per_level(&self) -> Seq<u32> {
        self.spec_node_data().spec_nodes_per_level()
    }

    pub fn new(node_data: NodeData, voxel_data: VoxelData) -> (octree_data: Self)
        ensures
            *octree_data.spec_node_data() == node_data,
            *octree_data.spec_voxel_data() == voxel_data,
    {
        OctreeData { node_data, voxel_data }
    }

    pub fn node_data(&self) -> (node_data: &NodeData)
        ensures
            *node_data == *self.spec_node_data(),
    {
        &self.node_data
    }

    pub fn voxel_data(&self) -> (voxel_data: &VoxelData)
        ensures
            *voxel_data == *self.spec_voxel_data(),
    {
        &self.voxel_data
    }

    /// Sets how many voxel fragments the voxel data holds.
    pub fn set_number_of_voxel_fragments(&mut self, number_of_voxel_fragments: u32)
        ensures
            *final(self).spec_node_data() == *old(self).spec_node_data(),
            final(self).spec_voxel_data().number_of_voxel_fragments == number_of_voxel_fragments,
            final(self).spec_voxel_data().voxel_positions == old(
                self,
            ).spec_voxel_data().voxel_positions,
            final(self).spec_voxel_data().voxel_colors == old(self).spec_voxel_data().voxel_colors,
            final(self).spec_voxel_data().voxel_normals == old(
                self,
            ).spec_voxel_data().voxel_normals,
    {
        self.voxel_data.number_of_voxel_fragments = number_of_voxel_fragments;
    }

    /// Records the node count of the next level.
    pub fn push_level(&mut self, nodes_in_level: u32)
        ensures
            final(self).spec_nodes_per_level() == old(self).spec_nodes_per_level().push(
                nodes_in_level,
            ),
            final(self).spec_node_data().spec_level_start_indices() == old(
                self,
            ).spec_node_data().spec_level_start_indices(),
            *final(self).spec_voxel_data() == *old(self).spec_voxel_data(),
    {
        self.node_data.push_level(nodes_in_level);
    }

    /// Total number of nodes over all levels.
    pub fn number_of_nodes(&self) -> (n: usize)
        requires
            seq_sum(self.spec_nodes_per_level()) <= u32::MAX,
        ensures
            n == seq_sum(self.spec_nodes_per_level()),
    {
        self.node_data.number_of_nodes()
    }
}

/// Number of nodes held by both halves of an octree.
pub fn total_number_of_nodes(geometry_data: &OctreeData, border_data: &OctreeData) -> (n: usize)
    requires
        seq_sum(geometry_data.spec_nodes_per_level()) <= u32::MAX,
        seq_sum(border_data.spec_nodes_per_level()) <= u32::MAX,
        seq_sum(geometry_data.spec_nodes_per_level()) + seq_sum(border_data.spec_nodes_per_level())
            <= usize::MAX,
    ensures
        n == seq_sum(geometry_data.spec_nodes_per_level()) + seq_sum(
            border_data.spec_nodes_per_level(),
        ),
{
    let g = geometry_data.number_of_nodes();
    let b = border_data.number_of_nodes();
    g + b
}

/// `8` to the power `e`.
pub open spec fn pow8(e: nat) -> nat
    decreases e,
{
    if e == 0 {
        1
    } else {
        8 * pow8((e - 1) as nat)
    }
}

/// Number of nodes of a full octree with `levels` levels: `8^0 + ... + 8^(levels - 1)`.
pub open spec fn full_octree_nodes(levels: nat) -> nat
    decreases levels,
{
    if levels == 0 {
        0
    } else {
        full_octree_nodes((levels - 1) as nat) + pow8((levels - 1) as nat)
    }
}

/// Size of the node pool: room for the children of every node of a full
/// octree of `octree_levels` levels, but no more than an eighth of the
/// largest texture buffer the device allows (`max_texture_buffer_size`, in
/// bytes).
pub open spec fn spec_max_node_pool_size(octree_levels: nat, max_texture_buffer_size: int) -> int {
    let by_tree: int = (8 * full_octree_nodes(octree_levels)) as int;
    let by_memory: int = if max_texture_buffer_size < 0 {
        0
    } else {
        max_texture_buffer_size / 8
    };
    if by_tree <= by_memory {
        by_tree
    } else {
        by_memory
    }
}

/// Size of the node pool of an octree with `octree_levels` levels on a
/// device whose largest texture buffer is `max_texture_buffer_size` bytes.
pub fn max_node_pool_size(octree_levels: u32, max_texture_buffer_size: i32) -> (size: usize)
    requires
        8 * full_octree_nodes(octree_levels as nat) <= usize::MAX,
        max_texture_buffer_size > -8,
    ensures
        size == spec_max_node_pool_size(octree_levels as nat, max_texture_buffer_size as int),
{
    let mut number_of_nodes: usize = 0;
    let mut power: usize = 1;
    let mut exponent: u32 = 0;
    while exponent < octree_levels
        invariant
            exponent <= octree_levels,
            number_of_nodes == full_octree_nodes(exponent as nat),
            exponent < octree_levels ==> power == pow8(exponent as nat),
            8 * full_octree_nodes(octree_levels as nat) <= usize::MAX,
        decreases octree_levels - exponent,
    {
        proof {
            lemma_full_octree_nodes_monotonic((exponent + 1) as nat, octree_levels as nat);
            lemma_pow8_below_full((exponent + 1) as nat);
        }
        number_of_nodes = number_of_nodes + power;
        exponent = exponent + 1;
        if exponent < octree_levels {
            proof {
                lemma_full_octree_nodes_monotonic((exponent + 1) as nat, octree_levels as nat);
                lemma_pow8_below_full((exponent + 1) as nat);
            }
            power = power * 8;
        }
    }
    let children_per_node = crate::constants::CHILDREN_PER_NODE as usize;
    assert(children_per_node == 8);
    let by_tree = number_of_nodes * children_per_node;
    let by_memory: usize = if max_texture_buffer_size < 8 {
        0
    } else {
        (max_texture_buffer_size / 8) as usize
    };
    if by_tree <= by_memory {
        by_tree
    } else {
        by_memory
    }
}

/// A full octree with more levels has more nodes.
pub proof fn lemma_full_octree_nodes_monotonic(a: nat, b: nat)
    requires
        a <= b,
    ensures
        full_octree_nodes(a) <= full_octree_nodes(b),
    decreases b - a,
{
    if a < b {
        lemma_full_octree_nodes_monotonic(a, (b - 1) as nat);
    }
}

/// The last level of a full octree is part of its nodes: `8^(n - 1) <= full(n)`.
pub proof fn lemma_pow8_below_full(n: nat)
    requires
        n >= 1,
    ensures
        pow8((n - 1) as nat) <= full_octree_nodes(n),
{
}

/// The node pool is never larger than what the tree or the device allows,
/// and it is one of the two.
pub proof fn lemma_max_node_pool_size_bounds(octree_levels: nat, max_texture_buffer_size: int)
    ensures
        ({
            let size = spec_max_node_pool_size(octree_levels, max_texture_buffer_size);
            let by_memory: int = if max_texture_buffer_size < 0 {
                0
            } else {
                max_texture_buffer_size / 8
            };
            &&& size <= 8 * full_octree_nodes(octree_levels)
            &&& size <= by_memory
            &&& (size == 8 * full_octree_nodes(octree_levels) || size == by_memory)
        }),
{
}

/// The children of node `node` are the eight entries `8 * node .. 8 * node + 8`
/// of the node pool.
pub fn node_children(node_pool: &Vec<u32>, node: usize) -> (children: Vec<u32>)
    requires
        8 * node + 8 <= node_pool@.len(),
    ensures
        children@ == node_pool@.subrange(8 * node as int, 8 * node as int + 8),
{
    let children_per_node = crate::constants::CHILDREN_PER_NODE as usize;
    assert(children_per_node == 8);
    let pool_size = node_pool.len();
    assert(8 * node + 8 <= pool_size);
    let lower_limit = node * children_per_node;
    let upper_limit = lower_limit + children_per_node;
    let mut children: Vec<u32> = Vec::new();
    let mut i = lower_limit;
    while i < upper_limit
        invariant
            lower_limit == 8 * node,
            upper_limit == lower_limit + 8,
            upper_limit <= node_pool@.len(),
            lower_limit <= i <= upper_limit,
            children@ == node_pool@.subrange(lower_limit as int, i as int),
        decreases upper_limit - i,
    {
        children.push(node_pool[i]);
        i = i + 1;
        assert(children@ =~= node_pool@.subrange(lower_limit as int, i as int));
    }
    children
}

} // verus!
