use vstd::prelude::*;

verus! {

/// Settings of the renderer.
#[derive(Debug, Clone, Copy)]
pub struct Config {
    // Viewport settings
    pub viewport_width: u32,
    pub viewport_height: u32,
    // Voxel settings
    pub voxel_dimension: u32,
    pub brick_pool_resolution: u32,
    /// Number of octree levels, the root's being level 0; derived from
    /// `voxel_dimension` by [`Config::compute_octree_levels`].
    pub octree_levels: u32,
    // Compute shader settings
    pub working_group_size: u32,
}

impl Default for Config {
    fn default() -> (config: Self)
        ensures
            config.viewport_width == 1024,
            config.viewport_height == 1024,
            config.voxel_dimension == 256,
            config.brick_pool_resolution == 210,
            config.octree_levels == 8,
            config.working_group_size == 64,
    {
        Config {
            viewport_width: 1024,
            viewport_height: 1024,
            voxel_dimension: 256,
            brick_pool_resolution: 70 * 3,
            octree_levels: 8,
            working_group_size: 64,
        }
    }
}

/// `floor(log2(n))` for `n >= 1`.
pub open spec fn log2_floor(n: nat) -> nat
    decreases n,
{
    if n < 2 {
        0
    } else {
        1 + log2_floor(n / 2)
    }
}

/// Number of octree levels needed to hold `voxel_dimension^3` voxels: each
/// level has eight times the nodes of the one above it, so this is
/// `floor(log2(voxel_dimension^3)) / log2(8)`.
pub open spec fn spec_octree_levels(voxel_dimension: nat) -> nat {
    log2_floor(voxel_dimension * voxel_dimension * voxel_dimension) / log2_floor(8)
}

/// `floor(log2(n))`.
pub fn log2_floor_u32(n: u32) -> (l: u32)
    requires
        n >= 1,
    ensures
        l == log2_floor(n as nat),
        l < 32,
{
    let mut m = n;
    let mut l: u32 = 0;
    proof {
        lemma_log2_floor_bounded(n as nat);
    }
    while m >= 2
        invariant
            m >= 1,
            l + log2_floor(m as nat) == log2_floor(n as nat),
            l + log2_floor(m as nat) < 32,
        decreases m,
    {
        proof {
            lemma_log2_floor_bounded(m as nat);
        }
        m = m / 2;
        l = l + 1;
    }
    proof {
        lemma_log2_floor_bounded(n as nat);
    }
    l
}

/// `floor(log2(n)) < 32` for a `u32` number `n`.
proof fn lemma_log2_floor_bounded(n: nat)
    requires
        1 <= n <= u32::MAX,
    ensures
        log2_floor(n) < 32,
{
    vstd::arithmetic::power2::lemma2_to64();
    lemma_log2_floor_below(n, 32);
}

/// `n < 2^k` implies `floor(log2(n)) < k`.
proof fn lemma_log2_floor_below(n: nat, k: nat)
    requires
        1 <= n < vstd::arithmetic::power2::pow2(k),
    ensures
        log2_floor(n) < k,
    decreases k,
{
    if k == 0 {
        assert(vstd::arithmetic::power2::pow2(0) == 1) by {
            reveal(vstd::arithmetic::power::pow);
        }
    } else if n >= 2 {
        let k1 = (k - 1) as nat;
        vstd::arithmetic::power2::lemma_pow2_unfold(k);
        assert(n / 2 < vstd::arithmetic::power2::pow2(k1));
        lemma_log2_floor_below(n / 2, k1);
    }
}

impl Config {
    /// Derives the number of octree levels from the voxel dimension.
    pub fn compute_octree_levels(&mut self)
        requires
            old(self).voxel_dimension >= 1,
            old(self).voxel_dimension * old(self).voxel_dimension * old(self).voxel_dimension
                <= u32::MAX,
        ensures
            final(self).octree_levels == spec_octree_levels(old(self).voxel_dimension as nat),
            final(self).viewport_width == old(self).viewport_width,
            final(self).viewport_height == old(self).viewport_height,
            final(self).voxel_dimension == old(self).voxel_dimension,
            final(self).brick_pool_resolution == old(self).brick_pool_resolution,
            final(self).working_group_size == old(self).working_group_size,
    {
        let d = self.voxel_dimension;
        assert(d * d <= d * d * d) by (nonlinear_arith)
            requires
                d >= 1,
        ;
        assert(d * d * d >= 1) by (nonlinear_arith)
            requires
                d >= 1,
        ;
        let cube = d * d * d;
        let eight_log = log2_floor_u32(8);
        assert(eight_log == 3) by {
            reveal_with_fuel(log2_floor, 4);
        }
        self.octree_levels = log2_floor_u32(cube) / eight_log;
    }

    /// Index of the deepest octree level.
    pub fn last_octree_level(&self) -> (level: u32)
        requires
            self.octree_levels >= 1,
        ensures
            level == self.octree_levels - 1,
    {
        self.octree_levels - 1
    }
}

/// `floor(log2(2^e)) == e`.
pub proof fn lemma_log2_floor_pow2(e: nat)
    ensures
        log2_floor(vstd::arithmetic::power2::pow2(e)) == e,
    decreases e,
{
    if e == 0 {
        assert(vstd::arithmetic::power2::pow2(0) == 1) by {
            reveal(vstd::arithmetic::power::pow);
        }
    } else {
        vstd::arithmetic::power2::lemma_pow2_unfold(e);
        let e1 = (e - 1) as nat;
        vstd::arithmetic::power2::lemma_pow2_pos(e1);
        assert(vstd::arithmetic::power2::pow2(e) / 2 == vstd::arithmetic::power2::pow2(e1));
        lemma_log2_floor_pow2(e1);
    }
}

/// A voxel grid whose side is `2^k` voxels needs an octree of `k` levels.
pub proof fn lemma_octree_levels_of_power_of_two(k: nat)
    ensures
        spec_octree_levels(vstd::arithmetic::power2::pow2(k)) == k,
{
    let d = vstd::arithmetic::power2::pow2(k);
    vstd::arithmetic::power2::lemma_pow2_adds(k, k);
    vstd::arithmetic::power2::lemma_pow2_adds(k + k, k);
    assert(d * d * d == vstd::arithmetic::power2::pow2(3 * k));
    lemma_log2_floor_pow2(3 * k);
    assert(log2_floor(8) == 3) by {
        reveal_with_fuel(log2_floor, 4);
    }
}

/// Command line options.
#[derive(Debug)]
pub struct Options {
    /// Scene file to load
    pub scene: String,
    /// Preset file to load
    pub preset: String,
}

/// File that holds the scene named `name`.
pub fn scene_path(name: &str) -> (path: String)
    ensures
        path@ == "scenes/"@ + name@ + ".ron"@,
{
    let mut path = String::from_str("scenes/");
    path.append(name);
    path.append(".ron");
    path
}

/// File that holds the preset named `name`.
pub fn preset_path(name: &str) -> (path: String)
    ensures
        path@ == "presets/"@ + name@ + ".ron"@,
{
    let mut path = String::from_str("presets/");
    path.append(name);
    path.append(".ron");
    path
}

} // verus!
