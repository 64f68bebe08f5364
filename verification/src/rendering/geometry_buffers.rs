use vstd::prelude::*;

verus! {

/// Geometry buffers for deferred shading: the names of the textures a
/// camera renders the scene into.
#[derive(Debug, Clone, Copy)]
pub struct GeometryBuffers {
    /// Unnormalized positions, should be used for calculations.
    raw_positions: u32,
    /// Normalized positions, available only for debug purposes.
    positions: u32,
    colors: u32,
    normals: u32,
}

impl GeometryBuffers {
    pub closed spec fn spec_raw_positions(&self) -> u32 {
        self.raw_positions
    }

    pub closed spec fn spec_positions(&self) -> u32 {
        self.positions
    }

    pub closed spec fn spec_colors(&self) -> u32 {
        self.colors
    }

    pub closed spec fn spec_normals(&self) -> u32 {
        self.normals
    }

    pub fn new(raw_positions: u32, positions: u32, normals: u32, colors: u32) -> (buffers: Self)
        ensures
            buffers.spec_raw_positions() == raw_positions,
            buffers.spec_positions() == positions,
            buffers.spec_normals() == normals,
            buffers.spec_colors() == colors,
    {
        Self { raw_positions, positions, colors, normals }
    }

    pub fn raw_positions(&self) -> (texture: u32)
        ensures
            texture == self.spec_raw_positions(),
    {
        self.raw_positions
    }

    pub fn positions(&self) -> (texture: u32)
        ensures
            texture == self.spec_positions(),
    {
        self.positions
    }

    pub fn colors(&self) -> (texture: u32)
        ensures
            texture == self.spec_colors(),
    {
        self.colors
    }

    pub fn normals(&self) -> (texture: u32)
        ensures
            texture == self.spec_normals(),
    {
        self.normals
    }
}

} // verus!
