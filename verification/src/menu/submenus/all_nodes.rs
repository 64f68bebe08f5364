use vstd::prelude::*;

verus! {

/// What the all-nodes window hands to the renderer.
#[derive(Debug, Clone, Copy)]
pub struct AllNodesMenuOutput {
    pub should_render_octree: bool,
    pub current_octree_level: u32,
}

impl Default for AllNodesMenuOutput {
    fn default() -> (output: Self)
        ensures
            !output.should_render_octree,
            output.current_octree_level == 0,
    {
        AllNodesMenuOutput { should_render_octree: false, current_octree_level: 0 }
    }
}

/// Window that shows the nodes of one octree level.
#[derive(Debug, Clone, Copy)]
pub struct AllNodesMenu {
    is_showing: bool,
    pub output: AllNodesMenuOutput,
}

impl AllNodesMenu {
    pub closed spec fn spec_is_showing(&self) -> bool {
        self.is_showing
    }

    pub closed spec fn spec_output(&self) -> AllNodesMenuOutput {
        self.output
    }

    pub fn is_showing(&self) -> (b: bool)
        ensures
            b == self.spec_is_showing(),
    {
        self.is_showing
    }

    pub fn toggle_showing(&mut self)
        ensures
            final(self).spec_is_showing() == !old(self).spec_is_showing(),
            final(self).spec_output() == old(self).spec_output(),
    {
        self.is_showing = !self.is_showing;
    }

    pub fn get_data(&self) -> (output: &AllNodesMenuOutput)
        ensures
            *output == self.spec_output(),
    {
        &self.output
    }

    /// The "Show octree" button was clicked.
    pub fn click_show_octree(&mut self)
        ensures
            final(self).spec_output().should_render_octree == !old(
                self,
            ).spec_output().should_render_octree,
            final(self).spec_output().current_octree_level == old(
                self,
            ).spec_output().current_octree_level,
            final(self).spec_is_showing() == old(self).spec_is_showing(),
    {
        self.output.should_render_octree = !self.output.should_render_octree;
    }

    /// The octree level slider, whose range is `0..=last_octree_level`, was
    /// moved to `level`.
    pub fn set_current_octree_level(&mut self, level: u32, last_octree_level: u32)
        ensures
            final(self).spec_output().current_octree_level == if level <= last_octree_level {
                level
            } else {
                last_octree_level
            },
            final(self).spec_output().should_render_octree == old(
                self,
            ).spec_output().should_render_octree,
            final(self).spec_is_showing() == old(self).spec_is_showing(),
    {
        self.output.current_octree_level = if level <= last_octree_level {
            level
        } else {
            last_octree_level
        };
    }
}

impl Default for AllNodesMenu {
    fn default() -> (menu: Self)
        ensures
            !menu.spec_is_showing(),
            !menu.spec_output().should_render_octree,
            menu.spec_output().current_octree_level == 0,
    {
        AllNodesMenu { is_showing: false, output: AllNodesMenuOutput::default() }
    }
}

} // verus!
