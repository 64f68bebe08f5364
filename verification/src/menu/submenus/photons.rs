use vstd::prelude::*;

verus! {

/// Window that shows the photon counts of the brick of the picked node.
#[derive(Debug, Clone, Copy)]
pub struct NodeSearchMenu {
    is_showing: bool,
}

impl NodeSearchMenu {
    pub closed spec fn spec_is_showing(&self) -> bool {
        self.is_showing
    }

    pub fn is_showing(&self) -> (b: bool)
        ensures
            b == self.spec_is_showing(),
    {
        self.is_showing
    }

    pub fn toggle_showing(&mut self)
        ensures
            final(self).spec_is_showing() == !old(self).spec_is_showing(),
    {
        self.is_showing = !self.is_showing;
    }
}

impl Default for NodeSearchMenu {
    fn default() -> (menu: Self)
        ensures
            !menu.spec_is_showing(),
    {
        NodeSearchMenu { is_showing: false }
    }
}

} // verus!
