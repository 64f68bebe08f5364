use vstd::prelude::*;

verus! {

/// Window that shows the frame rate.
#[derive(Debug, Clone, Copy)]
pub struct DiagnosticsMenu {
    is_showing: bool,
}

impl DiagnosticsMenu {
    pub closed spec fn spec_is_showing(&self) -> bool {
        self.is_showing
    }

    pub fn is_showing(&self) -> (b: bool)
        ensures
            b == self.spec_is_showing(),
    {
        self.is_showing
    }

    pub fn toggle_showing(&mut self)
        ensures
            final(self).spec_is_showing() == !old(self).spec_is_showing(),
    {
        self.is_showing = !self.is_showing;
    }
}

impl Default for DiagnosticsMenu {
    fn default() -> (menu: Self)
        ensures
            !menu.spec_is_showing(),
    {
        DiagnosticsMenu { is_showing: false }
    }
}

} // verus!
