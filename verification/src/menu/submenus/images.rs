use vstd::prelude::*;

use crate::cone_tracing::Toggles;

verus! {

/// What the images window hands to the cone tracer.
#[derive(Debug)]
pub struct ImagesMenuOutput {
    pub toggles: Toggles,
}

/// Window that picks the images the cone tracer shows.
#[derive(Debug)]
pub struct ImagesMenu {
    is_showing: bool,
    output: ImagesMenuOutput,
}

impl ImagesMenu {
    pub closed spec fn spec_is_showing(&self) -> bool {
        self.is_showing
    }

    pub closed spec fn spec_toggles(&self) -> Toggles {
        self.output.toggles
    }

    pub fn is_showing(&self) -> (b: bool)
        ensures
            b == self.spec_is_showing(),
    {
        self.is_showing
    }

    pub fn toggle_showing(&mut self)
        ensures
            final(self).spec_is_showing() == !old(self).spec_is_showing(),
            final(self).spec_toggles() == old(self).spec_toggles(),
    {
        self.is_showing = !self.is_showing;
    }

    pub fn get_data(&self) -> (output: &ImagesMenuOutput)
        ensures
            output.toggles == self.spec_toggles(),
    {
        &self.output
    }

    /// The button of image `image` was clicked (`0` colour, `1` direct light,
    /// `2` indirect diffuse, `3` indirect specular, `4` ambient occlusion):
    /// the image is shown, or hidden when it was shown. Other numbers change
    /// nothing.
    pub fn click_image_button(&mut self, image: u32)
        ensures
            Toggles::flipped(old(self).spec_toggles(), final(self).spec_toggles(), image as int),
            final(self).spec_is_showing() == old(self).spec_is_showing(),
    {
        if image == 0 {
            self.output.toggles.toggle_color();
        } else if image == 1 {
            self.output.toggles.toggle_direct();
        } else if image == 2 {
            self.output.toggles.toggle_indirect();
        } else if image == 3 {
            self.output.toggles.toggle_indirect_specular();
        } else if image == 4 {
            self.output.toggles.toggle_ambient_occlusion();
        }
    }
}

impl Default for ImagesMenu {
    fn default() -> (menu: Self)
        ensures
            !menu.spec_is_showing(),
            forall|i: int| !#[trigger] menu.spec_toggles().flag(i),
    {
        ImagesMenu { is_showing: false, output: ImagesMenuOutput { toggles: Toggles::default() } }
    }
}

} // verus!
