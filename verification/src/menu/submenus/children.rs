use vstd::prelude::*;

use crate::text::{decimal, decimal_string};

verus! {

/// Window that shows the children of the picked node.
#[derive(Debug, Clone, Copy)]
pub struct ChildrenMenu {
    is_showing: bool,
}

impl ChildrenMenu {
    pub closed spec fn spec_is_showing(&self) -> bool {
        self.is_showing
    }

    pub fn is_showing(&self) -> (b: bool)
        ensures
            b == self.spec_is_showing(),
    {
        self.is_showing
    }

    pub fn toggle_showing(&mut self)
        ensures
            final(self).spec_is_showing() == !old(self).spec_is_showing(),
    {
        self.is_showing = !self.is_showing;
    }
}

impl Default for ChildrenMenu {
    fn default() -> (menu: Self)
        ensures
            !menu.spec_is_showing(),
    {
        ChildrenMenu { is_showing: false }
    }
}

/// Lines of the children window: the children's node indices, or a hint to
/// pick a node when there is no children data.
pub open spec fn spec_children_labels(children: Seq<u32>) -> Seq<Seq<char>> {
    if children.len() == 0 {
        seq!["No children data. Pick a node!"@]
    } else {
        Seq::new(children.len(), |i: int| decimal(children[i] as nat))
    }
}

/// The children of the picked node, as the children window gets them.
pub struct ChildrenMenuInput<'a> {
    children: &'a [u32],
}

impl<'a> ChildrenMenuInput<'a> {
    pub closed spec fn spec_children(&self) -> Seq<u32> {
        self.children@
    }

    pub fn new(children: &'a [u32]) -> (input: Self)
        ensures
            input.spec_children() == children@,
    {
        Self { children }
    }

    /// Lines of the children window.
    pub fn labels(&self) -> (labels: Vec<String>)
        ensures
            labels@.len() == spec_children_labels(self.spec_children()).len(),
            forall|i: int|
                0 <= i < labels@.len() ==> #[trigger] labels@[i]@ == spec_children_labels(
                    self.spec_children(),
                )[i],
    {
        let mut labels: Vec<String> = Vec::new();
        if self.children.len() == 0 {
            labels.push(String::from_str("No children data. Pick a node!"));
            return labels;
        }
        let mut i: usize = 0;
        while i < self.children.len()
            invariant
                i <= self.children@.len(),
                self.children@.len() > 0,
                labels@.len() == i,
                forall|j: int|
                    0 <= j < i ==> #[trigger] labels@[j]@ == decimal(self.children@[j] as nat),
            decreases self.children@.len() - i,
        {
            labels.push(decimal_string(self.children[i] as u64));
            i = i + 1;
        }
        labels
    }
}

} // verus!
