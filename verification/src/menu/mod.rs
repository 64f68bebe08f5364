use vstd::prelude::*;

use crate::text::{append_decimal, decimal};

pub mod submenus;

verus! {

/// Whether the menu is shown, which of its windows are open, and whether
/// the left shift key is held.
///
/// The windows are numbered for the contracts: `0` all nodes, `1` node
/// search, `2` bricks, `3` photons, `4` children, `5` images.
#[derive(Debug)]
pub struct Menu {
    is_showing: bool,
    is_showing_all_nodes_window: bool,
    is_showing_node_search_window: bool,
    is_showing_bricks_window: bool,
    is_showing_photons_window: bool,
    is_showing_children_window: bool,
    is_showing_images_window: bool,
    shift: bool,
}

impl Menu {
    pub closed spec fn spec_is_showing(&self) -> bool {
        self.is_showing
    }

    /// Whether the left shift key is held, as far as the menu saw.
    pub closed spec fn spec_shift(&self) -> bool {
        self.shift
    }

    /// Whether window `i` is open; `false` outside `0..6`.
    pub closed spec fn window(&self, i: int) -> bool {
        if i == 0 {
            self.is_showing_all_nodes_window
        } else if i == 1 {
            self.is_showing_node_search_window
        } else if i == 2 {
            self.is_showing_bricks_window
        } else if i == 3 {
            self.is_showing_photons_window
        } else if i == 4 {
            self.is_showing_children_window
        } else if i == 5 {
            self.is_showing_images_window
        } else {
            false
        }
    }

    /// `after` is `before` with window `k` opened or closed, everything else kept.
    pub open spec fn window_flipped(before: Self, after: Self, k: int) -> bool {
        &&& forall|i: int| 0 <= i < 6 ==> #[trigger] after.window(i) == (before.window(i) != (i == k))
        &&& after.spec_is_showing() == before.spec_is_showing()
        &&& after.spec_shift() == before.spec_shift()
    }

    /// A hidden menu with every window closed.
    pub fn new() -> (menu: Self)
        ensures
            !menu.spec_is_showing(),
            !menu.spec_shift(),
            forall|i: int| !#[trigger] menu.window(i),
    {
        Menu {
            is_showing: false,
            is_showing_all_nodes_window: false,
            is_showing_node_search_window: false,
            is_showing_bricks_window: false,
            is_showing_photons_window: false,
            is_showing_children_window: false,
            is_showing_images_window: false,
            shift: false,
        }
    }

    /// Shows or hides the menu; returns whether it is now shown (the cursor
    /// is then released, else captured again).
    pub fn toggle_showing(&mut self) -> (showing: bool)
        ensures
            showing == final(self).spec_is_showing(),
            final(self).spec_is_showing() == !old(self).spec_is_showing(),
            final(self).spec_shift() == old(self).spec_shift(),
            forall|i: int| #[trigger] final(self).window(i) == old(self).window(i),
    {
        self.is_showing = !self.is_showing;
        self.is_showing
    }

    pub fn is_showing(&self) -> (b: bool)
        ensures
            b == self.spec_is_showing(),
    {
        self.is_showing
    }

    pub fn is_showing_all_nodes_window(&self) -> (b: bool)
        ensures
            b == self.window(0),
    {
        self.is_showing_all_nodes_window
    }

    pub fn is_showing_node_search_window(&self) -> (b: bool)
        ensures
            b == self.window(1),
    {
        self.is_showing_node_search_window
    }

    pub fn is_showing_bricks_window(&self) -> (b: bool)
        ensures
            b == self.window(2),
    {
        self.is_showing_bricks_window
    }

    pub fn is_showing_photons_window(&self) -> (b: bool)
        ensures
            b == self.window(3),
    {
        self.is_showing_photons_window
    }

    pub fn is_showing_children_window(&self) -> (b: bool)
        ensures
            b == self.window(4),
    {
        self.is_showing_children_window
    }

    pub fn is_showing_images_window(&self) -> (b: bool)
        ensures
            b == self.window(5),
    {
        self.is_showing_images_window
    }

    /// The button of window `window` in the main menu window was clicked:
    /// the window opens, or closes when it was open. Other numbers change
    /// nothing.
    pub fn click_window_button(&mut self, window: u32)
        ensures
            Self::window_flipped(*old(self), *final(self), window as int),
    {
        if window == 0 {
            self.is_showing_all_nodes_window = !self.is_showing_all_nodes_window;
        } else if window == 1 {
            self.is_showing_node_search_window = !self.is_showing_node_search_window;
        } else if window == 2 {
            self.is_showing_bricks_window = !self.is_showing_bricks_window;
        } else if window == 3 {
            self.is_showing_photons_window = !self.is_showing_photons_window;
        } else if window == 4 {
            self.is_showing_children_window = !self.is_showing_children_window;
        } else if window == 5 {
            self.is_showing_images_window = !self.is_showing_images_window;
        }
    }

    /// The left shift key was pressed (`pressed`) or released; only seen
    /// while the menu is shown.
    pub fn handle_shift_key(&mut self, pressed: bool)
        ensures
            final(self).spec_shift() == if old(self).spec_is_showing() {
                pressed
            } else {
                old(self).spec_shift()
            },
            final(self).spec_is_showing() == old(self).spec_is_showing(),
            forall|i: int| #[trigger] final(self).window(i) == old(self).window(i),
    {
        if !self.is_showing {
            return;
        }
        self.shift = pressed;
    }

    /// Whether the left shift key is held.
    pub fn shift(&self) -> (b: bool)
        ensures
            b == self.spec_shift(),
    {
        self.shift
    }
}

/// Opening or closing the same window twice gives back the menu one started
/// from.
pub proof fn lemma_window_button_twice(a: Menu, b: Menu, c: Menu, k: int)
    requires
        Menu::window_flipped(a, b, k),
        Menu::window_flipped(b, c, k),
    ensures
        c == a,
{
    assert forall|i: int| 0 <= i < 6 implies #[trigger] c.window(i) == a.window(i) by {
        assert(b.window(i) == (a.window(i) != (i == k)));
    }
    assert(c.window(0) == a.window(0));
    assert(c.window(1) == a.window(1));
    assert(c.window(2) == a.window(2));
    assert(c.window(3) == a.window(3));
    assert(c.window(4) == a.window(4));
    assert(c.window(5) == a.window(5));
    lemma_menu_determined(c, a);
}

proof fn lemma_menu_determined(a: Menu, b: Menu)
    requires
        a.spec_is_showing() == b.spec_is_showing(),
        a.spec_shift() == b.spec_shift(),
        forall|i: int| 0 <= i < 6 ==> #[trigger] a.window(i) == b.window(i),
    ensures
        a == b,
{
    assert(a.window(0) == b.window(0));
    assert(a.window(1) == b.window(1));
    assert(a.window(2) == b.window(2));
    assert(a.window(3) == b.window(3));
    assert(a.window(4) == b.window(4));
    assert(a.window(5) == b.window(5));
}

/// A node picked for debugging: its index and a description.
#[derive(Debug)]
pub struct DebugNode {
    index: u32,
    text: String,
}

/// How a debug node reads in the menus: `"<index>: <text>"`.
pub open spec fn debug_node_label(index: u32, text: Seq<char>) -> Seq<char> {
    decimal(index as nat) + ": "@ + text
}

impl DebugNode {
    pub closed spec fn spec_index(&self) -> u32 {
        self.index
    }

    pub closed spec fn spec_text(&self) -> Seq<char> {
        self.text@
    }

    pub fn new(index: u32, text: String) -> (node: Self)
        ensures
            node.spec_index() == index,
            node.spec_text() == text@,
    {
        Self { index, text }
    }

    pub fn index(&self) -> (index: u32)
        ensures
            index == self.spec_index(),
    {
        self.index
    }

    /// The node's description.
    pub fn text(&self) -> (text: &str)
        ensures
            text@ == self.spec_text(),
    {
        self.text.as_str()
    }

    /// How the node reads in the menus: `"<index>: <text>"`.
    pub fn label(&self) -> (label: String)
        ensures
            label@ == debug_node_label(self.spec_index(), self.spec_text()),
    {
        let mut label = String::new();
        append_decimal(&mut label, self.index as u64);
        label.append(": ");
        label.append(self.text.as_str());
        assert(label@ =~= debug_node_label(self.spec_index(), self.spec_text()));
        label
    }
}

impl Clone for DebugNode {
    fn clone(&self) -> (copy: Self)
        ensures
            copy == *self,
    {
        DebugNode { index: self.index, text: self.text.clone() }
    }
}

/// How the photon count `photon` of voxel `index` of a brick reads in the
/// photons window: `"(<x>, <y>, <z>): <photon>"`.
pub open spec fn photon_label(index: nat, photon: u32) -> Seq<char> {
    let c = crate::debug::spec_brick_voxel_coordinates(index);
    "("@ + decimal(c.0) + ", "@ + decimal(c.1) + ", "@ + decimal(c.2) + "): "@ + decimal(
        photon as nat,
    )
}

/// Lines of the photons window: one label per voxel of the brick, or a hint
/// to pick a node when there is no photon data.
pub open spec fn spec_photon_labels(photons: Seq<u32>) -> Seq<Seq<char>> {
    if photons.len() == 0 {
        seq!["No photon data. Pick a node!"@]
    } else {
        Seq::new(photons.len(), |i: int| photon_label(i as nat, photons[i]))
    }
}

/// Lines of the photons window for the photon counts of a brick.
pub fn photon_labels(photons: &[u32]) -> (labels: Vec<String>)
    ensures
        labels@.len() == spec_photon_labels(photons@).len(),
        forall|i: int|
            0 <= i < labels@.len() ==> #[trigger] labels@[i]@ == spec_photon_labels(photons@)[i],
{
    let mut labels: Vec<String> = Vec::new();
    if photons.len() == 0 {
        labels.push(String::from_str("No photon data. Pick a node!"));
        return labels;
    }
    let mut index: usize = 0;
    while index < photons.len()
        invariant
            index <= photons@.len(),
            photons@.len() > 0,
            labels@.len() == index,
            forall|i: int|
                0 <= i < index ==> #[trigger] labels@[i]@ == photon_label(i as nat, photons@[i]),
        decreases photons@.len() - index,
    {
        let (x, y, z) = crate::debug::brick_voxel_coordinates(index);
        let mut label = String::from_str("(");
        append_decimal(&mut label, x as u64);
        label.append(", ");
        append_decimal(&mut label, y as u64);
        label.append(", ");
        append_decimal(&mut label, z as u64);
        label.append("): ");
        append_decimal(&mut label, photons[index] as u64);
        assert(label@ =~= photon_label(index as nat, photons@[index as int]));
        labels.push(label);
        index = index + 1;
    }
    labels
}

} // verus!
