use voxel_cone_tracing::menu::submenus::node_search::MAX_LISTED_ITEMS;
use voxel_cone_tracing::menu::submenus::{
    AllNodesMenu, AllNodesMenuOutput, ChildrenMenu, ChildrenMenuInput, DiagnosticsMenu,
    ImagesMenu, NodeSearchMenu, NodeSearchMenuInput, NodeSearchMenuOutput,
};
use voxel_cone_tracing::menu::{photon_labels, DebugNode, Menu};
use voxel_cone_tracing::text::{contains, decimal_string, starts_with};

fn positions(count: u32) -> Vec<DebugNode> {
    (0..count)
        .map(|index| DebugNode::new(index, format!("({}, {}, {})", index, index * 2, 7)))
        .collect()
}

#[test]
fn debug_node_label() {
    let node = DebugNode::new(42, "(1, 2, 3)".to_string());
    assert_eq!(node.index(), 42);
    assert_eq!(node.text(), "(1, 2, 3)");
    assert_eq!(node.label(), "42: (1, 2, 3)");
    assert_eq!(node.clone().label(), node.label());
    assert_eq!(DebugNode::new(0, String::new()).label(), "0: ");
}

#[test]
fn decimal_strings() {
    for n in [0u64, 7, 10, 99, 100, 12345, u64::MAX] {
        assert_eq!(decimal_string(n), n.to_string());
    }
}

#[test]
fn string_searches() {
    assert!(starts_with("12345", "12"));
    assert!(starts_with("12345", ""));
    assert!(!starts_with("12", "123"));
    assert!(!starts_with("12345", "23"));
    assert!(contains("(1, 2, 3)", ", 2"));
    assert!(contains("abc", ""));
    assert!(contains("abc", "abc"));
    assert!(!contains("abc", "abcd"));
    assert!(!contains("(1, 2, 3)", "4"));
}

#[test]
fn menu_starts_hidden() {
    let menu = Menu::new();
    assert!(!menu.is_showing());
    assert!(!menu.is_showing_all_nodes_window());
    assert!(!menu.is_showing_node_search_window());
    assert!(!menu.is_showing_bricks_window());
    assert!(!menu.is_showing_photons_window());
    assert!(!menu.is_showing_children_window());
    assert!(!menu.is_showing_images_window());
    assert!(!menu.shift());
}

#[test]
fn menu_window_buttons() {
    let mut menu = Menu::new();
    assert!(menu.toggle_showing());
    menu.click_window_button(1);
    menu.click_window_button(5);
    assert!(menu.is_showing_node_search_window());
    assert!(menu.is_showing_images_window());
    assert!(!menu.is_showing_bricks_window());
    menu.click_window_button(1);
    assert!(!menu.is_showing_node_search_window());
    menu.click_window_button(9);
    assert!(menu.is_showing_images_window());
    assert!(!menu.toggle_showing());
    assert!(menu.is_showing_images_window());
}

#[test]
fn shift_only_seen_while_showing() {
    let mut menu = Menu::new();
    menu.handle_shift_key(true);
    assert!(!menu.shift());
    menu.toggle_showing();
    menu.handle_shift_key(true);
    assert!(menu.shift());
    menu.handle_shift_key(false);
    assert!(!menu.shift());
}

#[test]
fn photon_window_lines() {
    assert_eq!(photon_labels(&[]), vec!["No photon data. Pick a node!".to_string()]);
    let photons: Vec<u32> = (0..27).map(|i| i * 10).collect();
    let labels = photon_labels(&photons);
    assert_eq!(labels.len(), 27);
    assert_eq!(labels[0], "(0, 0, 0): 0");
    assert_eq!(labels[5], "(2, 1, 0): 50");
    assert_eq!(labels[26], "(2, 2, 2): 260");
}

#[test]
fn children_window_lines() {
    assert_eq!(
        ChildrenMenuInput::new(&[]).labels(),
        vec!["No children data. Pick a node!".to_string()]
    );
    let children = [0u32, 17, 4294967295];
    assert_eq!(
        ChildrenMenuInput::new(&children).labels(),
        vec!["0".to_string(), "17".to_string(), "4294967295".to_string()]
    );
    let mut menu = ChildrenMenu::default();
    assert!(!menu.is_showing());
    menu.toggle_showing();
    assert!(menu.is_showing());
}

#[test]
fn all_nodes_menu() {
    let mut menu = AllNodesMenu::default();
    assert!(!menu.is_showing());
    menu.toggle_showing();
    assert!(menu.is_showing());
    menu.click_show_octree();
    assert!(menu.get_data().should_render_octree);
    menu.set_current_octree_level(3, 7);
    assert_eq!(menu.get_data().current_octree_level, 3);
    menu.set_current_octree_level(12, 7);
    assert_eq!(menu.get_data().current_octree_level, 7);
    let output = AllNodesMenuOutput::default();
    assert!(!output.should_render_octree);
    assert_eq!(output.current_octree_level, 0);
}

#[test]
fn images_menu_buttons() {
    let mut menu = ImagesMenu::default();
    menu.click_image_button(0);
    menu.click_image_button(3);
    let toggles = &menu.get_data().toggles;
    assert!(toggles.should_show_color());
    assert!(toggles.should_show_indirect_specular());
    assert!(!toggles.should_show_direct());
    menu.click_image_button(0);
    menu.click_image_button(7);
    assert!(!menu.get_data().toggles.should_show_color());
    let mut diagnostics = DiagnosticsMenu::default();
    diagnostics.toggle_showing();
    assert!(diagnostics.is_showing());
}

#[test]
fn node_search_lists_first_twenty() {
    let input = NodeSearchMenuInput::new(positions(100));
    let menu = NodeSearchMenu::default();
    let listed = menu.listed_items(&input);
    assert_eq!(listed.len(), MAX_LISTED_ITEMS);
    assert_eq!(listed, (0..20).collect::<Vec<usize>>());
}

#[test]
fn node_search_filters_by_position_or_text() {
    let input = NodeSearchMenuInput::new(positions(120));
    let mut menu = NodeSearchMenu::default();
    menu.set_filter_text("11".to_string());
    // Positions starting with "11", then texts holding "11": "(11, 22, 7)",
    // "(55, 110, 7)"..., in order of position.
    let listed = menu.listed_items(&input);
    assert_eq!(listed, vec![11, 55, 56, 57, 58, 59, 110, 111, 112, 113, 114, 115, 116, 117, 118, 119]);
    menu.set_filter_text("zzz".to_string());
    assert!(menu.listed_items(&input).is_empty());
}

#[test]
fn node_search_selection() {
    let input = NodeSearchMenuInput::new(positions(30));
    let mut menu = NodeSearchMenu::default();
    menu.click_item(&input, 4, false);
    assert_eq!(menu.get_data().selected_items.len(), 1);
    assert_eq!(menu.get_data().selected_items[0].index(), 4);
    assert!(menu.get_data().selected_items_updated);
    // Selected nodes leave the list.
    assert!(!menu.listed_items(&input).contains(&4));
    menu.click_item(&input, 9, true);
    menu.click_item(&input, 2, true);
    let indices: Vec<u32> = menu.get_data().selected_items.iter().map(|n| n.index()).collect();
    assert_eq!(indices, vec![4, 9, 2]);
    // Without shift the selection is replaced.
    menu.click_item(&input, 7, false);
    let indices: Vec<u32> = menu.get_data().selected_items.iter().map(|n| n.index()).collect();
    assert_eq!(indices, vec![7]);
    menu.click_item(&input, 8, true);
    menu.click_selected_item(0);
    let indices: Vec<u32> = menu.get_data().selected_items.iter().map(|n| n.index()).collect();
    assert_eq!(indices, vec![8]);
}

#[test]
fn node_search_neighbors_toggle() {
    let mut menu = NodeSearchMenu::default();
    assert!(!menu.is_showing());
    menu.toggle_showing();
    assert!(menu.is_showing());
    menu.toggle_neighbors();
    assert!(menu.get_data().should_show_neighbors);
    let output = NodeSearchMenuOutput::default();
    assert!(output.selected_items.is_empty());
    assert!(output.filter_text.is_empty());
}

#[test]
fn photons_window_state() {
    let mut menu = voxel_cone_tracing::menu::submenus::photons::NodeSearchMenu::default();
    assert!(!menu.is_showing());
    menu.toggle_showing();
    assert!(menu.is_showing());
}
