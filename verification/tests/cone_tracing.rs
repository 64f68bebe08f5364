use std::collections::HashSet;

use voxel_cone_tracing::cone_tracing::{cone_picked_nodes, Toggles};

#[test]
fn toggles_default_shows_nothing() {
    let toggles = Toggles::default();
    assert!(!toggles.should_show_color());
    assert!(!toggles.should_show_direct());
    assert!(!toggles.should_show_indirect());
    assert!(!toggles.should_show_indirect_specular());
    assert!(!toggles.should_show_ambient_occlusion());
    assert!(!toggles.should_show_final_image_quad());
}

#[test]
fn each_toggle_flips_one_image() {
    let mut toggles = Toggles::default();
    toggles.toggle_direct();
    assert!(toggles.should_show_direct());
    assert!(!toggles.should_show_color());
    assert!(toggles.should_show_final_image_quad());
    toggles.toggle_ambient_occlusion();
    assert!(toggles.should_show_ambient_occlusion());
    toggles.toggle_direct();
    assert!(!toggles.should_show_direct());
    assert!(toggles.should_show_final_image_quad());
    toggles.toggle_ambient_occlusion();
    assert!(!toggles.should_show_final_image_quad());
}

#[test]
fn toggling_twice_restores() {
    let mut toggles = Toggles::default();
    toggles.toggle_color();
    toggles.toggle_indirect();
    toggles.toggle_indirect();
    toggles.toggle_indirect_specular();
    toggles.toggle_indirect_specular();
    assert!(toggles.should_show_color());
    assert!(!toggles.should_show_indirect());
    assert!(!toggles.should_show_indirect_specular());
    let copy = toggles.clone();
    assert!(copy.should_show_color());
}

#[test]
fn cone_picks_new_nodes() {
    let previous: HashSet<u32> = HashSet::new();
    let values = vec![5, 3, 5, 9, 42, 42];
    let (set, nodes) = cone_picked_nodes(&values, 4, &previous).expect("new nodes");
    assert_eq!(set, [3u32, 5, 9].iter().cloned().collect::<HashSet<u32>>());
    let mut indices: Vec<u32> = nodes.iter().map(|node| node.index()).collect();
    indices.sort();
    assert_eq!(indices, vec![3, 5, 9]);
    assert!(nodes.iter().all(|node| node.text() == "picked by cone"));
}

#[test]
fn cone_picks_nothing_when_unchanged() {
    let previous: HashSet<u32> = [3u32, 5, 9].iter().cloned().collect();
    let values = vec![9, 9, 3, 5, 1];
    assert!(cone_picked_nodes(&values, 4, &previous).is_none());
    assert!(cone_picked_nodes(&values, 5, &previous).is_some());
    assert!(cone_picked_nodes(&values, 2, &previous).is_some());
    assert!(cone_picked_nodes(&values, 0, &HashSet::new()).is_none());
}
