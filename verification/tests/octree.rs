use voxel_cone_tracing::constants::{Axis, Direction, Sign};
use voxel_cone_tracing::octree::build::{
    border_transfer_dispatches, brick_allocation_groups, brick_build_plan, seed_root_levels,
    BrickPoolValues, BuildStep, NodeAllocation,
};
use voxel_cone_tracing::octree::{
    max_node_pool_size, node_children, total_number_of_nodes, BricksToShow, NodeData,
    OctreeData, OctreeDataType, VoxelData,
};

fn octree_data(levels: &[u32]) -> OctreeData {
    let mut node_data = NodeData::new((1, 2));
    for &count in levels {
        node_data.push_level(count);
    }
    OctreeData::new(
        node_data,
        VoxelData {
            voxel_positions: (3, 4),
            number_of_voxel_fragments: 10,
            voxel_colors: (5, 6),
            voxel_normals: (7, 8),
        },
    )
}

#[test]
fn number_of_nodes_sums_levels() {
    let data = octree_data(&[1, 4, 4, 13, 43, 151, 559]);
    assert_eq!(data.number_of_nodes(), 775);
    assert_eq!(data.node_data().number_of_nodes(), 775);
    assert_eq!(octree_data(&[]).number_of_nodes(), 0);
}

#[test]
fn total_number_of_nodes_adds_both_halves() {
    let geometry = octree_data(&[1, 4, 4]);
    let border = octree_data(&[0, 2, 7]);
    assert_eq!(total_number_of_nodes(&geometry, &border), 18);
}

#[test]
fn node_data_accessors() {
    let data = octree_data(&[1, 8]);
    let node_data = data.node_data();
    assert_eq!(node_data.number_of_levels(), 2);
    assert_eq!(node_data.nodes_in_level(1), 8);
    assert_eq!(node_data.level_start_indices(), (1, 2));
    assert!(node_data.has_root());
    assert!(!octree_data(&[0, 3]).node_data().has_root());
    assert!(!octree_data(&[]).node_data().has_root());
    assert_eq!(data.voxel_data().number_of_voxel_fragments, 10);
    assert_eq!(data.voxel_data().voxel_normals, (7, 8));
}

#[test]
fn set_number_of_voxel_fragments_keeps_textures() {
    let mut data = octree_data(&[1]);
    data.set_number_of_voxel_fragments(99);
    assert_eq!(data.voxel_data().number_of_voxel_fragments, 99);
    assert_eq!(data.voxel_data().voxel_positions, (3, 4));
    assert_eq!(data.number_of_nodes(), 1);
}

#[test]
fn octree_data_types_differ() {
    assert_ne!(OctreeDataType::Geometry, OctreeDataType::Border);
}

#[test]
fn max_node_pool_size_by_tree() {
    // 8 levels: 1 + 8 + ... + 8^7 = 2396745 nodes, 8 children each.
    assert_eq!(max_node_pool_size(8, i32::MAX), 2396745 * 8);
    assert_eq!(max_node_pool_size(1, 1 << 20), 8);
    assert_eq!(max_node_pool_size(0, 1 << 20), 0);
}

#[test]
fn max_node_pool_size_by_memory() {
    assert_eq!(max_node_pool_size(8, 134217728), 16777216);
    assert_eq!(max_node_pool_size(8, 7), 0);
    assert_eq!(max_node_pool_size(8, -7), 0);
    assert_eq!(max_node_pool_size(3, 8 * 73 * 8), 73 * 8);
    assert_eq!(max_node_pool_size(3, 8 * 73 * 8 - 8), 73 * 8 - 1);
}

#[test]
fn node_children_are_eight_consecutive_entries() {
    let pool: Vec<u32> = (0..32).collect();
    assert_eq!(node_children(&pool, 0), (0..8).collect::<Vec<u32>>());
    assert_eq!(node_children(&pool, 3), (24..32).collect::<Vec<u32>>());
}

#[test]
fn bricks_to_show_toggles() {
    let mut bricks = BricksToShow::default();
    assert!(!bricks.at_least_one());
    assert_eq!(bricks.to_bits(), 0);
    bricks.toggle_z1();
    assert!(bricks.z1() && !bricks.z0() && !bricks.z2());
    assert!(bricks.at_least_one());
    assert_eq!(bricks.to_bits(), 2);
    bricks.toggle_z0();
    bricks.toggle_z2();
    assert_eq!(bricks.to_bits(), 7);
    bricks.toggle_z1();
    assert_eq!(bricks.to_bits(), 5);
}

#[test]
fn bricks_to_show_toggle_twice_restores() {
    let mut bricks = BricksToShow::default();
    bricks.toggle_z2();
    let before = bricks.to_bits();
    bricks.toggle_z0();
    bricks.toggle_z0();
    assert_eq!(bricks.to_bits(), before);
}

#[test]
fn build_plan_single_level() {
    let plan = brick_build_plan(1);
    assert_eq!(
        plan,
        vec![
            BuildStep::WriteLeafNodes,
            BuildStep::SpreadLeafBricks(BrickPoolValues::Colors),
            BuildStep::SpreadLeafBricks(BrickPoolValues::Normals),
            BuildStep::BorderTransfer(0, BrickPoolValues::Colors),
            BuildStep::BorderTransfer(0, BrickPoolValues::Normals),
        ]
    );
}

#[test]
fn build_plan_mipmaps_bottom_up() {
    let plan = brick_build_plan(3);
    assert_eq!(plan.len(), 5 + 10 + 8);
    assert_eq!(plan[3], BuildStep::BorderTransfer(2, BrickPoolValues::Colors));
    assert_eq!(plan[5], BuildStep::MipmapCenter(1, BrickPoolValues::Colors));
    assert_eq!(plan[8], BuildStep::MipmapEdges(1, BrickPoolValues::Colors));
    assert_eq!(plan[9], BuildStep::MipmapCenter(1, BrickPoolValues::Normals));
    assert_eq!(plan[13], BuildStep::BorderTransfer(1, BrickPoolValues::Colors));
    assert_eq!(plan[14], BuildStep::BorderTransfer(1, BrickPoolValues::Normals));
    assert_eq!(plan[15], BuildStep::MipmapCenter(0, BrickPoolValues::Colors));
    assert_eq!(plan[22], BuildStep::MipmapEdges(0, BrickPoolValues::Normals));
    assert_eq!(brick_build_plan(8).len(), 5 + 10 * 7 - 2);
}

#[test]
fn node_allocation_geometry_levels() {
    // The example of the documentation: 4, 4, 13, 43, 151 and 559 nodes below
    // the root give level starts 0, 1, 5, 9, 22, 65, 216 and 775.
    let mut geometry = octree_data(&[1]);
    let mut allocation = NodeAllocation::new(geometry.node_data(), 1);
    assert_eq!(allocation.first_node_in_level(), 0);
    assert_eq!(allocation.first_free_node(), 1);
    for &count in &[4u32, 4, 13, 43, 151, 559] {
        let first_free = allocation.first_free_node();
        allocation.record_level(&mut geometry, count);
        assert_eq!(allocation.first_node_in_level(), first_free);
        assert_eq!(allocation.first_free_node(), first_free + count as i32);
    }
    assert_eq!(allocation.first_free_node(), 775);
    assert_eq!(allocation.finish(), vec![0, 1, 5, 9, 22, 65, 216, 775]);
    assert_eq!(geometry.number_of_nodes(), 775);
    assert_eq!(geometry.node_data().nodes_in_level(6), 559);
}

#[test]
fn node_allocation_without_root() {
    let mut border = octree_data(&[0]);
    let mut allocation = NodeAllocation::new(border.node_data(), 775);
    allocation.record_level(&mut border, 0);
    allocation.record_level(&mut border, 12);
    assert_eq!(allocation.finish(), vec![-1, 775, 775, 787]);
    assert_eq!(border.number_of_nodes(), 12);
}

#[test]
fn border_transfer_dispatch_order() {
    let dispatches = border_transfer_dispatches(Direction::new(Axis::Y, Sign::Neg));
    assert_eq!(dispatches, [(Axis::X, 0), (Axis::Z, 4), (Axis::Y, 3)]);
    let dispatches = border_transfer_dispatches(Direction::new(Axis::X, Sign::Pos));
    assert_eq!(dispatches, [(Axis::Y, 2), (Axis::Z, 4), (Axis::X, 0)]);
}

#[test]
fn brick_allocation_groups_cover_all_nodes() {
    assert_eq!(brick_allocation_groups(0, 64), 1);
    assert_eq!(brick_allocation_groups(63, 64), 1);
    assert_eq!(brick_allocation_groups(64, 64), 2);
    assert_eq!(brick_allocation_groups(775, 64), 13);
}

#[test]
fn seeding_puts_the_root_in_the_geometry_half() {
    let mut geometry = octree_data(&[]);
    let mut border = octree_data(&[]);
    assert_eq!(seed_root_levels(&mut geometry, &mut border), 1);
    assert_eq!(geometry.node_data().number_of_levels(), 1);
    assert_eq!(geometry.node_data().nodes_in_level(0), 1);
    assert!(geometry.node_data().has_root());
    assert_eq!(border.node_data().number_of_levels(), 1);
    assert_eq!(border.node_data().nodes_in_level(0), 0);
    assert!(!border.node_data().has_root());
    assert_eq!(geometry.node_data().level_start_indices(), (1, 2));
    assert_eq!(geometry.voxel_data().number_of_voxel_fragments, 10);
}

#[test]
fn border_nodes_follow_geometry_nodes() {
    let mut geometry = octree_data(&[]);
    let mut border = octree_data(&[]);
    let first_free = seed_root_levels(&mut geometry, &mut border);
    let mut geometry_allocation = NodeAllocation::new(geometry.node_data(), first_free);
    for &count in &[8u32, 20, 64] {
        geometry_allocation.record_level(&mut geometry, count);
    }
    let geometry_end = geometry_allocation.first_free_node();
    let geometry_starts = geometry_allocation.finish();
    let mut border_allocation = NodeAllocation::new(border.node_data(), geometry_end);
    for &count in &[0u32, 6, 30] {
        border_allocation.record_level(&mut border, count);
    }
    let border_starts = border_allocation.finish();
    assert_eq!(geometry_starts, vec![0, 1, 9, 29, 93]);
    assert_eq!(border_starts, vec![-1, 93, 93, 99, 129]);
    let last_geometry = *geometry_starts.last().unwrap();
    assert!(border_starts[1..].iter().all(|&start| start >= last_geometry));
}

#[test]
fn build_level_starts_follow_running_totals() {
    // Geometry: root, then 8, 20 and 64 nodes; border: none at the root,
    // then 0, 6 and 30 nodes.
    let mut geometry = octree_data(&[]);
    let mut border = octree_data(&[]);
    let first_free = seed_root_levels(&mut geometry, &mut border);
    let mut geometry_allocation = NodeAllocation::new(geometry.node_data(), first_free);
    for &count in &[8u32, 20, 64] {
        geometry_allocation.record_level(&mut geometry, count);
    }
    assert_eq!(geometry_allocation.levels_recorded(), 4);
    let geometry_end = geometry_allocation.first_free_node();
    assert_eq!(geometry_end as usize, geometry.number_of_nodes());
    let mut border_allocation = NodeAllocation::new(border.node_data(), geometry_end);
    assert_eq!(border_allocation.levels_recorded(), 1);
    for &count in &[0u32, 6, 30] {
        border_allocation.record_level(&mut border, count);
    }
    assert_eq!(border_allocation.levels_recorded(), 4);
    let border_starts = border_allocation.finish();
    // 93 geometry nodes, then the running border totals 93 + 0, + 0, + 6, + 30.
    assert_eq!(border_starts, vec![-1, 93, 93, 99, 129]);
    assert_eq!(
        *border_starts.last().unwrap() as usize,
        total_number_of_nodes(&geometry, &border)
    );
}

#[test]
fn bricks_to_show_converts_to_its_bits() {
    let mut bricks = BricksToShow::default();
    assert_eq!(u32::from(bricks), 0);
    bricks.toggle_z0();
    bricks.toggle_z2();
    let bits: u32 = bricks.into();
    assert_eq!(bits, 5);
}
