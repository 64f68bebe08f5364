use voxel_cone_tracing::debug::{
    brick_voxel_coordinates, debug_message_is_reported, debug_severity_label, debug_source_label,
    debug_type_label, get_brick_coordinates, r32ui_to_rgb10_a2ui,
};

#[test]
fn unpacks_three_ten_bit_coordinates() {
    assert_eq!(r32ui_to_rgb10_a2ui(0), (0, 0, 0));
    assert_eq!(r32ui_to_rgb10_a2ui(1 | (2 << 10) | (3 << 20)), (1, 2, 3));
    assert_eq!(r32ui_to_rgb10_a2ui(u32::MAX), (1023, 1023, 1023));
}

#[test]
fn unpacking_ignores_alpha() {
    let packed = 1023 | (512 << 10) | (7 << 20);
    for alpha in 0..4u32 {
        assert_eq!(r32ui_to_rgb10_a2ui(packed | (alpha << 30)), (1023, 512, 7));
    }
}

#[test]
fn unpacking_round_trips() {
    for &(x, y, z) in &[(0u32, 0u32, 0u32), (5, 900, 1023), (1023, 0, 17), (256, 256, 256)] {
        let packed = x + 1024 * y + 1048576 * z;
        assert_eq!(r32ui_to_rgb10_a2ui(packed), (x, y, z));
    }
}

#[test]
fn brick_coordinates_default_pool() {
    // A pool of 210 voxels holds 70 bricks per side.
    assert_eq!(get_brick_coordinates(0, 210), (0, 0, 0));
    assert_eq!(get_brick_coordinates(1, 210), (3, 0, 0));
    assert_eq!(get_brick_coordinates(70, 210), (0, 3, 0));
    assert_eq!(get_brick_coordinates(70 * 70, 210), (0, 0, 3));
    assert_eq!(get_brick_coordinates(70 * 70 + 70 + 1, 210), (3, 3, 3));
    assert_eq!(get_brick_coordinates(69, 210), (207, 0, 0));
}

#[test]
fn brick_coordinates_give_the_node_back() {
    let resolution = 30;
    let bricks = resolution / 3;
    for node in [0u32, 7, 99, 123, 999, 5432] {
        let (x, y, z) = get_brick_coordinates(node, resolution);
        assert_eq!(x % 3, 0);
        assert_eq!(y % 3, 0);
        assert_eq!(z % 3, 0);
        assert_eq!(x / 3 + (y / 3) * bricks + (z / 3) * bricks * bricks, node);
    }
}

#[test]
fn brick_voxel_coordinates_of_a_brick() {
    assert_eq!(brick_voxel_coordinates(0), (0, 0, 0));
    assert_eq!(brick_voxel_coordinates(4), (1, 1, 0));
    assert_eq!(brick_voxel_coordinates(13), (1, 1, 1));
    assert_eq!(brick_voxel_coordinates(26), (2, 2, 2));
    for index in 0..27 {
        let (x, y, z) = brick_voxel_coordinates(index);
        assert_eq!(x + 3 * y + 9 * z, index);
    }
}

#[test]
fn debug_messages_filtered() {
    assert!(!debug_message_is_reported(33360, 1));
    assert!(!debug_message_is_reported(0x824C, 131_185));
    assert!(debug_message_is_reported(0x824C, 1));
    assert_eq!(debug_source_label(0x8248), "Source: Shader Compiler");
    assert_eq!(debug_source_label(7), "Source: Unknown enum value");
    assert_eq!(debug_type_label(0x824C), "Type: Error");
    assert_eq!(debug_type_label(0x826A), "Type: Pop Group");
    assert_eq!(debug_severity_label(0x9146), "Severity: high");
    assert_eq!(debug_severity_label(0x826B), "Severity: notification");
}
