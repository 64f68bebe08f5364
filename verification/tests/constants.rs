use voxel_cone_tracing::constants::{
    neighbor_texture_index, other_axes, Axis, Direction, Sign, CHILDREN_PER_NODE,
};

#[test]
fn children_per_node_is_eight() {
    assert_eq!(CHILDREN_PER_NODE, 8);
}

#[test]
fn all_axis_in_order() {
    assert_eq!(Axis::all_axis(), [Axis::X, Axis::Y, Axis::Z]);
}

#[test]
fn axis_numbers_are_positions() {
    for (position, axis) in Axis::all_axis().iter().enumerate() {
        assert_eq!(axis.to_usize(), position);
        assert_eq!(axis.to_u32() as usize, position);
        assert_eq!(axis.to_i32() as usize, position);
    }
}

#[test]
fn sign_numbers() {
    assert_eq!(Sign::Pos.to_i32(), 1);
    assert_eq!(Sign::Neg.to_i32(), -1);
}

#[test]
fn direction_new_keeps_fields() {
    let direction = Direction::new(Axis::Y, Sign::Neg);
    assert_eq!(direction.axis, Axis::Y);
    assert_eq!(direction.sign, Sign::Neg);
}

#[test]
fn neighbor_texture_indices_cover_six_directions() {
    let mut seen = [false; 6];
    for axis in Axis::all_axis() {
        for sign in [Sign::Pos, Sign::Neg] {
            let index = neighbor_texture_index(Direction::new(axis, sign));
            assert!(index < 6);
            assert_eq!(index / 2, axis.to_usize());
            assert_eq!(index % 2 == 1, sign == Sign::Neg);
            assert!(!seen[index]);
            seen[index] = true;
        }
    }
    assert!(seen.iter().all(|&s| s));
    assert_eq!(neighbor_texture_index(Direction::new(Axis::X, Sign::Pos)), 0);
    assert_eq!(neighbor_texture_index(Direction::new(Axis::Z, Sign::Neg)), 5);
}

#[test]
fn other_axes_of_each_axis() {
    assert_eq!(other_axes(Axis::X), [Axis::Y, Axis::Z]);
    assert_eq!(other_axes(Axis::Y), [Axis::X, Axis::Z]);
    assert_eq!(other_axes(Axis::Z), [Axis::X, Axis::Y]);
}

#[test]
fn axes_and_signs_convert_to_numbers() {
    assert_eq!(u32::from(Axis::X), 0);
    assert_eq!(u32::from(Axis::Z), 2);
    let y: i32 = Axis::Y.into();
    assert_eq!(y, 1);
    assert_eq!(usize::from(Axis::Z), 2);
    assert_eq!(i32::from(Sign::Pos), 1);
    let negative: i32 = Sign::Neg.into();
    assert_eq!(negative, -1);
}
