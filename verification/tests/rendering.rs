use voxel_cone_tracing::camera::Camera_Movement;
use voxel_cone_tracing::rendering::camera::CameraMovement;
use voxel_cone_tracing::rendering::geometry_buffers::GeometryBuffers;

#[test]
fn geometry_buffers_keep_their_textures() {
    let buffers = GeometryBuffers::new(1, 2, 3, 4);
    assert_eq!(buffers.raw_positions(), 1);
    assert_eq!(buffers.positions(), 2);
    assert_eq!(buffers.normals(), 3);
    assert_eq!(buffers.colors(), 4);
}

#[test]
fn camera_movements_compare() {
    assert_eq!(CameraMovement::Up, CameraMovement::Up);
    assert_ne!(CameraMovement::Up, CameraMovement::Down);
    assert_ne!(Camera_Movement::Left, Camera_Movement::Right);
}
