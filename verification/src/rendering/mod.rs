pub mod camera;
pub mod geometry_buffers;
pub mod shader;
