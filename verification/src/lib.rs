//! Integer and boolean logic of a sparse-voxel-octree cone tracer:
//! octree bookkeeping, build schedules, packing of node positions,
//! brick addressing and the state machines behind the debugging menus.

pub mod constants;
pub mod debug;
pub mod cone_tracing;
pub mod octree;
pub mod config;
pub mod text;
pub mod menu;
pub mod camera;
pub mod rendering;
