# voxel_cone_tracing

The integer and boolean logic of a voxel cone tracer built on a sparse voxel
octree, with the program that builds the octree on the GPU and lets one
inspect it. The program does not run the cone tracing pass or the light
injection itself. The crate is split in two:

- `src/` is a library verified with Verus: the octree's bookkeeping (node
  counts per level, where each level starts, the size of the node pool, the
  children of a node), the order of the passes that fill the bricks, the
  neighbour textures of each direction, the packing of node positions, brick
  addressing, the parsing of shader files (lines, `#shader` stages,
  `#include` directives), the labels of OpenGL debug messages and the state
  of the debugging menus (node search, selection, toggles).
- `app/` is the program around it: the window and its events, OpenGL and the
  shaders, the model loader, the octree build passes, the debug cone, the
  camera and the menu drawn with egui. It
  hands the library plain values and draws what the library decides.

`tests/` runs the library on concrete values.
