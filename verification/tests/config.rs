use voxel_cone_tracing::config::{log2_floor_u32, preset_path, scene_path, Config, Options};

#[test]
fn default_config() {
    let config = Config::default();
    assert_eq!(config.viewport_width, 1024);
    assert_eq!(config.viewport_height, 1024);
    assert_eq!(config.voxel_dimension, 256);
    assert_eq!(config.brick_pool_resolution, 210);
    assert_eq!(config.octree_levels, 8);
    assert_eq!(config.working_group_size, 64);
}

#[test]
fn octree_levels_of_default_dimension_match_default() {
    let mut config = Config::default();
    config.octree_levels = 0;
    config.compute_octree_levels();
    assert_eq!(config.octree_levels, Config::default().octree_levels);
    assert_eq!(config.last_octree_level(), 7);
}

#[test]
fn octree_levels_of_powers_of_two() {
    for k in 0..11u32 {
        let mut config = Config::default();
        config.voxel_dimension = 1 << k;
        config.compute_octree_levels();
        assert_eq!(config.octree_levels, k);
    }
}

#[test]
fn octree_levels_round_down() {
    let mut config = Config::default();
    config.voxel_dimension = 300;
    config.compute_octree_levels();
    // 300^3 = 27000000, whose log2 rounds down to 24.
    assert_eq!(config.octree_levels, 8);
    config.voxel_dimension = 3;
    config.compute_octree_levels();
    assert_eq!(config.octree_levels, 1);
}

#[test]
fn log2_floor_values() {
    assert_eq!(log2_floor_u32(1), 0);
    assert_eq!(log2_floor_u32(8), 3);
    assert_eq!(log2_floor_u32(9), 3);
    assert_eq!(log2_floor_u32(u32::MAX), 31);
}

#[test]
fn file_paths() {
    assert_eq!(scene_path("scene"), "scenes/scene.ron");
    assert_eq!(preset_path(""), "presets/.ron");
    assert_eq!(preset_path("sponza"), "presets/sponza.ron");
    let options = Options { scene: "scene".to_string(), preset: String::new() };
    assert_eq!(scene_path(&options.scene), "scenes/scene.ron");
}
