use sph_fluid::spawn::SPAWN_COUNT;
use sph_fluid::{
    add_mesh, initialize_octree, spawn_particles, Model, OctreeNode, ParticleModel,
    ParticleScheduled, Vec3,
};

#[test]
fn a_wave_spawns_along_the_top() {
    let jitter = vec![(1, 2), (3, 4), (5, 6), (7, 8), (9, 10)];
    let wave = spawn_particles(&jitter);
    assert_eq!(wave.len(), SPAWN_COUNT);
    assert_eq!(wave[0].position, Vec3::new(-36_000, 20_000, 0));
    assert_eq!(wave[4].position, Vec3::new(-20_000, 20_000, 0));
    assert_eq!(wave[2].velocity, Vec3::new(5, -40_000, 6));
    assert_eq!(wave[3].density, 0);
    assert_eq!(wave[3].force, Vec3::zero());
}

#[test]
fn waves_are_scheduled_one_at_a_time() {
    let mut s = ParticleScheduled::new();
    assert!(!s.scheduled_spawner());
    s.mouse_handler(true);
    s.mouse_handler(true);
    assert_eq!(s.wave, 1);
    assert!(s.scheduled_spawner());
    assert_eq!(s.wave, 0);
    s.mouse_handler(false);
    assert!(!s.scheduled_spawner());
}

#[test]
fn obstacle_appears_once() {
    let mut spawned = false;
    assert!(add_mesh(&mut spawned, false).is_none());
    let b = add_mesh(&mut spawned, true).unwrap();
    assert_eq!(b.position, Vec3::new(-30_000, 1_000_000, 0));
    assert_eq!(b.velocity, Vec3::new(0, -100_000, 0));
    assert!(spawned);
    assert!(add_mesh(&mut spawned, true).is_none());
}

#[test]
fn density_field_sums_the_kernel() {
    let m = ParticleModel {
        positions: vec![Vec3::new(0, 0, 0), Vec3::new(4000, 0, 0), Vec3::new(9000, 0, 0)],
    };
    assert_eq!(m.get_density(0, 0, 0), 152_996_237 + 64_545_287);
    assert_eq!(m.get_density(50_000, 0, 0), 0);
    assert_eq!(Model::NewModel, Model::NewModel);
}

#[test]
fn octree_starts_empty() {
    let t = initialize_octree();
    assert_eq!(t.max_depth, 10);
    assert_eq!(t.length, 40_000);
    assert_eq!(t.center, Vec3::zero());
    match t.root {
        OctreeNode::Leaf(points) => assert!(points.is_empty()),
        OctreeNode::Branch(_) => panic!("the tree starts as a leaf"),
    }
}
