use sph_fluid::geometry::{div_toward_zero, isqrt};
use sph_fluid::units::{BASE_DENSITY, ISOTROPIC_EXPONENT, SELF_DENSITY};
use sph_fluid::{
    box_collision_system, movement_system, particle_collision_system,
    pressure_and_density_system, wall_collision_system, Body, BoxCollision, Particle, Vec3,
};

fn at(x: i64, y: i64, z: i64) -> Particle {
    Particle::new(Vec3::new(x, y, z), Vec3::zero())
}

fn moving(x: i64, y: i64, z: i64, vx: i64, vy: i64, vz: i64) -> Particle {
    Particle::new(Vec3::new(x, y, z), Vec3::new(vx, vy, vz))
}

#[test]
fn integer_square_root() {
    assert_eq!(isqrt(0), 0);
    assert_eq!(isqrt(15), 3);
    assert_eq!(isqrt(16), 4);
    assert_eq!(isqrt(16_000_000), 4000);
    assert_eq!(isqrt(3 * 0x4000_0000_0000_0000), 3_719_550_786);
}

#[test]
fn division_rounds_toward_zero() {
    assert_eq!(div_toward_zero(7, 2), 3);
    assert_eq!(div_toward_zero(-7, 2), -3);
    assert_eq!(div_toward_zero(0, 5), 0);
}

#[test]
fn lone_particle_has_self_density() {
    let mut ps = vec![at(0, 0, 0)];
    pressure_and_density_system(&mut ps);
    assert_eq!(ps[0].density, SELF_DENSITY);
    assert_eq!(ps[0].density, 152_996_237);
    assert_eq!(ps[0].pressure, ISOTROPIC_EXPONENT * (SELF_DENSITY - BASE_DENSITY));
}

#[test]
fn density_is_self_term_plus_pair_kernels() {
    let mut ps = vec![at(0, 0, 0), at(4000, 0, 0), at(0, 9000, 0)];
    pressure_and_density_system(&mut ps);
    // (0,0)-(4000,0): within reach; (0,9000) is beyond h = 8000 of both.
    assert_eq!(ps[0].density, 152_996_237 + 64_545_287);
    assert_eq!(ps[1].density, 152_996_237 + 64_545_287);
    assert_eq!(ps[2].density, 152_996_237 + 0);
    assert_eq!(ps[0].pressure, 300_000 * (217_541_524 - 250_000_000));
}

#[test]
fn stale_density_does_not_leak_and_recomputing_is_idempotent() {
    let mut ps = vec![at(0, 0, 0), at(4000, 0, 0)];
    ps[0].density = 999;
    ps[1].pressure = -5;
    pressure_and_density_system(&mut ps);
    let first: Vec<(i64, i64)> = ps.iter().map(|p| (p.density, p.pressure)).collect();
    pressure_and_density_system(&mut ps);
    let second: Vec<(i64, i64)> = ps.iter().map(|p| (p.density, p.pressure)).collect();
    assert_eq!(first, second);
    assert_eq!(first[0].0, 217_541_524);
}

#[test]
fn pair_at_smoothing_length_contributes_nothing() {
    let mut ps = vec![moving(0, 0, 0, 0, 0, 0), moving(8000, 0, 0, 1000, 0, 0)];
    pressure_and_density_system(&mut ps);
    assert_eq!(ps[0].density, SELF_DENSITY);
    assert_eq!(ps[1].density, SELF_DENSITY);
    particle_collision_system(&mut ps);
    assert_eq!(ps[0].force, Vec3::zero());
    assert_eq!(ps[1].force, Vec3::zero());
}

#[test]
fn coincident_particles_exert_no_force() {
    let mut ps = vec![moving(10, 10, 10, 0, 0, 0), moving(10, 10, 10, 500, 0, 0)];
    pressure_and_density_system(&mut ps);
    assert_eq!(ps[0].density, 2 * SELF_DENSITY);
    particle_collision_system(&mut ps);
    assert_eq!(ps[0].force, Vec3::zero());
    assert_eq!(ps[1].force, Vec3::zero());
}

#[test]
fn two_particles_half_a_smoothing_length_apart() {
    let mut ps = vec![at(0, 0, 0), at(4000, 0, 0)];
    pressure_and_density_system(&mut ps);
    assert_eq!(ps[0].density, ps[1].density);
    assert_eq!(ps[0].pressure, ps[1].pressure);
    particle_collision_system(&mut ps);
    assert_eq!(ps[0].force.x, -ps[1].force.x);
    assert_eq!(ps[0].force.y, -ps[1].force.y);
    assert_eq!(ps[0].force.z, -ps[1].force.z);
    // pressure term only: equal velocities give no viscous force
    assert_eq!(ps[0].force, Vec3::new(195_668_361_194, 0, 0));
    assert_eq!(ps[0].force.y, 0);
}

#[test]
fn viscosity_pulls_velocities_together() {
    let mut ps = vec![moving(0, 0, 0, 0, 0, 0), moving(4000, 0, 0, 1000, 0, 0)];
    pressure_and_density_system(&mut ps);
    particle_collision_system(&mut ps);
    assert_eq!(ps[0].force.x, 195_668_361_194 + 5_023_547_906);
    assert_eq!(ps[1].force.x, -(195_668_361_194 + 5_023_547_906));
}

#[test]
fn pair_forces_are_antisymmetric_in_three_dimensions() {
    let mut ps = vec![
        moving(0, 0, 0, 10, -20, 30),
        moving(1500, -2000, 700, -40, 50, 60),
        moving(-3000, 1000, 2500, 0, 0, -70),
    ];
    pressure_and_density_system(&mut ps);
    let before: Vec<Vec3> = ps.iter().map(|p| p.force).collect();
    particle_collision_system(&mut ps);
    let mut sum = (0i64, 0i64, 0i64);
    for (p, f0) in ps.iter().zip(before.iter()) {
        sum.0 += p.force.x - f0.x;
        sum.1 += p.force.y - f0.y;
        sum.2 += p.force.z - f0.z;
    }
    assert_eq!(sum, (0, 0, 0));
    assert_ne!(ps[0].force, Vec3::zero());
}

#[test]
fn forces_accumulate_onto_existing_force() {
    let mut ps = vec![at(0, 0, 0), at(4000, 0, 0)];
    pressure_and_density_system(&mut ps);
    ps[0].force = Vec3::new(1, 2, 3);
    particle_collision_system(&mut ps);
    assert_eq!(ps[0].force, Vec3::new(195_668_361_195, 2, 3));
}

#[test]
fn wall_reflects_with_restitution() {
    let mut ps = vec![moving(40_100, 0, 0, 500, 0, 0)];
    let mut body: Option<Body> = None;
    wall_collision_system(&mut ps, &mut body);
    assert_eq!(ps[0].velocity.x, -414);
    // the reserved damping term: -v * 10 / 50
    assert_eq!(ps[0].acceleration, Vec3::new(82, 0, 0));
    assert!(body.is_none());
}

#[test]
fn wall_reflects_on_every_face() {
    let mut ps = vec![
        moving(-40_001, 0, 0, -1000, 7, 7),
        moving(0, 20_001, 0, 0, 1000, 0),
        moving(0, -20_001, 0, 0, -1000, 0),
        moving(0, 0, 20_001, 0, 0, 1000),
        moving(0, 0, -20_001, 0, 0, -1000),
    ];
    let mut body: Option<Body> = None;
    wall_collision_system(&mut ps, &mut body);
    assert_eq!(ps[0].velocity, Vec3::new(828, 7, 7));
    assert_eq!(ps[1].velocity.y, -828);
    assert_eq!(ps[2].velocity.y, 828);
    assert_eq!(ps[3].velocity.z, -828);
    assert_eq!(ps[4].velocity.z, 828);
}

#[test]
fn inside_particle_is_untouched_by_walls() {
    let p = moving(40_000, -20_000, 20_000, 500, -600, 700);
    let mut ps = vec![p];
    let mut body: Option<Body> = None;
    wall_collision_system(&mut ps, &mut body);
    assert_eq!(ps[0], p);
}

#[test]
fn body_bounces_at_unit_speed_on_four_faces_only() {
    let mut none: Vec<Particle> = Vec::new();
    let mut body = Some(Body::new(Vec3::new(-32_501, -12_501, 12_501), Vec3::new(-9, -9, 9)));
    wall_collision_system(&mut none, &mut body);
    // the lower x face is not checked
    assert_eq!(body.unwrap().velocity, Vec3::new(-9, 100, -100));
    let mut body = Some(Body::new(Vec3::new(32_501, 12_501, -12_501), Vec3::new(9, 9, -9)));
    wall_collision_system(&mut none, &mut body);
    // the upper y face is not checked
    assert_eq!(body.unwrap().velocity, Vec3::new(-100, 9, 100));
}

#[test]
fn body_past_lower_x_keeps_its_velocity() {
    let mut none: Vec<Particle> = Vec::new();
    let mut body = Some(Body::new(Vec3::new(-32_501, 0, 0), Vec3::new(-7, 3, 4)));
    wall_collision_system(&mut none, &mut body);
    assert_eq!(body.unwrap().velocity, Vec3::new(-7, 3, 4));
}

#[test]
fn smallest_velocity_difference_still_gives_viscous_force() {
    let mut a = moving(0, 0, 0, 0, 0, 0);
    let mut b = moving(7999, 0, 0, 1, 0, 0);
    a.density = 1_000_000_000_000;
    b.density = 1_000_000_000_000;
    a.pressure = 5;
    b.pressure = -5;
    let mut ps = vec![a, b];
    particle_collision_system(&mut ps);
    assert_eq!(ps[0].force, Vec3::new(1, 0, 0));
    assert_eq!(ps[1].force, Vec3::new(-1, 0, 0));
}

#[test]
fn obstacle_pushes_inside_the_inflated_hull() {
    let obstacle = BoxCollision { origin: Vec3::zero() };
    // the ray meets the surface at 5000; the hull reaches 5000 + 5000
    let mut ps = vec![at(9000, 0, 0), at(10_000, 0, 0), at(10_001, 0, 0), at(0, -4900, 0)];
    let hits = vec![Some(5000), Some(5000), Some(5000), Some(5000)];
    let mut body = Some(Body::new(Vec3::zero(), Vec3::zero()));
    box_collision_system(&mut ps, &mut body, &obstacle, &hits);
    assert_eq!(ps[0].force, Vec3::new(400_000_000_000, 0, 0));
    assert_eq!(ps[1].force, Vec3::zero());
    assert_eq!(ps[2].force, Vec3::zero());
    assert_eq!(ps[3].force, Vec3::new(0, -400_000_000 * 5100, 0));
    assert_eq!(body.unwrap().force, Vec3::new(-400_000_000_000, 400_000_000 * 5100, 0));
}

#[test]
fn obstacle_without_hit_or_body_does_nothing() {
    let obstacle = BoxCollision { origin: Vec3::zero() };
    let mut ps = vec![at(100, 0, 0)];
    let mut body = Some(Body::new(Vec3::zero(), Vec3::zero()));
    box_collision_system(&mut ps, &mut body, &obstacle, &vec![None]);
    assert_eq!(ps[0].force, Vec3::zero());
    assert_eq!(body.unwrap().force, Vec3::zero());
    let mut no_body: Option<Body> = None;
    box_collision_system(&mut ps, &mut no_body, &obstacle, &vec![Some(1000)]);
    assert_eq!(ps[0].force, Vec3::zero());
    assert!(no_body.is_none());
}

#[test]
fn integration_moves_with_the_old_velocity_and_clears_accumulators() {
    let mut p = moving(100, 200, 300, 1000, -2000, 500);
    p.density = SELF_DENSITY;
    p.pressure = 77;
    p.force = Vec3::new(5_000_000_000_000, -3_000_000_000_000, 0);
    p.acceleration = Vec3::new(1, 2, 3);
    let mut ps = vec![p];
    let mut body = Some(Body {
        position: Vec3::zero(),
        velocity: Vec3::new(0, -100_000, 0),
        force: Vec3::new(1_000_000_000_000_000, 0, -1_000_000_000_000_000),
    });
    movement_system(&mut ps, &mut body, 16_000);
    let q = ps[0];
    assert_eq!(q.position, Vec3::new(116, 168, 308));
    assert_eq!(q.velocity, Vec3::new(53_288, -33_693, 500));
    assert_eq!(q.density, 0);
    assert_eq!(q.pressure, 0);
    assert_eq!(q.force, Vec3::zero());
    assert_eq!(q.acceleration, Vec3::new(1, 2, 3));
    let b = body.unwrap();
    assert_eq!(b.position, Vec3::new(0, -1600, 0));
    assert_eq!(b.velocity, Vec3::new(160_000, -100_320, -160_000));
    assert_eq!(b.force, Vec3::zero());
}

#[test]
fn zero_time_step_only_clears() {
    let mut p = moving(1, 2, 3, 4, 5, 6);
    p.density = SELF_DENSITY;
    p.force = Vec3::new(9, 9, 9);
    let mut ps = vec![p];
    let mut body: Option<Body> = None;
    movement_system(&mut ps, &mut body, 0);
    assert_eq!(ps[0].position, Vec3::new(1, 2, 3));
    assert_eq!(ps[0].velocity, Vec3::new(4, 5, 6));
    assert_eq!(ps[0].force, Vec3::zero());
    assert!(body.is_none());
}

#[test]
fn empty_population_is_a_no_op() {
    let mut ps: Vec<Particle> = Vec::new();
    let mut body = Some(Body::new(Vec3::new(1, 2, 3), Vec3::new(4, 5, 6)));
    pressure_and_density_system(&mut ps);
    particle_collision_system(&mut ps);
    wall_collision_system(&mut ps, &mut body);
    let obstacle = BoxCollision { origin: Vec3::zero() };
    box_collision_system(&mut ps, &mut body, &obstacle, &Vec::new());
    assert!(ps.is_empty());
    assert_eq!(body.unwrap().force, Vec3::zero());
    assert_eq!(body.unwrap().velocity, Vec3::new(4, 5, 6));
}
