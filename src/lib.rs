//! A smoothed-particle-hydrodynamics core in fixed-point arithmetic.
//!
//! Every quantity is an integer in a fixed unit (see [`units`]). The stages
//! of one simulation step are, in order: [`pressure_and_density_system`],
//! [`particle_collision_system`], [`wall_collision_system`],
//! [`box_collision_system`] and [`movement_system`].
pub mod boundary;
pub mod density;
pub mod field;
pub mod forces;
pub mod geometry;
pub mod integrate;
pub mod model;
pub mod obstacle;
pub mod octree;
pub mod spawn;
pub mod units;

pub use boundary::wall_collision_system;
pub use density::pressure_and_density_system;
pub use field::{Model, ParticleModel};
pub use forces::particle_collision_system;
pub use geometry::Vec3;
pub use integrate::movement_system;
pub use obstacle::box_collision_system;
pub use octree::{initialize_octree, Octree, OctreeNode};
pub use spawn::{add_mesh, spawn_particles, ParticleScheduled};
pub use model::{Body, BoxCollision, Particle};
