//! Projectile-volley simulation and capsule-collision core.
//!
//! The library models a real-time shooter's projectile subsystem: volleys of
//! bullets are spawned in a spread pattern, advanced every frame, tested for
//! collision against capsule-shaped enemies, and reclaimed in bulk when their
//! lifetime runs out.
//!
//! All geometry is exact: positions and directions are integer fixed-point
//! vectors (the caller picks the scale), and distances between capsule axes
//! are computed as exact rational squared distances, so the collision
//! predicate `distance <= radius sum` is decided without any rounding.

pub mod aabb;
pub mod capsule;
pub mod bullets;
pub mod geom;
pub mod handles;
pub mod quat;
