//! Force-directed 2D layout engine over fixed-point arithmetic.
//!
//! Point masses ("bubbles") repel each other with an inverse-square law,
//! directed relations ("edges") pull their endpoints together with a Hookean
//! law, and velocities are damped and integrated once per discrete time step.
//! All scalars are fixed-point values (see [`fixed`]), which keeps every step
//! bit-for-bit reproducible and lets the physics be stated and proved exactly.

pub mod fixed;
pub mod math;
pub mod physics;
pub mod bubble;
pub mod edge;
pub mod forcelayout;
pub mod gpu_forcelayout;
pub mod orchestrator;
pub mod id_generator;
pub mod project;
pub mod create_dataset;
