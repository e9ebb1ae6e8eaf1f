//! A verified two-dimensional "stable fluids" solver.
//!
//! The crate simulates an incompressible viscous fluid carrying
//! three-channel dye on a fixed rectangular grid, advanced tick by tick
//! through diffusion, pressure projection and semi-Lagrangian advection.
//! All field arithmetic is exact signed fixed-point arithmetic, so every
//! stage is a total mathematical function of the grid state, and each
//! public operation carries a contract pinning its result down cell by
//! cell.

pub mod fixed;
pub mod model;
pub mod passes;
pub mod grid;
pub mod laws;
pub mod render;
pub mod export;

pub use model::GridState;
pub use grid::FluidGrid;
pub use grid::FluidSimulation;
pub use render::Renderer;
pub use export::ImageExporter;
