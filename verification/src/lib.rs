//! Fixed-point simulation of point masses bouncing elastically inside a
//! circular arena, with a pixel-buffer rasterizer for drawing the particles
//! or a color-coded view of their position/velocity phase space.
//!
//! All world quantities (positions, velocities, radii, time steps) are
//! carried as integers in units of 1/1000 of a world unit, so that the
//! kinematics, the boundary reflection and the rasterization are exact
//! integer computations with proved contracts.

use vstd::prelude::*;

pub mod disk;
pub mod num;
pub mod particle;
pub mod raster;
pub mod scene;
pub mod vector;

verus! {

} // verus!
