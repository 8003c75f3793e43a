//! The rules of a flocking ("boids") simulation.
//!
//! Each bird flies by three rules: it keeps apart from its neighbors, it
//! moves towards their middle, and it goes their way. The edges of the sky
//! push it back, and its velocity may be limited. This library decides: who
//! is whose neighbor, which edges push, where the limit cuts, that a bird
//! without neighbors is steered by the edges alone, and that every bird of a
//! tick is worked out from the flock as it was before the tick.
//!
//! Numbers are single-precision and are held as their 32-bit patterns
//! ([`Scalar`]), so that every comparison and every limit is exact. What has
//! to be computed between the decisions (distances, sums, products) is the
//! host's: it hands [`State::tick`] four functions.

pub mod bird;
pub mod flock;
pub mod frames;
pub mod scalar;
pub mod state;
pub mod tick;
pub mod value;

pub use bird::{Bird, Edges};
pub use flock::Flock;
pub use frames::frame_index;
pub use scalar::Scalar;
pub use state::{Parameters, State};
