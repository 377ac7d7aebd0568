//! The integer side of a Monte Carlo path tracer over spheres: how row tasks
//! own the frame buffer and how the frame is assembled and written, which
//! sphere a ray meets first, how a path continues or ends, and the queue
//! protocol of the worker pool that renders the rows.

pub mod frame;
pub mod image;
pub mod integrator;
pub mod material;
pub mod pool;
pub mod scene;
