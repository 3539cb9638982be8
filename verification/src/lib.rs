//! Core of a Monte Carlo path tracer for an analytic sphere scene.
//!
//! The library holds everything that can be stated and proved over plain
//! values: the ray/sphere intersection root selection and the nearest-hit
//! scan (over fixed-point distances), the per-bounce control flow of the
//! radiance estimator, the Russian-roulette and Fresnel branch draws, the
//! tone map, pixel addressing, the sample budget, and the image
//! serialization. The surrounding floating-point arithmetic (vector algebra,
//! the quadratic coefficients, the sampled directions) lives in the driver,
//! which feeds this library fixed-point and boolean summaries of it.

pub mod algebra;
pub mod engine;
pub mod fixed;
pub mod fresnel;
pub mod geom;
pub mod image;
pub mod material;
pub mod ppm;
pub mod sample;
pub mod tone;
