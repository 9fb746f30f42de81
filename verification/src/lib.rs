//! Core of a 2D probabilistic localization stack: a fixed-point scalar
//! kernel, small linear-algebra and Gaussian-probability types, an odometry
//! motion model based on the rotate-translate-rotate decomposition, and a
//! generic sequential-importance-resampling particle filter.
//!
//! All quantities are carried as fixed-point numbers with 16 fractional
//! bits, so every arithmetic step has an exact integer meaning that the
//! contracts state directly.

pub mod fixed;
pub mod kernels;
pub mod localization;
pub mod math;
pub mod motion_model;
pub mod odometry;
pub mod particle_filter;
pub mod prob;
pub mod rng;
pub mod simulation;
pub mod state_estimation;
