//! Recording engine that lowers portable command-buffer calls onto a
//! native command-list model: virtual root-signature binding with dirty
//! tracking, render-pass emulation, barrier translation, placed-footprint
//! copy splitting and bind-point / query state tracking.

pub mod root;
pub mod native;
pub mod pipeline;
pub mod copy;
pub mod caches;
pub mod pass;
pub mod command;
pub mod barrier;
