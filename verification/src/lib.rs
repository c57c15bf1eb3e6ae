//! A verified core for a GPU compute round-trip runner: it plans the command
//! sequence (seed upload, repeated dispatch, final readback), models the
//! effect of that sequence on the two device buffers, and interprets the
//! bytes read back. Driving a real device with the plan is left to an
//! unverified front end.

pub mod config;
pub mod model;
pub mod plan;
pub mod readback;
pub mod seed;
pub mod spirv;
pub mod words;
