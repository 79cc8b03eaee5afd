#![verifier::loop_isolation(false)]

pub mod bvh;
pub mod collision;
pub mod config;
pub mod entity;
pub mod geom;
mod random;
pub mod sim;
pub mod trig;
