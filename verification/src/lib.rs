//! Serving core of an image-hosting service: bucket controllers that drive
//! uploads through a processing pipeline, persist derived variants to a
//! storage backend, and serve them back through a cache-aside layer under
//! admission control.

use vstd::prelude::*;

pub mod cache;
pub mod config;
pub mod controller;
pub mod keys;
pub mod limits;
pub mod pipelines;
pub mod storage;
pub mod utils;

verus! {

} // verus!
