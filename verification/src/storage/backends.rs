//! Configuration of the interchangeable storage backends and the
//! verifiable parts of their adapters.

pub mod gcp_cloud_storage;
pub mod register;
