//! Durable storage for derived image variants: the backend capability
//! contract, the in-memory reference backend, and the pluggable backend
//! configurations.

pub mod backends;
pub mod memory;
pub mod template;
