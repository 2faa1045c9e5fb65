//! Core of an HTTP image-transformation proxy: the geometry that decides
//! target dimensions and overlay placement, the fetch-settling policy with
//! partial-failure handling, composition planning, format dispatch and the
//! error taxonomy. Network and codec work stay outside; this crate decides.

pub mod compose;
pub mod config;
pub mod coordinator;
pub mod errors;
pub mod geometry;
pub mod placement;
pub mod request;
