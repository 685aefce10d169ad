//! Lifecycle and layout of embedded browser sessions stacked below a tab strip in
//! one host window: child bounds, storage partitions, download names, the session
//! registry and resize throttling.
pub mod bounds;
pub mod text;
pub mod download;
pub mod storage;
pub mod registry;
pub mod resize;
pub mod platforms;
