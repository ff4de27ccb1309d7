//! Verified core of a small home-directory file server: path resolution,
//! directory-listing construction and rendering, and the decision logic of
//! the multipart upload flow.

pub mod entry;
pub mod listing;
pub mod paths;
pub mod text;
pub mod upload;
