//! Clones the metadata of a published video into a new upload request, lets
//! the user edit it as a text document, and sequences the remote calls that
//! publish the new video.

pub mod document;
pub mod listing;
pub mod metadata;
pub mod model;
pub mod schedule;
mod text;
pub mod workflow;
