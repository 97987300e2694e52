//! The writer's side of the codec: a blob becomes the document that stores
//! it.

pub mod files;
