//! The bundled cache collaborators: a file-name scheme for a directory
//! cache, a composition of two caches, and a cache that stores nothing.

pub mod composite;
pub mod dir;
pub mod no;
