//! A small URL-shortening core: it validates destination URLs, allocates
//! unique short keys (user-chosen or generated), stores key-to-URL records
//! in an in-memory map, and resolves keys back to their destinations.
//! Rendering a QR image of the short URL is delegated to an outside encoder.

pub mod text;
pub mod service;
pub mod shortkey;
pub mod store;
pub mod validate;
