//! A read-only static-site snapshot server core: a deduplicating string
//! interner, a compact URL-to-entry site index built on top of it, a
//! serialized reader over a packed zip archive, and the request resolver
//! that composes them into complete HTTP response descriptors.

pub mod archive;
pub mod lookup;
pub mod response;
pub mod sitemap;
