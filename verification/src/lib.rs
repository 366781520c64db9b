//! VeloCache: the decision logic of a caching HTTP/HTTPS proxy.
//!
//! The library holds the two-level cache bookkeeping (an LRU memory cache,
//! disk accounting and statistics), the configuration model, the request
//! routing rules of the proxy, the CONNECT preamble reader and the
//! certificate authority's leaf-certificate cache. Sockets, files and the
//! HTTP servers live in the application around it.

pub mod hashing;
pub mod clock;
pub mod entry;
pub mod memory;
pub mod config;
pub mod cache;
pub mod cache_laws;
pub mod listing;
pub mod text;
pub mod proxy;
pub mod handler;
pub mod management;
pub mod certs;
