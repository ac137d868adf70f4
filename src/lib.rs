//! A client for the binary protocol of an in-memory key/value cache.
//!
//! The library holds everything that decides: the frame codec, the typed
//! value layer, the meaning of each response, and the consistent-hash routing
//! of keys to connections. Moving bytes over sockets is left to the caller.
pub mod commands;
pub mod constants;
pub mod endian;
pub mod errors;
pub mod laws;
pub mod protocol;
pub mod ring;
pub mod value;

pub use constants::StoredType;
pub use errors::{BMemcachedError, Result};
pub use protocol::{Command, Request, Response, Status};
pub use ring::Router;
pub use value::{FromMemcached, ToMemcached};
