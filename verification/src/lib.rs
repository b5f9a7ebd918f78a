//! The core of a small Gopher server, free of I/O.
//!
//! A connection sends one selector line ended by CRLF and gets the raw bytes
//! of a resource back. This crate holds the rules of that exchange: how a
//! selector line is decoded, how a selector is confined to the served
//! directory, how one connection proceeds, and how the accept loop bounds its
//! concurrent connections and drains them on shutdown. Sockets, files and
//! the task runtime belong to the caller.

pub mod bytes;
pub mod config;
pub mod error;
pub mod fetcher;
pub mod handler;
pub mod path;
pub mod selector;
pub mod server;

pub use error::GopherError;
pub use server::{LoopModel, Phase, ServerAction, ServerEvent, ServerLoop};
pub use path::{candidate_path, resolve_path};
pub use selector::{decode, DecodeStatus, DecoderModel, SelectorDecoder};
pub use fetcher::{fetch, FileDirFetcher, FileDirModel, ResourceFetcher};
pub use handler::{Connection, ConnectionEvent, ConnectionModel, EventModel, Handler};
pub use config::LoaferConfig;
