//! Protocol client runtime for an LSP-style subprocess.
//!
//! The subprocess speaks length-framed JSON-RPC over its standard input and
//! output.  This module tree contains the pure protocol core: the wire codec,
//! the request writer, the response dispatcher with its correlation table,
//! and the client facade.  All process handling and byte shuffling is left to
//! the caller, which feeds received bytes in and writes produced frames out.

pub mod codec;
pub mod dispatch;
pub mod error;
pub mod facade;
pub mod writer;

pub use dispatch::{Dispatcher, FrameModel, ResponseFrame, TransportState};
pub use error::Error;
pub use facade::{Location, Phase, LSP};
pub use writer::{RequestID, RequestWriter};
