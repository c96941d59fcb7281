//! A personal note-management library.
//!
//! The heart of the crate is a verified protocol client runtime for an
//! LSP-style subprocess speaking length-framed JSON-RPC over its standard
//! input and output: a wire codec, a request writer that assigns unique
//! identifiers, a response dispatcher that correlates frames back to the
//! callers that issued them, and a client facade offering the handshake and
//! a navigation query.  Around it sit the note-keeping value types: zettel
//! identifiers, path builders and image sizing.

pub mod date;
pub mod error;
pub mod image;
pub mod lsp;
pub mod pkm;
pub mod zettel;
pub mod zettel_path;

pub use date::Date;
pub use error::Error;
pub use image::{Image, ImageBuilder};
pub use pkm::{PKM, PKMBuilder};
pub use zettel::{
    path_to_id, Zettel, ZettelBuilder, ZettelContent, ZettelID, ZettelIDBuilder, ZettelReference,
};
