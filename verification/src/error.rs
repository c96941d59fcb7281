//! Errors of the note-keeping side of the crate.

use vstd::prelude::*;

verus! {

/// What the note-keeping operations report; protocol failures are carried
/// through from the client runtime.
#[derive(Debug, Clone)]
pub enum Error {
    /// A zettel id came out empty or cannot be read.
    InvalidZettelID(String),
    /// Something looked up was not there; carries a description.
    NotFound(String),
    /// The tool's configuration is incomplete; carries a description.
    PKMError(String),
    /// A failure of the language-server client runtime.
    LSPError(crate::lsp::Error),
    /// Anything without a better name.
    Unknown,
}

} // verus!
