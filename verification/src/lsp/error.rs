//! Errors of the protocol client runtime.

use vstd::prelude::*;

verus! {

/// What can go wrong while talking to the language server.
///
/// Framing violations (`MalformedHeader`, `MissingContentLength`,
/// `DecodeError`) are fatal for the whole reader: a corrupted stream cannot
/// be resynchronized.  `Closed` is terminal and is delivered to every
/// pending and every future waiter.  `NotReady` only signals "retry later"
/// when polling for a response that has not arrived yet.
#[derive(Debug, Clone)]
pub enum Error {
    /// The subprocess could not be started.
    SpawnError,
    /// The write side failed or was closed; the id assigned to the failed
    /// request is still considered consumed.
    WriteError,
    /// A non-blank header line contained no colon.
    MalformedHeader,
    /// The blank line ended the headers, but no `content-length` was seen.
    MissingContentLength,
    /// The frame body was not the JSON shape of a response, or a header
    /// value could not be understood.
    DecodeError,
    /// The operation needs a response that has not been published yet.
    NotReady,
    /// The stream ended or the process exited.
    Closed,
    /// The server answered with an error payload, or the client was used
    /// out of phase; carries a description.
    LSPError(String),
}

} // verus!
