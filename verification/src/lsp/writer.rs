//! Request writer: id assignment and frame production.
//!
//! The writer owns the shared request counter.  Each send assigns a fresh,
//! strictly increasing id and encodes the complete frame; the caller must
//! then write those bytes to the server's standard input in one piece and
//! flush, under the same exclusive ownership that it holds on the writer
//! itself.  An id, once assigned, is consumed for good — also when the
//! caller's write afterwards fails — so a late response can never be
//! confused with a newer request.

use vstd::prelude::*;
use vstd::string::StringSliceAdditionalSpecFns;

use crate::lsp::codec::{encode_request, spec_frame};

verus! {

/// A request identifier: process-local, monotonically increasing, never
/// reused for the lifetime of one client/transport pair.
pub type RequestID = u32;

/// The write half of the client: the request counter.
pub struct RequestWriter {
    next_id: RequestID,
}

impl RequestWriter {
    /// The id the next send will be given; every id below it is consumed.
    pub closed spec fn next(&self) -> RequestID {
        self.next_id
    }

    /// The id the next send will be given.
    pub fn next_id(&self) -> (r: RequestID)
        ensures
            r == self.next(),
    {
        self.next_id
    }

    /// A fresh writer; ids start at the fixed origin 0.
    pub fn new() -> (w: RequestWriter)
        ensures
            w.next() == 0,
    {
        RequestWriter { next_id: 0 }
    }

    /// Assigns the next id and encodes the frame for `method` and the raw
    /// JSON text `params`.  Returns the id and the bytes to transmit; the
    /// id is consumed whether or not the transmission afterwards succeeds.
    pub fn send(&mut self, method: &str, params: &[u8]) -> (r: (RequestID, Vec<u8>))
        requires
            old(self).next() < RequestID::MAX,
        ensures
            r.0 == old(self).next(),
            final(self).next() == old(self).next() + 1,
            r.1@ == spec_frame(r.0, method.spec_bytes(), params@),
    {
        let id = self.next_id;
        self.next_id = self.next_id + 1;
        let frame = encode_request(id, method, params);
        (id, frame)
    }
}

} // verus!
