//! Client facade: the handshake and the typed operations.
//!
//! The facade drives the protocol as a state machine
//! `Uninitialized -> Initializing -> Ready -> Closed`.  Every round trip is
//! expressed through the same two primitives: `start_request` assigns an id
//! and produces the frame to transmit, and `poll_response` asks the
//! dispatcher for the response to that id.  The caller owns the actual
//! byte shuffling: it writes produced frames to the server's standard
//! input and feeds bytes read from its standard output back in.

use vstd::prelude::*;
use vstd::string::StringSliceAdditionalSpecFns;
use vstd::utf8::encode_utf8;

use crate::lsp::codec::{escape_bytes, push_bytes, push_escaped, push_str_bytes, spec_frame};
use crate::lsp::dispatch::{Dispatcher, FrameModel, ResponseFrame, TransportState};
use crate::lsp::error::Error;
use crate::lsp::writer::{RequestID, RequestWriter};

verus! {

// ---------------------------------------------------------------------------
// Request payloads
// ---------------------------------------------------------------------------

/// A workspace path as the server sees it: a `file://` URI.
pub open spec fn spec_uri(path: Seq<u8>) -> Seq<u8> {
    encode_utf8("file://"@) + path
}

/// The handshake parameters: the workspace root as both the legacy root
/// path and a root URI (both optional in the protocol, sent for servers
/// that read either), empty capabilities, and one workspace folder named
/// `root`.
pub open spec fn spec_init_params(root: Seq<u8>) -> Seq<u8> {
    encode_utf8("{\"processId\":null,\"rootPath\":\""@) + escape_bytes(spec_uri(root))
        + encode_utf8("\",\"rootUri\":\""@) + escape_bytes(spec_uri(root))
        + encode_utf8("\",\"capabilities\":{},\"workspaceFolders\":[{\"uri\":\""@)
        + escape_bytes(spec_uri(root)) + encode_utf8("\",\"name\":\"root\"}]}"@)
}

/// The parameters of a definition query: the document's URI and a
/// zero-based position.
pub open spec fn spec_goto_params(path: Seq<u8>, line: u32, character: u32) -> Seq<u8> {
    encode_utf8("{\"textDocument\":{\"uri\":\""@) + escape_bytes(spec_uri(path))
        + encode_utf8("\"},\"position\":{\"line\":"@) + crate::lsp::codec::dec_bytes(line as nat)
        + encode_utf8(",\"character\":"@) + crate::lsp::codec::dec_bytes(character as nat)
        + encode_utf8("}}"@)
}

/// The parameters announcing a document with the given text under the
/// given URI and language, at version 1.
pub open spec fn spec_didopen_params(path: Seq<u8>, language: Seq<u8>, text: Seq<u8>) -> Seq<u8> {
    encode_utf8("{\"textDocument\":{\"uri\":\""@) + escape_bytes(spec_uri(path))
        + encode_utf8("\",\"languageId\":\""@) + escape_bytes(language)
        + encode_utf8("\",\"version\":1,\"text\":\""@) + escape_bytes(text)
        + encode_utf8("\"}}"@)
}

/// The `file://` URI of `path`.
fn build_uri(path: &str) -> (r: Vec<u8>)
    ensures
        r@ == spec_uri(path.spec_bytes()),
{
    let mut v: Vec<u8> = Vec::new();
    push_str_bytes(&mut v, "file://");
    push_bytes(&mut v, path.as_bytes());
    v
}

/// Builds the handshake parameters for `root`.
pub fn build_init_params(root: &str) -> (r: Vec<u8>)
    ensures
        r@ == spec_init_params(root.spec_bytes()),
{
    let uri = build_uri(root);
    let mut v: Vec<u8> = Vec::new();
    push_str_bytes(&mut v, "{\"processId\":null,\"rootPath\":\"");
    push_escaped(&mut v, uri.as_slice());
    push_str_bytes(&mut v, "\",\"rootUri\":\"");
    push_escaped(&mut v, uri.as_slice());
    push_str_bytes(&mut v, "\",\"capabilities\":{},\"workspaceFolders\":[{\"uri\":\"");
    push_escaped(&mut v, uri.as_slice());
    push_str_bytes(&mut v, "\",\"name\":\"root\"}]}");
    v
}

/// Builds the parameters of a definition query.
pub fn build_goto_params(path: &str, line: u32, character: u32) -> (r: Vec<u8>)
    ensures
        r@ == spec_goto_params(path.spec_bytes(), line, character),
{
    let uri = build_uri(path);
    let mut v: Vec<u8> = Vec::new();
    push_str_bytes(&mut v, "{\"textDocument\":{\"uri\":\"");
    push_escaped(&mut v, uri.as_slice());
    push_str_bytes(&mut v, "\"},\"position\":{\"line\":");
    crate::lsp::codec::push_dec(&mut v, line as u64);
    push_str_bytes(&mut v, ",\"character\":");
    crate::lsp::codec::push_dec(&mut v, character as u64);
    push_str_bytes(&mut v, "}}");
    v
}

/// Builds the parameters announcing a document's content.
pub fn build_didopen_params(path: &str, language: &str, text: &str) -> (r: Vec<u8>)
    ensures
        r@ == spec_didopen_params(path.spec_bytes(), language.spec_bytes(), text.spec_bytes()),
{
    let uri = build_uri(path);
    let mut v: Vec<u8> = Vec::new();
    push_str_bytes(&mut v, "{\"textDocument\":{\"uri\":\"");
    push_escaped(&mut v, uri.as_slice());
    push_str_bytes(&mut v, "\",\"languageId\":\"");
    push_escaped(&mut v, language.as_bytes());
    push_str_bytes(&mut v, "\",\"version\":1,\"text\":\"");
    push_escaped(&mut v, text.as_bytes());
    push_str_bytes(&mut v, "\"}}");
    v
}

// ---------------------------------------------------------------------------
// Decoding a definition response
// ---------------------------------------------------------------------------

/// What the raw result of a definition query denotes: the URIs of the
/// resolved locations.  One location object bearing a `uri` yields that
/// one; a list of location objects yields all of them; a list of link
/// descriptors bearing `targetUri` is treated as not yet resolved and
/// yields none; anything else is no definition result.  A fixed function
/// of the text alone.
pub uninterp spec fn goto_uris_of(raw: Seq<char>) -> Option<Seq<Seq<char>>>;

/// Relies on `serde_json::from_str::<serde_json::Value>` to parse the raw
/// result and on `serde_json::Value::{get, as_str, as_array}` to read the
/// three accepted response shapes; all of them compute from the text
/// alone.
#[verifier::external_body]
fn parse_goto_result(raw: &str) -> (r: Option<Vec<String>>)
    ensures
        (match r {
            Some(uris) => goto_uris_of(raw@) == Some(uris.deep_view()),
            None => goto_uris_of(raw@) is None,
        }),
{
    let v: serde_json::Value = serde_json::from_str(raw).ok()?;
    if let Some(u) = v.get("uri").and_then(serde_json::Value::as_str) {
        return Some(vec![u.to_string()]);
    }
    let items = v.as_array()?;
    let uri = |e: &serde_json::Value| e.get("uri").and_then(serde_json::Value::as_str).map(str::to_string);
    if let Some(locations) = items.iter().map(uri).collect::<Option<Vec<String>>>() {
        return Some(locations);
    }
    let link = |e: &serde_json::Value| e.get("targetUri").and_then(serde_json::Value::as_str).is_some();
    items.iter().all(link).then_some(Vec::new())
}

/// One resolved location: the URI of the document the definition lives in.
pub struct Location {
    /// The document's URI as the server sent it.
    pub uri: String,
}

impl View for Location {
    type V = Seq<char>;

    open spec fn view(&self) -> Seq<char> {
        self.uri@
    }
}

/// The URIs a list of locations carries.
pub open spec fn locations_view(s: Seq<Location>) -> Seq<Seq<char>> {
    s.map_values(|l: Location| l@)
}

/// Turns the URIs a definition response carried into locations, one each,
/// in order.
pub fn locations_from_uris(uris: Vec<String>) -> (r: Vec<Location>)
    ensures
        locations_view(r@) == uris.deep_view(),
{
    let mut r: Vec<Location> = Vec::new();
    let mut i: usize = 0;
    while i < uris.len()
        invariant
            i <= uris@.len(),
            r@.len() == i,
            forall|j: int| 0 <= j < i ==> r@[j].uri@ == uris@[j]@,
        decreases uris@.len() - i,
    {
        let ghost prev = r@;
        let u = uris[i].clone();
        proof {
            assert(u@ == uris@[i as int]@);
        }
        r.push(Location { uri: u });
        i += 1;
    }
    proof {
        assert(locations_view(r@) =~= uris.deep_view());
    }
    r
}

// ---------------------------------------------------------------------------
// The facade
// ---------------------------------------------------------------------------

/// Where the facade stands in its life: nothing sent yet, the handshake
/// in flight under its id, ready for queries, or shut for good.
#[derive(Clone, Copy, PartialEq, Eq, Structural, Debug)]
pub enum Phase {
    /// No handshake has been started.
    Uninitialized,
    /// The handshake request with this id is awaiting its response.
    Initializing(RequestID),
    /// The handshake succeeded; queries may be issued.
    Ready,
    /// The session ended; every later call fails.
    Closed,
}

/// The protocol client: the request writer, the response dispatcher and
/// the handshake phase, glued into one state machine.
pub struct LSP {
    phase: Phase,
    writer: RequestWriter,
    dispatcher: Dispatcher,
}

impl LSP {
    /// The handshake phase.
    pub closed spec fn phase(&self) -> Phase {
        self.phase
    }

    /// The id the next send will use.
    pub closed spec fn writer_next(&self) -> RequestID {
        self.writer.next()
    }

    /// The transport state of the read side.
    pub closed spec fn transport(&self) -> TransportState {
        self.dispatcher.transport()
    }

    /// The bytes received but not yet decoded.
    pub closed spec fn buffered(&self) -> Seq<u8> {
        self.dispatcher.buffered()
    }

    /// Published, unclaimed responses by id.
    pub closed spec fn table_map(&self) -> Map<RequestID, FrameModel> {
        self.dispatcher.table_map()
    }

    /// What one poll for `id` observes.
    pub closed spec fn spec_claim_result(&self, id: RequestID) -> Result<Option<FrameModel>, Error> {
        self.dispatcher.spec_claim_result(id)
    }

    /// The correlation table is well formed.
    pub closed spec fn wf(&self) -> bool {
        self.dispatcher.wf()
    }

    /// The id the next send will use, for callers watching the id space.
    pub fn next_request_id(&self) -> (r: RequestID)
        ensures
            r == self.writer_next(),
    {
        self.writer.next_id()
    }

    /// A fresh, uninitialized client.
    pub fn new() -> (c: LSP)
        ensures
            c.wf(),
            c.phase() == Phase::Uninitialized,
            c.writer_next() == 0,
            c.transport() == TransportState::Ready,
            c.buffered() == Seq::<u8>::empty(),
            c.table_map() == Map::<RequestID, FrameModel>::empty(),
    {
        LSP { phase: Phase::Uninitialized, writer: RequestWriter::new(), dispatcher: Dispatcher::new() }
    }

    /// Hands the client bytes read from the server's standard output.
    pub fn feed(&mut self, chunk: &[u8])
        requires
            old(self).wf(),
        ensures
            final(self).wf(),
            final(self).buffered() == old(self).buffered() + chunk@,
            final(self).phase() == old(self).phase(),
            final(self).writer_next() == old(self).writer_next(),
            final(self).transport() == old(self).transport(),
            final(self).table_map() == old(self).table_map(),
    {
        self.dispatcher.feed(chunk);
    }

    /// Records that the server's output ended; the phase and the
    /// transport become terminal and every pending waiter will observe it.
    pub fn on_stream_end(&mut self)
        requires
            old(self).wf(),
        ensures
            final(self).wf(),
            final(self).buffered() == old(self).buffered(),
            final(self).writer_next() == old(self).writer_next(),
            final(self).table_map() == old(self).table_map(),
            final(self).phase() == Phase::Closed,
            final(self).transport() == (if old(self).transport() is Ready {
                TransportState::Closed
            } else {
                old(self).transport()
            }),
    {
        self.phase = Phase::Closed;
        self.dispatcher.on_stream_end();
    }

    /// Decodes and publishes every complete frame waiting in the buffer;
    /// see [`Dispatcher::pump`].  On a framing violation the session is
    /// torn down: the phase closes and the violation is returned.
    pub fn pump(&mut self) -> (r: Result<usize, Error>)
        requires
            old(self).wf(),
        ensures
            final(self).wf(),
            final(self).writer_next() == old(self).writer_next(),
            ({
                let out = crate::lsp::dispatch::spec_pump(
                    old(self).buffered(),
                    old(self).table_map(),
                    0,
                );
                &&& (old(self).transport() is Ready ==> {
                    &&& final(self).buffered() == out.buf
                    &&& final(self).table_map() == out.table
                    &&& (match out.fail {
                        None => r matches Ok(n) && n as nat == out.delivered && final(self).transport() is Ready && final(self).phase() == old(self).phase(),
                        Some(re) => (r matches Err(e) && e
                            == crate::lsp::dispatch::spec_reason_error(re)) && final(self).transport() == TransportState::Failed(re) && final(self).phase()
                            == Phase::Closed,
                    })
                })
                &&& (!(old(self).transport() is Ready) ==> final(self).buffered() == old(self).buffered() && final(self).table_map() == old(self).table_map() && final(self).transport() == old(self).transport() && final(self).phase() == old(self).phase() && (r matches Ok(n) && n == 0usize))
            }),
    {
        let r = self.dispatcher.pump();
        match r {
            Ok(n) => Ok(n),
            Err(e) => {
                self.phase = Phase::Closed;
                Err(e)
            },
        }
    }

    /// The generic send primitive: assigns the next id, encodes the frame
    /// for `method` and the raw JSON text `params`, and returns both; the
    /// caller transmits the bytes.  Fails only once the session is closed.
    pub fn start_request(&mut self, method: &str, params: &[u8]) -> (r: Result<
        (RequestID, Vec<u8>),
        Error,
    >)
        requires
            old(self).wf(),
            old(self).writer_next() < RequestID::MAX,
        ensures
            final(self).wf(),
            final(self).phase() == old(self).phase(),
            final(self).buffered() == old(self).buffered(),
            final(self).transport() == old(self).transport(),
            final(self).table_map() == old(self).table_map(),
            (if old(self).phase() is Closed {
                r matches Err(Error::Closed) && final(self).writer_next() == old(self).writer_next()
            } else {
                r matches Ok(p) && p.0 == old(self).writer_next() && p.1@ == spec_frame(
                    p.0,
                    method.spec_bytes(),
                    params@,
                ) && final(self).writer_next() == old(self).writer_next() + 1
            }),
    {
        match self.phase {
            Phase::Closed => Err(Error::Closed),
            _ => {
                let (id, frame) = self.writer.send(method, params);
                Ok((id, frame))
            },
        }
    }

    /// The generic await primitive: one poll for the response to `id`,
    /// with the outcome [`Dispatcher::spec_claim_result`] describes — the
    /// frame for exactly this id, "not yet", or the terminal error.
    pub fn poll_response(&mut self, id: RequestID) -> (r: Result<Option<ResponseFrame>, Error>)
        requires
            old(self).wf(),
        ensures
            final(self).wf(),
            final(self).phase() == old(self).phase(),
            final(self).buffered() == old(self).buffered(),
            final(self).transport() == old(self).transport(),
            final(self).writer_next() == old(self).writer_next(),
            (match r {
                Ok(Some(f)) => old(self).spec_claim_result(id) == Ok::<
                    Option<FrameModel>,
                    Error,
                >(Some(f@)) && f.id == id && final(self).table_map() == old(self).table_map().remove(id),
                Ok(None) => old(self).spec_claim_result(id) == Ok::<
                    Option<FrameModel>,
                    Error,
                >(None) && final(self).table_map() == old(self).table_map(),
                Err(e) => old(self).spec_claim_result(id) == Err::<
                    Option<FrameModel>,
                    Error,
                >(e) && final(self).table_map() == old(self).table_map(),
            }),
    {
        self.dispatcher.try_claim(id)
    }

    /// Starts the one-time handshake: builds the initialize request for
    /// `workspace_root`, assigns its id, and moves to `Initializing`.
    /// Returns the id and the frame to transmit.  Anywhere but in
    /// `Uninitialized` the handshake is refused: it is made exactly once.
    pub fn start_initialize(&mut self, workspace_root: &str) -> (r: Result<
        (RequestID, Vec<u8>),
        Error,
    >)
        requires
            old(self).wf(),
            old(self).writer_next() < RequestID::MAX,
        ensures
            final(self).wf(),
            final(self).buffered() == old(self).buffered(),
            final(self).transport() == old(self).transport(),
            final(self).table_map() == old(self).table_map(),
            (if old(self).phase() is Uninitialized {
                r matches Ok(p) && p.0 == old(self).writer_next() && p.1@ == spec_frame(
                    p.0,
                    encode_utf8("initialize"@),
                    spec_init_params(workspace_root.spec_bytes()),
                ) && final(self).phase() == Phase::Initializing(p.0) && final(self).writer_next()
                    == old(self).writer_next() + 1
            } else {
                r matches Err(Error::LSPError(_)) && final(self).phase() == old(self).phase()
                    && final(self).writer_next() == old(self).writer_next()
            }),
    {
        match self.phase {
            Phase::Uninitialized => {
                let params = build_init_params(workspace_root);
                let (id, frame) = self.writer.send("initialize", params.as_slice());
                self.phase = Phase::Initializing(id);
                Ok((id, frame))
            },
            _ => Err(Error::LSPError(String::from_str("initialize must be called exactly once"))),
        }
    }

    /// One poll for the handshake response.  `Ok(true)` moves the facade
    /// to `Ready`; `Ok(false)` asks the caller to pump and poll again.  A
    /// response carrying an error payload is surfaced, not swallowed, and
    /// closes the session, as does a terminal transport.
    pub fn poll_initialize(&mut self) -> (r: Result<bool, Error>)
        requires
            old(self).wf(),
        ensures
            final(self).wf(),
            final(self).buffered() == old(self).buffered(),
            final(self).transport() == old(self).transport(),
            final(self).writer_next() == old(self).writer_next(),
            (match old(self).phase() {
                Phase::Initializing(id) => (match old(self).spec_claim_result(id) {
                    Ok(Some(fm)) => final(self).table_map() == old(self).table_map().remove(id)
                        && (if fm.is_error {
                        (r matches Err(Error::LSPError(m)) && m@ == fm.raw) && final(self).phase() == Phase::Closed
                    } else {
                        r matches Ok(b) && b == true && final(self).phase() == Phase::Ready
                    }),
                    Ok(None) => r matches Ok(b) && b == false && final(self).phase() == old(self).phase() && final(self).table_map() == old(self).table_map(),
                    Err(e) => (r matches Err(e2) && e2 == e) && final(self).phase()
                        == Phase::Closed && final(self).table_map() == old(self).table_map(),
                }),
                _ => (r matches Err(Error::LSPError(_))) && final(self).phase() == old(self).phase() && final(self).table_map() == old(self).table_map(),
            }),
    {
        let id = match self.phase {
            Phase::Initializing(id) => id,
            _ => {
                return Err(
                    Error::LSPError(String::from_str("no initialize request is in flight")),
                );
            },
        };
        match self.dispatcher.try_claim(id) {
            Ok(Some(f)) => {
                if f.is_error {
                    self.phase = Phase::Closed;
                    Err(Error::LSPError(f.raw))
                } else {
                    self.phase = Phase::Ready;
                    Ok(true)
                }
            },
            Ok(None) => Ok(false),
            Err(e) => {
                self.phase = Phase::Closed;
                Err(e)
            },
        }
    }

    /// Starts a definition query for the document at `path` and the
    /// zero-based position `line`:`character`.  Returns the id and the
    /// frame to transmit.  Before `Ready` the call fails with `NotReady`,
    /// after `Closed` with `Closed` — no silent queuing.
    pub fn start_goto_definition(&mut self, path: &str, line: u32, character: u32) -> (r: Result<
        (RequestID, Vec<u8>),
        Error,
    >)
        requires
            old(self).wf(),
            old(self).writer_next() < RequestID::MAX,
        ensures
            final(self).wf(),
            final(self).buffered() == old(self).buffered(),
            final(self).transport() == old(self).transport(),
            final(self).table_map() == old(self).table_map(),
            final(self).phase() == old(self).phase(),
            (match old(self).phase() {
                Phase::Ready => r matches Ok(p) && p.0 == old(self).writer_next() && p.1@
                    == spec_frame(
                    p.0,
                    encode_utf8("textDocument/definition"@),
                    spec_goto_params(path.spec_bytes(), line, character),
                ) && final(self).writer_next() == old(self).writer_next() + 1,
                Phase::Closed => (r matches Err(Error::Closed)) && final(self).writer_next()
                    == old(self).writer_next(),
                _ => (r matches Err(Error::NotReady)) && final(self).writer_next() == old(self).writer_next(),
            }),
    {
        match self.phase {
            Phase::Ready => {
                let params = build_goto_params(path, line, character);
                let (id, frame) = self.writer.send("textDocument/definition", params.as_slice());
                Ok((id, frame))
            },
            Phase::Closed => Err(Error::Closed),
            _ => Err(Error::NotReady),
        }
    }

    /// One poll for the response to a definition query: the resolved
    /// locations, "not yet", or an error.  An error payload from the
    /// server is surfaced to this caller only; a result that is none of
    /// the three accepted shapes is a `DecodeError`.
    pub fn poll_goto_definition(&mut self, id: RequestID) -> (r: Result<
        Option<Vec<Location>>,
        Error,
    >)
        requires
            old(self).wf(),
        ensures
            final(self).wf(),
            final(self).buffered() == old(self).buffered(),
            final(self).transport() == old(self).transport(),
            final(self).writer_next() == old(self).writer_next(),
            final(self).phase() == old(self).phase(),
            (match r {
                Ok(Some(locs)) => (match old(self).spec_claim_result(id) {
                    Ok(Some(fm)) => !fm.is_error && goto_uris_of(fm.raw) == Some(
                        locations_view(locs@),
                    ) && final(self).table_map() == old(self).table_map().remove(id),
                    _ => false,
                }),
                Ok(None) => old(self).spec_claim_result(id) == Ok::<
                    Option<FrameModel>,
                    Error,
                >(None) && final(self).table_map() == old(self).table_map(),
                Err(e) => (match old(self).spec_claim_result(id) {
                    Ok(Some(fm)) => final(self).table_map() == old(self).table_map().remove(id)
                        && (if fm.is_error {
                        e matches Error::LSPError(m) && m@ == fm.raw
                    } else {
                        goto_uris_of(fm.raw) is None && e matches Error::DecodeError
                    }),
                    Ok(None) => false,
                    Err(e2) => e == e2 && final(self).table_map() == old(self).table_map(),
                }),
            }),
    {
        match self.dispatcher.try_claim(id) {
            Ok(Some(f)) => {
                if f.is_error {
                    return Err(Error::LSPError(f.raw));
                }
                match parse_goto_result(f.raw.as_str()) {
                    Some(uris) => Ok(Some(locations_from_uris(uris))),
                    None => Err(Error::DecodeError),
                }
            },
            Ok(None) => Ok(None),
            Err(e) => Err(e),
        }
    }

    /// Announces a document's content to the server without waiting for
    /// an answer.  Returns the id and the frame to transmit.  Gated like
    /// every non-handshake operation.
    pub fn open_virtual(&mut self, path: &str, content: &str, language: &str) -> (r: Result<
        (RequestID, Vec<u8>),
        Error,
    >)
        requires
            old(self).wf(),
            old(self).writer_next() < RequestID::MAX,
        ensures
            final(self).wf(),
            final(self).buffered() == old(self).buffered(),
            final(self).transport() == old(self).transport(),
            final(self).table_map() == old(self).table_map(),
            final(self).phase() == old(self).phase(),
            (match old(self).phase() {
                Phase::Ready => r matches Ok(p) && p.0 == old(self).writer_next() && p.1@
                    == spec_frame(
                    p.0,
                    encode_utf8("textDocument/didOpen"@),
                    spec_didopen_params(
                        path.spec_bytes(),
                        language.spec_bytes(),
                        content.spec_bytes(),
                    ),
                ) && final(self).writer_next() == old(self).writer_next() + 1,
                Phase::Closed => (r matches Err(Error::Closed)) && final(self).writer_next()
                    == old(self).writer_next(),
                _ => (r matches Err(Error::NotReady)) && final(self).writer_next() == old(self).writer_next(),
            }),
    {
        match self.phase {
            Phase::Ready => {
                let params = build_didopen_params(path, language, content);
                let (id, frame) = self.writer.send("textDocument/didOpen", params.as_slice());
                Ok((id, frame))
            },
            Phase::Closed => Err(Error::Closed),
            _ => Err(Error::NotReady),
        }
    }
}

} // verus!
