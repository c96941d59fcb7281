//! Response reader and dispatcher.
//!
//! The dispatcher owns the read side of the transport: the caller feeds it
//! the raw bytes read from the server's standard output, and `pump` decodes
//! every complete frame off the front of that buffer and publishes it,
//! keyed by its request id, into the correlation table.  A caller waiting
//! for a specific id polls `try_claim`: a published frame is handed over
//! exactly once and removed; once the transport is closed or failed, every
//! poll for an unpublished id reports the terminal error, so no waiter is
//! left blocked.

use vstd::prelude::*;

use crate::lsp::codec::{
    decode_frame, find_byte, headers_view, lemma_find_byte, spec_decode, spec_decode_at,
    vec_range, Decoded, SpecDecoded,
};
use crate::lsp::error::Error;

verus! {

// ---------------------------------------------------------------------------
// Response frames
// ---------------------------------------------------------------------------

/// One decoded response: its headers (trimmed, with ASCII-lowercased
/// names), the id it answers, and the raw JSON text of its `result` or
/// `error` member, kept undecoded until the caller that knows the expected
/// shape consumes it.
pub struct ResponseFrame {
    /// The header block, name and value pairs in order of arrival.
    pub headers: Vec<(Vec<u8>, Vec<u8>)>,
    /// The request id this frame answers.
    pub id: u32,
    /// The raw JSON text of the payload.
    pub raw: String,
    /// Whether the payload came from an `error` member rather than a
    /// `result` member.
    pub is_error: bool,
}

/// The mathematical reading of a [`ResponseFrame`].
pub struct FrameModel {
    pub headers: Seq<(Seq<u8>, Seq<u8>)>,
    pub id: u32,
    pub raw: Seq<char>,
    pub is_error: bool,
}

impl View for ResponseFrame {
    type V = FrameModel;

    open spec fn view(&self) -> FrameModel {
        FrameModel {
            headers: headers_view(self.headers@),
            id: self.id,
            raw: self.raw@,
            is_error: self.is_error,
        }
    }
}

// ---------------------------------------------------------------------------
// Reading a response body
// ---------------------------------------------------------------------------

/// What the JSON text of a response body denotes: the `id` member, the raw
/// text of the `result` member (or of the `error` member, with the flag
/// set), or nothing when the bytes are not such a JSON object.  A fixed
/// function of the bytes alone.
pub uninterp spec fn body_frame_of(body: Seq<u8>) -> Option<(u64, Seq<char>, bool)>;

/// Relies on `serde_json::from_slice::<serde_json::Value>` to parse the
/// body, and on `serde_json::Value::{get, as_u64}` and the `Display`
/// rendering of `Value` to read the `id` member and re-render the payload
/// member; all of them compute from the bytes alone.
#[verifier::external_body]
fn parse_body(body: &Vec<u8>) -> (r: Option<(u64, String, bool)>)
    ensures
        (match r {
            Some((id, raw, is_err)) => body_frame_of(body@) == Some((id, raw@, is_err)),
            None => body_frame_of(body@) is None,
        }),
{
    let v: serde_json::Value = serde_json::from_slice(body.as_slice()).ok()?;
    let id = v.get("id")?.as_u64()?;
    if let Some(res) = v.get("result") {
        return Some((id, res.to_string(), false));
    }
    let err = v.get("error")?;
    Some((id, err.to_string(), true))
}

// ---------------------------------------------------------------------------
// Transport state
// ---------------------------------------------------------------------------

/// Why the reader stopped for good.
#[derive(Clone, Copy, PartialEq, Eq, Structural, Debug)]
pub enum FailReason {
    /// A non-blank header line without a colon.
    MalformedHeader,
    /// No `content-length` header before the blank line.
    MissingContentLength,
    /// A header value or a frame body that could not be understood.
    DecodeError,
}

/// The error a failure reason is reported as.
pub open spec fn spec_reason_error(r: FailReason) -> Error {
    match r {
        FailReason::MalformedHeader => Error::MalformedHeader,
        FailReason::MissingContentLength => Error::MissingContentLength,
        FailReason::DecodeError => Error::DecodeError,
    }
}

/// The error a failure reason is reported as.
pub fn reason_error(r: FailReason) -> (e: Error)
    ensures
        e == spec_reason_error(r),
{
    match r {
        FailReason::MalformedHeader => Error::MalformedHeader,
        FailReason::MissingContentLength => Error::MissingContentLength,
        FailReason::DecodeError => Error::DecodeError,
    }
}

/// The life of the transport: reading normally, ended by end-of-stream,
/// or poisoned by a framing violation.  Terminal states release every
/// pending waiter with an error.
#[derive(Clone, Copy, PartialEq, Eq, Structural, Debug)]
pub enum TransportState {
    /// Frames are still expected.
    Ready,
    /// The stream ended or the process exited.
    Closed,
    /// A framing violation poisoned the stream.
    Failed(FailReason),
}

// ---------------------------------------------------------------------------
// The correlation table
// ---------------------------------------------------------------------------

/// Whether no two frames of `s` answer the same id.
pub open spec fn distinct_ids(s: Seq<ResponseFrame>) -> bool {
    forall|i: int, j: int| 0 <= i < j < s.len() ==> s[i].id != s[j].id
}

/// The mapping a frame list denotes; a later frame for an id overrides an
/// earlier one.
pub open spec fn table_as_map(s: Seq<ResponseFrame>) -> Map<u32, FrameModel>
    decreases s.len(),
{
    if s.len() == 0 {
        Map::empty()
    } else {
        table_as_map(s.drop_last()).insert(s.last().id, s.last()@)
    }
}

/// Pointwise reading of `table_as_map`: an id is in the map exactly when
/// some frame carries it, and with distinct ids each frame is the value of
/// its own id.
pub proof fn lemma_table_as_map(s: Seq<ResponseFrame>)
    ensures
        forall|id: u32| #[trigger]
            table_as_map(s).contains_key(id) ==> exists|i: int|
                0 <= i < s.len() && s[i].id == id,
        forall|i: int|
            0 <= i < s.len() ==> #[trigger] table_as_map(s).contains_key(s[i].id),
        distinct_ids(s) ==> forall|i: int|
            0 <= i < s.len() ==> table_as_map(s)[#[trigger] s[i].id] == s[i]@,
    decreases s.len(),
{
    if s.len() > 0 {
        lemma_table_as_map(s.drop_last());
        assert forall|id: u32| #[trigger] table_as_map(s).contains_key(id) implies exists|i: int|
            0 <= i < s.len() && s[i].id == id by {
            if id == s.last().id {
                assert(s[s.len() - 1].id == id);
            } else {
                assert(table_as_map(s.drop_last()).contains_key(id));
                let i = choose|i: int| 0 <= i < s.drop_last().len() && s.drop_last()[i].id == id;
                assert(s[i] == s.drop_last()[i]);
            }
        }
        assert forall|i: int| 0 <= i < s.len() implies #[trigger] table_as_map(s).contains_key(
            s[i].id,
        ) by {
            if i < s.len() - 1 {
                assert(s.drop_last()[i].id == s[i].id);
            }
        }
        if distinct_ids(s) {
            assert(distinct_ids(s.drop_last())) by {
                assert(forall|i: int, j: int|
                    0 <= i < j < s.drop_last().len() ==> s.drop_last()[i].id != s.drop_last()[j].id);
            }
            assert forall|i: int| 0 <= i < s.len() implies table_as_map(s)[#[trigger] s[i].id]
                == s[i]@ by {
                if i < s.len() - 1 {
                    assert(s[i].id != s.last().id);
                    assert(s.drop_last()[i] == s[i]);
                }
            }
        }
    }
}

/// With distinct ids, removing one frame removes exactly its id from the
/// denoted mapping.
proof fn lemma_table_remove(s: Seq<ResponseFrame>, i: int)
    requires
        distinct_ids(s),
        0 <= i < s.len(),
    ensures
        distinct_ids(s.remove(i)),
        table_as_map(s.remove(i)) == table_as_map(s).remove(s[i].id),
{
    let s1 = s.remove(i);
    let id0 = s[i].id;
    lemma_table_as_map(s);
    lemma_table_as_map(s1);
    assert(forall|j: int|
        0 <= j < s1.len() ==> s1[j] == (if j < i {
            s[j]
        } else {
            s[j + 1]
        }));
    assert(distinct_ids(s1));
    assert forall|k: u32| #[trigger]
        table_as_map(s1).contains_key(k) implies table_as_map(s).remove(id0).contains_key(k)
        && table_as_map(s).remove(id0)[k] == table_as_map(s1)[k] by {
        let j = choose|j: int| 0 <= j < s1.len() && s1[j].id == k;
        let j2 = if j < i {
            j
        } else {
            j + 1
        };
        assert(s[j2].id == k);
        assert(k != id0);
        assert(table_as_map(s)[k] == s[j2]@);
        assert(table_as_map(s1)[k] == s1[j]@);
    }
    assert forall|k: u32| #[trigger]
        table_as_map(s).remove(id0).contains_key(k) implies table_as_map(s1).contains_key(k) by {
        assert(table_as_map(s).contains_key(k) && k != id0);
        let j = choose|j: int| 0 <= j < s.len() && s[j].id == k;
        assert(j != i);
        let j1 = if j < i {
            j
        } else {
            j - 1
        };
        assert(s1[j1].id == k);
    }
    assert(table_as_map(s1) =~= table_as_map(s).remove(id0));
}

/// Appending a frame with a fresh id inserts it into the denoted mapping.
proof fn lemma_table_push(s: Seq<ResponseFrame>, f: ResponseFrame)
    requires
        distinct_ids(s),
        forall|j: int| 0 <= j < s.len() ==> s[j].id != f.id,
    ensures
        distinct_ids(s.push(f)),
        table_as_map(s.push(f)) == table_as_map(s).insert(f.id, f@),
{
    assert(s.push(f).drop_last() =~= s);
    assert(s.push(f).last() == f);
    assert(forall|j: int| 0 <= j < s.len() ==> s.push(f)[j] == s[j]);
}

/// Publishes `f`, replacing any frame already held for the same id.
fn table_upsert(table: &mut Vec<ResponseFrame>, f: ResponseFrame)
    requires
        distinct_ids(old(table)@),
    ensures
        distinct_ids(final(table)@),
        table_as_map(final(table)@) == table_as_map(old(table)@).insert(f.id, f@),
{
    let ghost s0 = table@;
    let ghost fid = f.id;
    let mut i: usize = 0;
    let n = table.len();
    while i < n
        invariant
            i <= n == table@.len(),
            table@ == s0,
            s0 == old(table)@,
            distinct_ids(s0),
            forall|j: int| 0 <= j < i ==> s0[j].id != fid,
            f.id == fid,
        decreases n - i,
    {
        if table[i].id == f.id {
            proof {
                lemma_table_remove(s0, i as int);
            }
            table.remove(i);
            let ghost s1 = table@;
            table.push(f);
            proof {
                assert(forall|j: int| 0 <= j < s1.len() ==> s1[j].id != fid) by {
                    assert(forall|j: int|
                        0 <= j < s1.len() ==> s1[j] == (if j < i {
                            s0[j]
                        } else {
                            s0[j + 1]
                        }));
                }
                lemma_table_push(s1, f);
                assert(table_as_map(s0).remove(fid).insert(fid, f@) =~= table_as_map(
                    s0,
                ).insert(fid, f@));
            }
            return ;
        }
        i += 1;
    }
    let ghost s1 = table@;
    table.push(f);
    proof {
        assert forall|j: int| 0 <= j < s1.len() implies s1[j].id != fid by {}
        lemma_table_push(s1, f);
    }
}

// ---------------------------------------------------------------------------
// The dispatcher
// ---------------------------------------------------------------------------

/// A frame read attempt never reports more bytes used than the buffer
/// holds, and always at least one.
pub proof fn lemma_decode_at_used(buf: Seq<u8>, pos: int, headers: Seq<(Seq<u8>, Seq<u8>)>)
    requires
        0 <= pos <= buf.len(),
    ensures
        spec_decode_at(buf, pos, headers) matches SpecDecoded::Frame { used, .. } ==> pos < used
            <= buf.len(),
    decreases buf.len() - pos,
{
    lemma_find_byte(buf, pos, 10);
    if let Some(nl) = find_byte(buf, pos, 10) {
        let line = buf.subrange(pos, nl + 1);
        if !crate::lsp::codec::all_ws(line) {
            if let Some(kv) = crate::lsp::codec::spec_header_line(line) {
                lemma_decode_at_used(buf, nl + 1, headers.push(kv));
            }
        }
    }
}

/// Where a run of the reader loop ends up: the bytes it left unconsumed,
/// the correlation table it built, how many frames it published, and the
/// framing violation that stopped it, if one did.
pub struct PumpOutcome {
    pub buf: Seq<u8>,
    pub table: Map<u32, FrameModel>,
    pub delivered: nat,
    pub fail: Option<FailReason>,
}

/// The reader loop as a function: decode one frame after the other off the
/// front of `buf`, publish each under its id (a repeated id overrides),
/// and stop at the first incomplete tail or framing violation.  No frame
/// is ever dropped and none is dispatched twice.
pub open spec fn spec_pump(buf: Seq<u8>, m: Map<u32, FrameModel>, n: nat) -> PumpOutcome
    decreases buf.len(),
    via spec_pump_decreases
{
    match spec_decode(buf) {
        SpecDecoded::Incomplete => PumpOutcome { buf, table: m, delivered: n, fail: None },
        SpecDecoded::Malformed => PumpOutcome {
            buf,
            table: m,
            delivered: n,
            fail: Some(FailReason::MalformedHeader),
        },
        SpecDecoded::NoLength => PumpOutcome {
            buf,
            table: m,
            delivered: n,
            fail: Some(FailReason::MissingContentLength),
        },
        SpecDecoded::BadLength => PumpOutcome {
            buf,
            table: m,
            delivered: n,
            fail: Some(FailReason::DecodeError),
        },
        SpecDecoded::Frame { headers, body, used } => match body_frame_of(body) {
            None => PumpOutcome {
                buf,
                table: m,
                delivered: n,
                fail: Some(FailReason::DecodeError),
            },
            Some((id, raw, is_err)) => if id > u32::MAX as u64 {
                PumpOutcome { buf, table: m, delivered: n, fail: Some(FailReason::DecodeError) }
            } else {
                spec_pump(
                    buf.skip(used),
                    m.insert(
                        id as u32,
                        FrameModel { headers, id: id as u32, raw, is_error: is_err },
                    ),
                    n + 1,
                )
            },
        },
    }
}

#[via_fn]
proof fn spec_pump_decreases(buf: Seq<u8>, m: Map<u32, FrameModel>, n: nat) {
    lemma_decode_at_used(buf, 0, Seq::empty());
}

/// The read half of the client: a buffer of bytes not yet decoded, the
/// correlation table of published frames, and the transport state.
pub struct Dispatcher {
    buf: Vec<u8>,
    table: Vec<ResponseFrame>,
    state: TransportState,
}

impl Dispatcher {
    /// The bytes received but not yet decoded.
    pub closed spec fn buffered(&self) -> Seq<u8> {
        self.buf@
    }

    /// The transport state.
    pub closed spec fn transport(&self) -> TransportState {
        self.state
    }

    /// The frames held, in arrival order.
    pub closed spec fn table_seq(&self) -> Seq<ResponseFrame> {
        self.table@
    }

    /// The correlation table: published, still unclaimed responses by id.
    pub open spec fn table_map(&self) -> Map<u32, FrameModel> {
        table_as_map(self.table_seq())
    }

    /// The table never holds two frames for one id.
    pub open spec fn wf(&self) -> bool {
        distinct_ids(self.table_seq())
    }

    /// What one poll for `id` observes: the published frame if there is
    /// one (even after the stream ended: a retained response is never
    /// dropped), otherwise "not yet" while reading goes on, otherwise the
    /// terminal error.
    pub open spec fn spec_claim_result(&self, id: u32) -> Result<Option<FrameModel>, Error> {
        if self.table_map().contains_key(id) {
            Ok(Some(self.table_map()[id]))
        } else {
            match self.transport() {
                TransportState::Ready => Ok(None),
                TransportState::Closed => Err(Error::Closed),
                TransportState::Failed(re) => Err(spec_reason_error(re)),
            }
        }
    }

    /// A fresh dispatcher: nothing buffered, nothing published, reading.
    pub fn new() -> (d: Dispatcher)
        ensures
            d.wf(),
            d.buffered() == Seq::<u8>::empty(),
            d.transport() == TransportState::Ready,
            d.table_map() == Map::<u32, FrameModel>::empty(),
    {
        let d = Dispatcher { buf: Vec::new(), table: Vec::new(), state: TransportState::Ready };
        proof {
            assert(d.table_map() =~= Map::<u32, FrameModel>::empty());
        }
        d
    }

    /// Hands the dispatcher more bytes read from the server's output.
    pub fn feed(&mut self, chunk: &[u8])
        requires
            old(self).wf(),
        ensures
            final(self).wf(),
            final(self).buffered() == old(self).buffered() + chunk@,
            final(self).transport() == old(self).transport(),
            final(self).table_map() == old(self).table_map(),
    {
        crate::lsp::codec::push_bytes(&mut self.buf, chunk);
    }

    /// Records that the server's output reached end-of-stream: an open
    /// transport becomes `Closed`; a failure already recorded stands.
    pub fn on_stream_end(&mut self)
        requires
            old(self).wf(),
        ensures
            final(self).wf(),
            final(self).buffered() == old(self).buffered(),
            final(self).table_map() == old(self).table_map(),
            final(self).transport() == (if old(self).transport() is Ready {
                TransportState::Closed
            } else {
                old(self).transport()
            }),
    {
        match self.state {
            TransportState::Ready => {
                self.state = TransportState::Closed;
            },
            _ => {},
        }
    }

    /// The transport state, for callers deciding whether to keep reading.
    pub fn transport_state(&self) -> (s: TransportState)
        ensures
            s == self.transport(),
    {
        self.state
    }

    /// Decodes and publishes every complete frame waiting in the buffer,
    /// exactly as [`spec_pump`] reads it: on success the number of frames
    /// published; on a framing violation the transport is poisoned, the
    /// frames published before the violation stay claimable, and the
    /// violation is returned.  After a terminal state nothing happens.
    pub fn pump(&mut self) -> (r: Result<usize, Error>)
        requires
            old(self).wf(),
        ensures
            final(self).wf(),
            ({
                let out = spec_pump(old(self).buffered(), old(self).table_map(), 0);
                &&& (old(self).transport() is Ready ==> {
                    &&& final(self).buffered() == out.buf
                    &&& final(self).table_map() == out.table
                    &&& (match out.fail {
                        None => r matches Ok(n) && n as nat == out.delivered && final(self).transport() is Ready,
                        Some(re) => (r matches Err(e) && e == spec_reason_error(re)) && final(self).transport() == TransportState::Failed(re),
                    })
                })
                &&& (!(old(self).transport() is Ready) ==> final(self).buffered() == old(self).buffered() && final(self).table_map() == old(self).table_map() && final(self).transport() == old(self).transport() && (r matches Ok(n) && n == 0usize))
            }),
    {
        match self.state {
            TransportState::Ready => {},
            _ => {
                return Ok(0);
            },
        }
        let ghost buf0 = self.buf@;
        let ghost m0 = table_as_map(self.table@);
        let n0 = self.buf.len();
        let mut count: usize = 0;
        loop
            invariant
                distinct_ids(self.table@),
                self.state is Ready,
                buf0 == old(self).buffered(),
                m0 == old(self).table_map(),
                old(self).transport() is Ready,
                n0 == buf0.len(),
                count as nat + self.buf@.len() <= buf0.len(),
                spec_pump(buf0, m0, 0) == spec_pump(self.buf@, table_as_map(self.table@), count as nat),
            decreases self.buf@.len(),
        {
            let ghost bufk = self.buf@;
            let ghost mk = table_as_map(self.table@);
            proof {
                lemma_decode_at_used(bufk, 0, Seq::empty());
            }
            let step = decode_frame(&self.buf);
            match step {
                Ok(Decoded::Incomplete) => {
                    return Ok(count);
                },
                Ok(Decoded::Frame { headers, body, used }) => {
                    match parse_body(&body) {
                        None => {
                            self.state = TransportState::Failed(FailReason::DecodeError);
                            return Err(Error::DecodeError);
                        },
                        Some((id64, raw, is_err)) => {
                            if id64 > 0xFFFF_FFFFu64 {
                                self.state = TransportState::Failed(FailReason::DecodeError);
                                return Err(Error::DecodeError);
                            }
                            let f = ResponseFrame {
                                headers,
                                id: id64 as u32,
                                raw,
                                is_error: is_err,
                            };
                            table_upsert(&mut self.table, f);
                            let nb = vec_range(&self.buf, used, self.buf.len());
                            proof {
                                assert(nb@ =~= bufk.skip(used as int));
                            }
                            self.buf = nb;
                            count += 1;
                        },
                    }
                },
                Err(e) => {
                    let re = match e {
                        Error::MalformedHeader => FailReason::MalformedHeader,
                        Error::MissingContentLength => FailReason::MissingContentLength,
                        _ => FailReason::DecodeError,
                    };
                    self.state = TransportState::Failed(re);
                    return Err(reason_error(re));
                },
            }
        }
    }

    /// One poll for the response to `id`, following
    /// [`Dispatcher::spec_claim_result`]: a published frame is handed over
    /// and removed, so it can be claimed exactly once; an id without a
    /// frame sees "not yet" while reading goes on and the terminal error
    /// once the transport is closed or failed.
    pub fn try_claim(&mut self, id: u32) -> (r: Result<Option<ResponseFrame>, Error>)
        requires
            old(self).wf(),
        ensures
            final(self).wf(),
            final(self).buffered() == old(self).buffered(),
            final(self).transport() == old(self).transport(),
            (match r {
                Ok(Some(f)) => old(self).spec_claim_result(id) == Ok::<
                    Option<FrameModel>,
                    Error,
                >(Some(f@)) && f.id == id && final(self).table_map() == old(self).table_map().remove(id),
                Ok(None) => old(self).spec_claim_result(id) == Ok::<
                    Option<FrameModel>,
                    Error,
                >(None) && final(self).table_map() == old(self).table_map(),
                Err(e) => old(self).spec_claim_result(id) == Err::<
                    Option<FrameModel>,
                    Error,
                >(e) && final(self).table_map() == old(self).table_map(),
            }),
    {
        let ghost s0 = self.table@;
        let mut i: usize = 0;
        let n = self.table.len();
        while i < n
            invariant
                i <= n == self.table@.len(),
                self.table@ == s0,
                s0 == old(self).table@,
                self.buf@ == old(self).buf@,
                self.state == old(self).state,
                distinct_ids(s0),
                forall|j: int| 0 <= j < i ==> s0[j].id != id,
            decreases n - i,
        {
            if self.table[i].id == id {
                proof {
                    lemma_table_as_map(s0);
                    lemma_table_remove(s0, i as int);
                }
                let f = self.table.remove(i);
                return Ok(Some(f));
            }
            i += 1;
        }
        proof {
            lemma_table_as_map(s0);
            if table_as_map(s0).contains_key(id) {
                let j = choose|j: int| 0 <= j < s0.len() && s0[j].id == id;
                assert(false);
            }
        }
        match self.state {
            TransportState::Ready => Ok(None),
            TransportState::Closed => Err(Error::Closed),
            TransportState::Failed(re) => Err(reason_error(re)),
        }
    }
}

// ---------------------------------------------------------------------------
// Delivery laws
// ---------------------------------------------------------------------------

/// What the reader has published is never dropped: a run of the reader
/// loop only adds to the correlation table, also when it ends in a
/// framing violation, so responses dispatched before the violation stay
/// claimable.
pub proof fn lemma_pump_keeps_published(buf: Seq<u8>, m: Map<u32, FrameModel>, n: nat)
    ensures
        forall|id: u32|
            m.contains_key(id) ==> #[trigger] spec_pump(buf, m, n).table.contains_key(id),
    decreases buf.len(),
{
    lemma_decode_at_used(buf, 0, Seq::empty());
    match spec_decode(buf) {
        SpecDecoded::Frame { headers, body, used } => {
            match body_frame_of(body) {
                Some((id, raw, is_err)) => {
                    if id <= u32::MAX as u64 {
                        lemma_pump_keeps_published(
                            buf.skip(used),
                            m.insert(
                                id as u32,
                                FrameModel { headers, id: id as u32, raw, is_error: is_err },
                            ),
                            n + 1,
                        );
                    }
                },
                None => {},
            }
        },
        _ => {},
    }
}

/// No cross-delivery: whatever a caller claims for its id answers exactly
/// that id, however many requests are outstanding and in whatever order
/// their responses arrived.
pub proof fn lemma_no_cross_delivery(d: &Dispatcher, id: u32)
    requires
        d.wf(),
    ensures
        (match d.spec_claim_result(id) {
            Ok(Some(fm)) => fm.id == id,
            _ => true,
        }),
{
    if d.table_map().contains_key(id) {
        lemma_table_as_map(d.table_seq());
        let i = choose|i: int| 0 <= i < d.table_seq().len() && d.table_seq()[i].id == id;
        assert(d.table_map()[id] == d.table_seq()[i]@);
    }
}

/// Out-of-order delivery: publishing the responses to two different
/// requests in either order builds the same correlation table, and each id
/// still maps to its own response.  Round-trip correctness does not depend
/// on the order in which the server answers.
pub proof fn lemma_out_of_order_delivery(
    m: Map<u32, FrameModel>,
    a: u32,
    fa: FrameModel,
    b: u32,
    fb: FrameModel,
)
    requires
        a != b,
    ensures
        m.insert(a, fa).insert(b, fb) == m.insert(b, fb).insert(a, fa),
        m.insert(a, fa).insert(b, fb)[a] == fa,
        m.insert(a, fa).insert(b, fb)[b] == fb,
{
    assert(m.insert(a, fa).insert(b, fb) =~= m.insert(b, fb).insert(a, fa));
}

/// Stream termination releases all waiters: once the transport is closed,
/// a poll for any id whose response never arrived observes the `Closed`
/// error.  Each waiter polls until its first non-"not yet" answer and then
/// stops, so it observes that error exactly once; ids whose responses were
/// already claimed are untouched, since claiming removed them from the
/// table and returned them to their callers.
pub proof fn lemma_close_releases_waiters(d: &Dispatcher, waiting: Set<u32>)
    requires
        d.transport() is Closed,
        forall|id: u32| waiting.contains(id) ==> !d.table_map().contains_key(id),
    ensures
        forall|id: u32|
            waiting.contains(id) ==> d.spec_claim_result(id) == Err::<
                Option<FrameModel>,
                Error,
            >(Error::Closed),
{
}

} // verus!
