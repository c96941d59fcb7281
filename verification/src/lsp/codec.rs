//! Wire codec for length-framed JSON-RPC messages.
//!
//! A frame is `Content-Length: <n>\r\n\r\n<json-body>` where `<n>` is the
//! exact byte length of the UTF-8 JSON body.  An outgoing body is a JSON
//! object with the fixed keys `jsonrpc = "2.0"`, `id`, `method` and
//! `params`.  Everything here is byte-oriented: strings enter through their
//! UTF-8 encoding, so the byte count in the header is exact even for
//! non-ASCII payloads.

use vstd::prelude::*;
use vstd::string::StringSliceAdditionalSpecFns;

use crate::lsp::error::Error;

verus! {

// ---------------------------------------------------------------------------
// Decimal rendering
// ---------------------------------------------------------------------------

/// The decimal digits of `n`, most significant first, as ASCII bytes.
pub open spec fn dec_bytes(n: nat) -> Seq<u8>
    decreases n,
{
    if n < 10 {
        seq![(48 + n) as u8]
    } else {
        dec_bytes(n / 10) + seq![(48 + n % 10) as u8]
    }
}

/// Appends the decimal rendering of `n` to `out`.
pub fn push_dec(out: &mut Vec<u8>, n: u64)
    ensures
        final(out)@ == old(out)@ + dec_bytes(n as nat),
    decreases n,
{
    if n >= 10 {
        push_dec(out, n / 10);
    }
    out.push(48 + (n % 10) as u8);
    proof {
        assert(out@ =~= old(out)@ + dec_bytes(n as nat));
    }
}

// ---------------------------------------------------------------------------
// JSON string escaping
// ---------------------------------------------------------------------------

/// The ASCII byte of the hexadecimal digit `d` (lower case letters).
pub open spec fn hex_digit(d: int) -> u8 {
    if d < 10 {
        (48 + d) as u8
    } else {
        (87 + d) as u8
    }
}

/// How one byte of a string is written inside a JSON string literal:
/// quote, backslash and the common control characters get a two-byte
/// escape, the remaining control bytes a `\u00XX` escape, and every other
/// byte stands for itself.  Bytes of a multi-byte UTF-8 character are all
/// at least 0x80 and pass through unchanged.
pub open spec fn escape_byte(b: u8) -> Seq<u8> {
    if b == 34 {  // "
        seq![92u8, 34u8]
    } else if b == 92 {  // backslash
        seq![92u8, 92u8]
    } else if b == 10 {  // line feed
        seq![92u8, 110u8]
    } else if b == 13 {  // carriage return
        seq![92u8, 114u8]
    } else if b == 9 {  // tab
        seq![92u8, 116u8]
    } else if b < 32 {
        seq![92u8, 117u8, 48u8, 48u8, hex_digit(b as int / 16), hex_digit(b as int % 16)]
    } else {
        seq![b]
    }
}

/// The JSON escaping of a whole byte sequence.
pub open spec fn escape_bytes(s: Seq<u8>) -> Seq<u8>
    decreases s.len(),
{
    if s.len() == 0 {
        Seq::empty()
    } else {
        escape_byte(s[0]) + escape_bytes(s.drop_first())
    }
}

/// Escaping distributes over concatenation.
pub proof fn lemma_escape_concat(a: Seq<u8>, b: Seq<u8>)
    ensures
        escape_bytes(a + b) == escape_bytes(a) + escape_bytes(b),
    decreases a.len(),
{
    if a.len() == 0 {
        assert(a + b =~= b);
        assert(escape_bytes(a) + escape_bytes(b) =~= escape_bytes(b));
    } else {
        assert((a + b).drop_first() =~= a.drop_first() + b);
        lemma_escape_concat(a.drop_first(), b);
        assert((a + b)[0] == a[0]);
        assert(escape_bytes(a + b) =~= escape_bytes(a) + escape_bytes(b));
    }
}

/// The ASCII byte of the hexadecimal digit `d`.
fn hex_digit_exec(d: u8) -> (r: u8)
    requires
        d < 16,
    ensures
        r == hex_digit(d as int),
{
    if d < 10 {
        48 + d
    } else {
        87 + d
    }
}

/// Appends the JSON escaping of `s` to `out`.
pub fn push_escaped(out: &mut Vec<u8>, s: &[u8])
    ensures
        final(out)@ == old(out)@ + escape_bytes(s@),
{
    let mut i: usize = 0;
    while i < s.len()
        invariant
            i <= s@.len(),
            out@ == old(out)@ + escape_bytes(s@.take(i as int)),
        decreases s@.len() - i,
    {
        let b = s[i];
        if b == 34 {
            out.push(92);
            out.push(34);
        } else if b == 92 {
            out.push(92);
            out.push(92);
        } else if b == 10 {
            out.push(92);
            out.push(110);
        } else if b == 13 {
            out.push(92);
            out.push(114);
        } else if b == 9 {
            out.push(92);
            out.push(116);
        } else if b < 32 {
            out.push(92);
            out.push(117);
            out.push(48);
            out.push(48);
            out.push(hex_digit_exec(b / 16));
            out.push(hex_digit_exec(b % 16));
        } else {
            out.push(b);
        }
        proof {
            assert(s@.take(i as int + 1) =~= s@.take(i as int) + seq![s@[i as int]]);
            lemma_escape_concat(s@.take(i as int), seq![s@[i as int]]);
            assert(seq![s@[i as int]].drop_first() =~= Seq::<u8>::empty());
            assert(escape_bytes(Seq::<u8>::empty()) =~= Seq::<u8>::empty());
            assert(escape_bytes(seq![s@[i as int]]) == escape_byte(seq![s@[i as int]][0]) + escape_bytes(seq![s@[i as int]].drop_first()));
            assert(escape_bytes(seq![s@[i as int]]) =~= escape_byte(s@[i as int]));
            assert(out@ =~= old(out)@ + escape_bytes(s@.take(i as int + 1)));
        }
        i += 1;
    }
    proof {
        assert(s@.take(s@.len() as int) =~= s@);
    }
}

// ---------------------------------------------------------------------------
// Frame building
// ---------------------------------------------------------------------------

/// Appends the UTF-8 bytes of `s` to `out`.
pub fn push_str_bytes(out: &mut Vec<u8>, s: &str)
    ensures
        final(out)@ == old(out)@ + s.spec_bytes(),
{
    let b: &[u8] = s.as_bytes();
    let mut i: usize = 0;
    while i < b.len()
        invariant
            i <= b@.len(),
            b@ == s.spec_bytes(),
            out@ == old(out)@ + b@.take(i as int),
        decreases b@.len() - i,
    {
        out.push(b[i]);
        proof {
            assert(b@.take(i as int + 1) =~= b@.take(i as int) + seq![b@[i as int]]);
            assert(out@ =~= old(out)@ + b@.take(i as int + 1));
        }
        i += 1;
    }
    proof {
        assert(b@.take(b@.len() as int) =~= b@);
    }
}

/// The JSON body of a request: fixed keys, the id in decimal, the method as
/// an escaped JSON string, the params spliced in as raw JSON text.
pub open spec fn spec_body(id: u32, method: Seq<u8>, params: Seq<u8>) -> Seq<u8> {
    vstd::utf8::encode_utf8("{\"jsonrpc\":\"2.0\",\"id\":"@) + dec_bytes(id as nat)
        + vstd::utf8::encode_utf8(",\"method\":\""@) + escape_bytes(method)
        + vstd::utf8::encode_utf8("\",\"params\":"@) + params
        + vstd::utf8::encode_utf8("}"@)
}

/// A whole frame: the `Content-Length` header carrying the exact byte
/// length of the body, a blank line, then the body.
pub open spec fn spec_frame(id: u32, method: Seq<u8>, params: Seq<u8>) -> Seq<u8> {
    vstd::utf8::encode_utf8("Content-Length: "@) + dec_bytes(spec_body(id, method, params).len())
        + seq![13u8, 10u8, 13u8, 10u8] + spec_body(id, method, params)
}

/// Builds the JSON body for `id`, `method` and `params`.
pub fn encode_body(id: u32, method: &str, params: &[u8]) -> (r: Vec<u8>)
    ensures
        r@ == spec_body(id, method.spec_bytes(), params@),
{
    let mut body: Vec<u8> = Vec::new();
    push_str_bytes(&mut body, "{\"jsonrpc\":\"2.0\",\"id\":");
    push_dec(&mut body, id as u64);
    push_str_bytes(&mut body, ",\"method\":\"");
    push_escaped(&mut body, method.as_bytes());
    push_str_bytes(&mut body, "\",\"params\":");
    push_bytes(&mut body, params);
    push_str_bytes(&mut body, "}");
    body
}

/// Encodes one request as a complete frame, ready to be written to the
/// server's standard input in one piece.
pub fn encode_request(id: u32, method: &str, params: &[u8]) -> (r: Vec<u8>)
    ensures
        r@ == spec_frame(id, method.spec_bytes(), params@),
{
    let body = encode_body(id, method, params);
    let mut frame: Vec<u8> = Vec::new();
    push_str_bytes(&mut frame, "Content-Length: ");
    push_dec(&mut frame, body.len() as u64);
    frame.push(13);
    frame.push(10);
    frame.push(13);
    frame.push(10);
    push_bytes(&mut frame, body.as_slice());
    proof {
        assert(frame@ =~= spec_frame(id, method.spec_bytes(), params@));
    }
    frame
}

/// Appends a byte slice to `out`.
pub fn push_bytes(out: &mut Vec<u8>, b: &[u8])
    ensures
        final(out)@ == old(out)@ + b@,
{
    let mut i: usize = 0;
    while i < b.len()
        invariant
            i <= b@.len(),
            out@ == old(out)@ + b@.take(i as int),
        decreases b@.len() - i,
    {
        out.push(b[i]);
        proof {
            assert(b@.take(i as int + 1) =~= b@.take(i as int) + seq![b@[i as int]]);
            assert(out@ =~= old(out)@ + b@.take(i as int + 1));
        }
        i += 1;
    }
    proof {
        assert(b@.take(b@.len() as int) =~= b@);
    }
}

// ---------------------------------------------------------------------------
// Scanning helpers
// ---------------------------------------------------------------------------

/// The first index at or after `from` where `b` occurs in `s`.
pub open spec fn find_byte(s: Seq<u8>, from: int, b: u8) -> Option<int>
    decreases s.len() - from,
{
    if from < 0 || from >= s.len() {
        None
    } else if s[from] == b {
        Some(from)
    } else {
        find_byte(s, from + 1, b)
    }
}

/// What `find_byte` returns: the first occurrence, or a guarantee that
/// there is none.
pub proof fn lemma_find_byte(s: Seq<u8>, from: int, b: u8)
    requires
        0 <= from,
    ensures
        match find_byte(s, from, b) {
            Some(i) => from <= i < s.len() && s[i] == b && (forall|j: int|
                from <= j < i ==> s[j] != b),
            None => forall|j: int| from <= j < s.len() ==> s[j] != b,
        },
    decreases s.len() - from,
{
    if from < s.len() && s[from] != b {
        lemma_find_byte(s, from + 1, b);
    }
}

/// A position that is an occurrence with none before it is what
/// `find_byte` finds.
pub proof fn lemma_find_byte_at(s: Seq<u8>, from: int, b: u8, i: int)
    requires
        0 <= from <= i < s.len(),
        s[i] == b,
        forall|j: int| from <= j < i ==> s[j] != b,
    ensures
        find_byte(s, from, b) == Some(i),
    decreases i - from,
{
    if from < i {
        lemma_find_byte_at(s, from + 1, b, i);
    }
}

/// The first occurrence of `b` in `s` within `from .. to`.
fn find_byte_range(s: &Vec<u8>, from: usize, to: usize, b: u8) -> (r: Option<usize>)
    requires
        from <= to <= s@.len(),
    ensures
        match r {
            Some(i) => from <= i < to && s@[i as int] == b && (forall|j: int|
                from <= j < i ==> s@[j] != b),
            None => forall|j: int| from <= j < to ==> s@[j] != b,
        },
{
    let mut i: usize = from;
    while i < to
        invariant
            from <= i <= to <= s@.len(),
            forall|j: int| from <= j < i ==> s@[j] != b,
        decreases to - i,
    {
        if s[i] == b {
            return Some(i);
        }
        i += 1;
    }
    None
}

/// A fresh copy of `s[from .. to]`.
pub fn vec_range(s: &Vec<u8>, from: usize, to: usize) -> (r: Vec<u8>)
    requires
        from <= to <= s@.len(),
    ensures
        r@ == s@.subrange(from as int, to as int),
{
    let mut r: Vec<u8> = Vec::new();
    let mut i: usize = from;
    while i < to
        invariant
            from <= i <= to <= s@.len(),
            r@ == s@.subrange(from as int, i as int),
        decreases to - i,
    {
        r.push(s[i]);
        proof {
            assert(s@.subrange(from as int, i + 1) =~= s@.subrange(from as int, i as int)
                + seq![s@[i as int]]);
        }
        i += 1;
    }
    r
}

// ---------------------------------------------------------------------------
// Whitespace trimming and ASCII lowercasing
// ---------------------------------------------------------------------------

/// ASCII whitespace: space, tab, line feed, vertical tab, form feed,
/// carriage return.
pub open spec fn is_ws(b: u8) -> bool {
    b == 32 || (9 <= b && b <= 13)
}

/// `s` without its leading whitespace.
pub open spec fn trim_front(s: Seq<u8>) -> Seq<u8>
    decreases s.len(),
{
    if s.len() > 0 && is_ws(s[0]) {
        trim_front(s.drop_first())
    } else {
        s
    }
}

/// `s` without its trailing whitespace.
pub open spec fn trim_back(s: Seq<u8>) -> Seq<u8>
    decreases s.len(),
{
    if s.len() > 0 && is_ws(s.last()) {
        trim_back(s.drop_last())
    } else {
        s
    }
}

/// `s` without leading and trailing whitespace.
pub open spec fn spec_trim(s: Seq<u8>) -> Seq<u8> {
    trim_back(trim_front(s))
}

/// Dropping a fully-whitespace prefix is what `trim_front` does.
proof fn lemma_trim_front_is_skip(s: Seq<u8>, a: int)
    requires
        0 <= a <= s.len(),
        forall|j: int| 0 <= j < a ==> is_ws(s[j]),
        a < s.len() ==> !is_ws(s[a]),
    ensures
        trim_front(s) == s.subrange(a, s.len() as int),
    decreases a,
{
    if a == 0 {
        if s.len() > 0 && is_ws(s[0]) {
            assert(false);
        }
        assert(s.subrange(0, s.len() as int) =~= s);
    } else {
        assert(is_ws(s[0]));
        let t = s.drop_first();
        assert(forall|j: int| 0 <= j < a - 1 ==> is_ws(t[j]));
        lemma_trim_front_is_skip(t, a - 1);
        assert(t.subrange(a - 1, t.len() as int) =~= s.subrange(a, s.len() as int));
    }
}

/// Dropping a fully-whitespace suffix is what `trim_back` does.
proof fn lemma_trim_back_is_take(s: Seq<u8>, k: int)
    requires
        0 <= k <= s.len(),
        forall|j: int| k <= j < s.len() ==> is_ws(s[j]),
        k > 0 ==> !is_ws(s[k - 1]),
    ensures
        trim_back(s) == s.subrange(0, k),
    decreases s.len(),
{
    if k == s.len() {
        if s.len() > 0 && is_ws(s.last()) {
            assert(false);
        }
        assert(s.subrange(0, s.len() as int) =~= s);
    } else {
        assert(is_ws(s.last()));
        let t = s.drop_last();
        lemma_trim_back_is_take(t, k);
        assert(t.subrange(0, k) =~= s.subrange(0, k));
    }
}

/// A fresh copy of `s[from .. to]` with surrounding whitespace removed.
fn trim_range(s: &Vec<u8>, from: usize, to: usize) -> (r: Vec<u8>)
    requires
        from <= to <= s@.len(),
    ensures
        r@ == spec_trim(s@.subrange(from as int, to as int)),
{
    let ghost sub = s@.subrange(from as int, to as int);
    let mut a: usize = from;
    while a < to && is_ws_exec(s[a])
        invariant
            from <= a <= to <= s@.len(),
            forall|j: int| from <= j < a ==> is_ws(s@[j]),
        decreases to - a,
    {
        a += 1;
    }
    if a == to {
        // all whitespace
        proof {
            lemma_trim_front_is_skip(sub, sub.len() as int);
            assert(trim_front(sub) =~= Seq::<u8>::empty());
            assert(trim_back(Seq::<u8>::empty()) =~= Seq::<u8>::empty());
        }
        let r: Vec<u8> = Vec::new();
        return r;
    }
    let mut b: usize = to;
    while b > a && is_ws_exec(s[b - 1])
        invariant
            a <= b <= to <= s@.len(),
            a < to,
            forall|j: int| b <= j < to ==> is_ws(s@[j]),
        decreases b,
    {
        b -= 1;
    }
    // s[a] and s[b-1] are not whitespace
    let r = vec_range(s, a, b);
    proof {
        lemma_trim_front_is_skip(sub, a - from);
        let t = sub.subrange(a - from, sub.len() as int);
        lemma_trim_back_is_take(t, b - a);
        assert(t.subrange(0, b - a) =~= s@.subrange(a as int, b as int));
    }
    r
}

/// Whether `b` is ASCII whitespace.
fn is_ws_exec(b: u8) -> (r: bool)
    ensures
        r == is_ws(b),
{
    b == 32 || (9 <= b && b <= 13)
}

/// `b` with an ASCII capital turned into its small letter.
pub open spec fn lower_byte(b: u8) -> u8 {
    if 65 <= b && b <= 90 {
        (b + 32) as u8
    } else {
        b
    }
}

/// ASCII lowercasing of a whole byte sequence.
pub open spec fn lower_bytes(s: Seq<u8>) -> Seq<u8> {
    s.map_values(|x: u8| lower_byte(x))
}

/// A fresh ASCII-lowercased copy of `v`.
fn lower_vec(v: &Vec<u8>) -> (r: Vec<u8>)
    ensures
        r@ == lower_bytes(v@),
{
    let mut r: Vec<u8> = Vec::new();
    let mut i: usize = 0;
    while i < v.len()
        invariant
            i <= v@.len(),
            r@ == lower_bytes(v@.take(i as int)),
        decreases v@.len() - i,
    {
        let b = v[i];
        if 65 <= b && b <= 90 {
            r.push(b + 32);
        } else {
            r.push(b);
        }
        proof {
            assert(r@ =~= lower_bytes(v@.take(i as int + 1)));
        }
        i += 1;
    }
    proof {
        assert(v@.take(v@.len() as int) =~= v@);
    }
    r
}

/// Whether two byte sequences are equal.
fn bytes_eq(a: &[u8], b: &[u8]) -> (r: bool)
    ensures
        r == (a@ == b@),
{
    if a.len() != b.len() {
        proof {
            assert(a@ != b@);
        }
        return false;
    }
    let mut i: usize = 0;
    while i < a.len()
        invariant
            i <= a@.len(),
            a@.len() == b@.len(),
            forall|j: int| 0 <= j < i ==> a@[j] == b@[j],
        decreases a@.len() - i,
    {
        if a[i] != b[i] {
            proof {
                assert(a@[i as int] != b@[i as int]);
            }
            return false;
        }
        i += 1;
    }
    proof {
        assert(a@ =~= b@);
    }
    true
}

// ---------------------------------------------------------------------------
// Decimal parsing
// ---------------------------------------------------------------------------

/// Whether `b` is an ASCII decimal digit.
pub open spec fn is_digit(b: u8) -> bool {
    48 <= b && b <= 57
}

/// Whether every byte of `s` is an ASCII decimal digit.
pub open spec fn all_digits(s: Seq<u8>) -> bool {
    forall|i: int| 0 <= i < s.len() ==> is_digit(s[i])
}

/// The number the digit string `s` denotes.
pub open spec fn dec_val(s: Seq<u8>) -> nat
    decreases s.len(),
{
    if s.len() == 0 {
        0
    } else {
        dec_val(s.drop_last()) * 10 + (if is_digit(s.last()) {
            (s.last() - 48) as nat
        } else {
            0
        })
    }
}

/// What a `content-length` value must be: a nonempty digit string whose
/// value fits the machine's sizes.
pub open spec fn spec_parse_len(s: Seq<u8>) -> Option<nat> {
    if s.len() > 0 && all_digits(s) && dec_val(s) <= usize::MAX as nat {
        Some(dec_val(s))
    } else {
        None
    }
}

/// The denoted number only grows with more digits.
proof fn lemma_dec_val_prefix(s: Seq<u8>, i: int)
    requires
        0 <= i <= s.len(),
    ensures
        dec_val(s) >= dec_val(s.take(i)),
    decreases s.len(),
{
    if i < s.len() {
        assert(s.drop_last().take(i) =~= s.take(i));
        lemma_dec_val_prefix(s.drop_last(), i);
    } else {
        assert(s.take(i) =~= s);
    }
}

/// Parses a `content-length` value.
fn parse_len(v: &Vec<u8>) -> (r: Option<usize>)
    ensures
        match r {
            Some(n) => spec_parse_len(v@) == Some(n as nat),
            None => spec_parse_len(v@) is None,
        },
{
    if v.len() == 0 {
        return None;
    }
    let mut acc: usize = 0;
    let mut i: usize = 0;
    while i < v.len()
        invariant
            i <= v@.len(),
            all_digits(v@.take(i as int)),
            acc as nat == dec_val(v@.take(i as int)),
        decreases v@.len() - i,
    {
        let b = v[i];
        if !(48 <= b && b <= 57) {
            proof {
                assert(!is_digit(v@[i as int]));
            }
            return None;
        }
        let d = (b - 48) as usize;
        let next = match acc.checked_mul(10) {
            Some(x) => match x.checked_add(d) {
                Some(y) => y,
                None => {
                    proof {
                        assert(v@.take(i as int + 1).drop_last() =~= v@.take(i as int));
                        assert(dec_val(v@.take(i as int + 1)) > usize::MAX as nat);
                        lemma_dec_val_prefix(v@, i as int + 1);
                    }
                    return None;
                },
            },
            None => {
                proof {
                    assert(v@.take(i as int + 1).drop_last() =~= v@.take(i as int));
                    assert(dec_val(v@.take(i as int + 1)) >= acc as nat * 10) by {
                        assert(acc as nat * 10 > usize::MAX as nat);
                    };
                    lemma_dec_val_prefix(v@, i as int + 1);
                }
                return None;
            },
        };
        proof {
            assert(v@.take(i as int + 1).drop_last() =~= v@.take(i as int));
            assert(all_digits(v@.take(i as int + 1)));
        }
        acc = next;
        i += 1;
    }
    proof {
        assert(v@.take(v@.len() as int) =~= v@);
    }
    Some(acc)
}

// ---------------------------------------------------------------------------
// Header block decoding
// ---------------------------------------------------------------------------

/// The header key whose value carries the body length.
pub open spec fn clen_key() -> Seq<u8> {
    vstd::utf8::encode_utf8("content-length"@)
}

/// One header line split on its first colon: trimmed, ASCII-lowercased key
/// and trimmed value.  `None` when the line holds no colon.
pub open spec fn spec_header_line(line: Seq<u8>) -> Option<(Seq<u8>, Seq<u8>)> {
    match find_byte(line, 0, 58) {
        Some(i) => Some(
            (
                lower_bytes(spec_trim(line.subrange(0, i))),
                spec_trim(line.subrange(i + 1, line.len() as int)),
            ),
        ),
        None => None,
    }
}

/// Whether every byte of `s` is whitespace (a blank header line).
pub open spec fn all_ws(s: Seq<u8>) -> bool {
    forall|i: int| 0 <= i < s.len() ==> is_ws(s[i])
}

/// The value of the last header with the given key, if any; a later
/// repetition of a header overrides an earlier one.
pub open spec fn spec_lookup(headers: Seq<(Seq<u8>, Seq<u8>)>, key: Seq<u8>) -> Option<Seq<u8>>
    decreases headers.len(),
{
    if headers.len() == 0 {
        None
    } else if headers.last().0 == key {
        Some(headers.last().1)
    } else {
        spec_lookup(headers.drop_last(), key)
    }
}

/// Every way reading one frame off the front of a buffer can go.
pub enum SpecDecoded {
    /// The buffer does not hold a complete frame yet.
    Incomplete,
    /// A non-blank header line without a colon.
    Malformed,
    /// The blank line came, but no `content-length` header did.
    NoLength,
    /// The `content-length` value is not a number of the machine's size.
    BadLength,
    /// One whole frame: its headers, its body, and how many bytes of the
    /// buffer it occupied.
    Frame { headers: Seq<(Seq<u8>, Seq<u8>)>, body: Seq<u8>, used: int },
}

/// Reads one frame starting at `pos`, with `headers` already read:
/// header lines (`key: value`, terminated by a line feed) up to a blank
/// line, then exactly `content-length` bytes of body.  Bytes before `pos`
/// are already consumed; no backtracking ever happens.
pub open spec fn spec_decode_at(buf: Seq<u8>, pos: int, headers: Seq<(Seq<u8>, Seq<u8>)>) -> SpecDecoded
    decreases buf.len() - pos,
    when 0 <= pos <= buf.len()
    via spec_decode_at_decreases
{
    match find_byte(buf, pos, 10) {
        None => SpecDecoded::Incomplete,
        Some(nl) => {
            let line = buf.subrange(pos, nl + 1);
            if all_ws(line) {
                match spec_lookup(headers, clen_key()) {
                    None => SpecDecoded::NoLength,
                    Some(v) => match spec_parse_len(v) {
                        None => SpecDecoded::BadLength,
                        Some(n) => if buf.len() >= nl + 1 + n {
                            SpecDecoded::Frame {
                                headers,
                                body: buf.subrange(nl + 1, nl + 1 + n),
                                used: nl + 1 + n,
                            }
                        } else {
                            SpecDecoded::Incomplete
                        },
                    },
                }
            } else {
                match spec_header_line(line) {
                    None => SpecDecoded::Malformed,
                    Some(kv) => spec_decode_at(buf, nl + 1, headers.push(kv)),
                }
            }
        },
    }
}

#[via_fn]
proof fn spec_decode_at_decreases(buf: Seq<u8>, pos: int, headers: Seq<(Seq<u8>, Seq<u8>)>) {
    lemma_find_byte(buf, pos, 10);
}

/// Reads one frame off the front of a whole buffer.
pub open spec fn spec_decode(buf: Seq<u8>) -> SpecDecoded {
    spec_decode_at(buf, 0, Seq::empty())
}

/// One decoded frame, or the word that the buffer holds none yet.
pub enum Decoded {
    /// More bytes are needed before a frame is complete.
    Incomplete,
    /// One whole frame and the number of buffer bytes it consumed.
    Frame { headers: Vec<(Vec<u8>, Vec<u8>)>, body: Vec<u8>, used: usize },
}

/// The mathematical reading of an executable header list.
pub open spec fn headers_view(h: Seq<(Vec<u8>, Vec<u8>)>) -> Seq<(Seq<u8>, Seq<u8>)> {
    h.map_values(|p: (Vec<u8>, Vec<u8>)| (p.0@, p.1@))
}

/// Decodes one frame from the front of `buf`, following
/// [`spec_decode`] exactly: either a complete frame, a "not yet", or the
/// framing error that poisons the stream.
pub fn decode_frame(buf: &Vec<u8>) -> (r: Result<Decoded, Error>)
    ensures
        (match spec_decode(buf@) {
            SpecDecoded::Incomplete => r matches Ok(Decoded::Incomplete),
            SpecDecoded::Malformed => r matches Err(Error::MalformedHeader),
            SpecDecoded::NoLength => r matches Err(Error::MissingContentLength),
            SpecDecoded::BadLength => r matches Err(Error::DecodeError),
            SpecDecoded::Frame { headers, body, used } => (r matches Ok(
                Decoded::Frame { headers: h, body: b, used: u },
            ) && headers_view(h@) == headers && b@ == body && u == used),
        }),
{
    let mut pos: usize = 0;
    let mut headers: Vec<(Vec<u8>, Vec<u8>)> = Vec::new();
    proof {
        assert(headers_view(headers@) =~= Seq::<(Seq<u8>, Seq<u8>)>::empty());
    }
    loop
        invariant
            pos <= buf@.len(),
            spec_decode(buf@) == spec_decode_at(buf@, pos as int, headers_view(headers@)),
        decreases buf@.len() - pos,
    {
        let nl_opt = find_byte_range(buf, pos, buf.len(), 10);
        let nl = match nl_opt {
            None => {
                proof {
                    lemma_find_byte(buf@, pos as int, 10);
                    if find_byte(buf@, pos as int, 10) is Some {
                        assert(false);
                    }
                }
                return Ok(Decoded::Incomplete);
            },
            Some(nl) => nl,
        };
        proof {
            lemma_find_byte_at(buf@, pos as int, 10, nl as int);
        }
        let ghost line = buf@.subrange(pos as int, nl + 1);
        // is the line blank?
        let mut blank = true;
        let mut k: usize = pos;
        while k < nl + 1
            invariant
                pos <= k <= nl + 1 <= buf@.len(),
                buf@.len() <= usize::MAX,
                blank == (forall|j: int| pos <= j < k ==> is_ws(buf@[j])),
            decreases nl + 1 - k,
        {
            if !is_ws_exec(buf[k]) {
                blank = false;
                k = nl + 1;
            } else {
                k += 1;
            }
        }
        proof {
            assert(blank == all_ws(line)) by {
                if blank {
                    assert(forall|i: int| 0 <= i < line.len() ==> is_ws(line[i]));
                } else {
                    let j = choose|j: int| pos <= j < nl + 1 && !is_ws(buf@[j]);
                    assert(!is_ws(line[j - pos]));
                }
            };
        }
        if blank {
            // end of headers: find the body length
            let value = match lookup_header(&headers) {
                None => {
                    return Err(Error::MissingContentLength);
                },
                Some(v) => v,
            };
            let n = match parse_len(&value) {
                None => {
                    return Err(Error::DecodeError);
                },
                Some(n) => n,
            };
            if n > buf.len() - (nl + 1) {
                return Ok(Decoded::Incomplete);
            }
            let body = vec_range(buf, nl + 1, nl + 1 + n);
            return Ok(Decoded::Frame { headers, body, used: nl + 1 + n });
        }
        // a header line: split it on the first colon
        let colon = match find_byte_range(buf, pos, nl + 1, 58) {
            None => {
                proof {
                    lemma_find_byte(line, 0, 58);
                    if find_byte(line, 0, 58) is Some {
                        let ci = find_byte(line, 0, 58).unwrap();
                        assert(buf@[pos + ci] == 58);
                        assert(false);
                    }
                }
                return Err(Error::MalformedHeader);
            },
            Some(c) => c,
        };
        proof {
            assert(line[colon - pos] == 58);
            assert(forall|j: int| 0 <= j < colon - pos ==> line[j] != 58);
            lemma_find_byte_at(line, 0, 58, colon - pos);
        }
        let rawkey = trim_range(buf, pos, colon);
        let key = lower_vec(&rawkey);
        let val = trim_range(buf, colon + 1, nl + 1);
        proof {
            assert(buf@.subrange(pos as int, colon as int) =~= line.subrange(0, colon - pos));
            assert(buf@.subrange(colon + 1, nl + 1) =~= line.subrange(
                colon - pos + 1,
                line.len() as int,
            ));
        }
        let ghost old_headers = headers_view(headers@);
        headers.push((key, val));
        proof {
            assert(headers_view(headers@) =~= old_headers.push((key@, val@)));
            assert(spec_header_line(line) == Some((key@, val@)));
        }
        pos = nl + 1;
    }
}

/// The value of the last `content-length` header, if any.
fn lookup_header(headers: &Vec<(Vec<u8>, Vec<u8>)>) -> (r: Option<Vec<u8>>)
    ensures
        match r {
            Some(v) => spec_lookup(headers_view(headers@), clen_key()) == Some(v@),
            None => spec_lookup(headers_view(headers@), clen_key()) is None,
        },
{
    let mut i: usize = headers.len();
    proof {
        assert(headers_view(headers@).take(i as int) =~= headers_view(headers@));
    }
    while i > 0
        invariant
            i <= headers@.len(),
            spec_lookup(headers_view(headers@), clen_key()) == spec_lookup(
                headers_view(headers@).take(i as int),
                clen_key(),
            ),
        decreases i,
    {
        i -= 1;
        let pair: &(Vec<u8>, Vec<u8>) = &headers[i];
        proof {
            assert(*pair == headers@[i as int]);
        }
        let key: &str = "content-length";
        let hit = bytes_eq(pair.0.as_slice(), key.as_bytes());
        proof {
            assert(pair.0@ == headers@[i as int].0@);
            assert(key@ == "content-length"@);
            assert(key.spec_bytes() == clen_key());
            let hv = headers_view(headers@);
            assert(hv.take(i + 1).drop_last() =~= hv.take(i as int));
            assert(hv[i as int] == (headers@[i as int].0@, headers@[i as int].1@));
            assert(hv.take(i + 1).last() == hv[i as int]);
            assert(hit == (headers@[i as int].0@ == clen_key()));
            if hit {
                assert(spec_lookup(hv.take(i + 1), clen_key()) == Some(hv[i as int].1));
            } else {
                assert(spec_lookup(hv.take(i + 1), clen_key()) == spec_lookup(
                    hv.take(i as int),
                    clen_key(),
                ));
            }
        }
        if hit {
            let v = vec_range(&pair.1, 0, pair.1.len());
            proof {
                assert(v@ =~= headers@[i as int].1@);
            }
            return Some(v);
        }
    }
    proof {
        assert(headers_view(headers@).take(0) =~= Seq::<(Seq<u8>, Seq<u8>)>::empty());
    }
    None
}

// ---------------------------------------------------------------------------
// Framing round trip
// ---------------------------------------------------------------------------

/// The value of an ASCII hex digit.
pub open spec fn hex_val(b: u8) -> int {
    if 48 <= b && b <= 57 {
        b - 48
    } else {
        b - 87
    }
}

/// A hex digit is never a quote, a backslash or a line feed, and reads
/// back as its value.
proof fn lemma_hex_digit(d: int)
    requires
        0 <= d < 16,
    ensures
        hex_digit(d) != 34 && hex_digit(d) != 92 && hex_digit(d) != 10,
        hex_val(hex_digit(d)) == d,
{
}

/// The first index at or after `i` holding a byte that is no decimal
/// digit (or the end).
pub open spec fn digits_end(s: Seq<u8>, i: int) -> int
    decreases s.len() - i,
{
    if i < 0 || i >= s.len() {
        i
    } else if is_digit(s[i]) {
        digits_end(s, i + 1)
    } else {
        i
    }
}

/// A digit run followed by a non-digit (or the end) is what `digits_end`
/// measures.
proof fn lemma_digits_end_at(s: Seq<u8>, i: int, e: int)
    requires
        0 <= i <= e <= s.len(),
        forall|j: int| i <= j < e ==> is_digit(s[j]),
        e < s.len() ==> !is_digit(s[e]),
    ensures
        digits_end(s, i) == e,
    decreases e - i,
{
    if i < e {
        lemma_digits_end_at(s, i + 1, e);
    }
}

/// The decimal digits of a number are digits, at least one, and read
/// back as the number.
pub proof fn lemma_dec_bytes(n: nat)
    ensures
        dec_bytes(n).len() >= 1,
        all_digits(dec_bytes(n)),
        dec_val(dec_bytes(n)) == n,
    decreases n,
{
    if n < 10 {
        assert(dec_bytes(n).drop_last() =~= Seq::<u8>::empty());
        assert(dec_val(Seq::<u8>::empty()) == 0);
    } else {
        lemma_dec_bytes(n / 10);
        assert(dec_bytes(n).drop_last() =~= dec_bytes(n / 10));
        assert(all_digits(dec_bytes(n))) by {
            assert(forall|j: int|
                0 <= j < dec_bytes(n).len() - 1 ==> dec_bytes(n)[j] == dec_bytes(n / 10)[j]);
        }
    }
}

/// Scans for the closing quote of a JSON string: a backslash shields the
/// byte behind it.
pub open spec fn scan_str_end(s: Seq<u8>, i: int) -> Option<int>
    decreases s.len() - i,
{
    if i < 0 || i >= s.len() {
        None
    } else if s[i] == 34 {
        Some(i)
    } else if s[i] == 92 {
        if i + 2 <= s.len() {
            scan_str_end(s, i + 2)
        } else {
            None
        }
    } else {
        scan_str_end(s, i + 1)
    }
}

/// Scanning behind a fixed prefix is scanning the rest.
proof fn lemma_scan_shift(a: Seq<u8>, b: Seq<u8>, i: int)
    requires
        0 <= i,
    ensures
        scan_str_end(a + b, a.len() + i) == (match scan_str_end(b, i) {
            Some(j) => Some(a.len() + j),
            None => None::<int>,
        }),
    decreases b.len() - i,
{
    let s = a + b;
    if i >= b.len() {
    } else {
        assert(s[a.len() + i] == b[i]);
        if b[i] == 34 {
        } else if b[i] == 92 {
            if i + 2 <= b.len() {
                lemma_scan_shift(a, b, i + 2);
            }
        } else {
            lemma_scan_shift(a, b, i + 1);
        }
    }
}

/// In an escaped string every quote is shielded, so the scan runs to the
/// first quote behind it.
proof fn lemma_escape_scan(m: Seq<u8>, tail: Seq<u8>)
    requires
        tail.len() > 0,
        tail[0] == 34,
    ensures
        scan_str_end(escape_bytes(m) + tail, 0) == Some(escape_bytes(m).len() as int),
    decreases m.len(),
{
    let e = escape_bytes(m);
    let s = e + tail;
    if m.len() == 0 {
        assert(e =~= Seq::<u8>::empty());
        assert(s =~= tail);
        assert(s[0] == 34);
    } else {
        let b = m[0];
        let eb = escape_byte(b);
        let e1 = escape_bytes(m.drop_first());
        lemma_escape_scan(m.drop_first(), tail);
        let s2 = e1 + tail;
        assert(s =~= eb + s2);
        lemma_scan_shift(eb, s2, 0);
        if b == 34 || b == 92 || b == 10 || b == 13 || b == 9 {
            assert(s[0] == 92);
            assert(scan_str_end(s, 0) == scan_str_end(s, 2));
        } else if b < 32 {
            assert(s[0] == 92);
            assert(s[1] == 117);
            assert(s[2] == 48);
            assert(s[3] == 48);
            assert(s[4] == hex_digit(b as int / 16));
            assert(s[5] == hex_digit(b as int % 16));
            lemma_hex_digit(b as int / 16);
            lemma_hex_digit(b as int % 16);
            assert(scan_str_end(s, 0) == scan_str_end(s, 2));
            assert(scan_str_end(s, 2) == scan_str_end(s, 3));
            assert(scan_str_end(s, 3) == scan_str_end(s, 4));
            assert(scan_str_end(s, 4) == scan_str_end(s, 5));
            assert(scan_str_end(s, 5) == scan_str_end(s, 6));
        } else {
            assert(s[0] == b && b != 34 && b != 92);
            assert(scan_str_end(s, 0) == scan_str_end(s, 1));
        }
    }
}

/// Reads an escaped string back: the inverse of [`escape_bytes`] on its
/// own output.
pub open spec fn unescape(s: Seq<u8>) -> Seq<u8>
    decreases s.len(),
{
    if s.len() == 0 {
        Seq::empty()
    } else if s[0] == 92 {
        if s.len() >= 2 && s[1] == 117 {
            if s.len() >= 6 {
                seq![(hex_val(s[4]) * 16 + hex_val(s[5])) as u8] + unescape(s.skip(6))
            } else {
                Seq::empty()
            }
        } else if s.len() >= 2 {
            seq![
                (if s[1] == 110 {
                    10u8
                } else if s[1] == 114 {
                    13u8
                } else if s[1] == 116 {
                    9u8
                } else {
                    s[1]
                }),
            ] + unescape(s.skip(2))
        } else {
            Seq::empty()
        }
    } else {
        seq![s[0]] + unescape(s.skip(1))
    }
}

/// Escaping then unescaping gives the string back.
pub proof fn lemma_unescape_escape(m: Seq<u8>)
    ensures
        unescape(escape_bytes(m)) == m,
    decreases m.len(),
{
    let e = escape_bytes(m);
    if m.len() == 0 {
        assert(e =~= Seq::<u8>::empty());
    } else {
        let b = m[0];
        let eb = escape_byte(b);
        let e1 = escape_bytes(m.drop_first());
        lemma_unescape_escape(m.drop_first());
        if b == 34 || b == 92 {
            assert(e[0] == 92 && e[1] == b && e[1] != 117);
            assert(e.skip(2) =~= e1);
            assert(unescape(e) =~= seq![b] + unescape(e1));
        } else if b == 10 || b == 13 || b == 9 {
            assert(e[0] == 92 && e[1] != 117);
            assert(e.skip(2) =~= e1);
            assert(unescape(e) =~= seq![b] + unescape(e1));
        } else if b < 32 {
            assert(e[0] == 92 && e[1] == 117 && e.len() >= 6);
            assert(e[4] == hex_digit(b as int / 16));
            assert(e[5] == hex_digit(b as int % 16));
            lemma_hex_digit(b as int / 16);
            lemma_hex_digit(b as int % 16);
            assert(hex_val(e[4]) * 16 + hex_val(e[5]) == b as int);
            assert(e.skip(6) =~= e1);
            assert(unescape(e) =~= seq![b] + unescape(e1));
        } else {
            assert(e[0] == b && b != 92);
            assert(e.skip(1) =~= e1);
            assert(unescape(e) =~= seq![b] + unescape(e1));
        }
        assert(seq![b] + m.drop_first() =~= m);
    }
}

/// The opening of a request body, up to the id.
pub open spec fn lit_open() -> Seq<u8> {
    vstd::utf8::encode_utf8("{\"jsonrpc\":\"2.0\",\"id\":"@)
}

/// Between the id and the method string.
pub open spec fn lit_method() -> Seq<u8> {
    vstd::utf8::encode_utf8(",\"method\":\""@)
}

/// Between the method string and the raw params.
pub open spec fn lit_params() -> Seq<u8> {
    vstd::utf8::encode_utf8("\",\"params\":"@)
}

/// The concrete bytes of the body delimiters.
proof fn lemma_lit_bytes()
    ensures
        lit_open() =~= seq![
            123u8, 34, 106, 115, 111, 110, 114, 112, 99, 34, 58, 34, 50, 46, 48, 34, 44, 34,
            105, 100, 34, 58,
        ],
        lit_method() =~= seq![44u8, 34, 109, 101, 116, 104, 111, 100, 34, 58, 34],
        lit_params() =~= seq![34u8, 44, 34, 112, 97, 114, 97, 109, 115, 34, 58],
        vstd::utf8::encode_utf8("}"@) =~= seq![125u8],
{
    reveal_strlit("{\"jsonrpc\":\"2.0\",\"id\":");
    reveal_strlit(",\"method\":\"");
    reveal_strlit("\",\"params\":");
    reveal_strlit("}");
    assert(vstd::utf8::is_ascii_chars("}"@));
    vstd::utf8::is_ascii_chars_encode_utf8("}"@);
    assert(vstd::utf8::is_ascii_chars("{\"jsonrpc\":\"2.0\",\"id\":"@));
    assert(vstd::utf8::is_ascii_chars(",\"method\":\""@));
    assert(vstd::utf8::is_ascii_chars("\",\"params\":"@));
    vstd::utf8::is_ascii_chars_encode_utf8("{\"jsonrpc\":\"2.0\",\"id\":"@);
    vstd::utf8::is_ascii_chars_encode_utf8(",\"method\":\""@);
    vstd::utf8::is_ascii_chars_encode_utf8("\",\"params\":"@);
}

/// What reading a request body back yields: the id as a number, the
/// method unescaped, and the raw params text.
pub open spec fn spec_parse_envelope(body: Seq<u8>) -> Option<(nat, Seq<u8>, Seq<u8>)> {
    let a = lit_open().len() as int;
    if body.len() > a && body.subrange(0, a) == lit_open() {
        let de = digits_end(body, a);
        if de > a && all_digits(body.subrange(a, de)) {
            let id = dec_val(body.subrange(a, de));
            let bl = lit_method().len() as int;
            if de + bl <= body.len() && body.subrange(de, de + bl) == lit_method() {
                match scan_str_end(body, de + bl) {
                    Some(q) => {
                        let m = unescape(body.subrange(de + bl, q));
                        let cl = lit_params().len() as int;
                        if q + cl < body.len() && body.subrange(q, q + cl) == lit_params()
                            && body.last() == 125 {
                            Some((id, m, body.subrange(q + cl, body.len() - 1)))
                        } else {
                            None
                        }
                    },
                    None => None,
                }
            } else {
                None
            }
        } else {
            None
        }
    } else {
        None
    }
}

/// Framing round trip, body half: reading an encoded body back yields
/// the id, the method and the params that built it.
pub proof fn lemma_envelope_round_trip(id: u32, method: Seq<u8>, params: Seq<u8>)
    ensures
        spec_parse_envelope(spec_body(id, method, params)) == Some(
            (id as nat, method, params),
        ),
{
    lemma_lit_bytes();
    lemma_dec_bytes(id as nat);
    let body = spec_body(id, method, params);
    let a = lit_open().len() as int;
    let d = dec_bytes(id as nat);
    let e = escape_bytes(method);
    let de = a + d.len() as int;
    let bl = lit_method().len() as int;
    let q = de + bl + e.len() as int;
    let cl = lit_params().len() as int;
    assert(body.len() == a + d.len() + bl + e.len() + cl + params.len() + 1);
    assert(body.subrange(0, a) =~= lit_open());
    assert(body.subrange(a, de) =~= d);
    assert(body[de] == lit_method()[0]);
    assert(!is_digit(body[de]));
    lemma_digits_end_at(body, a, de);
    assert(body.subrange(de, de + bl) =~= lit_method());
    let prefix = lit_open() + d + lit_method();
    let tail = lit_params() + params + seq![125u8];
    assert(tail[0] == 34);
    lemma_escape_scan(method, tail);
    lemma_scan_shift(prefix, e + tail, 0);
    assert(body =~= prefix + (e + tail));
    assert(prefix.len() == de + bl);
    assert(scan_str_end(body, de + bl) == Some(q));
    assert(body.subrange(de + bl, q) =~= e);
    lemma_unescape_escape(method);
    assert(body.subrange(q, q + cl) =~= lit_params());
    assert(body.last() == 125);
    assert(body.subrange(q + cl, body.len() - 1) =~= params);
}

/// The concrete bytes of the length header and its lowercased key.
proof fn lemma_clen_bytes()
    ensures
        vstd::utf8::encode_utf8("Content-Length: "@) =~= seq![
            67u8, 111, 110, 116, 101, 110, 116, 45, 76, 101, 110, 103, 116, 104, 58, 32,
        ],
        clen_key() =~= seq![99u8, 111, 110, 116, 101, 110, 116, 45, 108, 101, 110, 103, 116, 104],
{
    reveal_strlit("Content-Length: ");
    reveal_strlit("content-length");
    assert(vstd::utf8::is_ascii_chars("Content-Length: "@));
    assert(vstd::utf8::is_ascii_chars("content-length"@));
    vstd::utf8::is_ascii_chars_encode_utf8("Content-Length: "@);
    vstd::utf8::is_ascii_chars_encode_utf8("content-length"@);
}

/// Framing round trip, header half: a frame built by the encoder decodes
/// back into exactly the one `content-length` header and the body it was
/// built from, consuming the whole frame.
pub proof fn lemma_frame_decode(id: u32, method: Seq<u8>, params: Seq<u8>)
    requires
        spec_body(id, method, params).len() <= usize::MAX,
    ensures
        ({
            let frame = spec_frame(id, method, params);
            let body = spec_body(id, method, params);
            spec_decode(frame) == (SpecDecoded::Frame {
                headers: seq![(clen_key(), dec_bytes(body.len()))],
                body: body,
                used: frame.len() as int,
            })
        }),
{
    lemma_clen_bytes();
    let body = spec_body(id, method, params);
    let bl = body.len() as int;
    let h = vstd::utf8::encode_utf8("Content-Length: "@);
    let d = dec_bytes(body.len());
    let frame = spec_frame(id, method, params);
    lemma_dec_bytes(body.len());
    let dl = d.len() as int;
    let nl = 16 + dl + 1;
    assert(frame.len() == 16 + dl + 4 + bl);
    // the first line feed closes the header line
    assert(frame[nl] == 10);
    assert forall|j: int| 0 <= j < nl implies frame[j] != 10 by {
        if j < 16 {
            assert(frame[j] == h[j]);
        } else if j < 16 + dl {
            assert(frame[j] == d[j - 16]);
            assert(is_digit(d[j - 16]));
        } else {
            assert(frame[j] == 13);
        }
    }
    lemma_find_byte_at(frame, 0, 10, nl);
    let line = frame.subrange(0, nl + 1);
    assert(line[0] == 67);
    assert(!all_ws(line));
    // the colon splits the line at index 14
    assert(line[14] == 58);
    assert forall|j: int| 0 <= j < 14 implies line[j] != 58 by {
        assert(line[j] == h[j]);
    }
    lemma_find_byte_at(line, 0, 58, 14);
    // the key trims to itself and lowercases to `content-length`
    let rawkey = line.subrange(0, 14);
    assert(forall|j: int| 0 <= j < 14 ==> rawkey[j] == h[j]);
    assert(forall|j: int| 0 <= j < 14 ==> !is_ws(rawkey[j]));
    lemma_trim_front_is_skip(rawkey, 0);
    assert(trim_front(rawkey) =~= rawkey);
    lemma_trim_back_is_take(rawkey, 14);
    assert(spec_trim(rawkey) =~= rawkey);
    assert(lower_bytes(spec_trim(rawkey)) =~= clen_key());
    // the value trims to the digits
    let rawval = line.subrange(15, nl + 1);
    assert(rawval.len() == dl + 3);
    assert(rawval[0] == 32);
    assert(forall|j: int| 0 <= j < dl ==> #[trigger] rawval[1 + j] == d[j]);
    assert(forall|j: int| 0 <= j < dl ==> is_digit(#[trigger] rawval[1 + j]) && !is_ws(rawval[1 + j]));
    assert(rawval[dl + 1] == 13 && rawval[dl + 2] == 10);
    lemma_trim_front_is_skip(rawval, 1);
    let v1 = rawval.subrange(1, dl + 3);
    assert(trim_front(rawval) =~= v1);
    assert(forall|j: int| dl <= j < v1.len() ==> is_ws(v1[j]));
    assert(!is_ws(v1[dl - 1]));
    lemma_trim_back_is_take(v1, dl);
    assert(spec_trim(rawval) =~= d);
    assert(spec_header_line(line) == Some((clen_key(), spec_trim(rawval))));
    // the blank line
    let hs = Seq::<(Seq<u8>, Seq<u8>)>::empty().push((clen_key(), d));
    assert(spec_decode_at(frame, 0, Seq::empty()) == spec_decode_at(frame, nl + 1, hs));
    assert(frame[nl + 1] == 13 && frame[nl + 2] == 10);
    lemma_find_byte_at(frame, nl + 1, 10, nl + 2);
    let line2 = frame.subrange(nl + 1, nl + 3);
    assert(line2.len() == 2 && line2[0] == 13 && line2[1] == 10);
    assert(all_ws(line2));
    // the header lookup and the length
    assert(hs.last() == (clen_key(), d));
    assert(spec_lookup(hs, clen_key()) == Some(d));
    assert(spec_parse_len(d) == Some(body.len()));
    assert(frame.len() >= nl + 3 + bl);
    assert(frame.subrange(nl + 3, nl + 3 + bl) =~= body);
    assert(spec_decode_at(frame, nl + 1, hs) == (SpecDecoded::Frame {
        headers: hs,
        body: frame.subrange(nl + 3, nl + 3 + bl),
        used: nl + 3 + bl,
    }));
    assert(hs =~= seq![(clen_key(), d)]);
}

/// Framing round trip: encoding a request and decoding the byte stream
/// back yields one frame with the exact `content-length` header and the
/// original body, and reading that body yields the original assigned id,
/// method and params.
pub proof fn lemma_frame_round_trip(id: u32, method: Seq<u8>, params: Seq<u8>)
    requires
        spec_body(id, method, params).len() <= usize::MAX,
    ensures
        ({
            let frame = spec_frame(id, method, params);
            let body = spec_body(id, method, params);
            &&& spec_decode(frame) == (SpecDecoded::Frame {
                headers: seq![(clen_key(), dec_bytes(body.len()))],
                body: body,
                used: frame.len() as int,
            })
            &&& spec_parse_envelope(body) == Some((id as nat, method, params))
        }),
{
    lemma_frame_decode(id, method, params);
    lemma_envelope_round_trip(id, method, params);
}

} // verus!
