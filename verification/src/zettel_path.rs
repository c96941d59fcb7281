//! Paths for zettels, and an id builder for path-flavoured names.
//!
//! Paths are plain strings with `/` separators, mirroring how the
//! platform's path buffer joins segments: an absolute segment replaces the
//! path, anything else is appended behind a separator.  On top of the
//! helpers sits a builder for hyphen-joined ids used in file names.

use vstd::prelude::*;
use vstd::string::{StrSliceExecFns, StringExecFns};

use crate::date::Date;
use crate::error::Error;

verus! {

// ---------------------------------------------------------------------------
// Path joining
// ---------------------------------------------------------------------------

/// How a segment lands on a path: an absolute segment replaces it, a
/// relative one is appended, behind a `/` unless one is already there.
pub open spec fn spec_path_join(base: Seq<char>, seg: Seq<char>) -> Seq<char> {
    if seg.len() > 0 && seg[0] == '/' {
        seg
    } else if base.len() == 0 {
        seg
    } else if base.last() == '/' {
        base + seg
    } else {
        base + seq!['/'] + seg
    }
}

/// Appends one segment to a path, as [`spec_path_join`] says.
pub fn path_push(p: &mut String, seg: &str)
    ensures
        final(p)@ == spec_path_join(old(p)@, seg@),
{
    if !seg.is_empty() && seg.get_char(0) == '/' {
        *p = String::from_str(seg);
        return ;
    }
    if p.as_str().is_empty() {
        p.append(seg);
        return ;
    }
    let n = p.as_str().unicode_len();
    let last = p.as_str().get_char(n - 1);
    if last == '/' {
        p.append(seg);
    } else {
        p.append("/");
        p.append(seg);
        proof {
            reveal_strlit("/");
            assert(p@ =~= spec_path_join(old(p)@, seg@));
        }
    }
}

/// Appends `year/month/day` directories, each zero padded to two digits.
pub fn push_year_month_day(p: &mut String, date: &Date)
    ensures
        final(p)@ == spec_path_join(
            spec_path_join(
                spec_path_join(old(p)@, crate::date::pad2_chars(date.spec_year() as nat)),
                crate::date::pad2_chars(date.spec_month() as nat),
            ),
            crate::date::pad2_chars(date.spec_day() as nat),
        ),
{
    push_year_month(p, date);
    let mut d = String::new();
    crate::date::push_pad2(&mut d, date.day());
    path_push(p, d.as_str());
}

/// Appends `year/month` directories, each zero padded to two digits.
pub fn push_year_month(p: &mut String, date: &Date)
    ensures
        final(p)@ == spec_path_join(
            spec_path_join(old(p)@, crate::date::pad2_chars(date.spec_year() as nat)),
            crate::date::pad2_chars(date.spec_month() as nat),
        ),
{
    let mut y = String::new();
    crate::date::push_pad2(&mut y, date.year());
    path_push(p, y.as_str());
    let mut m = String::new();
    crate::date::push_pad2(&mut m, date.month());
    path_push(p, m.as_str());
}

/// Appends `id` with the `.md` ending as the file name.
pub fn push_id(p: &mut String, id: &str)
    ensures
        final(p)@ == spec_path_join(old(p)@, id@ + ".md"@),
{
    let seg = String::from_str(id).concat(".md");
    path_push(p, seg.as_str());
}

// ---------------------------------------------------------------------------
// Prefix stripping
// ---------------------------------------------------------------------------

/// The rest of `path` behind the directory `parent`: the empty rest when
/// they are equal, the part behind the separator when `parent` is a
/// leading directory, nothing otherwise.  An empty `parent` strips
/// nothing.
pub open spec fn spec_strip_prefix(path: Seq<char>, parent: Seq<char>) -> Option<Seq<char>> {
    if parent.len() == 0 {
        Some(path)
    } else if path == parent {
        Some(Seq::empty())
    } else if path.len() > parent.len() && path.subrange(0, parent.len() as int) == parent {
        if parent.last() == '/' {
            Some(path.subrange(parent.len() as int, path.len() as int))
        } else if path[parent.len() as int] == '/' {
            Some(path.subrange(parent.len() as int + 1, path.len() as int))
        } else {
            None
        }
    } else {
        None
    }
}

/// The rest of `path` behind the directory `parent`, as
/// [`spec_strip_prefix`] says.
pub fn strip_prefix_str(path: &str, parent: &str) -> (r: Option<String>)
    ensures
        (match r {
            Some(s) => spec_strip_prefix(path@, parent@) == Some(s@),
            None => spec_strip_prefix(path@, parent@) is None,
        }),
{
    let np = path.unicode_len();
    let nq = parent.unicode_len();
    if nq == 0 {
        return Some(String::from_str(path));
    }
    if np < nq {
        return None;
    }
    let mut i: usize = 0;
    while i < nq
        invariant
            i <= nq,
            nq <= np,
            np == path@.len(),
            nq == parent@.len(),
            forall|j: int| 0 <= j < i ==> path@[j] == parent@[j],
        decreases nq - i,
    {
        if path.get_char(i) != parent.get_char(i) {
            proof {
                assert(path@[i as int] != parent@[i as int]);
                if path@ == parent@ {
                    assert(false);
                }
                if np > nq && path@.subrange(0, nq as int) == parent@ {
                    assert(path@.subrange(0, nq as int)[i as int] == path@[i as int]);
                    assert(false);
                }
            }
            return None;
        }
        i += 1;
    }
    if np == nq {
        proof {
            assert(path@ =~= parent@);
        }
        return Some(String::new());
    }
    proof {
        assert(path@.subrange(0, nq as int) =~= parent@);
        assert(path@ != parent@) by {
            assert(path@.len() != parent@.len());
        }
    }
    let plast = parent.get_char(nq - 1);
    if plast == '/' {
        return Some(String::from_str(path.substring_char(nq, np)));
    }
    if path.get_char(nq) == '/' {
        return Some(String::from_str(path.substring_char(nq + 1, np)));
    }
    None
}

// ---------------------------------------------------------------------------
// Path-flavoured id builder
// ---------------------------------------------------------------------------

/// Builds a hyphen-joined id for a file name, in the order
/// `prefixes-date-title-hash`: the title in snake case, the date written
/// `YYYY-MM-DD`, and the first eight characters of a hash when one was
/// taken.
pub struct ZettelIDBuilder {
    title: Option<String>,
    prefixes: Vec<String>,
    date: Option<String>,
    hash: Option<String>,
}

impl ZettelIDBuilder {
    /// The snake-cased title, if one was given.
    pub closed spec fn title_val(&self) -> Option<Seq<char>> {
        match self.title {
            Some(ref t) => Some(t@),
            None => None,
        }
    }

    /// The prefixes, in the order they were added.
    pub closed spec fn prefixes_val(&self) -> Seq<Seq<char>> {
        self.prefixes.deep_view()
    }

    /// The rendered date, if one was set.
    pub closed spec fn date_val(&self) -> Option<Seq<char>> {
        match self.date {
            Some(ref d) => Some(d@),
            None => None,
        }
    }

    /// The hash, if one was taken.
    pub closed spec fn hash_val(&self) -> Option<Seq<char>> {
        match self.hash {
            Some(ref h) => Some(h@),
            None => None,
        }
    }

    /// A hash, once taken, is a full hex digest.
    pub open spec fn wf(&self) -> bool {
        match self.hash_val() {
            Some(h) => h.len() == 40,
            None => true,
        }
    }

    /// A fresh builder, the title (if any) turned to snake case.
    pub fn new(title: Option<&str>) -> (r: ZettelIDBuilder)
        ensures
            r.wf(),
            (match title {
                Some(t) => r.title_val() == Some(crate::zettel::snake_of(t@)),
                None => r.title_val() is None,
            }),
            r.prefixes_val() == Seq::<Seq<char>>::empty(),
            r.date_val() is None,
            r.hash_val() is None,
    {
        let t = match title {
            Some(t) => Some(crate::zettel::snake_case(t)),
            None => None,
        };
        let r = ZettelIDBuilder { title: t, prefixes: Vec::new(), date: None, hash: None };
        proof {
            assert(r.prefixes_val() =~= Seq::<Seq<char>>::empty());
        }
        r
    }

    /// Adds one prefix in front of the id.
    pub fn prefix(self, prefix: &str) -> (r: ZettelIDBuilder)
        ensures
            r.wf() == self.wf(),
            r.title_val() == self.title_val(),
            r.prefixes_val() == self.prefixes_val().push(prefix@),
            r.date_val() == self.date_val(),
            r.hash_val() == self.hash_val(),
    {
        let mut this = self;
        this.prefixes.push(String::from_str(prefix));
        proof {
            assert(this.prefixes_val() =~= self.prefixes_val().push(prefix@));
        }
        this
    }

    /// Takes a hash over `seed`, to make the id unique for that seed.
    pub fn with_hash_from(self, seed: &str) -> (r: ZettelIDBuilder)
        ensures
            r.wf(),
            r.title_val() == self.title_val(),
            r.prefixes_val() == self.prefixes_val(),
            r.date_val() == self.date_val(),
            r.hash_val() == Some(crate::zettel::sha1_hex_of(seed@)),
    {
        let mut this = self;
        this.hash = Some(crate::zettel::sha1_hex(seed));
        this
    }

    /// Takes a hash over the current time, to make the id unique.
    pub fn with_hash(self) -> (r: ZettelIDBuilder)
        ensures
            r.wf(),
            r.title_val() == self.title_val(),
            r.prefixes_val() == self.prefixes_val(),
            r.date_val() == self.date_val(),
            r.hash_val() matches Some(h) && h.len() == 40,
    {
        let now = crate::zettel::now_rfc3339();
        self.with_hash_from(now.as_str())
    }

    /// Sets the date, written `YYYY-MM-DD`.
    pub fn date(self, date: &Date) -> (r: ZettelIDBuilder)
        ensures
            r.wf() == self.wf(),
            r.title_val() == self.title_val(),
            r.prefixes_val() == self.prefixes_val(),
            r.date_val() == Some(date.spec_ymd()),
            r.hash_val() == self.hash_val(),
    {
        let mut this = self;
        this.date = Some(date.ymd());
        this
    }

    /// The underlying date text, if one was set.
    pub fn get_date(&self) -> (r: Option<&String>)
        ensures
            (match r {
                Some(d) => self.date_val() == Some(d@),
                None => self.date_val() is None,
            }),
    {
        self.date.as_ref()
    }

    /// The parts of the id, in order: prefixes, date, title, the first
    /// eight characters of the hash.
    pub open spec fn spec_parts(&self) -> Seq<Seq<char>> {
        self.prefixes_val() + (match self.date_val() {
            Some(d) => seq![d],
            None => Seq::<Seq<char>>::empty(),
        }) + (match self.title_val() {
            Some(t) => seq![t],
            None => Seq::<Seq<char>>::empty(),
        }) + (match self.hash_val() {
            Some(h) => seq![h.take(8)],
            None => Seq::<Seq<char>>::empty(),
        })
    }

    /// Builds the id: the parts joined with `-`.  An id with nothing in
    /// it is refused: it needs a title, a date, a prefix or a hash.
    pub fn to_string(self) -> (r: Result<String, Error>)
        requires
            self.wf(),
        ensures
            ({
                let joined = spec_join(self.spec_parts(), '-');
                match r {
                    Ok(s) => s@ == joined && joined.len() > 0,
                    Err(e) => joined.len() == 0 && e matches Error::InvalidZettelID(_),
                }
            }),
    {
        let mut parts: Vec<String> = Vec::new();
        let ZettelIDBuilder { title, prefixes, date, hash } = self;
        let ghost gprefixes = prefixes.deep_view();
        let mut i: usize = 0;
        let n = prefixes.len();
        let mut it = prefixes;
        while i < n
            invariant
                i <= n == it@.len(),
                it.deep_view() == gprefixes,
                parts.deep_view() == gprefixes.take(i as int),
            decreases n - i,
        {
            let p = it[i].clone();
            proof {
                assert(p@ == it.deep_view()[i as int]);
            }
            parts.push(p);
            proof {
                assert(gprefixes.take(i as int + 1).drop_last() =~= gprefixes.take(i as int));
                assert(parts.deep_view() =~~= gprefixes.take(i as int + 1));
            }
            i += 1;
        }
        proof {
            assert(gprefixes.take(n as int) =~= gprefixes);
        }
        if let Some(d) = date {
            parts.push(d);
        }
        if let Some(t) = title {
            parts.push(t);
        }
        if let Some(h) = hash {
            let short = String::from_str(h.as_str().substring_char(0, 8));
            parts.push(short);
        }
        let id = join_with(&parts, '-');
        proof {
            assert(parts.deep_view() =~~= self.spec_parts());
        }
        if id.as_str().is_empty() {
            Err(
                Error::InvalidZettelID(
                    String::from_str("zettel id empty, must have title, date or hash"),
                ),
            )
        } else {
            Ok(id)
        }
    }
}

// ---------------------------------------------------------------------------
// Joining
// ---------------------------------------------------------------------------

/// The parts joined with the separator between each two.
pub open spec fn spec_join(parts: Seq<Seq<char>>, sep: char) -> Seq<char>
    decreases parts.len(),
{
    if parts.len() == 0 {
        Seq::empty()
    } else if parts.len() == 1 {
        parts[0]
    } else {
        spec_join(parts.drop_last(), sep) + seq![sep] + parts.last()
    }
}

/// Joins the parts with `sep` between each two.
pub fn join_with(parts: &Vec<String>, sep: char) -> (r: String)
    requires
        sep == '-' || sep == '_',
    ensures
        r@ == spec_join(parts.deep_view(), sep),
{
    let mut out = String::new();
    let mut i: usize = 0;
    while i < parts.len()
        invariant
            i <= parts@.len(),
            sep == '-' || sep == '_',
            out@ == spec_join(parts.deep_view().take(i as int), sep),
        decreases parts@.len() - i,
    {
        if i > 0 {
            if sep == '-' {
                out.append("-");
                proof {
                    reveal_strlit("-");
                }
            } else {
                out.append("_");
                proof {
                    reveal_strlit("_");
                }
            }
        }
        out.append(parts[i].as_str());
        proof {
            let pv = parts.deep_view();
            assert(pv.take(i as int + 1).drop_last() =~= pv.take(i as int));
            assert(pv.take(i as int + 1).last() == pv[i as int]);
            if i > 0 {
                assert(out@ =~= spec_join(pv.take(i as int + 1), sep));
            } else {
                assert(pv.take(1).len() == 1);
                assert(out@ =~= spec_join(pv.take(1), sep));
            }
        }
        i += 1;
    }
    proof {
        assert(parts.deep_view().take(parts.deep_view().len() as int) =~= parts.deep_view());
    }
    out
}

} // verus!
