//! Zettels: notes with structured ids.
//!
//! An id is built from a title, tags, a date and a hash, joined with `_`,
//! and lands in the file system as `<id>.md`.  Reading an id back splits
//! it on `_`: the part before the first separator is the title, the run
//! behind the last separator is the hash.  The reader surfaces no part as
//! a tag, so the tag queries find nothing; they are kept for the id
//! layout's sake.

use vstd::prelude::*;
use vstd::string::{StrSliceExecFns, StringExecFns};

use convert_case::Casing;
use sha1::Digest;

use crate::date::Date;
use crate::error::Error;
use crate::zettel_path::{
    join_with, path_push, push_id, push_year_month, push_year_month_day, spec_join,
    spec_path_join, spec_strip_prefix, strip_prefix_str,
};

verus! {

// ---------------------------------------------------------------------------
// Outside helpers
// ---------------------------------------------------------------------------

/// What a title becomes as the leading id part: line breaks dropped, the
/// words train-cased and lowercased.  A fixed function of the characters.
pub uninterp spec fn title_slug_of(s: Seq<char>) -> Seq<char>;

/// Relies on `str::replace` (dropping line breaks), on
/// `convert_case::Casing::to_case` with `Case::Train`, and on
/// `str::to_lowercase`; all three compute from the characters alone.
#[verifier::external_body]
pub(crate) fn title_slug(s: &str) -> (r: String)
    ensures
        r@ == title_slug_of(s@),
{
    s.replace('\n', "").replace('\r', "").to_case(convert_case::Case::Train).to_lowercase()
}

/// What a title becomes in a path-flavoured id: its words snake-cased.  A
/// fixed function of the characters.
pub uninterp spec fn snake_of(s: Seq<char>) -> Seq<char>;

/// Relies on `convert_case::Casing::to_case` with `Case::Snake`, which
/// computes from the characters alone.
#[verifier::external_body]
pub(crate) fn snake_case(s: &str) -> (r: String)
    ensures
        r@ == snake_of(s@),
{
    s.to_case(convert_case::Case::Snake)
}

/// The SHA-1 digest of the text, written as lowercase hex.  A fixed
/// function of the text alone.
pub uninterp spec fn sha1_hex_of(s: Seq<char>) -> Seq<char>;

/// Relies on `sha1::Sha1` (through the `Digest` trait) for the 20-byte
/// digest and on `hex::encode` for its 40-character lowercase hex text;
/// both compute from the input alone.
#[verifier::external_body]
pub(crate) fn sha1_hex(s: &str) -> (r: String)
    ensures
        r@ == sha1_hex_of(s@),
        r@.len() == 40,
{
    let mut hash = sha1::Sha1::new();
    hash.update(s.as_bytes());
    hex::encode(hash.finalize())
}

/// Relies on `chrono::Utc::now` and `DateTime::to_rfc3339`: the moment of
/// the call, rendered.  Nothing is promised of it; two calls may differ.
#[verifier::external_body]
pub(crate) fn now_rfc3339() -> (r: String) {
    chrono::Utc::now().to_rfc3339()
}

/// Whether the pattern matches somewhere in the text.  A fixed function
/// of the two.
pub uninterp spec fn regex_match_of(pattern: Seq<char>, text: Seq<char>) -> bool;

/// Relies on `regex::Regex::new` and `Regex::is_match`; whether a pattern
/// compiles, and where it matches, depend on pattern and text alone.
/// `None` when the pattern does not compile.
#[verifier::external_body]
fn regex_match(pattern: &str, text: &str) -> (r: Option<bool>)
    ensures
        (match r {
            Some(b) => b == regex_match_of(pattern@, text@),
            None => true,
        }),
{
    match regex::Regex::new(pattern) {
        Ok(re) => Some(re.is_match(text)),
        Err(_) => None,
    }
}

// ---------------------------------------------------------------------------
// Character scanning
// ---------------------------------------------------------------------------

/// The first index at or after `from` where `c` occurs in `s`.
pub open spec fn find_char_at(s: Seq<char>, from: int, c: char) -> Option<int>
    decreases s.len() - from,
{
    if from < 0 || from >= s.len() {
        None
    } else if s[from] == c {
        Some(from)
    } else {
        find_char_at(s, from + 1, c)
    }
}

/// What `find_char_at` returns: the first occurrence, or a guarantee that
/// there is none.
pub proof fn lemma_find_char(s: Seq<char>, from: int, c: char)
    requires
        0 <= from,
    ensures
        (match find_char_at(s, from, c) {
            Some(i) => from <= i < s.len() && s[i] == c && (forall|j: int|
                from <= j < i ==> s[j] != c),
            None => forall|j: int| from <= j < s.len() ==> s[j] != c,
        }),
    decreases s.len() - from,
{
    if from < s.len() && s[from] != c {
        lemma_find_char(s, from + 1, c);
    }
}

/// A position that is an occurrence with none before it is what
/// `find_char_at` finds.
pub proof fn lemma_find_char_at(s: Seq<char>, from: int, c: char, i: int)
    requires
        0 <= from <= i < s.len(),
        s[i] == c,
        forall|j: int| from <= j < i ==> s[j] != c,
    ensures
        find_char_at(s, from, c) == Some(i),
    decreases i - from,
{
    if from < i {
        lemma_find_char_at(s, from + 1, c, i);
    }
}

/// The first occurrence of `c` in `s`, scanning by characters.
fn find_char(s: &str, c: char) -> (r: Option<usize>)
    ensures
        (match r {
            Some(i) => find_char_at(s@, 0, c) == Some(i as int),
            None => find_char_at(s@, 0, c) is None,
        }),
{
    let n = s.unicode_len();
    let mut i: usize = 0;
    while i < n
        invariant
            i <= n == s@.len(),
            forall|j: int| 0 <= j < i ==> s@[j] != c,
        decreases n - i,
    {
        if s.get_char(i) == c {
            proof {
                lemma_find_char_at(s@, 0, c, i as int);
            }
            return Some(i);
        }
        i += 1;
    }
    proof {
        lemma_find_char(s@, 0, c);
        if find_char_at(s@, 0, c) is Some {
            let k = find_char_at(s@, 0, c).unwrap();
            assert(s@[k] == c);
            assert(false);
        }
    }
    None
}

/// The index after the last `_` of `s`: where the hash part begins.
pub open spec fn after_last_uscore(s: Seq<char>) -> int
    decreases s.len(),
{
    if s.len() == 0 {
        0
    } else if s.last() == '_' {
        s.len() as int
    } else {
        after_last_uscore(s.drop_last())
    }
}

// ---------------------------------------------------------------------------
// Zettel ids
// ---------------------------------------------------------------------------

/// The title part of an id: what stands before the first `_`, present
/// only when a `_` terminates it.
pub open spec fn spec_id_title(s: Seq<char>) -> Option<Seq<char>> {
    match find_char_at(s, 0, '_') {
        Some(i) => Some(s.subrange(0, i)),
        None => None,
    }
}

/// The hash part of an id: the nonempty run behind the last `_`, or the
/// whole id when it holds no `_` at all.
pub open spec fn spec_id_hash(s: Seq<char>) -> Option<Seq<char>> {
    if s.len() - after_last_uscore(s) > 0 {
        Some(s.subrange(after_last_uscore(s), s.len() as int))
    } else {
        None
    }
}

/// A structured note id, the parts joined with `_`.
#[derive(Debug)]
pub struct ZettelID {
    id: String,
}

impl View for ZettelID {
    type V = Seq<char>;

    closed spec fn view(&self) -> Seq<char> {
        self.id@
    }
}

impl ZettelID {
    /// The id's text.
    pub fn as_str(&self) -> (r: &str)
        ensures
            r@ == self@,
    {
        self.id.as_str()
    }

    /// The file name the id lands under: the id with the `.md` ending.
    pub fn filename(&self) -> (r: String)
        ensures
            r@ == self@ + ".md"@,
    {
        self.id.clone().concat(".md")
    }

    /// The title part, present only when a `_` terminates it.
    pub fn title(&self) -> (r: Result<&str, Error>)
        ensures
            (match r {
                Ok(t) => spec_id_title(self@) == Some(t@),
                Err(e) => spec_id_title(self@) is None && e matches Error::InvalidZettelID(_),
            }),
    {
        match find_char(self.id.as_str(), '_') {
            Some(i) => {
                proof {
                    lemma_find_char(self@, 0, '_');
                }
                Ok(self.id.as_str().substring_char(0, i))
            },
            None => Err(
                Error::InvalidZettelID(String::from_str("No title in zettel ID")),
            ),
        }
    }

    /// The tags of the id.  The id reader hands every `_`-terminated part
    /// to the title and the final run to the hash, so no part ever comes
    /// back as a tag: the list is empty.
    pub fn tags(&self) -> (r: Vec<String>)
        ensures
            r@.len() == 0,
    {
        Vec::new()
    }

    /// The hash part: the nonempty run behind the last `_`, or the whole
    /// id when it holds none.
    pub fn hash(&self) -> (r: Option<&str>)
        ensures
            (match r {
                Some(h) => spec_id_hash(self@) == Some(h@),
                None => spec_id_hash(self@) is None,
            }),
    {
        let n = self.id.as_str().unicode_len();
        let mut j: usize = n;
        while j > 0
            invariant
                j <= n == self@.len(),
                forall|k: int| j <= k < n ==> self@[k] != '_',
            decreases j,
        {
            if self.id.as_str().get_char(j - 1) == '_' {
                proof {
                    lemma_after_last_uscore_at(self@, j as int);
                }
                if j == n {
                    return None;
                }
                return Some(self.id.as_str().substring_char(j, n));
            }
            j -= 1;
        }
        proof {
            lemma_after_last_uscore_at(self@, 0);
        }
        if n == 0 {
            return None;
        }
        Some(self.id.as_str().substring_char(0, n))
    }

    /// The stored tag equal to `tag`; the tag list being empty, there is
    /// none.
    pub fn tag(&self, tag: &str) -> (r: Option<String>)
        ensures
            r is None,
    {
        let tags = self.tags();
        let mut i: usize = 0;
        while i < tags.len()
            invariant
                tags@.len() == 0,
                i == 0,
            decreases tags@.len() - i,
        {
            return Some(tags[i].clone());
        }
        None
    }

    /// Whether the id carries the tag; the tag list being empty, it never
    /// does.
    pub fn has_tag(&self, tag: &str) -> (r: bool)
        ensures
            r == false,
    {
        self.tag(tag).is_some()
    }

    /// The stored tag the pattern matches; the tag list being empty,
    /// there is none.
    pub fn tag_regex(&self, pattern: &str) -> (r: Option<String>)
        ensures
            r is None,
    {
        let tags = self.tags();
        let mut i: usize = 0;
        while i < tags.len()
            invariant
                tags@.len() == 0,
                i == 0,
            decreases tags@.len() - i,
        {
            let hit = regex_match(pattern, tags[i].as_str());
            if let Some(true) = hit {
                return Some(tags[i].clone());
            }
            i += 1;
        }
        None
    }

    /// Whether the pattern matches a stored tag; the tag list being
    /// empty, it never does.
    pub fn has_tag_regex(&self, pattern: &str) -> (r: bool)
        ensures
            r == false,
    {
        self.tag_regex(pattern).is_some()
    }
}

/// A position just behind a `_` (or the start) with no `_` behind it is
/// what `after_last_uscore` finds.
proof fn lemma_after_last_uscore_at(s: Seq<char>, j: int)
    requires
        0 <= j <= s.len(),
        j > 0 ==> s[j - 1] == '_',
        forall|k: int| j <= k < s.len() ==> s[k] != '_',
    ensures
        after_last_uscore(s) == j,
    decreases s.len(),
{
    if s.len() == 0 {
    } else if s.last() == '_' {
        assert(j == s.len());
    } else {
        assert(j < s.len());
        lemma_after_last_uscore_at(s.drop_last(), j);
    }
}

// ---------------------------------------------------------------------------
// The id builder
// ---------------------------------------------------------------------------

/// Builds a `_`-joined id in the order `title_tags_date_hash`: the title
/// slug first, then the tags, the date written `YYYY-MM-DD`, and the
/// first eight characters of a hash when one was taken.
pub struct ZettelIDBuilder {
    title: Option<String>,
    tags: Vec<String>,
    date: Option<String>,
    hash: Option<String>,
}

impl ZettelIDBuilder {
    /// The title slug, if a title was given.
    pub closed spec fn title_val(&self) -> Option<Seq<char>> {
        match self.title {
            Some(ref t) => Some(t@),
            None => None,
        }
    }

    /// The tags, in the order they were added.
    pub closed spec fn tags_val(&self) -> Seq<Seq<char>> {
        self.tags.deep_view()
    }

    /// The rendered date, if one was set.
    pub closed spec fn date_val(&self) -> Option<Seq<char>> {
        match self.date {
            Some(ref d) => Some(d@),
            None => None,
        }
    }

    /// The hash, if one was taken.
    pub closed spec fn hash_val(&self) -> Option<Seq<char>> {
        match self.hash {
            Some(ref h) => Some(h@),
            None => None,
        }
    }

    /// A hash, once taken, is a full hex digest.
    pub open spec fn wf(&self) -> bool {
        match self.hash_val() {
            Some(h) => h.len() == 40,
            None => true,
        }
    }

    /// A fresh, empty builder.
    pub fn new() -> (r: ZettelIDBuilder)
        ensures
            r.wf(),
            r.title_val() is None,
            r.tags_val() == Seq::<Seq<char>>::empty(),
            r.date_val() is None,
            r.hash_val() is None,
    {
        let r = ZettelIDBuilder { title: None, tags: Vec::new(), date: None, hash: None };
        proof {
            assert(r.tags_val() =~= Seq::<Seq<char>>::empty());
        }
        r
    }

    /// Sets the title; it enters the id as its slug.
    pub fn title(self, title: Option<&str>) -> (r: ZettelIDBuilder)
        ensures
            r.wf() == self.wf(),
            (match title {
                Some(t) => r.title_val() == Some(title_slug_of(t@)),
                None => r.title_val() == self.title_val(),
            }),
            r.tags_val() == self.tags_val(),
            r.date_val() == self.date_val(),
            r.hash_val() == self.hash_val(),
    {
        let mut this = self;
        if let Some(t) = title {
            this.title = Some(title_slug(t));
        }
        this
    }

    /// Adds one tag.
    pub fn tag(self, prefix: &str) -> (r: ZettelIDBuilder)
        ensures
            r.wf() == self.wf(),
            r.title_val() == self.title_val(),
            r.tags_val() == self.tags_val().push(prefix@),
            r.date_val() == self.date_val(),
            r.hash_val() == self.hash_val(),
    {
        let mut this = self;
        this.tags.push(String::from_str(prefix));
        proof {
            assert(this.tags_val() =~= self.tags_val().push(prefix@));
        }
        this
    }

    /// Takes a hash over `seed`, to make the id unique for that seed.
    pub fn with_hash_from(self, seed: &str) -> (r: ZettelIDBuilder)
        ensures
            r.wf(),
            r.title_val() == self.title_val(),
            r.tags_val() == self.tags_val(),
            r.date_val() == self.date_val(),
            r.hash_val() == Some(sha1_hex_of(seed@)),
    {
        let mut this = self;
        this.hash = Some(sha1_hex(seed));
        this
    }

    /// Takes a hash over the current time, to make the id unique.
    pub fn with_hash(self) -> (r: ZettelIDBuilder)
        ensures
            r.wf(),
            r.title_val() == self.title_val(),
            r.tags_val() == self.tags_val(),
            r.date_val() == self.date_val(),
            r.hash_val() matches Some(h) && h.len() == 40,
    {
        let now = now_rfc3339();
        self.with_hash_from(now.as_str())
    }

    /// Sets the date, written `YYYY-MM-DD`.
    pub fn date(self, date: &Date) -> (r: ZettelIDBuilder)
        ensures
            r.wf() == self.wf(),
            r.title_val() == self.title_val(),
            r.tags_val() == self.tags_val(),
            r.date_val() == Some(date.spec_ymd()),
            r.hash_val() == self.hash_val(),
    {
        let mut this = self;
        this.date = Some(date.ymd());
        this
    }

    /// The parts of the id, in order: title, tags, date, the first eight
    /// characters of the hash.
    pub open spec fn spec_parts(&self) -> Seq<Seq<char>> {
        (match self.title_val() {
            Some(t) => seq![t],
            None => Seq::<Seq<char>>::empty(),
        }) + self.tags_val() + (match self.date_val() {
            Some(d) => seq![d],
            None => Seq::<Seq<char>>::empty(),
        }) + (match self.hash_val() {
            Some(h) => seq![h.take(8)],
            None => Seq::<Seq<char>>::empty(),
        })
    }

    /// Builds the id: the parts joined with `_`.  An id with nothing in
    /// it is refused: it needs a title, a date or a hash.
    pub fn build(self) -> (r: Result<ZettelID, Error>)
        requires
            self.wf(),
        ensures
            ({
                let joined = spec_join(self.spec_parts(), '_');
                match r {
                    Ok(id) => id@ == joined && joined.len() > 0,
                    Err(e) => joined.len() == 0 && e matches Error::InvalidZettelID(_),
                }
            }),
    {
        let mut parts: Vec<String> = Vec::new();
        let ZettelIDBuilder { title, tags, date, hash } = self;
        let ghost tpart = (match self.title_val() {
            Some(t) => seq![t],
            None => Seq::<Seq<char>>::empty(),
        });
        if let Some(t) = title {
            parts.push(t);
        }
        proof {
            assert(parts.deep_view() =~~= tpart);
        }
        let ghost gtags = tags.deep_view();
        let mut i: usize = 0;
        let n = tags.len();
        let it = tags;
        proof {
            assert(parts.deep_view() =~~= tpart + gtags.take(0));
        }
        while i < n
            invariant
                i <= n == it@.len(),
                it.deep_view() == gtags,
                parts.deep_view() == tpart + gtags.take(i as int),
            decreases n - i,
        {
            let p = it[i].clone();
            let ghost pd = parts.deep_view();
            proof {
                assert(p@ == it.deep_view()[i as int]);
                assert(p@ == gtags[i as int]);
            }
            parts.push(p);
            proof {
                assert(parts.deep_view() =~~= pd.push(p@));
                assert(pd.push(p@) =~~= tpart + gtags.take(i as int + 1));
                assert(parts.deep_view() == tpart + gtags.take(i as int + 1));
            }
            i += 1;
        }
        proof {
            assert(gtags.take(n as int) =~= gtags);
        }
        let ghost afters = parts.deep_view();
        let ghost dpart = (match self.date_val() {
            Some(d) => seq![d],
            None => Seq::<Seq<char>>::empty(),
        });
        if let Some(d) = date {
            parts.push(d);
        }
        proof {
            assert(parts.deep_view() =~~= afters + dpart);
        }
        let ghost afterd = parts.deep_view();
        let ghost hpart = (match self.hash_val() {
            Some(h) => seq![h.take(8)],
            None => Seq::<Seq<char>>::empty(),
        });
        if let Some(h) = hash {
            let short = String::from_str(h.as_str().substring_char(0, 8));
            parts.push(short);
        }
        proof {
            assert(parts.deep_view() =~~= afterd + hpart);
        }
        let id = join_with(&parts, '_');
        proof {
            assert(parts.deep_view() =~~= self.spec_parts());
        }
        if id.as_str().is_empty() {
            Err(
                Error::InvalidZettelID(
                    String::from_str("zettel id empty, must have title, date or hash"),
                ),
            )
        } else {
            Ok(ZettelID { id })
        }
    }
}

// ---------------------------------------------------------------------------
// The zettel builder
// ---------------------------------------------------------------------------

/// Chooses where a zettel lives and from which template it is created.
/// The file-system work — rendering the template into the file — is the
/// caller's; this builder pins down the target path and template name.
pub struct ZettelBuilder {
    path: String,
    tmpl_name: String,
}

impl ZettelBuilder {
    /// The target path so far.
    pub closed spec fn path_val(&self) -> Seq<char> {
        self.path@
    }

    /// The template name.
    pub closed spec fn tmpl_val(&self) -> Seq<char> {
        self.tmpl_name@
    }

    /// A fresh builder rooted at `repo`, with the `default` template.
    pub fn new(repo: &str) -> (r: ZettelBuilder)
        ensures
            r.path_val() == repo@,
            r.tmpl_val() == "default"@,
    {
        ZettelBuilder { path: String::from_str(repo), tmpl_name: String::from_str("default") }
    }

    /// Descends into `year/month/day` directories for the date.
    pub fn with_year_month_day(self, current_date: &Date) -> (r: ZettelBuilder)
        ensures
            r.path_val() == spec_path_join(
                spec_path_join(
                    spec_path_join(
                        self.path_val(),
                        crate::date::pad2_chars(current_date.spec_year() as nat),
                    ),
                    crate::date::pad2_chars(current_date.spec_month() as nat),
                ),
                crate::date::pad2_chars(current_date.spec_day() as nat),
            ),
            r.tmpl_val() == self.tmpl_val(),
    {
        let mut this = self;
        push_year_month_day(&mut this.path, current_date);
        this
    }

    /// Descends into `year/month` directories for the date.
    pub fn with_year_month(self, current_date: &Date) -> (r: ZettelBuilder)
        ensures
            r.path_val() == spec_path_join(
                spec_path_join(
                    self.path_val(),
                    crate::date::pad2_chars(current_date.spec_year() as nat),
                ),
                crate::date::pad2_chars(current_date.spec_month() as nat),
            ),
            r.tmpl_val() == self.tmpl_val(),
    {
        let mut this = self;
        push_year_month(&mut this.path, current_date);
        this
    }

    /// Appends the id's file name to the path.
    pub fn id(self, id: &ZettelID) -> (r: ZettelBuilder)
        ensures
            r.path_val() == spec_path_join(self.path_val(), id@ + ".md"@),
            r.tmpl_val() == self.tmpl_val(),
    {
        let mut this = self;
        push_id(&mut this.path, id.as_str());
        this
    }

    /// Chooses the template; `None` keeps the one already set.
    pub fn template(self, template: Option<&str>) -> (r: ZettelBuilder)
        ensures
            r.path_val() == self.path_val(),
            (match template {
                Some(t) => r.tmpl_val() == t@,
                None => r.tmpl_val() == self.tmpl_val(),
            }),
    {
        let mut this = self;
        if let Some(t) = template {
            this.tmpl_name = String::from_str(t);
        }
        this
    }

    /// The path the zettel will live under.
    pub fn target_path(&self) -> (r: &String)
        ensures
            r@ == self.path_val(),
    {
        &self.path
    }

    /// The template's file name: the chosen name with the `.md` ending.
    pub fn template_file(&self) -> (r: String)
        ensures
            r@ == self.tmpl_val() + ".md"@,
    {
        self.tmpl_name.clone().concat(".md")
    }

    /// The zettel at the chosen path, for a caller that created or found
    /// the file there.
    pub fn into_zettel(self) -> (r: Zettel)
        ensures
            r.path@ == self.path_val(),
            r.content is None,
    {
        Zettel { path: self.path, content: None }
    }
}

// ---------------------------------------------------------------------------
// Zettels and their content
// ---------------------------------------------------------------------------

/// One note on disk: its path, and its text once a caller loaded it.
pub struct Zettel {
    /// Where the note lives.
    pub path: String,
    /// The text, once loaded; `None` until then.
    pub content: Option<String>,
}

impl Zettel {
    /// A zettel at the given path, its text not yet loaded.
    pub fn new(path: String) -> (r: Zettel)
        ensures
            r.path@ == path@,
            r.content is None,
    {
        Zettel { path, content: None }
    }

    /// The path relative to `parent`, per [`spec_strip_prefix`].
    pub fn rel_path(&self, parent: &str) -> (r: Result<String, Error>)
        ensures
            (match r {
                Ok(s) => spec_strip_prefix(self.path@, parent@) == Some(s@),
                Err(e) => spec_strip_prefix(self.path@, parent@) is None && e matches Error::NotFound(_),
            }),
    {
        match strip_prefix_str(self.path.as_str(), parent) {
            Some(s) => Ok(s),
            None => Err(Error::NotFound(String::from_str("path not under parent"))),
        }
    }
}

/// A note's text while it is being extended.
pub struct ZettelContent {
    /// The text.
    pub text: String,
}

impl ZettelContent {
    /// Wraps loaded text.
    pub fn new(text: String) -> (r: ZettelContent)
        ensures
            r.text@ == text@,
    {
        ZettelContent { text }
    }

    /// Appends `child` on a fresh line.
    pub fn append(&mut self, child: &str) -> (r: Result<(), Error>)
        ensures
            final(self).text@ == old(self).text@ + "\n"@ + child@,
            r is Ok,
    {
        self.text.append("\n");
        self.text.append(child);
        Ok(())
    }
}

/// A line referring to a zettel from another note: an icon prefix and the
/// id in wiki brackets.
pub struct ZettelReference {
    id: String,
    prefix: String,
}

impl ZettelReference {
    /// The reference's id text.
    pub closed spec fn id_val(&self) -> Seq<char> {
        self.id@
    }

    /// The reference's prefix.
    pub closed spec fn prefix_val(&self) -> Seq<char> {
        self.prefix@
    }

    /// A reference to `id`, introduced by `prefix`.
    pub fn new(id: &ZettelID, prefix: &str) -> (r: ZettelReference)
        ensures
            r.id_val() == id@,
            r.prefix_val() == prefix@,
    {
        ZettelReference { id: String::from_str(id.as_str()), prefix: String::from_str(prefix) }
    }

    /// The reference as a list line: `- <prefix> [[<id>]]`.
    pub fn render(&self) -> (r: String)
        ensures
            r@ == "- "@ + self.prefix_val() + " [["@ + self.id_val() + "]]"@,
    {
        let mut out = String::from_str("- ");
        out.append(self.prefix.as_str());
        out.append(" [[");
        out.append(self.id.as_str());
        out.append("]]");
        out
    }
}

// ---------------------------------------------------------------------------
// Paths to ids
// ---------------------------------------------------------------------------

/// The file-name part of a path: what stands behind the last `/`.
pub open spec fn spec_file_name(p: Seq<char>) -> Seq<char>
    decreases p.len(),
{
    if p.len() == 0 {
        p
    } else if p.last() == '/' {
        Seq::empty()
    } else {
        spec_file_name(p.drop_last()).push(p.last())
    }
}

/// The name with every trailing `.md` ending removed.
pub open spec fn spec_trim_md(s: Seq<char>) -> Seq<char>
    decreases s.len(),
{
    if s.len() >= 3 && s.subrange(s.len() - 3, s.len() as int) =~= seq!['.', 'm', 'd'] {
        spec_trim_md(s.subrange(0, s.len() - 3))
    } else {
        s
    }
}

/// The id a document's path names: its file name without the `.md`
/// ending.  The path must name a file: its last segment may not be empty.
pub fn path_to_id(path: &str) -> (r: String)
    requires
        spec_file_name(path@).len() > 0,
    ensures
        r@ == spec_trim_md(spec_file_name(path@)),
{
    let n = path.unicode_len();
    let mut start: usize = n;
    while start > 0
        invariant
            start <= n == path@.len(),
            forall|k: int| start <= k < n ==> path@[k] != '/',
        ensures
            start <= n == path@.len(),
            forall|k: int| start <= k < n ==> path@[k] != '/',
            start > 0 ==> path@[start as int - 1] == '/',
        decreases start,
    {
        if path.get_char(start - 1) == '/' {
            break ;
        }
        start -= 1;
    }
    proof {
        lemma_file_name_at(path@, start as int);
    }
    let mut name = String::from_str(path.substring_char(start, n));
    let mut len = n - start;
    loop
        invariant
            len == name@.len(),
            spec_trim_md(spec_file_name(path@)) == spec_trim_md(name@),
        ensures
            len == name@.len(),
            spec_trim_md(spec_file_name(path@)) == spec_trim_md(name@),
            !(name@.len() >= 3 && name@.subrange(name@.len() - 3, name@.len() as int) =~= seq![
                '.',
                'm',
                'd',
            ]),
        decreases len,
    {
        if len < 3 {
            break ;
        }
        if !ends_with_md(&name) {
            break ;
        }
        name = String::from_str(name.as_str().substring_char(0, len - 3));
        len = len - 3;
    }
    name
}

/// Whether the name ends in `.md`.
fn ends_with_md(name: &String) -> (r: bool)
    requires
        name@.len() >= 3,
    ensures
        r == (name@.subrange(name@.len() - 3, name@.len() as int) =~= seq!['.', 'm', 'd']),
{
    let n = name.as_str().unicode_len();
    let a = name.as_str().get_char(n - 3);
    let b = name.as_str().get_char(n - 2);
    let c = name.as_str().get_char(n - 1);
    let r = a == '.' && b == 'm' && c == 'd';
    proof {
        let tail = name@.subrange(name@.len() - 3, name@.len() as int);
        assert(tail.len() == 3);
        assert(tail[0] == name@[name@.len() - 3]);
        assert(tail[1] == name@[name@.len() - 2]);
        assert(tail[2] == name@[name@.len() - 1]);
        if r {
            assert(tail =~= seq!['.', 'm', 'd']);
        } else {
            if tail =~= seq!['.', 'm', 'd'] {
                assert(false);
            }
        }
    }
    r
}

/// Behind a `/` (or from the start) with no `/` to the right, the rest of
/// the path is its file name.
proof fn lemma_file_name_at(p: Seq<char>, start: int)
    requires
        0 <= start <= p.len(),
        start > 0 ==> p[start - 1] == '/',
        forall|k: int| start <= k < p.len() ==> p[k] != '/',
    ensures
        spec_file_name(p) == p.subrange(start, p.len() as int),
    decreases p.len(),
{
    if p.len() == 0 {
        assert(p.subrange(0, 0) =~= p);
    } else if p.last() == '/' {
        assert(start == p.len());
        assert(p.subrange(start, p.len() as int) =~= Seq::<char>::empty());
    } else {
        assert(start < p.len());
        lemma_file_name_at(p.drop_last(), if start <= p.len() - 1 {
            start
        } else {
            p.len() - 1
        });
        assert(spec_file_name(p) =~= p.subrange(start, p.len() as int));
    }
}

} // verus!
