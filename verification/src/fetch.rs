use vstd::prelude::*;
use crate::chars::{chars_of, string_of};
use crate::fmt::{decimal, decimal2, decimal2_chars, decimal_chars, extend};
use crate::jobs::opt_view;
use crate::parse::{parse_filename, parsed_quality, ExternalId, ParsedMedia};
use crate::paths::{last_char_before, last_char_pos, lemma_last_char_bounds, slice_chars};
use crate::unicode::{is_white, white_space};

verus! {

/// What a library holds.
#[derive(Debug, Clone, Copy, PartialEq, Eq, Structural)]
pub enum LibraryKind {
    Movie,
    Tv,
}

/// A request to fetch a title from a URL into a library.
#[derive(Debug, Clone, PartialEq, Eq)]
pub struct FetchJobPayload {
    pub library: String,
    pub source_url: String,
    pub kind: LibraryKind,
    pub title: String,
    pub year: Option<u16>,
    pub external_id: Option<String>,
    pub season: Option<u16>,
    pub episode: Option<u16>,
}

/// `s` without leading white space.
pub open spec fn trim_start_ws(s: Seq<char>) -> Seq<char>
    decreases s.len(),
{
    if s.len() > 0 && white_space(s[0]) {
        trim_start_ws(s.drop_first())
    } else {
        s
    }
}

/// `s` without trailing white space.
pub open spec fn trim_end_ws(s: Seq<char>) -> Seq<char>
    decreases s.len(),
{
    if s.len() > 0 && white_space(s.last()) {
        trim_end_ws(s.drop_last())
    } else {
        s
    }
}

/// `s` without white space at either end, as `str::trim` gives it.
pub open spec fn trim_ws(s: Seq<char>) -> Seq<char> {
    trim_end_ws(trim_start_ws(s))
}

/// What `sanitize_filename` makes of a name with Windows rules, truncation and nothing
/// put in place of what it removes.
pub uninterp spec fn sanitized(name: Seq<char>) -> Seq<char>;

/// Calls `sanitize_filename::sanitize_with_options` with `windows` and `truncate` on
/// and an empty replacement. Claimed: the result is `sanitized(name)`, and it holds no
/// `/` or `\`: the crate removes every character its illegal-character pattern names,
/// these among them, and its later steps only remove or truncate.
#[verifier::external_body]
fn sanitize_name(name: &str) -> (r: String)
    ensures
        r@ == sanitized(name@),
        forall|i: int| 0 <= i < r@.len() ==> #[trigger] r@[i] != '/' && r@[i] != '\\',
{
    sanitize_filename::sanitize_with_options(
        name,
        sanitize_filename::Options { windows: true, truncate: true, replacement: "" },
    )
}

/// Trims white space at both ends.
pub fn trim_white(v: &[char]) -> (r: Vec<char>)
    ensures
        r@ == trim_ws(v@),
{
    let mut start: usize = 0;
    assert(v@.subrange(0, v@.len() as int) =~= v@);
    while start < v.len() && is_white(v[start])
        invariant
            start <= v.len(),
            trim_start_ws(v@) == trim_start_ws(v@.subrange(start as int, v@.len() as int)),
        decreases v.len() - start,
    {
        proof {
            assert(v@.subrange(start as int, v@.len() as int).drop_first() =~= v@.subrange(start + 1, v@.len() as int));
        }
        start += 1;
    }
    proof {
        let rest = v@.subrange(start as int, v@.len() as int);
        if start < v.len() {
            assert(rest[0] == v@[start as int]);
        }
        assert(v@.subrange(0, v@.len() as int) =~= v@);
    }
    let mut end: usize = v.len();
    let ghost front = v@.subrange(start as int, v@.len() as int);
    while end > start && is_white(v[end - 1])
        invariant
            start <= end <= v.len(),
            front == v@.subrange(start as int, v@.len() as int),
            trim_end_ws(front) == trim_end_ws(v@.subrange(start as int, end as int)),
        decreases end,
    {
        proof {
            assert(v@.subrange(start as int, end as int).drop_last() =~= v@.subrange(start as int, end - 1));
        }
        end -= 1;
    }
    proof {
        let mid = v@.subrange(start as int, end as int);
        if end > start {
            assert(mid.last() == v@[end - 1]);
        }
    }
    slice_chars(v, start, end)
}

/// A title as a single path segment: sanitised, then trimmed.
pub open spec fn segment_spec(name: Seq<char>) -> Seq<char> {
    trim_ws(sanitized(name))
}

/// Turns a name into a path segment that cannot leave its directory.
pub fn safe_segment(name: &str) -> (r: String)
    ensures
        r@ == segment_spec(name@),
        forall|i: int| 0 <= i < r@.len() ==> #[trigger] r@[i] != '/' && r@[i] != '\\',
{
    let clean = sanitize_name(name);
    let v = chars_of(clean.as_str());
    let t = trim_white(&v);
    proof {
        lemma_trim_is_infix(v@);
    }
    string_of(&t)
}

/// Trimming keeps a contiguous run of the chars.
pub proof fn lemma_trim_is_infix(s: Seq<char>)
    ensures
        exists|a: int, b: int| 0 <= a <= b <= s.len() && trim_ws(s) == s.subrange(a, b),
{
    lemma_trim_start_infix(s);
    let f = trim_start_ws(s);
    let a = choose|a: int| 0 <= a <= s.len() && f == s.subrange(a, s.len() as int);
    lemma_trim_end_infix(f);
    let b = choose|b: int| 0 <= b <= f.len() && trim_end_ws(f) == f.subrange(0, b);
    assert(trim_ws(s) =~= s.subrange(a, a + b));
}

proof fn lemma_trim_start_infix(s: Seq<char>)
    ensures
        exists|a: int| 0 <= a <= s.len() && trim_start_ws(s) == s.subrange(a, s.len() as int),
    decreases s.len(),
{
    if s.len() > 0 && white_space(s[0]) {
        lemma_trim_start_infix(s.drop_first());
        let a = choose|a: int| 0 <= a <= s.drop_first().len() && trim_start_ws(s.drop_first()) == s.drop_first().subrange(a, s.drop_first().len() as int);
        assert(s.drop_first().subrange(a, s.drop_first().len() as int) =~= s.subrange(a + 1, s.len() as int));
    } else {
        assert(s.subrange(0, s.len() as int) =~= s);
    }
}

proof fn lemma_trim_end_infix(s: Seq<char>)
    ensures
        exists|b: int| 0 <= b <= s.len() && trim_end_ws(s) == s.subrange(0, b),
    decreases s.len(),
{
    if s.len() > 0 && white_space(s.last()) {
        lemma_trim_end_infix(s.drop_last());
        let b = choose|b: int| 0 <= b <= s.drop_last().len() && trim_end_ws(s.drop_last()) == s.drop_last().subrange(0, b);
        assert(s.drop_last().subrange(0, b) =~= s.subrange(0, b));
    } else {
        assert(s.subrange(0, s.len() as int) =~= s);
    }
}

/// The path fragment of the metadata endpoint for a library kind.
pub open spec fn endpoint(kind: LibraryKind) -> Seq<char> {
    match kind {
        LibraryKind::Tv => seq!['t', 'v'],
        LibraryKind::Movie => seq!['m', 'o', 'v', 'i', 'e'],
    }
}

/// Whether `s` holds `c`.
pub open spec fn has_char(s: Seq<char>, c: char) -> bool {
    exists|i: int| 0 <= i < s.len() && s[i] == c
}

/// The source and value an external id names: blank names none; `tt…` is an IMDb id;
/// anything else is a TMDB id, prefixed with the endpoint of the library's kind unless
/// it already holds a `/`.
pub open spec fn resolved_spec(kind: LibraryKind, external_id: Option<Seq<char>>) -> Option<(Seq<char>, Seq<char>)> {
    match external_id {
        None => None,
        Some(raw) => {
            let v = trim_ws(raw);
            if v.len() == 0 {
                None
            } else if v.len() >= 2 && v[0] == 't' && v[1] == 't' {
                Some((seq!['i', 'm', 'd', 'b'], v))
            } else if has_char(v, '/') {
                Some((seq!['t', 'm', 'd', 'b'], v))
            } else {
                Some((seq!['t', 'm', 'd', 'b'], endpoint(kind) + seq!['/'] + v))
            }
        },
    }
}

pub open spec fn ext_view(id: Option<ExternalId>) -> Option<(Seq<char>, Seq<char>)> {
    match id {
        Some(e) => Some((e.source@, e.value@)),
        None => None,
    }
}

/// What follows the last `/` of `s`, or all of `s`.
pub open spec fn last_segment(s: Seq<char>) -> Seq<char> {
    s.subrange(last_char_before(s, s.len() as int, '/') + 1, s.len() as int)
}

/// The tag a file name carries for an external id: `tmdbid-` or `imdbid-` and the id's
/// last segment; other sources get none.
pub open spec fn tag_spec(source: Seq<char>, value: Seq<char>) -> Option<Seq<char>> {
    if source == seq!['t', 'm', 'd', 'b'] {
        Some(seq!['t', 'm', 'd', 'b', 'i', 'd', '-'] + last_segment(value))
    } else if source == seq!['i', 'm', 'd', 'b'] {
        Some(seq!['i', 'm', 'd', 'b', 'i', 'd', '-'] + last_segment(value))
    } else {
        None
    }
}

fn has_slash(v: &[char]) -> (r: bool)
    ensures
        r == has_char(v@, '/'),
{
    let mut i: usize = 0;
    while i < v.len()
        invariant
            i <= v.len(),
            forall|j: int| 0 <= j < i ==> v@[j] != '/',
        decreases v.len() - i,
    {
        if v[i] == '/' {
            return true;
        }
        i += 1;
    }
    false
}

/// The file-name tag for an external id, if its source is one that is tagged.
pub fn filename_tag(id: &ExternalId) -> (r: Option<String>)
    ensures
        opt_view(r) == tag_spec(id.source@, id.value@),
{
    let source = chars_of(id.source.as_str());
    let value = chars_of(id.value.as_str());
    proof {
        lemma_last_char_bounds(value@, value@.len() as int, '/');
    }
    let seg = match last_char_pos(&value, '/') {
        Some(i) => slice_chars(&value, i + 1, value.len()),
        None => slice_chars(&value, 0, value.len()),
    };
    let tmdb = vec!['t', 'm', 'd', 'b'];
    let imdb = vec!['i', 'm', 'd', 'b'];
    assert(tmdb@ =~= seq!['t', 'm', 'd', 'b'] && imdb@ =~= seq!['i', 'm', 'd', 'b']);
    let mut tag: Vec<char>;
    if crate::chars::chars_eq(&source, &tmdb) {
        tag = vec!['t', 'm', 'd', 'b', 'i', 'd', '-'];
        assert(tag@ =~= seq!['t', 'm', 'd', 'b', 'i', 'd', '-']);
    } else if crate::chars::chars_eq(&source, &imdb) {
        tag = vec!['i', 'm', 'd', 'b', 'i', 'd', '-'];
        assert(tag@ =~= seq!['i', 'm', 'd', 'b', 'i', 'd', '-']);
    } else {
        return None;
    }
    extend(&mut tag, &seg);
    Some(string_of(&tag))
}

impl FetchJobPayload {
    /// The external id the payload names, read as [`resolved_spec`] says.
    pub fn resolved_external_id(&self) -> (r: Option<ExternalId>)
        ensures
            ext_view(r) == resolved_spec(self.kind, opt_view(self.external_id)),
    {
        let raw = match &self.external_id {
            Some(s) => chars_of(s.as_str()),
            None => return None,
        };
        let v = trim_white(&raw);
        if v.len() == 0 {
            return None;
        }
        if v.len() >= 2 && v[0] == 't' && v[1] == 't' {
            let source = string_of(&vec!['i', 'm', 'd', 'b']);
            proof {
                assert(source@ =~= seq!['i', 'm', 'd', 'b']);
            }
            return Some(ExternalId { source, value: string_of(&v) });
        }
        let source = string_of(&vec!['t', 'm', 'd', 'b']);
        assert(source@ =~= seq!['t', 'm', 'd', 'b']);
        if has_slash(&v) {
            Some(ExternalId { source, value: string_of(&v) })
        } else {
            let mut value: Vec<char> = match self.kind {
                LibraryKind::Tv => vec!['t', 'v'],
                LibraryKind::Movie => vec!['m', 'o', 'v', 'i', 'e'],
            };
            assert(value@ =~= endpoint(self.kind));
            value.push('/');
            extend(&mut value, &v);
            Some(ExternalId { source, value: string_of(&value) })
        }
    }
}


/// Whether `s` holds no path separator.
pub open spec fn no_separator(s: Seq<char>) -> bool {
    forall|i: int| 0 <= i < s.len() ==> #[trigger] s[i] != '/' && s[i] != '\\'
}

/// ` [tag]` for the payload's external id, when it has one that is tagged.
pub open spec fn tag_suffix(p: FetchJobPayload) -> Seq<char> {
    match resolved_spec(p.kind, opt_view(p.external_id)) {
        Some((source, value)) => match tag_spec(source, value) {
            Some(t) => seq![' ', '['] + t + seq![']'],
            None => Seq::empty(),
        },
        None => Seq::empty(),
    }
}

pub open spec fn or_one(n: Option<u16>) -> nat {
    match n {
        Some(v) => v as nat,
        None => 1,
    }
}

/// The file name, without extension, a fetched title is stored under: the title as a
/// segment, then ` - SxxEyy` for an episode (1 where a number is missing) or ` (year)`
/// for a movie with a year, then the id tag.
pub open spec fn stem_spec(p: FetchJobPayload) -> Seq<char> {
    let title = segment_spec(p.title@);
    match p.kind {
        LibraryKind::Tv => title + seq![' ', '-', ' ', 'S'] + decimal2(or_one(p.season)) + seq!['E']
            + decimal2(or_one(p.episode)) + tag_suffix(p),
        LibraryKind::Movie => match p.year {
            Some(y) => title + seq![' ', '('] + decimal(y as nat) + seq![')'] + tag_suffix(p),
            None => title + tag_suffix(p),
        },
    }
}

/// The directory name a fetched title goes under: its title as a segment, or the
/// fallback name when the title leaves nothing.
pub open spec fn dir_title(p: FetchJobPayload, fallback: Seq<char>) -> Seq<char> {
    if segment_spec(p.title@).len() == 0 {
        segment_spec(fallback)
    } else {
        segment_spec(p.title@)
    }
}

/// Where a fetched title goes below `root`: its title directory, with ` (year)` for a
/// movie with a year, or its title directory and `Season NN` for an episode.
pub open spec fn dir_spec(p: FetchJobPayload, root: Seq<char>, fallback: Seq<char>) -> Seq<char> {
    let title = dir_title(p, fallback);
    match p.kind {
        LibraryKind::Tv => root + seq!['/'] + title + seq!['/', 'S', 'e', 'a', 's', 'o', 'n', ' '] + decimal2(or_one(p.season)),
        LibraryKind::Movie => match p.year {
            Some(y) => root + seq!['/'] + title + seq![' ', '('] + decimal(y as nat) + seq![')'],
            None => root + seq!['/'] + title,
        },
    }
}

fn push_all(out: &mut Vec<char>, s: &str)
    ensures
        final(out)@ == old(out)@ + s@,
{
    let v = chars_of(s);
    extend(out, &v);
}

impl FetchJobPayload {
    /// The file name, without extension, the fetched title is stored under.
    pub fn filename_stem(&self) -> (r: String)
        ensures
            r@ == stem_spec(*self),
    {
        let title = safe_segment(self.title.as_str());
        let mut tag: Vec<char> = Vec::new();
        match self.resolved_external_id() {
            Some(id) => match filename_tag(&id) {
                Some(t) => {
                    tag.push(' ');
                    tag.push('[');
                    push_all(&mut tag, t.as_str());
                    tag.push(']');
                },
                None => {},
            },
            None => {},
        }
        assert(tag@ =~= tag_suffix(*self));
        let mut out: Vec<char> = Vec::new();
        push_all(&mut out, title.as_str());
        match self.kind {
            LibraryKind::Tv => {
                out.push(' ');
                out.push('-');
                out.push(' ');
                out.push('S');
                let s = match self.season {
                    Some(v) => v,
                    None => 1,
                };
                let sd = decimal2_chars(s as u64);
                extend(&mut out, &sd);
                out.push('E');
                let e = match self.episode {
                    Some(v) => v,
                    None => 1,
                };
                let ed = decimal2_chars(e as u64);
                extend(&mut out, &ed);
            },
            LibraryKind::Movie => match self.year {
                Some(y) => {
                    out.push(' ');
                    out.push('(');
                    let yd = decimal_chars(y as u64);
                    extend(&mut out, &yd);
                    out.push(')');
                },
                None => {},
            },
        }
        extend(&mut out, &tag);
        assert(out@ =~= stem_spec(*self));
        string_of(&out)
    }

    /// The directory below `root` the fetched title goes to; `fallback_name` names it
    /// when the title leaves no usable name. The title's part holds no path separator.
    pub fn destination_dir(&self, root: &str, fallback_name: &str) -> (r: String)
        ensures
            r@ == dir_spec(*self, root@, fallback_name@),
            no_separator(dir_title(*self, fallback_name@)),
    {
        let name = safe_segment(self.title.as_str());
        let title = if name.as_str().unicode_len() == 0 {
            safe_segment(fallback_name)
        } else {
            name
        };
        let mut out: Vec<char> = Vec::new();
        push_all(&mut out, root);
        out.push('/');
        push_all(&mut out, title.as_str());
        match self.kind {
            LibraryKind::Tv => {
                out.push('/');
                out.push('S');
                out.push('e');
                out.push('a');
                out.push('s');
                out.push('o');
                out.push('n');
                out.push(' ');
                let s = match self.season {
                    Some(v) => v,
                    None => 1,
                };
                let sd = decimal2_chars(s as u64);
                extend(&mut out, &sd);
            },
            LibraryKind::Movie => match self.year {
                Some(y) => {
                    out.push(' ');
                    out.push('(');
                    let yd = decimal_chars(y as u64);
                    extend(&mut out, &yd);
                    out.push(')');
                },
                None => {},
            },
        }
        assert(out@ =~= dir_spec(*self, root@, fallback_name@));
        string_of(&out)
    }

    /// What the payload says of the fetched title, for the file at `path`: its title
    /// trimmed, its year, season and episode (1 where missing, for an episode only),
    /// the quality the file's name gives, and the external id it names.
    pub fn parsed(&self, path: &str) -> (r: ParsedMedia)
        ensures
            r.title@ == trim_ws(self.title@),
            r.year == self.year,
            r.season == (if self.kind == LibraryKind::Tv { Some(or_one(self.season) as u16) } else { None::<u16> }),
            r.episode == (if self.kind == LibraryKind::Tv { Some(or_one(self.episode) as u16) } else { None::<u16> }),
            r.quality == parsed_quality(path@),
            ext_view(r.external_id) == resolved_spec(self.kind, opt_view(self.external_id)),
    {
        let episodic = match self.kind {
            LibraryKind::Tv => true,
            LibraryKind::Movie => false,
        };
        let t = trim_white(&chars_of(self.title.as_str()));
        let season = if episodic {
            Some(match self.season {
                Some(v) => v,
                None => 1,
            })
        } else {
            None
        };
        let episode = if episodic {
            Some(match self.episode {
                Some(v) => v,
                None => 1,
            })
        } else {
            None
        };
        ParsedMedia {
            title: string_of(&t),
            year: self.year,
            season,
            episode,
            quality: parse_filename(path).quality,
            external_id: self.resolved_external_id(),
        }
    }
}

/// Where a library's files come from.
#[derive(Debug, Clone, Copy, PartialEq, Eq, Structural)]
pub enum LibraryOrigin {
    Local,
    External,
}

/// What the configured cookies for a site look like.
#[derive(Debug, Clone, Copy, PartialEq, Eq, Structural)]
pub enum CookieVerdict {
    Live,
    Expired,
    NotApplicable,
}

/// Why a library request was refused.
#[derive(Debug, Clone, PartialEq, Eq)]
pub enum LibraryError {
    Forbidden,
    Disabled,
    NotFound,
    InvalidRequest(String),
    Unavailable(String),
    NotEmpty(String),
}

/// What a caller asks to fetch.
#[derive(Debug, Clone, PartialEq, Eq)]
pub struct FetchInput {
    pub source_url: String,
    pub kind: LibraryKind,
    pub title: String,
    pub year: Option<u16>,
    pub external_id: Option<String>,
    pub season: Option<u16>,
    pub episode: Option<u16>,
}

/// The scheme and host (if it has one) of a URL, as the `url` crate parses it; nothing
/// when the text is no URL.
pub uninterp spec fn url_parts(text: Seq<char>) -> Option<(Seq<char>, Option<Seq<char>>)>;

/// Calls `url::Url::parse` and reads `scheme()` and `host_str()`. Claimed: the result
/// is `url_parts(text)`, a function of the text alone.
#[verifier::external_body]
fn parse_url(text: &str) -> (r: Option<(String, Option<String>)>)
    ensures
        match r {
            Some((scheme, host)) => url_parts(text@) == Some((scheme@, opt_view(host))),
            None => url_parts(text@) is None,
        },
{
    match url::Url::parse(text) {
        Ok(u) => Some((u.scheme().to_owned(), u.host_str().map(|h| h.to_owned()))),
        Err(_) => None,
    }
}

/// Only an administrator may fetch, and only while fetching is enabled.
pub fn admit_fetch(caller: &crate::acl::Principal, enabled: bool) -> (r: Result<(), LibraryError>)
    ensures
        r == if caller.role != crate::acl::Role::Admin {
            Err::<(), LibraryError>(LibraryError::Forbidden)
        } else if !enabled {
            Err(LibraryError::Disabled)
        } else {
            Ok(())
        },
{
    if !crate::acl::is_admin(caller) {
        return Err(LibraryError::Forbidden);
    }
    if !enabled {
        return Err(LibraryError::Disabled);
    }
    Ok(())
}

/// A refusal as plain values.
pub enum Refusal {
    Forbidden,
    Disabled,
    NotFound,
    InvalidRequest(Seq<char>),
    Unavailable(Seq<char>),
    NotEmpty(Seq<char>),
}

pub open spec fn refusal_of(e: LibraryError) -> Refusal {
    match e {
        LibraryError::Forbidden => Refusal::Forbidden,
        LibraryError::Disabled => Refusal::Disabled,
        LibraryError::NotFound => Refusal::NotFound,
        LibraryError::InvalidRequest(msg) => Refusal::InvalidRequest(msg@),
        LibraryError::Unavailable(msg) => Refusal::Unavailable(msg@),
        LibraryError::NotEmpty(msg) => Refusal::NotEmpty(msg@),
    }
}

/// The refusal of a fetch source, or the host it names (empty without one): a missing
/// library is not found, a local one is forbidden, a source that is no URL, or not an
/// `http` or `https` one, is an invalid request.
pub open spec fn source_verdict(origin: Option<LibraryOrigin>, url: Seq<char>) -> Result<Seq<char>, Refusal> {
    match origin {
        None => Err(Refusal::NotFound),
        Some(LibraryOrigin::Local) => Err(Refusal::Forbidden),
        Some(LibraryOrigin::External) => match url_parts(url) {
            None => Err(Refusal::InvalidRequest("source_url is not a valid URL"@)),
            Some((scheme, host)) => if scheme != "http"@ && scheme != "https"@ {
                Err(Refusal::InvalidRequest("source_url must be an http or https URL"@))
            } else {
                Ok(match host {
                    Some(h) => h,
                    None => Seq::empty(),
                })
            },
        },
    }
}

/// Checks where a fetch goes and what it fetches from; gives the source's host.
pub fn check_fetch_source(origin: Option<LibraryOrigin>, source_url: &str) -> (r: Result<String, LibraryError>)
    ensures
        match (r, source_verdict(origin, source_url@)) {
            (Ok(host), Ok(h)) => host@ == h,
            (Err(e), Err(want)) => refusal_of(e) == want,
            _ => false,
        },
{
    match origin {
        None => return Err(LibraryError::NotFound),
        Some(LibraryOrigin::Local) => return Err(LibraryError::Forbidden),
        Some(LibraryOrigin::External) => {},
    }
    let (scheme, host) = match parse_url(source_url) {
        Some(parts) => parts,
        None => return Err(LibraryError::InvalidRequest("source_url is not a valid URL".to_owned())),
    };
    if !crate::chars::str_eq(scheme.as_str(), "http") && !crate::chars::str_eq(scheme.as_str(), "https") {
        return Err(LibraryError::InvalidRequest("source_url must be an http or https URL".to_owned()));
    }
    match host {
        Some(h) => Ok(h),
        None => Ok(String::new()),
    }
}

/// The message for a site whose cookies have expired.
pub open spec fn expired_message(host: Seq<char>) -> Seq<char> {
    "the configured cookies for ["@ + host
        + "] have expired; export a fresh cookies.txt and remount it before fetching from this site"@
}

/// A fetch from a site whose configured cookies have expired is refused.
pub fn check_cookies(host: &str, verdict: Option<CookieVerdict>) -> (r: Result<(), LibraryError>)
    ensures
        verdict == Some(CookieVerdict::Expired) ==> (r matches Err(LibraryError::InvalidRequest(msg)) && msg@ == expired_message(host@)),
        verdict != Some(CookieVerdict::Expired) ==> r is Ok,
{
    match verdict {
        Some(CookieVerdict::Expired) => {
            let mut out = chars_of("the configured cookies for [");
            extend(&mut out, &chars_of(host));
            extend(&mut out, &chars_of("] have expired; export a fresh cookies.txt and remount it before fetching from this site"));
            assert(out@ =~= expired_message(host@));
            Err(LibraryError::InvalidRequest(string_of(&out)))
        },
        _ => Ok(()),
    }
}

/// The fetch job for a checked request into `library`.
pub fn fetch_payload(library: &str, input: FetchInput) -> (r: FetchJobPayload)
    ensures
        r.library@ == library@,
        r.source_url == input.source_url,
        r.kind == input.kind,
        r.title == input.title,
        r.year == input.year,
        r.external_id == input.external_id,
        r.season == input.season,
        r.episode == input.episode,
{
    FetchJobPayload {
        library: library.to_owned(),
        source_url: input.source_url,
        kind: input.kind,
        title: input.title,
        year: input.year,
        external_id: input.external_id,
        season: input.season,
        episode: input.episode,
    }
}

/// The stem a fetched title is stored under carries its id: where the payload resolves
/// to a TMDB or IMDb id whose last segment `V` is not empty and holds no `[`, the stem
/// ends in the tag `[tmdbid-V]` or `[imdbid-V]`, and parsing the stem reads that
/// provider and `V` back.
pub proof fn law_the_stored_stem_reads_back_its_id(p: FetchJobPayload)
    requires
        resolved_spec(p.kind, opt_view(p.external_id)) is Some,
        ({
            let (source, value) = resolved_spec(p.kind, opt_view(p.external_id)).unwrap();
            &&& (source == seq!['t', 'm', 'd', 'b'] || source == seq!['i', 'm', 'd', 'b'])
            &&& last_segment(value).len() > 0
            &&& forall|i: int| 0 <= i < last_segment(value).len() ==> last_segment(value)[i] != '['
        }),
    ensures
        ({
            let (source, value) = resolved_spec(p.kind, opt_view(p.external_id)).unwrap();
            crate::parse::tag_spec(stem_spec(p)) matches Some((tmdb, v, _))
                && tmdb == (source == seq!['t', 'm', 'd', 'b']) && v == last_segment(value)
        }),
{
    let (source, value) = resolved_spec(p.kind, opt_view(p.external_id)).unwrap();
    let tmdb = source == seq!['t', 'm', 'd', 'b'];
    let seg = last_segment(value);
    let mark = if tmdb { crate::parse::tmdb_mark() } else { crate::parse::imdb_mark() };
    let t = tag_spec(source, value).unwrap();
    assert(t =~= mark + seg);
    assert(tag_suffix(p) =~= seq![' ', '['] + mark + seg + seq![']']);
    let title = segment_spec(p.title@);
    let pre = match p.kind {
        LibraryKind::Tv => title + seq![' ', '-', ' ', 'S'] + decimal2(or_one(p.season)) + seq!['E']
            + decimal2(or_one(p.episode)),
        LibraryKind::Movie => match p.year {
            Some(y) => title + seq![' ', '('] + decimal(y as nat) + seq![')'],
            None => title,
        },
    };
    assert(stem_spec(p) =~= pre + tag_suffix(p));
    let s = pre + seq![' '];
    assert(stem_spec(p) =~= s + seq!['['] + mark + seg + seq![']']);
    crate::parse::law_a_trailing_tag_reads_back(s, tmdb, seg);
}
} // verus!
