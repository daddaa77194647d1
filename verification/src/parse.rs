use vstd::prelude::*;
use crate::chars::{chars_eq, chars_of, is_ascii_digit, lower_seq};
use crate::paths::{basename_of, is_sep, last_char_before, last_char_pos, lemma_last_char_bounds, last_sep, last_sep_before, slice_chars, stem_chars, stem_of};
use crate::patterns::{century_ok, digit_value, first_bare_year_from, first_paren_year_from, first_junk_from, bare_year_at, paren_year_at, junk_start_chars, resolution_token, resolution_token_chars, season_episode_chars, season_episode_spec, value_of, year_chars, year_spec};
use crate::title::{clean_chars, clean_spec, is_edge, trim_edges};

verus! {

/// Picture quality of a file.
#[derive(Debug, Clone, Copy, PartialEq, Eq, Structural)]
pub enum Quality {
    Sd,
    Hd,
    Fhd,
    Uhd,
}

/// An identifier of a title at a metadata source.
#[derive(Debug, Clone, PartialEq, Eq)]
pub struct ExternalId {
    pub source: String,
    pub value: String,
}

/// What a file name says about the title it holds.
#[derive(Debug, Clone, PartialEq, Eq)]
pub struct ParsedMedia {
    pub title: String,
    pub year: Option<u16>,
    pub season: Option<u16>,
    pub episode: Option<u16>,
    pub quality: Option<Quality>,
    pub external_id: Option<ExternalId>,
}

impl ParsedMedia {
    pub open spec fn episodic(&self) -> bool {
        self.season is Some && self.episode is Some
    }

    /// A parse that names both a season and an episode.
    pub fn is_episodic(&self) -> (r: bool)
        ensures
            r == self.episodic(),
    {
        self.season.is_some() && self.episode.is_some()
    }
}

/// How sure a parse is of its title: no title, a bare title, or a title with a
/// year, an episode marker or a provider id.
#[derive(Debug, Clone, Copy, PartialEq, Eq, Structural)]
pub enum ConfidenceTier {
    Untitled,
    Weak,
    Strong,
}

pub open spec fn tier_spec(p: ParsedMedia) -> ConfidenceTier {
    if p.title@.len() == 0 {
        ConfidenceTier::Untitled
    } else if p.episodic() || p.year is Some || p.external_id is Some {
        ConfidenceTier::Strong
    } else {
        ConfidenceTier::Weak
    }
}

/// The confidence tier of a parse.
pub fn confidence_tier(parsed: &ParsedMedia) -> (r: ConfidenceTier)
    ensures
        r == tier_spec(*parsed),
{
    if parsed.title.as_str().unicode_len() == 0 {
        ConfidenceTier::Untitled
    } else if parsed.is_episodic() || parsed.year.is_some() || parsed.external_id.is_some() {
        ConfidenceTier::Strong
    } else {
        ConfidenceTier::Weak
    }
}

/// The quality a resolution token stands for, once lower-cased.
pub open spec fn token_quality(t: Seq<char>) -> Quality {
    if t == seq!['2', '1', '6', '0', 'p'] || t == seq!['4', 'k'] {
        Quality::Uhd
    } else if t == seq!['1', '0', '8', '0', 'p'] {
        Quality::Fhd
    } else if t == seq!['7', '2', '0', 'p'] {
        Quality::Hd
    } else {
        Quality::Sd
    }
}

/// The quality named by the first resolution token of a stem.
pub open spec fn quality_spec(stem: Seq<char>) -> Option<Quality> {
    match resolution_token(stem) {
        Some(t) => Some(token_quality(lower_seq(t))),
        None => None,
    }
}

/// The first chars inside a TMDB tag, `[tmdbid-…]`.
pub open spec fn tmdb_mark() -> Seq<char> {
    seq!['t', 'm', 'd', 'b', 'i', 'd', '-']
}

/// The first chars inside an IMDb tag, `[imdbid-…]`.
pub open spec fn imdb_mark() -> Seq<char> {
    seq!['i', 'm', 'd', 'b', 'i', 'd', '-']
}

/// A provider tag that ends a stem: `[tmdbid-X]` or `[imdbid-X]` with `X` not empty,
/// opened at the stem's last `[`. Gives whether it is a TMDB tag, `X`, and where the
/// tag opens.
pub open spec fn tag_spec(stem: Seq<char>) -> Option<(bool, Seq<char>, int)> {
    let n = stem.len() as int;
    let b = last_char_before(stem, n, '[');
    if n >= 1 && stem[n - 1] == ']' && b >= 0 && b + 9 < n {
        let mark = stem.subrange(b + 1, b + 8);
        let value = stem.subrange(b + 8, n - 1);
        if mark == tmdb_mark() {
            Some((true, value, b))
        } else if mark == imdb_mark() {
            Some((false, value, b))
        } else {
            None
        }
    } else {
        None
    }
}

/// A stem with its provider tag cut off, if it ends in one.
pub open spec fn untagged(stem: Seq<char>) -> Seq<char> {
    match tag_spec(stem) {
        Some((_, _, b)) => stem.subrange(0, b),
        None => stem,
    }
}

/// The part of a path's stem that the title, year, episode and quality are read from.
pub open spec fn title_stem(path: Seq<char>) -> Seq<char> {
    untagged(stem_of(path))
}

/// The provider id a path's tag names, as source and value: a TMDB id is prefixed with
/// the endpoint of the title's kind (`tv/` when the name carries an episode marker,
/// else `movie/`), an IMDb id is taken as it is.
pub open spec fn parsed_external(path: Seq<char>) -> Option<(Seq<char>, Seq<char>)> {
    match tag_spec(stem_of(path)) {
        Some((true, v, _)) => Some((
            seq!['t', 'm', 'd', 'b'],
            (if season_episode_spec(title_stem(path)) is Some {
                seq!['t', 'v']
            } else {
                seq!['m', 'o', 'v', 'i', 'e']
            }) + seq!['/'] + v,
        )),
        Some((false, v, _)) => Some((seq!['i', 'm', 'd', 'b'], v)),
        None => None,
    }
}

/// An external id as source and value.
pub open spec fn id_view(id: Option<ExternalId>) -> Option<(Seq<char>, Seq<char>)> {
    match id {
        Some(e) => Some((e.source@, e.value@)),
        None => None,
    }
}

/// Where the title of a stem ends: at the first of the season marker, the
/// year and the release junk, or at its end.
pub open spec fn title_cut(stem: Seq<char>) -> int {
    let a = stem.len() as int;
    let b = match season_episode_spec(stem) {
        Some((_, _, p)) => if p < a { p } else { a },
        None => a,
    };
    let c = match year_spec(stem) {
        Some((_, p)) => if p < b { p } else { b },
        None => b,
    };
    match first_junk_from(stem, 0) {
        Some(p) => if p < c { p } else { c },
        None => c,
    }
}

pub open spec fn parsed_title(path: Seq<char>) -> Seq<char> {
    let stem = title_stem(path);
    clean_spec(stem.subrange(0, title_cut(stem)))
}

pub open spec fn parsed_year(path: Seq<char>) -> Option<u16> {
    match year_spec(title_stem(path)) {
        Some((y, _)) => Some(y as u16),
        None => None,
    }
}

pub open spec fn parsed_season(path: Seq<char>) -> Option<u16> {
    match season_episode_spec(title_stem(path)) {
        Some((s, _, _)) => Some(s as u16),
        None => None,
    }
}

pub open spec fn parsed_episode(path: Seq<char>) -> Option<u16> {
    match season_episode_spec(title_stem(path)) {
        Some((_, e, _)) => Some(e as u16),
        None => None,
    }
}

pub open spec fn parsed_quality(path: Seq<char>) -> Option<Quality> {
    quality_spec(title_stem(path))
}

/// Season, episode and start (in chars) of the season/episode marker in `stem`.
pub fn find_season_episode(stem: &str) -> (r: Option<(u16, u16, usize)>)
    ensures
        match season_episode_spec(stem@) {
            Some((a, b, p)) => r == Some((a as u16, b as u16, p as usize)),
            None => r is None,
        },
{
    let v = chars_of(stem);
    season_episode_chars(&v)
}

/// Year and start (in chars) of the release year in `stem`.
pub fn find_year(stem: &str) -> (r: Option<(u16, usize)>)
    ensures
        match year_spec(stem@) {
            Some((y, p)) => r == Some((y as u16, p as usize)),
            None => r is None,
        },
{
    let v = chars_of(stem);
    year_chars(&v)
}

fn quality_of_token(t: &[char]) -> (r: Quality)
    ensures
        r == token_quality(lower_seq(t@)),
{
    let lowered = crate::paths::lower_chars(t);
    if chars_eq(&lowered, &['2', '1', '6', '0', 'p']) || chars_eq(&lowered, &['4', 'k']) {
        Quality::Uhd
    } else if chars_eq(&lowered, &['1', '0', '8', '0', 'p']) {
        Quality::Fhd
    } else if chars_eq(&lowered, &['7', '2', '0', 'p']) {
        Quality::Hd
    } else {
        Quality::Sd
    }
}

fn quality_chars(v: &[char]) -> (r: Option<Quality>)
    ensures
        r == quality_spec(v@),
{
    match resolution_token_chars(v) {
        Some(t) => Some(quality_of_token(&t)),
        None => None,
    }
}

/// The quality named by the first resolution token in `stem`.
pub fn find_quality(stem: &str) -> (r: Option<Quality>)
    ensures
        r == quality_spec(stem@),
{
    let v = chars_of(stem);
    quality_chars(&v)
}

fn mark_at(v: &[char], start: usize, mark: &[char]) -> (r: bool)
    requires
        start + mark@.len() <= v@.len(),
    ensures
        r == (v@.subrange(start as int, start + mark@.len()) == mark@),
{
    let mut i: usize = 0;
    while i < mark.len()
        invariant
            i <= mark.len(),
            start + mark@.len() <= v@.len(),
            v@.len() == v.len(),
            forall|j: int| 0 <= j < i ==> v@[start + j] == mark@[j],
        decreases mark.len() - i,
    {
        if v[start + i] != mark[i] {
            assert(v@.subrange(start as int, start + mark@.len())[i as int] != mark@[i as int]);
            return false;
        }
        i += 1;
    }
    assert(v@.subrange(start as int, start + mark@.len()) =~= mark@);
    true
}

/// Splits a provider tag off the end of a stem: where the rest ends, and the tag's
/// kind and value if there is one.
fn split_tag(stem: &[char]) -> (r: (usize, Option<(bool, Vec<char>)>))
    ensures
        match tag_spec(stem@) {
            Some((t, v, b)) => r.0 == b && (r.1 matches Some((t2, v2)) && t2 == t && v2@ == v),
            None => r.0 == stem@.len() && r.1 is None,
        },
{
    let n = stem.len();
    proof {
        lemma_last_char_bounds(stem@, n as int, '[');
    }
    if n == 0 || stem[n - 1] != ']' {
        return (n, None);
    }
    let b = match last_char_pos(stem, '[') {
        Some(b) => b,
        None => return (n, None),
    };
    if b >= n || n - b <= 9 {
        return (n, None);
    }
    let tmdb = ['t', 'm', 'd', 'b', 'i', 'd', '-'];
    let imdb = ['i', 'm', 'd', 'b', 'i', 'd', '-'];
    assert(tmdb@ =~= tmdb_mark());
    assert(imdb@ =~= imdb_mark());
    let is_tmdb = mark_at(stem, b + 1, &tmdb);
    let is_imdb = mark_at(stem, b + 1, &imdb);
    if is_tmdb || is_imdb {
        let value = slice_chars(stem, b + 8, n - 1);
        (b, Some((is_tmdb, value)))
    } else {
        (n, None)
    }
}

/// Reads title, year, season, episode, quality and a provider tag from a file path.
pub fn parse_filename(path: &str) -> (r: ParsedMedia)
    ensures
        r.title@ == parsed_title(path@),
        r.year == parsed_year(path@),
        r.season == parsed_season(path@),
        r.episode == parsed_episode(path@),
        r.quality == parsed_quality(path@),
        id_view(r.external_id) == parsed_external(path@),
{
    let p = chars_of(path);
    let full = stem_chars(&p);
    let (tag_cut, tag) = split_tag(&full);
    let stem = slice_chars(&full, 0, tag_cut);
    proof {
        assert(stem@ =~= title_stem(path@));
    }
    let season_episode = season_episode_chars(&stem);
    let year = year_chars(&stem);
    let junk = junk_start_chars(&stem);
    let mut cut = stem.len();
    if let Some((_, _, start)) = season_episode {
        if start < cut {
            cut = start;
        }
    }
    if let Some((_, start)) = year {
        if start < cut {
            cut = start;
        }
    }
    if let Some(start) = junk {
        if start < cut {
            cut = start;
        }
    }
    let head = crate::paths::slice_chars(&stem, 0, cut);
    let title = crate::chars::string_of(&clean_chars(&head));
    ParsedMedia {
        title,
        year: match year {
            Some((y, _)) => Some(y),
            None => None,
        },
        season: match season_episode {
            Some((s, _, _)) => Some(s),
            None => None,
        },
        episode: match season_episode {
            Some((_, e, _)) => Some(e),
            None => None,
        },
        quality: quality_chars(&stem),
        external_id: match tag {
            Some((true, value)) => {
                let mut v: Vec<char> = if season_episode.is_some() {
                    vec!['t', 'v']
                } else {
                    vec!['m', 'o', 'v', 'i', 'e']
                };
                v.push('/');
                crate::fmt::extend(&mut v, &value);
                let source = vec!['t', 'm', 'd', 'b'];
                Some(ExternalId { source: crate::chars::string_of(&source), value: crate::chars::string_of(&v) })
            },
            Some((false, value)) => {
                let source = vec!['i', 'm', 'd', 'b'];
                Some(ExternalId { source: crate::chars::string_of(&source), value: crate::chars::string_of(&value) })
            },
            None => None,
        },
    }
}

/// The season and the episode of a parse are either both there or both absent.
pub proof fn law_season_and_episode_are_paired(path: Seq<char>)
    ensures
        (parsed_season(path) is Some) == (parsed_episode(path) is Some),
{
}

proof fn lemma_first_paren_year(s: Seq<char>, q: int)
    ensures
        first_paren_year_from(s, q) matches Some((y, p)) ==> paren_year_at(s, p) == Some(y),
    decreases s.len() - q,
{
    if 0 <= q < s.len() && paren_year_at(s, q) is None {
        lemma_first_paren_year(s, q + 1);
    }
}

proof fn lemma_first_bare_year(s: Seq<char>, q: int)
    ensures
        first_bare_year_from(s, q) matches Some((y, p)) ==> bare_year_at(s, p) == Some(y),
    decreases s.len() - q,
{
    if 0 <= q < s.len() && bare_year_at(s, q) is None {
        lemma_first_bare_year(s, q + 1);
    }
}

proof fn lemma_century_value(t: Seq<char>)
    requires
        t.len() == 4,
        century_ok(t[0], t[1]),
        is_ascii_digit(t[2]),
        is_ascii_digit(t[3]),
    ensures
        1900 <= value_of(t) <= 2099,
{
    let t3 = t.drop_last();
    let t2 = t3.drop_last();
    let t1 = t2.drop_last();
    let t0 = t1.drop_last();
    assert(t0.len() == 0);
    assert(value_of(t1) == value_of(t0) * 10 + digit_value(t1.last()));
    assert(value_of(t2) == value_of(t1) * 10 + digit_value(t2.last()));
    assert(value_of(t3) == value_of(t2) * 10 + digit_value(t3.last()));
    assert(value_of(t) == value_of(t3) * 10 + digit_value(t.last()));
    assert(t1.last() == t[0] && t2.last() == t[1] && t3.last() == t[2]);
}

/// A parsed year always lies between 1900 and 2099.
pub proof fn law_year_within_supported_range(path: Seq<char>)
    ensures
        parsed_year(path) matches Some(y) ==> 1900 <= y <= 2099,
{
    let s = title_stem(path);
    lemma_first_paren_year(s, 0);
    lemma_first_bare_year(s, 0);
    match year_spec(s) {
        Some((y, p)) => {
            if first_paren_year_from(s, 0) is Some {
                let t = s.subrange(p + 1, p + 5);
                assert(t[0] == s[p + 1] && t[1] == s[p + 2] && t[2] == s[p + 3] && t[3] == s[p + 4]);
                lemma_century_value(t);
            } else {
                let t = s.subrange(p, p + 4);
                assert(t[0] == s[p] && t[1] == s[p + 1] && t[2] == s[p + 2] && t[3] == s[p + 3]);
                lemma_century_value(t);
            }
        },
        None => {},
    }
}

/// A parsed title neither starts nor ends with a dash or a space.
pub proof fn law_title_has_no_edge_dashes_or_spaces(path: Seq<char>)
    ensures
        trim_edges(parsed_title(path)) == parsed_title(path),
        parsed_title(path).len() > 0 ==> !is_edge(parsed_title(path)[0]) && !is_edge(parsed_title(path).last()),
{
    crate::title::law_clean_title_has_no_edge_dashes_or_spaces(
        title_stem(path).subrange(0, title_cut(title_stem(path))),
    );
}

proof fn lemma_last_sep_skips(s: Seq<char>, k: int, n: int)
    requires
        0 <= k <= n <= s.len(),
        forall|i: int| k <= i < n ==> !is_sep(#[trigger] s[i]),
    ensures
        last_sep_before(s, n) == last_sep_before(s, k),
    decreases n - k,
{
    if n > k {
        lemma_last_sep_skips(s, k, n - 1);
    }
}

/// The directories before a file name change nothing in what the name parses to.
pub proof fn law_directory_prefix_is_ignored(dir: Seq<char>, name: Seq<char>)
    requires
        forall|i: int| 0 <= i < name.len() ==> !is_sep(#[trigger] name[i]),
    ensures
        ({
            let path = dir + seq!['/'] + name;
            &&& parsed_title(path) == parsed_title(name)
            &&& parsed_year(path) == parsed_year(name)
            &&& parsed_season(path) == parsed_season(name)
            &&& parsed_episode(path) == parsed_episode(name)
            &&& parsed_quality(path) == parsed_quality(name)
            &&& parsed_external(path) == parsed_external(name)
        }),
{
    let path = dir + seq!['/'] + name;
    let k = dir.len() as int + 1;
    assert forall|i: int| k <= i < path.len() implies !is_sep(#[trigger] path[i]) by {
        assert(path[i] == name[i - k]);
    }
    lemma_last_sep_skips(path, k, path.len() as int);
    assert(path[k - 1] == '/');
    assert(last_sep(path) == k - 1);
    assert(basename_of(path) =~= name);
    lemma_last_sep_skips(name, 0, name.len() as int);
    assert(basename_of(name) =~= name);
    assert(stem_of(path) == stem_of(name));
}

/// What any path parses to: season and episode come together, a year lies in
/// 1900–2099, and the title has no dash or space at either end.
pub proof fn law_parse_invariants(path: Seq<char>)
    ensures
        (parsed_season(path) is Some) == (parsed_episode(path) is Some),
        parsed_year(path) matches Some(y) ==> 1900 <= y <= 2099,
        trim_edges(parsed_title(path)) == parsed_title(path),
{
    law_season_and_episode_are_paired(path);
    law_year_within_supported_range(path);
    law_title_has_no_edge_dashes_or_spaces(path);
}


proof fn lemma_last_char_skips(s: Seq<char>, k: int, n: int, c: char)
    requires
        0 <= k <= n <= s.len(),
        forall|j: int| k <= j < n ==> s[j] != c,
    ensures
        last_char_before(s, n, c) == last_char_before(s, k, c),
    decreases n - k,
{
    if n > k {
        lemma_last_char_skips(s, k, n - 1, c);
    }
}

/// A provider tag written at the end of a stem reads back: the stem `s[tmdbid-V]`
/// (or `s[imdbid-V]`) gives that provider and `V`, and the part before the tag is `s`,
/// whenever `V` is not empty and holds no `[`.
pub proof fn law_a_trailing_tag_reads_back(s: Seq<char>, tmdb: bool, v: Seq<char>)
    requires
        v.len() > 0,
        forall|i: int| 0 <= i < v.len() ==> v[i] != '[',
    ensures
        tag_spec(s + seq!['['] + (if tmdb { tmdb_mark() } else { imdb_mark() }) + v + seq![']'])
            == Some((tmdb, v, s.len() as int)),
        untagged(s + seq!['['] + (if tmdb { tmdb_mark() } else { imdb_mark() }) + v + seq![']']) == s,
{
    let mark = if tmdb { tmdb_mark() } else { imdb_mark() };
    let stem = s + seq!['['] + mark + v + seq![']'];
    let b = s.len() as int;
    let n = stem.len() as int;
    assert(n == b + 9 + v.len());
    assert(stem[b] == '[');
    assert forall|j: int| b + 1 <= j < n implies stem[j] != '[' by {
        if j < b + 8 {
            assert(stem[j] == mark[j - b - 1]);
        } else if j < n - 1 {
            assert(stem[j] == v[j - b - 8]);
        }
    }
    lemma_last_char_skips(stem, b + 1, n, '[');
    assert(last_char_before(stem, b + 1, '[') == b);
    assert(stem[n - 1] == ']');
    assert(stem.subrange(b + 1, b + 8) =~= mark);
    assert(stem.subrange(b + 8, n - 1) =~= v);
    assert(stem.subrange(0, b) =~= s);
    assert(tmdb_mark() != imdb_mark()) by {
        assert(tmdb_mark()[0] != imdb_mark()[0]);
    }
}
} // verus!
