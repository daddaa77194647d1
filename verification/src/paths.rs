use vstd::prelude::*;
use crate::chars::{chars_of, eq_ignore_case, lower, lower_char, lower_seq, string_of};

verus! {

/// A path separator, as the original splits on both kinds.
pub open spec fn is_sep(c: char) -> bool {
    c == '/' || c == '\\'
}

/// Index of the last separator before `n`, or -1.
pub open spec fn last_sep_before(s: Seq<char>, n: int) -> int
    decreases n,
{
    if n <= 0 {
        -1
    } else if is_sep(s[n - 1]) {
        n - 1
    } else {
        last_sep_before(s, n - 1)
    }
}

/// Index of the last `c` before `n`, or -1.
pub open spec fn last_char_before(s: Seq<char>, n: int, c: char) -> int
    decreases n,
{
    if n <= 0 {
        -1
    } else if s[n - 1] == c {
        n - 1
    } else {
        last_char_before(s, n - 1, c)
    }
}

pub open spec fn last_sep(s: Seq<char>) -> int {
    last_sep_before(s, s.len() as int)
}

pub open spec fn last_dot(s: Seq<char>) -> int {
    last_char_before(s, s.len() as int, '.')
}

/// What follows the last separator (the whole path when there is none).
pub open spec fn basename_of(s: Seq<char>) -> Seq<char> {
    s.subrange(last_sep(s) + 1, s.len() as int)
}

/// The basename without its last `.` and what follows it.
pub open spec fn stem_of(s: Seq<char>) -> Seq<char> {
    let b = basename_of(s);
    if last_dot(b) < 0 {
        b
    } else {
        b.subrange(0, last_dot(b))
    }
}

/// The basename split at its last `.`: stem and extension, if it has a `.`.
pub open spec fn split_ext(s: Seq<char>) -> Option<(Seq<char>, Seq<char>)> {
    let b = basename_of(s);
    let d = last_dot(b);
    if d < 0 {
        None
    } else {
        Some((b.subrange(0, d), b.subrange(d + 1, b.len() as int)))
    }
}

/// Everything before the last separator, or nothing when there is none.
pub open spec fn dir_of_spec(s: Seq<char>) -> Seq<char> {
    if last_sep(s) < 0 {
        Seq::empty()
    } else {
        s.subrange(0, last_sep(s))
    }
}

pub open spec fn bin_seq() -> Seq<char> {
    seq!['b', 'i', 'n']
}

/// The lower-cased extension, or `bin` when the basename has no `.`.
pub open spec fn container_spec(s: Seq<char>) -> Seq<char> {
    match split_ext(s) {
        Some((_, ext)) => lower_seq(ext),
        None => bin_seq(),
    }
}

/// A file is hidden when its basename starts with a dot.
pub open spec fn hidden_spec(s: Seq<char>) -> bool {
    basename_of(s).len() > 0 && basename_of(s)[0] == '.'
}

/// Whether `ext` equals one of `allowed`, ignoring ASCII case.
pub open spec fn ext_allowed(ext: Seq<char>, allowed: Seq<Seq<char>>) -> bool {
    exists|i: int| 0 <= i < allowed.len() && eq_ignore_case(#[trigger] allowed[i], ext)
}

/// A file with a non-empty stem whose extension is one of `allowed`.
pub open spec fn has_extension_in(s: Seq<char>, allowed: Seq<Seq<char>>) -> bool {
    match split_ext(s) {
        Some((stem, ext)) => stem.len() > 0 && ext_allowed(ext, allowed),
        None => false,
    }
}

pub open spec fn subtitle_extensions() -> Seq<Seq<char>> {
    seq![seq!['s', 'r', 't'], seq!['v', 't', 't'], seq!['a', 's', 's'], seq!['s', 's', 'a'], seq!['s', 'u', 'b']]
}

pub open spec fn strings_view(v: Seq<String>) -> Seq<Seq<char>> {
    v.map_values(|s: String| s@)
}

/// Position of the last separator in `v`.
pub fn last_sep_pos(v: &[char]) -> (r: Option<usize>)
    ensures
        match r {
            Some(i) => i as int == last_sep(v@) && i < v@.len(),
            None => last_sep(v@) == -1,
        },
{
    let mut i = v.len();
    while i > 0
        invariant
            i <= v.len(),
            last_sep(v@) == last_sep_before(v@, i as int),
        decreases i,
    {
        if v[i - 1] == '/' || v[i - 1] == '\\' {
            return Some(i - 1);
        }
        i -= 1;
    }
    None
}

/// Position of the last `c` in `v`.
pub fn last_char_pos(v: &[char], c: char) -> (r: Option<usize>)
    ensures
        match r {
            Some(i) => i as int == last_char_before(v@, v@.len() as int, c) && i < v@.len(),
            None => last_char_before(v@, v@.len() as int, c) == -1,
        },
{
    let mut i = v.len();
    while i > 0
        invariant
            i <= v.len(),
            last_char_before(v@, v@.len() as int, c) == last_char_before(v@, i as int, c),
        decreases i,
    {
        if v[i - 1] == c {
            return Some(i - 1);
        }
        i -= 1;
    }
    None
}

/// The chars of `v` from `from` up to `to`.
pub fn slice_chars(v: &[char], from: usize, to: usize) -> (r: Vec<char>)
    requires
        from <= to <= v.len(),
    ensures
        r@ == v@.subrange(from as int, to as int),
{
    let mut r: Vec<char> = Vec::new();
    let mut i = from;
    while i < to
        invariant
            from <= i <= to <= v.len(),
            r@ == v@.subrange(from as int, i as int),
        decreases to - i,
    {
        r.push(v[i]);
        i += 1;
    }
    r
}

pub proof fn lemma_last_sep_bounds(s: Seq<char>, n: int)
    requires
        0 <= n <= s.len(),
    ensures
        -1 <= last_sep_before(s, n) < n,
        last_sep_before(s, n) >= 0 ==> is_sep(s[last_sep_before(s, n)]),
        forall|j: int| last_sep_before(s, n) < j < n ==> !is_sep(#[trigger] s[j]),
    decreases n,
{
    if n > 0 {
        lemma_last_sep_bounds(s, n - 1);
    }
}

pub proof fn lemma_last_char_bounds(s: Seq<char>, n: int, c: char)
    requires
        0 <= n <= s.len(),
    ensures
        -1 <= last_char_before(s, n, c) < n,
        last_char_before(s, n, c) >= 0 ==> s[last_char_before(s, n, c)] == c,
        forall|j: int| last_char_before(s, n, c) < j < n ==> #[trigger] s[j] != c,
    decreases n,
{
    if n > 0 {
        lemma_last_char_bounds(s, n - 1, c);
    }
}

/// The chars of the basename of `path`.
pub fn basename_chars(path: &[char]) -> (r: Vec<char>)
    ensures
        r@ == basename_of(path@),
{
    proof {
        lemma_last_sep_bounds(path@, path@.len() as int);
    }
    let n = path.len();
    match last_sep_pos(path) {
        Some(i) => slice_chars(path, i + 1, n),
        None => slice_chars(path, 0, n),
    }
}

/// Stem and extension of the basename of `path`, split at its last `.`.
pub fn split_ext_chars(path: &[char]) -> (r: Option<(Vec<char>, Vec<char>)>)
    ensures
        match r {
            Some((stem, ext)) => split_ext(path@) == Some((stem@, ext@)),
            None => split_ext(path@) is None,
        },
{
    let base = basename_chars(path);
    proof {
        lemma_last_char_bounds(base@, base@.len() as int, '.');
    }
    match last_char_pos(&base, '.') {
        Some(d) => Some((slice_chars(&base, 0, d), slice_chars(&base, d + 1, base.len()))),
        None => None,
    }
}

/// The chars of the stem of `path`.
pub fn stem_chars(path: &[char]) -> (r: Vec<char>)
    ensures
        r@ == stem_of(path@),
{
    let base = basename_chars(path);
    proof {
        lemma_last_char_bounds(base@, base@.len() as int, '.');
    }
    match last_char_pos(&base, '.') {
        Some(d) => slice_chars(&base, 0, d),
        None => base,
    }
}

/// The last path component of `path`.
pub fn basename(path: &str) -> (r: &str)
    ensures
        r@ == basename_of(path@),
{
    let v = chars_of(path);
    proof {
        lemma_last_sep_bounds(v@, v@.len() as int);
    }
    match last_sep_pos(&v) {
        Some(i) => path.substring_char(i + 1, v.len()),
        None => path.substring_char(0, v.len()),
    }
}

/// The basename of `path` without its extension.
pub fn file_stem(path: &str) -> (r: &str)
    ensures
        r@ == stem_of(path@),
{
    let base = basename(path);
    let v = chars_of(base);
    proof {
        lemma_last_char_bounds(v@, v@.len() as int, '.');
    }
    match last_char_pos(&v, '.') {
        Some(d) => base.substring_char(0, d),
        None => base,
    }
}

/// The directory part of `path`: everything before its last separator.
pub fn dir_of(path: &str) -> (r: &str)
    ensures
        r@ == dir_of_spec(path@),
{
    let v = chars_of(path);
    proof {
        lemma_last_sep_bounds(v@, v@.len() as int);
    }
    match last_sep_pos(&v) {
        Some(i) => path.substring_char(0, i),
        None => path.substring_char(0, 0),
    }
}

/// A file whose basename starts with a dot is hidden.
pub fn is_hidden(path: &str) -> (r: bool)
    ensures
        r == hidden_spec(path@),
{
    let v = chars_of(path);
    let base = basename_chars(&v);
    base.len() > 0 && base[0] == '.'
}

/// Lower-cases every ASCII letter of `v`.
pub fn lower_chars(v: &[char]) -> (r: Vec<char>)
    ensures
        r@ == lower_seq(v@),
{
    let mut r: Vec<char> = Vec::new();
    let mut i: usize = 0;
    while i < v.len()
        invariant
            i <= v.len(),
            r@ =~= lower_seq(v@.subrange(0, i as int)),
        decreases v.len() - i,
    {
        r.push(lower_char(v[i]));
        i += 1;
    }
    assert(v@.subrange(0, v@.len() as int) =~= v@);
    r
}

/// `a.eq_ignore_ascii_case(b)` on chars.
pub fn chars_eq_ignore_case(a: &[char], b: &[char]) -> (r: bool)
    ensures
        r == eq_ignore_case(a@, b@),
{
    if a.len() != b.len() {
        proof {
            assert(lower_seq(a@).len() != lower_seq(b@).len());
        }
        return false;
    }
    let mut i: usize = 0;
    while i < a.len()
        invariant
            a.len() == b.len(),
            i <= a.len(),
            forall|j: int| 0 <= j < i ==> lower(a@[j]) == lower(b@[j]),
        decreases a.len() - i,
    {
        if lower_char(a[i]) != lower_char(b[i]) {
            proof {
                assert(lower_seq(a@)[i as int] != lower_seq(b@)[i as int]);
            }
            return false;
        }
        i += 1;
    }
    assert(lower_seq(a@) =~= lower_seq(b@));
    true
}

/// Whether `ext` equals one of `allowed`, ignoring ASCII case.
pub fn ext_in(ext: &[char], allowed: &[String]) -> (r: bool)
    ensures
        r == ext_allowed(ext@, strings_view(allowed@)),
{
    let mut i: usize = 0;
    while i < allowed.len()
        invariant
            i <= allowed.len(),
            forall|j: int| 0 <= j < i ==> !eq_ignore_case(#[trigger] strings_view(allowed@)[j], ext@),
        decreases allowed.len() - i,
    {
        let candidate = chars_of(allowed[i].as_str());
        if chars_eq_ignore_case(&candidate, ext) {
            proof {
                assert(strings_view(allowed@)[i as int] == candidate@);
                assert(eq_ignore_case(candidate@, ext@) == eq_ignore_case(ext@, candidate@));
            }
            return true;
        }
        proof {
            assert(strings_view(allowed@)[i as int] == candidate@);
        }
        i += 1;
    }
    false
}

/// A media file: a non-empty stem and one of the given extensions, in any case.
pub fn is_media_candidate(path: &str, extensions: &[String]) -> (r: bool)
    ensures
        r == has_extension_in(path@, strings_view(extensions@)),
{
    let v = chars_of(path);
    match split_ext_chars(&v) {
        Some((stem, ext)) => stem.len() > 0 && ext_in(&ext, extensions),
        None => false,
    }
}


/// The media extensions a scan ingests by default.
pub open spec fn default_extension_list() -> Seq<Seq<char>> {
    seq![
        seq!['m', 'k', 'v'],
        seq!['m', 'p', '4'],
        seq!['a', 'v', 'i'],
        seq!['m', 'o', 'v'],
        seq!['m', '4', 'v'],
        seq!['w', 'm', 'v'],
        seq!['f', 'l', 'v'],
        seq!['w', 'e', 'b', 'm'],
        seq!['m', 'p', 'g'],
        seq!['m', 'p', 'e', 'g'],
        seq!['t', 's'],
        seq!['m', '2', 't', 's'],
    ]
}

/// Strings holding the given char sequences, in order.
pub fn strings_of(words: &Vec<Vec<char>>) -> (r: Vec<String>)
    ensures
        strings_view(r@) == words@.map_values(|w: Vec<char>| w@),
{
    let mut r: Vec<String> = Vec::new();
    let mut i: usize = 0;
    while i < words.len()
        invariant
            i <= words.len(),
            r@.len() == i,
            forall|j: int| 0 <= j < i ==> #[trigger] r@[j]@ == words@[j]@,
        decreases words.len() - i,
    {
        r.push(string_of(words[i].as_slice()));
        i += 1;
    }
    assert(strings_view(r@) =~= words@.map_values(|w: Vec<char>| w@));
    r
}

/// The media extensions a scan ingests unless told otherwise.
pub fn default_extensions() -> (r: Vec<String>)
    ensures
        strings_view(r@) == default_extension_list(),
{
    let words: Vec<Vec<char>> = vec![
        vec!['m', 'k', 'v'],
        vec!['m', 'p', '4'],
        vec!['a', 'v', 'i'],
        vec!['m', 'o', 'v'],
        vec!['m', '4', 'v'],
        vec!['w', 'm', 'v'],
        vec!['f', 'l', 'v'],
        vec!['w', 'e', 'b', 'm'],
        vec!['m', 'p', 'g'],
        vec!['m', 'p', 'e', 'g'],
        vec!['t', 's'],
        vec!['m', '2', 't', 's'],
    ];
    let r = strings_of(&words);
    assert(words@.map_values(|w: Vec<char>| w@) =~= default_extension_list());
    r
}

/// A subtitle file: a non-empty stem and a subtitle extension, in any case.
pub fn is_subtitle_file(path: &str) -> (r: bool)
    ensures
        r == has_extension_in(path@, subtitle_extensions()),
{
    let allowed = strings_of(&vec![vec!['s', 'r', 't'], vec!['v', 't', 't'], vec!['a', 's', 's'], vec!['s', 's', 'a'], vec!['s', 'u', 'b']]);
    proof {
        assert(strings_view(allowed@) =~= subtitle_extensions());
    }
    let v = chars_of(path);
    match split_ext_chars(&v) {
        Some((stem, ext)) => stem.len() > 0 && ext_in(&ext, &allowed),
        None => false,
    }
}

/// The lower-cased extension of `path`, or `bin` when it has none.
pub fn container_of(path: &str) -> (r: String)
    ensures
        r@ == container_spec(path@),
{
    let v = chars_of(path);
    match split_ext_chars(&v) {
        Some((_, ext)) => string_of(&lower_chars(&ext)),
        None => string_of(&vec!['b', 'i', 'n']),
    }
}

/// A container name holds no path separator and no upper-case ASCII letter: it is the
/// lower-cased extension of the basename, or `bin`.
pub proof fn law_container_is_a_plain_lower_case_name(path: Seq<char>)
    ensures
        forall|i: int| 0 <= i < container_spec(path).len() ==> !is_sep(#[trigger] container_spec(path)[i])
            && !crate::chars::is_ascii_upper(container_spec(path)[i]),
{
    lemma_last_sep_bounds(path, path.len() as int);
    let b = basename_of(path);
    assert forall|j: int| 0 <= j < b.len() implies !is_sep(#[trigger] b[j]) by {
        assert(b[j] == path[last_sep(path) + 1 + j]);
    }
    lemma_last_char_bounds(b, b.len() as int, '.');
    match split_ext(path) {
        Some((_, ext)) => {
            let d = last_dot(b);
            assert forall|i: int| 0 <= i < container_spec(path).len() implies !is_sep(#[trigger] container_spec(path)[i])
                && !crate::chars::is_ascii_upper(container_spec(path)[i]) by {
                assert(ext[i] == b[d + 1 + i]);
                let c = ext[i];
                assert(container_spec(path)[i] == crate::chars::lower(c));
                if crate::chars::is_ascii_upper(c) {
                    assert(((c as u32) + 32) as char == crate::chars::lower(c));
                }
            }
        },
        None => {},
    }
}
} // verus!
