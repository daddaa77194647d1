use vstd::prelude::*;
use crate::chars::{is_ascii_digit, is_ascii_lower};
use crate::unicode::{is_word_char, word_char};

verus! {

// The filename grammar: season/episode markers, release years, release junk and
// resolution tokens, each matched leftmost-first with greedy counts and
// Unicode word boundaries, case folded where the grammar says so.

pub open spec fn word_at(s: Seq<char>, i: int) -> bool {
    0 <= i < s.len() && word_char(s[i])
}

/// A word boundary at position `p`: a word char on exactly one side.
pub open spec fn boundary(s: Seq<char>, p: int) -> bool {
    word_at(s, p - 1) != word_at(s, p)
}

pub open spec fn digit_at(s: Seq<char>, i: int) -> bool {
    0 <= i < s.len() && is_ascii_digit(s[i])
}

/// The number of ASCII digits in a row from `i`.
pub open spec fn digit_run(s: Seq<char>, i: int) -> nat
    decreases s.len() - i,
{
    if digit_at(s, i) {
        1 + digit_run(s, i + 1)
    } else {
        0
    }
}

pub open spec fn digit_value(c: char) -> nat {
    ((c as int) - ('0' as int)) as nat
}

/// The decimal value of a run of digits.
pub open spec fn value_of(t: Seq<char>) -> nat
    decreases t.len(),
{
    if t.len() == 0 {
        0
    } else {
        value_of(t.drop_last()) * 10 + digit_value(t.last())
    }
}

pub open spec fn upper_of(l: char) -> char {
    ((l as u32) - 32) as char
}

/// `c` matches the pattern char `l` under case-insensitive matching: simple case
/// folding, which also pairs `s` with U+017F and `k` with U+212A.
pub open spec fn ci_eq(c: char, l: char) -> bool {
    ||| c == l
    ||| (is_ascii_lower(l) && c == upper_of(l))
    ||| (l == 's' && c == '\u{17F}')
    ||| (l == 'k' && c == '\u{212A}')
}

pub open spec fn min3(a: nat) -> nat {
    if a < 3 {
        a
    } else {
        3
    }
}

/// `\bs([0-9]{1,2})e([0-9]{1,3})` (case-insensitive) starting at `p`: season and episode.
pub open spec fn se_at(s: Seq<char>, p: int) -> Option<(nat, nat)> {
    if 0 <= p < s.len() && boundary(s, p) && ci_eq(s[p], 's') {
        let n = digit_run(s, p + 1);
        let q = p + 2 + n;
        if 1 <= n <= 2 && p + 1 + n < s.len() && ci_eq(s[p + 1 + n], 'e') && digit_at(s, q) {
            let m = min3(digit_run(s, q));
            Some((value_of(s.subrange(p + 1, p + 1 + n)), value_of(s.subrange(q, q + m))))
        } else {
            None
        }
    } else {
        None
    }
}

/// Greedy episode digits followed by a word boundary: the longest `m` up to the
/// given count with a boundary after it, or 0.
pub open spec fn x_episode_len(s: Seq<char>, q: int, m: int) -> int
    decreases m,
{
    if m <= 0 {
        0
    } else if boundary(s, q + m) {
        m
    } else {
        x_episode_len(s, q, m - 1)
    }
}

/// `\b([0-9]{1,2})x([0-9]{1,3})\b` starting at `p`: season and episode.
pub open spec fn x_at(s: Seq<char>, p: int) -> Option<(nat, nat)> {
    if 0 <= p < s.len() && boundary(s, p) {
        let n = digit_run(s, p);
        let q = p + n + 1;
        if 1 <= n <= 2 && p + n < s.len() && s[p + n] == 'x' {
            let m = x_episode_len(s, q, min3(digit_run(s, q)) as int);
            if m >= 1 {
                Some((value_of(s.subrange(p, p + n)), value_of(s.subrange(q, q + m))))
            } else {
                None
            }
        } else {
            None
        }
    } else {
        None
    }
}

/// The leftmost `S01E02`-style match at or after `p`: season, episode, start.
pub open spec fn first_se_from(s: Seq<char>, p: int) -> Option<(nat, nat, int)>
    decreases s.len() - p,
{
    if p < 0 || p >= s.len() {
        None
    } else {
        match se_at(s, p) {
            Some((a, b)) => Some((a, b, p)),
            None => first_se_from(s, p + 1),
        }
    }
}

/// The leftmost `1x02`-style match at or after `p`: season, episode, start.
pub open spec fn first_x_from(s: Seq<char>, p: int) -> Option<(nat, nat, int)>
    decreases s.len() - p,
{
    if p < 0 || p >= s.len() {
        None
    } else {
        match x_at(s, p) {
            Some((a, b)) => Some((a, b, p)),
            None => first_x_from(s, p + 1),
        }
    }
}

/// Season, episode and start of the season/episode marker: the `S01E02` form
/// anywhere wins over the `1x02` form.
pub open spec fn season_episode_spec(s: Seq<char>) -> Option<(nat, nat, int)> {
    match first_se_from(s, 0) {
        Some(found) => Some(found),
        None => first_x_from(s, 0),
    }
}

pub open spec fn century_ok(a: char, b: char) -> bool {
    (a == '1' && b == '9') || (a == '2' && b == '0')
}

/// `[(\[]((?:19|20)[0-9]{2})[)\]]` starting at `p`: the year.
pub open spec fn paren_year_at(s: Seq<char>, p: int) -> Option<nat> {
    if 0 <= p && p + 6 <= s.len() && (s[p] == '(' || s[p] == '[') && century_ok(s[p + 1], s[p + 2])
        && is_ascii_digit(s[p + 3]) && is_ascii_digit(s[p + 4]) && (s[p + 5] == ')' || s[p + 5] == ']') {
        Some(value_of(s.subrange(p + 1, p + 5)))
    } else {
        None
    }
}

/// `\b(?:19|20)[0-9]{2}\b` starting at `p`: the year.
pub open spec fn bare_year_at(s: Seq<char>, p: int) -> Option<nat> {
    if 0 <= p && p + 4 <= s.len() && boundary(s, p) && century_ok(s[p], s[p + 1]) && is_ascii_digit(s[p + 2])
        && is_ascii_digit(s[p + 3]) && boundary(s, p + 4) {
        Some(value_of(s.subrange(p, p + 4)))
    } else {
        None
    }
}

pub open spec fn first_paren_year_from(s: Seq<char>, p: int) -> Option<(nat, int)>
    decreases s.len() - p,
{
    if p < 0 || p >= s.len() {
        None
    } else {
        match paren_year_at(s, p) {
            Some(y) => Some((y, p)),
            None => first_paren_year_from(s, p + 1),
        }
    }
}

pub open spec fn first_bare_year_from(s: Seq<char>, p: int) -> Option<(nat, int)>
    decreases s.len() - p,
{
    if p < 0 || p >= s.len() {
        None
    } else {
        match bare_year_at(s, p) {
            Some(y) => Some((y, p)),
            None => first_bare_year_from(s, p + 1),
        }
    }
}

/// Year and start of the release year: a bracketed year anywhere wins over a bare one.
pub open spec fn year_spec(s: Seq<char>) -> Option<(nat, int)> {
    match first_paren_year_from(s, 0) {
        Some(found) => Some(found),
        None => first_bare_year_from(s, 0),
    }
}

/// `w` (lower case) matches at `p`, case-insensitively.
pub open spec fn ci_match_at(s: Seq<char>, p: int, w: Seq<char>) -> bool {
    &&& 0 <= p
    &&& p + w.len() <= s.len()
    &&& forall|i: int| 0 <= i < w.len() ==> ci_eq(#[trigger] s[p + i], w[i])
}

/// `w` matches at `p` and a word boundary follows it.
pub open spec fn token_at(s: Seq<char>, p: int, w: Seq<char>) -> bool {
    ci_match_at(s, p, w) && boundary(s, p + w.len())
}

pub open spec fn resolution_words() -> Seq<Seq<char>> {
    seq![
        seq!['4', '8', '0', 'p'],
        seq!['5', '7', '6', 'p'],
        seq!['7', '2', '0', 'p'],
        seq!['1', '0', '8', '0', 'p'],
        seq!['2', '1', '6', '0', 'p'],
        seq!['4', 'k'],
    ]
}

/// The release junk that ends a title: resolutions, sources and codecs.
pub open spec fn junk_words() -> Seq<Seq<char>> {
    resolution_words() + seq![
        seq!['b', 'l', 'u', 'r', 'a', 'y'],
        seq!['b', 'l', 'u', '-', 'r', 'a', 'y'],
        seq!['b', 'd', 'r', 'i', 'p'],
        seq!['b', 'r', 'r', 'i', 'p'],
        seq!['w', 'e', 'b', 'r', 'i', 'p'],
        seq!['w', 'e', 'b', '-', 'd', 'l'],
        seq!['w', 'e', 'b', 'd', 'l'],
        seq!['h', 'd', 't', 'v'],
        seq!['d', 'v', 'd', 'r', 'i', 'p'],
        seq!['x', '2', '6', '4'],
        seq!['x', '2', '6', '5'],
        seq!['h', '2', '6', '4'],
        seq!['h', '2', '6', '5'],
        seq!['h', 'e', 'v', 'c'],
        seq!['a', 'a', 'c'],
        seq!['a', 'c', '3'],
        seq!['d', 't', 's'],
        seq!['x', 'v', 'i', 'd'],
        seq!['r', 'e', 'm', 'u', 'x'],
    ]
}

/// `(?i)\b(<junk>)\b` starts at `p`.
pub open spec fn junk_at(s: Seq<char>, p: int) -> bool {
    boundary(s, p) && exists|i: int| 0 <= i < junk_words().len() && token_at(s, p, #[trigger] junk_words()[i])
}

pub open spec fn first_junk_from(s: Seq<char>, p: int) -> Option<int>
    decreases s.len() - p,
{
    if p < 0 || p >= s.len() {
        None
    } else if junk_at(s, p) {
        Some(p)
    } else {
        first_junk_from(s, p + 1)
    }
}

/// The first resolution alternative, from the `i`-th on, that matches at `p`.
pub open spec fn resolution_alt_from(s: Seq<char>, p: int, i: int) -> Option<int>
    decreases resolution_words().len() - i,
{
    if i < 0 || i >= resolution_words().len() {
        None
    } else if token_at(s, p, resolution_words()[i]) {
        Some(i)
    } else {
        resolution_alt_from(s, p, i + 1)
    }
}

pub open spec fn resolution_at(s: Seq<char>, p: int) -> Option<int> {
    if boundary(s, p) {
        resolution_alt_from(s, p, 0)
    } else {
        None
    }
}

/// The leftmost resolution token at or after `p`: start and alternative.
pub open spec fn first_resolution_from(s: Seq<char>, p: int) -> Option<(int, int)>
    decreases s.len() - p,
{
    if p < 0 || p >= s.len() {
        None
    } else {
        match resolution_at(s, p) {
            Some(i) => Some((p, i)),
            None => first_resolution_from(s, p + 1),
        }
    }
}

/// The text of the leftmost resolution token, as found.
pub open spec fn resolution_token(s: Seq<char>) -> Option<Seq<char>> {
    match first_resolution_from(s, 0) {
        Some((p, i)) => Some(s.subrange(p, p + resolution_words()[i].len())),
        None => None,
    }
}

// ---------------------------------------------------------------- exec

pub fn boundary_at(v: &[char], p: usize) -> (r: bool)
    requires
        p <= v.len(),
    ensures
        r == boundary(v@, p as int),
{
    let before = p > 0 && is_word_char(v[p - 1]);
    let after = p < v.len() && is_word_char(v[p]);
    before != after
}

pub fn is_digit(c: char) -> (r: bool)
    ensures
        r == is_ascii_digit(c),
{
    '0' <= c && c <= '9'
}

proof fn lemma_digit_run(s: Seq<char>, i: int)
    requires
        0 <= i <= s.len(),
    ensures
        i + digit_run(s, i) <= s.len(),
        forall|k: int| i <= k < i + digit_run(s, i) ==> digit_at(s, k),
        !digit_at(s, i + digit_run(s, i)),
    decreases s.len() - i,
{
    if digit_at(s, i) {
        lemma_digit_run(s, i + 1);
    }
}

proof fn lemma_run_digits(s: Seq<char>, i: int, k: int)
    requires
        0 <= i <= s.len(),
        0 <= k <= digit_run(s, i),
    ensures
        all_digits(s.subrange(i, i + k)),
        i + k <= s.len(),
{
    lemma_digit_run(s, i);
    assert forall|j: int| 0 <= j < k implies is_ascii_digit(#[trigger] s.subrange(i, i + k)[j]) by {
        assert(digit_at(s, i + j));
    }
}

/// The number of digits in a row from `i`.
pub fn digit_run_at(v: &[char], i: usize) -> (r: usize)
    requires
        i <= v.len(),
    ensures
        r as int == digit_run(v@, i as int),
        i + r <= v.len(),
{
    let mut j = i;
    while j < v.len() && is_digit(v[j])
        invariant
            i <= j <= v.len(),
            digit_run(v@, i as int) == (j - i) + digit_run(v@, j as int),
        decreases v.len() - j,
    {
        j += 1;
    }
    j - i
}

pub open spec fn all_digits(s: Seq<char>) -> bool {
    forall|i: int| 0 <= i < s.len() ==> is_ascii_digit(#[trigger] s[i])
}

pub open spec fn pow10(n: nat) -> nat
    decreases n,
{
    if n == 0 {
        1
    } else {
        10 * pow10((n - 1) as nat)
    }
}

/// The value of the digits of `v` from `from` up to `to` (at most four of them).
pub fn digits_value(v: &[char], from: usize, to: usize) -> (r: u16)
    requires
        from <= to <= v.len(),
        to - from <= 4,
        all_digits(v@.subrange(from as int, to as int)),
    ensures
        r as nat == value_of(v@.subrange(from as int, to as int)),
        (r as nat) < pow10((to - from) as nat),
{
    let mut acc: u16 = 0;
    let mut k = from;
    assert(v@.subrange(from as int, from as int) =~= Seq::<char>::empty());
    while k < to
        invariant
            from <= k <= to <= v.len(),
            to - from <= 4,
            all_digits(v@.subrange(from as int, to as int)),
            acc as nat == value_of(v@.subrange(from as int, k as int)),
            (acc as nat) < pow10((k - from) as nat),
        decreases to - k,
    {
        let c = v[k];
        assert(v@.subrange(from as int, to as int)[k - from] == c);
        assert(v@.subrange(from as int, k + 1).drop_last() =~= v@.subrange(from as int, k as int));
        assert(pow10((k - from) as nat) <= 1000) by {
            reveal_with_fuel(pow10, 5);
        }
        let d: u16 = ((c as u32) - 48) as u16;
        acc = acc * 10 + d;
        k += 1;
    }
    acc
}

/// `c` matches the lower-case pattern char `l`, case-insensitively.
pub fn ci_eq_exec(c: char, l: char) -> (r: bool)
    ensures
        r == ci_eq(c, l),
{
    if c == l {
        return true;
    }
    if 'a' <= l && l <= 'z' {
        let code: u32 = l as u32;
        let up: u8 = (code - 32) as u8;
        if c == (up as char) {
            return true;
        }
    }
    (l == 's' && c == '\u{17F}') || (l == 'k' && c == '\u{212A}')
}

/// The `S01E02` form at `p`.
pub fn se_at_exec(v: &[char], p: usize) -> (r: Option<(u16, u16)>)
    requires
        p < v.len(),
    ensures
        match se_at(v@, p as int) {
            Some((a, b)) => r == Some((a as u16, b as u16)) && a < 100 && b < 1000,
            None => r is None,
        },
{
    if !(boundary_at(v, p) && ci_eq_exec(v[p], 's')) {
        return None;
    }
    let n = digit_run_at(v, p + 1);
    if !(1 <= n && n <= 2 && p + 1 + n < v.len() && ci_eq_exec(v[p + 1 + n], 'e')) {
        return None;
    }
    let q = p + 2 + n;
    if !(q < v.len() && is_digit(v[q])) {
        return None;
    }
    let run = digit_run_at(v, q);
    let m = if run < 3 { run } else { 3 };
    proof {
        lemma_run_digits(v@, p + 1, n as int);
        lemma_run_digits(v@, q as int, m as int);
    }
    let season = digits_value(v, p + 1, p + 1 + n);
    let episode = digits_value(v, q, q + m);
    proof {
        reveal_with_fuel(pow10, 4);
    }
    Some((season, episode))
}

/// The episode length for the `1x02` form: greedy digits followed by a boundary.
fn x_episode_len_exec(v: &[char], q: usize, max: usize) -> (r: usize)
    requires
        q + max <= v.len(),
    ensures
        r as int == x_episode_len(v@, q as int, max as int),
        r <= max,
{
    let mut m = max;
    while m > 0 && !boundary_at(v, q + m)
        invariant
            m <= max,
            q + max <= v.len(),
            x_episode_len(v@, q as int, max as int) == x_episode_len(v@, q as int, m as int),
        decreases m,
    {
        m -= 1;
    }
    m
}

/// The `1x02` form at `p`.
pub fn x_at_exec(v: &[char], p: usize) -> (r: Option<(u16, u16)>)
    requires
        p < v.len(),
    ensures
        match x_at(v@, p as int) {
            Some((a, b)) => r == Some((a as u16, b as u16)) && a < 100 && b < 1000,
            None => r is None,
        },
{
    if !boundary_at(v, p) {
        return None;
    }
    let n = digit_run_at(v, p);
    if !(1 <= n && n <= 2 && p + n < v.len() && v[p + n] == 'x') {
        return None;
    }
    let q = p + n + 1;
    let run = digit_run_at(v, q);
    let max = if run < 3 { run } else { 3 };
    let m = x_episode_len_exec(v, q, max);
    if m < 1 {
        return None;
    }
    proof {
        lemma_run_digits(v@, p as int, n as int);
        lemma_run_digits(v@, q as int, m as int);
    }
    let season = digits_value(v, p, p + n);
    let episode = digits_value(v, q, q + m);
    proof {
        reveal_with_fuel(pow10, 4);
    }
    Some((season, episode))
}

/// Season, episode and start (in chars) of the season/episode marker of `stem`.
pub fn season_episode_chars(v: &[char]) -> (r: Option<(u16, u16, usize)>)
    ensures
        match season_episode_spec(v@) {
            Some((a, b, p)) => r == Some((a as u16, b as u16, p as usize)) && a < 100 && b < 1000 && 0 <= p < v.len(),
            None => r is None,
        },
{
    let mut p: usize = 0;
    while p < v.len()
        invariant
            p <= v.len(),
            first_se_from(v@, 0) == first_se_from(v@, p as int),
        decreases v.len() - p,
    {
        if let Some((a, b)) = se_at_exec(v, p) {
            return Some((a, b, p));
        }
        p += 1;
    }
    let mut p: usize = 0;
    while p < v.len()
        invariant
            p <= v.len(),
            first_se_from(v@, 0) is None,
            first_x_from(v@, 0) == first_x_from(v@, p as int),
        decreases v.len() - p,
    {
        if let Some((a, b)) = x_at_exec(v, p) {
            return Some((a, b, p));
        }
        p += 1;
    }
    None
}

fn century_ok_exec(a: char, b: char) -> (r: bool)
    ensures
        r == century_ok(a, b),
{
    (a == '1' && b == '9') || (a == '2' && b == '0')
}

fn paren_year_at_exec(v: &[char], p: usize) -> (r: Option<u16>)
    requires
        p < v.len(),
    ensures
        match paren_year_at(v@, p as int) {
            Some(y) => r == Some(y as u16) && y < 10000,
            None => r is None,
        },
{
    if v.len() >= 6 && p <= v.len() - 6 && (v[p] == '(' || v[p] == '[') && century_ok_exec(v[p + 1], v[p + 2])
        && is_digit(v[p + 3]) && is_digit(v[p + 4]) && (v[p + 5] == ')' || v[p + 5] == ']') {
        proof {
            assert(all_digits(v@.subrange(p + 1, p + 5)));
            reveal_with_fuel(pow10, 5);
        }
        Some(digits_value(v, p + 1, p + 5))
    } else {
        None
    }
}

fn bare_year_at_exec(v: &[char], p: usize) -> (r: Option<u16>)
    requires
        p < v.len(),
    ensures
        match bare_year_at(v@, p as int) {
            Some(y) => r == Some(y as u16) && y < 10000,
            None => r is None,
        },
{
    if v.len() >= 4 && p <= v.len() - 4 && boundary_at(v, p) && century_ok_exec(v[p], v[p + 1]) && is_digit(v[p + 2])
        && is_digit(v[p + 3]) && boundary_at(v, p + 4) {
        proof {
            assert(all_digits(v@.subrange(p as int, p + 4)));
            reveal_with_fuel(pow10, 5);
        }
        Some(digits_value(v, p, p + 4))
    } else {
        None
    }
}

/// Year and start (in chars) of the release year of `stem`.
pub fn year_chars(v: &[char]) -> (r: Option<(u16, usize)>)
    ensures
        match year_spec(v@) {
            Some((y, p)) => r == Some((y as u16, p as usize)) && y < 10000 && 0 <= p < v.len(),
            None => r is None,
        },
{
    let mut p: usize = 0;
    while p < v.len()
        invariant
            p <= v.len(),
            first_paren_year_from(v@, 0) == first_paren_year_from(v@, p as int),
        decreases v.len() - p,
    {
        if let Some(y) = paren_year_at_exec(v, p) {
            return Some((y, p));
        }
        p += 1;
    }
    let mut p: usize = 0;
    while p < v.len()
        invariant
            p <= v.len(),
            first_paren_year_from(v@, 0) is None,
            first_bare_year_from(v@, 0) == first_bare_year_from(v@, p as int),
        decreases v.len() - p,
    {
        if let Some(y) = bare_year_at_exec(v, p) {
            return Some((y, p));
        }
        p += 1;
    }
    None
}

pub open spec fn views_of(v: Seq<Vec<char>>) -> Seq<Seq<char>> {
    v.map_values(|w: Vec<char>| w@)
}

/// The junk alternatives, in the grammar's order.
pub fn junk_list() -> (r: Vec<Vec<char>>)
    ensures
        views_of(r@) == junk_words(),
{
    let words: Vec<Vec<char>> = vec![
        vec!['4', '8', '0', 'p'],
        vec!['5', '7', '6', 'p'],
        vec!['7', '2', '0', 'p'],
        vec!['1', '0', '8', '0', 'p'],
        vec!['2', '1', '6', '0', 'p'],
        vec!['4', 'k'],
        vec!['b', 'l', 'u', 'r', 'a', 'y'],
        vec!['b', 'l', 'u', '-', 'r', 'a', 'y'],
        vec!['b', 'd', 'r', 'i', 'p'],
        vec!['b', 'r', 'r', 'i', 'p'],
        vec!['w', 'e', 'b', 'r', 'i', 'p'],
        vec!['w', 'e', 'b', '-', 'd', 'l'],
        vec!['w', 'e', 'b', 'd', 'l'],
        vec!['h', 'd', 't', 'v'],
        vec!['d', 'v', 'd', 'r', 'i', 'p'],
        vec!['x', '2', '6', '4'],
        vec!['x', '2', '6', '5'],
        vec!['h', '2', '6', '4'],
        vec!['h', '2', '6', '5'],
        vec!['h', 'e', 'v', 'c'],
        vec!['a', 'a', 'c'],
        vec!['a', 'c', '3'],
        vec!['d', 't', 's'],
        vec!['x', 'v', 'i', 'd'],
        vec!['r', 'e', 'm', 'u', 'x'],
    ];
    assert(views_of(words@) =~= junk_words());
    words
}

/// The resolution alternatives, in the grammar's order.
pub fn resolution_list() -> (r: Vec<Vec<char>>)
    ensures
        views_of(r@) == resolution_words(),
{
    let words: Vec<Vec<char>> = vec![
        vec!['4', '8', '0', 'p'],
        vec!['5', '7', '6', 'p'],
        vec!['7', '2', '0', 'p'],
        vec!['1', '0', '8', '0', 'p'],
        vec!['2', '1', '6', '0', 'p'],
        vec!['4', 'k'],
    ];
    assert(views_of(words@) =~= resolution_words());
    words
}

/// `w` matches at `p`, case-insensitively.
pub fn ci_match_exec(v: &[char], p: usize, w: &[char]) -> (r: bool)
    requires
        p <= v.len(),
    ensures
        r == ci_match_at(v@, p as int, w@),
{
    if w.len() > v.len() - p {
        return false;
    }
    let mut i: usize = 0;
    while i < w.len()
        invariant
            p + w.len() <= v.len(),
            i <= w.len(),
            forall|j: int| 0 <= j < i ==> ci_eq(#[trigger] v@[p + j], w@[j]),
        decreases w.len() - i,
    {
        if !ci_eq_exec(v[p + i], w[i]) {
            proof {
                let j = i as int;
                assert(!ci_eq(v@[p + j], w@[j]));
            }
            return false;
        }
        i += 1;
    }
    true
}

/// `w` matches at `p` and a word boundary follows it.
pub fn token_at_exec(v: &[char], p: usize, w: &[char]) -> (r: bool)
    requires
        p <= v.len(),
    ensures
        r == token_at(v@, p as int, w@),
{
    ci_match_exec(v, p, w) && boundary_at(v, p + w.len())
}

fn junk_at_exec(v: &[char], p: usize, words: &Vec<Vec<char>>) -> (r: bool)
    requires
        p <= v.len(),
        views_of(words@) == junk_words(),
    ensures
        r == junk_at(v@, p as int),
{
    if !boundary_at(v, p) {
        return false;
    }
    let mut i: usize = 0;
    while i < words.len()
        invariant
            p <= v.len(),
            views_of(words@) == junk_words(),
            boundary(v@, p as int),
            i <= words.len(),
            forall|j: int| 0 <= j < i ==> !token_at(v@, p as int, #[trigger] junk_words()[j]),
        decreases words.len() - i,
    {
        proof {
            assert(words@[i as int]@ == junk_words()[i as int]);
        }
        if token_at_exec(v, p, words[i].as_slice()) {
            proof {
                assert(views_of(words@).len() == words@.len());
                assert(token_at(v@, p as int, junk_words()[i as int]));
                assert(0 <= i < junk_words().len());
            }
            return true;
        }
        i += 1;
    }
    assert(words@.len() == junk_words().len());
    false
}

/// Start (in chars) of the first release-junk token of `stem`.
pub fn junk_start_chars(v: &[char]) -> (r: Option<usize>)
    ensures
        match first_junk_from(v@, 0) {
            Some(p) => r == Some(p as usize) && 0 <= p < v.len(),
            None => r is None,
        },
{
    let words = junk_list();
    let mut p: usize = 0;
    while p < v.len()
        invariant
            p <= v.len(),
            views_of(words@) == junk_words(),
            first_junk_from(v@, 0) == first_junk_from(v@, p as int),
        decreases v.len() - p,
    {
        if junk_at_exec(v, p, &words) {
            return Some(p);
        }
        p += 1;
    }
    None
}

proof fn lemma_resolution_alt(s: Seq<char>, p: int, j: int)
    ensures
        resolution_alt_from(s, p, j) matches Some(i) ==> 0 <= i < resolution_words().len()
            && token_at(s, p, resolution_words()[i]),
    decreases resolution_words().len() - j,
{
    if 0 <= j < resolution_words().len() && !token_at(s, p, resolution_words()[j]) {
        lemma_resolution_alt(s, p, j + 1);
    }
}

fn resolution_at_exec(v: &[char], p: usize, words: &Vec<Vec<char>>) -> (r: Option<usize>)
    requires
        p <= v.len(),
        views_of(words@) == resolution_words(),
    ensures
        match resolution_at(v@, p as int) {
            Some(i) => r == Some(i as usize) && 0 <= i < resolution_words().len(),
            None => r is None,
        },
{
    if !boundary_at(v, p) {
        return None;
    }
    let mut i: usize = 0;
    while i < words.len()
        invariant
            p <= v.len(),
            views_of(words@) == resolution_words(),
            boundary(v@, p as int),
            i <= words.len(),
            resolution_alt_from(v@, p as int, 0) == resolution_alt_from(v@, p as int, i as int),
        decreases words.len() - i,
    {
        proof {
            assert(words@[i as int]@ == resolution_words()[i as int]);
        }
        if token_at_exec(v, p, words[i].as_slice()) {
            assert(views_of(words@).len() == words@.len());
            assert(0 <= i < resolution_words().len());
            assert(resolution_alt_from(v@, p as int, i as int) == Some(i as int));
            return Some(i);
        }
        i += 1;
    }
    assert(words@.len() == resolution_words().len());
    None
}

/// The text of the leftmost resolution token of `stem`, as it stands there.
pub fn resolution_token_chars(v: &[char]) -> (r: Option<Vec<char>>)
    ensures
        match resolution_token(v@) {
            Some(t) => r is Some && r->0@ == t,
            None => r is None,
        },
{
    let words = resolution_list();
    let mut p: usize = 0;
    while p < v.len()
        invariant
            p <= v.len(),
            views_of(words@) == resolution_words(),
            first_resolution_from(v@, 0) == first_resolution_from(v@, p as int),
        decreases v.len() - p,
    {
        if let Some(i) = resolution_at_exec(v, p, &words) {
            proof {
                assert(words@[i as int]@ == resolution_words()[i as int]);
                lemma_resolution_alt(v@, p as int, 0);
            }
            let len = words[i].len();
            let mut t: Vec<char> = Vec::new();
            let mut k: usize = 0;
            while k < len
                invariant
                    p + len <= v.len(),
                    k <= len,
                    t@ == v@.subrange(p as int, p + k),
                decreases len - k,
            {
                t.push(v[p + k]);
                k += 1;
            }
            return Some(t);
        }
        p += 1;
    }
    None
}

} // verus!
