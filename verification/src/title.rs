use vstd::prelude::*;
use crate::chars::{chars_of, is_ascii_alnum, lower, lower_char, string_of};
use crate::unicode::{is_white, white_space};

verus! {

/// The chars of `s` with every run of `ws` chars between two kept chars turned
/// into one space, and any such run at either end dropped: what
/// `split(..).filter(non-empty).join(" ")` gives when `ws` marks the separators.
pub open spec fn squash_by(s: Seq<char>, ws: spec_fn(char) -> bool) -> Seq<char>
    decreases s.len(),
{
    if s.len() == 0 {
        Seq::empty()
    } else {
        let prev = squash_by(s.drop_last(), ws);
        let c = s.last();
        if ws(c) {
            prev
        } else if s.len() >= 2 && ws(s[s.len() - 2]) && prev.len() > 0 {
            prev.push(' ').push(c)
        } else {
            prev.push(c)
        }
    }
}

pub open spec fn is_space(c: char) -> bool {
    c == ' '
}

/// The char that `normalize_title` maps `c` to before squashing.
pub open spec fn title_key_char(c: char) -> char {
    if is_ascii_alnum(c) {
        lower(c)
    } else {
        ' '
    }
}

pub open spec fn title_key_chars(s: Seq<char>) -> Seq<char> {
    Seq::new(s.len(), |i: int| title_key_char(s[i]))
}

/// The title key: ASCII letters and digits, lower-cased, in words joined by single spaces.
pub open spec fn normalize_spec(s: Seq<char>) -> Seq<char> {
    squash_by(title_key_chars(s), |c: char| is_space(c))
}

pub open spec fn dot_to_space(c: char) -> char {
    if c == '.' || c == '_' {
        ' '
    } else {
        c
    }
}

pub open spec fn dots_to_spaces(s: Seq<char>) -> Seq<char> {
    Seq::new(s.len(), |i: int| dot_to_space(s[i]))
}

pub open spec fn is_edge(c: char) -> bool {
    c == '-' || c == ' '
}

pub open spec fn trim_front(s: Seq<char>) -> Seq<char>
    decreases s.len(),
{
    if s.len() > 0 && is_edge(s[0]) {
        trim_front(s.drop_first())
    } else {
        s
    }
}

pub open spec fn trim_back(s: Seq<char>) -> Seq<char>
    decreases s.len(),
{
    if s.len() > 0 && is_edge(s.last()) {
        trim_back(s.drop_last())
    } else {
        s
    }
}

/// `trim_matches(|c| c == '-' || c == ' ')`.
pub open spec fn trim_edges(s: Seq<char>) -> Seq<char> {
    trim_back(trim_front(s))
}

/// A display title from a raw name: dots and underscores become spaces, white
/// space is squashed, and dashes and spaces are trimmed from both ends.
pub open spec fn clean_spec(s: Seq<char>) -> Seq<char> {
    trim_edges(squash_by(dots_to_spaces(s), |c: char| white_space(c)))
}

/// The title key of `title`: ASCII letters and digits lower-cased, all else a
/// separator, the words joined by single spaces.
pub fn normalize_title(title: &str) -> (r: String)
    ensures
        r@ == normalize_spec(title@),
{
    let v = chars_of(title);
    let ghost m = title_key_chars(v@);
    let mut out: Vec<char> = Vec::new();
    let mut pending = false;
    let mut i: usize = 0;
    while i < v.len()
        invariant
            i <= v.len(),
            m == title_key_chars(v@),
            out@ == squash_by(m.subrange(0, i as int), |c: char| is_space(c)),
            pending == (i > 0 && is_space(m[i - 1])),
        decreases v.len() - i,
    {
        let c = v[i];
        proof {
            assert(m.subrange(0, i + 1).drop_last() =~= m.subrange(0, i as int));
        }
        if is_ascii_alnum_exec(c) {
            if pending && out.len() > 0 {
                out.push(' ');
            }
            out.push(lower_char(c));
            pending = false;
        } else {
            pending = true;
        }
        i += 1;
    }
    assert(m.subrange(0, v@.len() as int) =~= m);
    string_of(&out)
}

pub fn is_ascii_alnum_exec(c: char) -> (r: bool)
    ensures
        r == is_ascii_alnum(c),
{
    ('A' <= c && c <= 'Z') || ('a' <= c && c <= 'z') || ('0' <= c && c <= '9')
}

/// Drops dashes and spaces from both ends of `v`.
pub fn trim_edges_chars(v: &[char]) -> (r: Vec<char>)
    ensures
        r@ == trim_edges(v@),
{
    let n = v.len();
    let mut a: usize = 0;
    assert(v@.subrange(0, n as int) =~= v@);
    while a < n && (v[a] == '-' || v[a] == ' ')
        invariant
            n == v@.len(),
            a <= n,
            trim_front(v@) == trim_front(v@.subrange(a as int, n as int)),
        decreases n - a,
    {
        proof {
            assert(v@.subrange(a as int, n as int).drop_first() =~= v@.subrange(a + 1, n as int));
        }
        a += 1;
    }
    let mut b: usize = n;
    proof {
        assert(v@.subrange(a as int, n as int) =~= v@.subrange(a as int, b as int));
    }
    while b > a && (v[b - 1] == '-' || v[b - 1] == ' ')
        invariant
            n == v@.len(),
            a <= b <= n,
            trim_front(v@) == v@.subrange(a as int, n as int),
            trim_back(trim_front(v@)) == trim_back(v@.subrange(a as int, b as int)),
        decreases b - a,
    {
        proof {
            assert(v@.subrange(a as int, b as int).drop_last() =~= v@.subrange(a as int, b - 1));
        }
        b -= 1;
    }
    let mut r: Vec<char> = Vec::new();
    let mut k = a;
    while k < b
        invariant
            a <= k <= b <= n == v@.len(),
            r@ == v@.subrange(a as int, k as int),
        decreases b - k,
    {
        r.push(v[k]);
        k += 1;
    }
    r
}

/// A display title from a raw name: dots and underscores become spaces, runs of
/// white space become one space, and dashes and spaces go from both ends.
pub fn clean_title(raw: &str) -> (r: String)
    ensures
        r@ == clean_spec(raw@),
{
    let v = chars_of(raw);
    string_of(&clean_chars(&v))
}

/// `clean_title` on chars.
pub fn clean_chars(v: &[char]) -> (r: Vec<char>)
    ensures
        r@ == clean_spec(v@),
{
    let ghost m = dots_to_spaces(v@);
    let mut out: Vec<char> = Vec::new();
    let mut pending = false;
    let mut i: usize = 0;
    while i < v.len()
        invariant
            i <= v.len(),
            m == dots_to_spaces(v@),
            out@ == squash_by(m.subrange(0, i as int), |c: char| white_space(c)),
            pending == (i > 0 && white_space(m[i - 1])),
        decreases v.len() - i,
    {
        let c = if v[i] == '.' || v[i] == '_' {
            ' '
        } else {
            v[i]
        };
        proof {
            assert(m.subrange(0, i + 1).drop_last() =~= m.subrange(0, i as int));
        }
        if is_white(c) {
            pending = true;
        } else {
            if pending && out.len() > 0 {
                out.push(' ');
            }
            out.push(c);
            pending = false;
        }
        i += 1;
    }
    assert(m.subrange(0, v@.len() as int) =~= m);
    trim_edges_chars(&out)
}


/// A char that can appear in a title key: a space or a lower-case ASCII letter or digit.
pub open spec fn key_char(c: char) -> bool {
    c == ' ' || (is_ascii_alnum(c) && lower(c) == c)
}

/// A char sequence with no leading space and no two spaces in a row.
pub open spec fn no_lead_no_double(t: Seq<char>) -> bool {
    &&& (t.len() > 0 ==> t[0] != ' ')
    &&& forall|i: int| 0 <= i < t.len() - 1 && t[i] == ' ' ==> #[trigger] t[i + 1] != ' '
}

proof fn lemma_squash_space_shape(s: Seq<char>)
    requires
        forall|i: int| 0 <= i < s.len() ==> key_char(#[trigger] s[i]),
    ensures
        ({
            let o = squash_by(s, |c: char| is_space(c));
            &&& forall|i: int| 0 <= i < o.len() ==> key_char(#[trigger] o[i])
            &&& no_lead_no_double(o)
            &&& (o.len() > 0 ==> o.last() != ' ')
        }),
    decreases s.len(),
{
    if s.len() > 0 {
        let u = s.drop_last();
        assert forall|i: int| 0 <= i < u.len() implies key_char(#[trigger] u[i]) by {
            assert(u[i] == s[i]);
        }
        lemma_squash_space_shape(u);
        let prev = squash_by(u, |c: char| is_space(c));
        let o = squash_by(s, |c: char| is_space(c));
        assert(key_char(s.last()));
        if !is_space(s.last()) {
            if s.len() >= 2 && is_space(s[s.len() - 2]) && prev.len() > 0 {
                assert(o == prev.push(' ').push(s.last()));
                assert forall|i: int| 0 <= i < o.len() - 1 && o[i] == ' ' implies #[trigger] o[i + 1] != ' ' by {
                    if i < prev.len() - 1 {
                        assert(o[i] == prev[i] && o[i + 1] == prev[i + 1]);
                    }
                }
            } else {
                assert(o == prev.push(s.last()));
                assert forall|i: int| 0 <= i < o.len() - 1 && o[i] == ' ' implies #[trigger] o[i + 1] != ' ' by {
                    if i < prev.len() - 1 {
                        assert(o[i] == prev[i] && o[i + 1] == prev[i + 1]);
                    }
                }
            }
        }
    }
}

proof fn lemma_squash_space_fixed(t: Seq<char>)
    requires
        no_lead_no_double(t),
    ensures
        squash_by(t, |c: char| is_space(c)) == (if t.len() > 0 && t.last() == ' ' {
            t.drop_last()
        } else {
            t
        }),
    decreases t.len(),
{
    if t.len() > 0 {
        let u = t.drop_last();
        assert forall|i: int| 0 <= i < u.len() - 1 && u[i] == ' ' implies #[trigger] u[i + 1] != ' ' by {
            assert(t[i] == u[i] && t[i + 1] == u[i + 1]);
        }
        lemma_squash_space_fixed(u);
        if t.last() == ' ' {
            if u.len() > 0 {
                assert(t[u.len() - 1] == u.last());
                let j = t.len() - 2;
                assert(t[j + 1] == t.last());
                assert(u.last() != ' ');
            }
        } else if u.len() > 0 && u.last() == ' ' {
            assert(u.len() >= 2);
            assert(u.drop_last().push(' ').push(t.last()) =~= t);
        } else {
            assert(u.push(t.last()) =~= t);
        }
    }
}

proof fn lemma_squash_empty(s: Seq<char>, ws: spec_fn(char) -> bool)
    ensures
        (squash_by(s, ws).len() == 0) == (forall|i: int| 0 <= i < s.len() ==> ws(#[trigger] s[i])),
    decreases s.len(),
{
    if s.len() > 0 {
        let u = s.drop_last();
        lemma_squash_empty(u, ws);
        if forall|i: int| 0 <= i < s.len() ==> ws(#[trigger] s[i]) {
            assert forall|i: int| 0 <= i < u.len() implies ws(#[trigger] u[i]) by {
                assert(u[i] == s[i]);
            }
        } else {
            let k = choose|i: int| 0 <= i < s.len() && !ws(#[trigger] s[i]);
            if k < u.len() {
                assert(u[k] == s[k]);
            }
        }
    }
}

/// A title key holds only spaces and lower-case ASCII letters and digits; it neither
/// starts nor ends with a space and never holds two spaces in a row; and it is empty
/// exactly when the title holds no ASCII letter or digit.
pub proof fn law_title_key_shape(s: Seq<char>)
    ensures
        forall|i: int| 0 <= i < normalize_spec(s).len() ==> key_char(#[trigger] normalize_spec(s)[i]),
        no_lead_no_double(normalize_spec(s)),
        normalize_spec(s).len() > 0 ==> normalize_spec(s).last() != ' ',
        (normalize_spec(s).len() == 0) == (forall|i: int| 0 <= i < s.len() ==> !is_ascii_alnum(#[trigger] s[i])),
{
    let k = title_key_chars(s);
    assert forall|i: int| 0 <= i < k.len() implies key_char(#[trigger] k[i]) by {
        assert(k[i] == title_key_char(s[i]));
    }
    lemma_squash_space_shape(k);
    lemma_squash_empty(k, |c: char| is_space(c));
    if forall|i: int| 0 <= i < s.len() ==> !is_ascii_alnum(#[trigger] s[i]) {
        assert forall|i: int| 0 <= i < k.len() implies is_space(#[trigger] k[i]) by {
            assert(k[i] == title_key_char(s[i]));
        }
    } else {
        let j = choose|i: int| 0 <= i < s.len() && is_ascii_alnum(#[trigger] s[i]);
        assert(k[j] == lower(s[j]));
        assert(!is_space(k[j]));
    }
}

/// Normalizing a title twice gives the same key as normalizing it once.
pub proof fn law_normalize_title_idempotent(s: Seq<char>)
    ensures
        normalize_spec(normalize_spec(s)) == normalize_spec(s),
{
    let k = title_key_chars(s);
    assert forall|i: int| 0 <= i < k.len() implies key_char(#[trigger] k[i]) by {
        assert(k[i] == title_key_char(s[i]));
    }
    lemma_squash_space_shape(k);
    let n = normalize_spec(s);
    assert(title_key_chars(n) =~= n) by {
        assert forall|i: int| 0 <= i < n.len() implies title_key_chars(n)[i] == n[i] by {
            assert(key_char(n[i]));
        }
    }
    lemma_squash_space_fixed(n);
}

proof fn lemma_trim_front_shape(s: Seq<char>)
    ensures
        trim_front(s).len() > 0 ==> !is_edge(trim_front(s)[0]),
        trim_front(s).len() <= s.len(),
        trim_front(s) == s.subrange(s.len() - trim_front(s).len(), s.len() as int),
    decreases s.len(),
{
    if s.len() > 0 && is_edge(s[0]) {
        lemma_trim_front_shape(s.drop_first());
        assert(s.drop_first().subrange(s.len() - 1 - trim_front(s).len(), s.len() - 1)
            =~= s.subrange(s.len() - trim_front(s).len(), s.len() as int));
    } else {
        assert(s.subrange(0, s.len() as int) =~= s);
    }
}

proof fn lemma_trim_back_shape(s: Seq<char>)
    ensures
        trim_back(s).len() > 0 ==> !is_edge(trim_back(s).last()),
        trim_back(s).len() <= s.len(),
        trim_back(s) == s.subrange(0, trim_back(s).len() as int),
    decreases s.len(),
{
    if s.len() > 0 && is_edge(s.last()) {
        lemma_trim_back_shape(s.drop_last());
        assert(s.drop_last().subrange(0, trim_back(s).len() as int)
            =~= s.subrange(0, trim_back(s).len() as int));
    } else {
        assert(s.subrange(0, s.len() as int) =~= s);
    }
}

/// A trimmed sequence neither starts nor ends with a dash or a space.
pub proof fn lemma_trim_edges_clean(s: Seq<char>)
    ensures
        trim_edges(s).len() > 0 ==> !is_edge(trim_edges(s)[0]) && !is_edge(trim_edges(s).last()),
        trim_edges(trim_edges(s)) == trim_edges(s),
{
    let f = trim_front(s);
    lemma_trim_front_shape(s);
    lemma_trim_back_shape(f);
    let t = trim_back(f);
    if t.len() > 0 {
        assert(t[0] == f[0]);
    }
    // trimming again removes nothing
    assert(trim_front(t) == t);
    assert(trim_back(t) == t);
}

/// A cleaned title has no dash or space at either end: trimming it again changes nothing.
pub proof fn law_clean_title_has_no_edge_dashes_or_spaces(raw: Seq<char>)
    ensures
        trim_edges(clean_spec(raw)) == clean_spec(raw),
        clean_spec(raw).len() > 0 ==> !is_edge(clean_spec(raw)[0]) && !is_edge(clean_spec(raw).last()),
{
    lemma_trim_edges_clean(squash_by(dots_to_spaces(raw), |c: char| white_space(c)));
}

} // verus!
