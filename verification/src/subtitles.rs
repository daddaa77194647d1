use vstd::prelude::*;
use crate::chars::{chars_of, eq_ignore_case, is_ascii_alpha, lower_seq, string_of};
use crate::jobs::opt_view;
use crate::paths::{subtitle_extensions, chars_eq_ignore_case, file_stem, lower_chars, split_ext, split_ext_chars, slice_chars, stem_of};

verus! {

/// The text formats of subtitle files.
#[derive(Debug, Clone, Copy, PartialEq, Eq, Structural)]
pub enum SubtitleFormat {
    Srt,
    Vtt,
    Ass,
    Ssa,
}

/// A subtitle file found next to a video.
#[derive(Debug, Clone, PartialEq, Eq)]
pub struct DiscoveredSubtitle {
    pub path: String,
    pub language: Option<String>,
    pub format: SubtitleFormat,
}

/// The subtitle format an extension names, in any case.
pub open spec fn format_spec(ext: Seq<char>) -> Option<SubtitleFormat> {
    if eq_ignore_case(ext, seq!['s', 'r', 't']) {
        Some(SubtitleFormat::Srt)
    } else if eq_ignore_case(ext, seq!['v', 't', 't']) {
        Some(SubtitleFormat::Vtt)
    } else if eq_ignore_case(ext, seq!['a', 's', 's']) {
        Some(SubtitleFormat::Ass)
    } else if eq_ignore_case(ext, seq!['s', 's', 'a']) {
        Some(SubtitleFormat::Ssa)
    } else {
        None
    }
}

/// Tags that mark a subtitle's kind, not its language.
pub open spec fn is_flag_tag(t: Seq<char>) -> bool {
    t == seq!['s', 'd', 'h'] || t == seq!['c', 'c'] || t == seq!['f', 'o', 'r', 'c', 'e', 'd']
}

/// A token of two or three ASCII letters that is no flag, lower-cased.
pub open spec fn language_tag(t: Seq<char>) -> Option<Seq<char>> {
    if 2 <= t.len() <= 3 && (forall|i: int| 0 <= i < t.len() ==> is_ascii_alpha(#[trigger] t[i]))
        && !is_flag_tag(lower_seq(t)) {
        Some(lower_seq(t))
    } else {
        None
    }
}

/// Index of the first `.` in `s`, or its length.
pub open spec fn first_dot(s: Seq<char>, i: int) -> int
    decreases s.len() - i,
{
    if i >= s.len() {
        s.len() as int
    } else if s[i] == '.' {
        i
    } else {
        first_dot(s, i + 1)
    }
}

/// The first of the `.`-separated tokens of `s` that is a language tag.
pub open spec fn first_language(s: Seq<char>) -> Option<Seq<char>>
    decreases s.len(),
{
    let k = first_dot(s, 0);
    if k < 0 || k > s.len() {
        None
    } else {
        match language_tag(s.subrange(0, k)) {
            Some(l) => Some(l),
            None => if k < s.len() {
                first_language(s.subrange(k + 1, s.len() as int))
            } else {
                None
            },
        }
    }
}

/// What a sibling file is to a video with stem `video_stem`: a subtitle file of its own
/// title (its name is the video's stem, optionally followed by `.`-separated tags, and a
/// subtitle extension), with the language its first language tag gives.
pub open spec fn discover_one_spec(video_stem: Seq<char>, sibling: Seq<char>) -> Option<(Seq<char>, Option<Seq<char>>, SubtitleFormat)> {
    match split_ext(sibling) {
        None => None,
        Some((base, ext)) => match format_spec(ext) {
            None => None,
            Some(format) => {
                if base.len() < video_stem.len() || base.subrange(0, video_stem.len() as int) != video_stem {
                    None
                } else {
                    let suffix = base.subrange(video_stem.len() as int, base.len() as int);
                    if suffix.len() > 0 && suffix[0] != '.' {
                        None
                    } else {
                        Some((sibling, first_language(suffix), format))
                    }
                }
            },
        },
    }
}

/// The subtitle files among `siblings`, in order.
pub open spec fn discovered_spec(video_stem: Seq<char>, siblings: Seq<String>) -> Seq<(Seq<char>, Option<Seq<char>>, SubtitleFormat)>
    decreases siblings.len(),
{
    if siblings.len() == 0 {
        Seq::empty()
    } else {
        let r = discovered_spec(video_stem, siblings.drop_last());
        match discover_one_spec(video_stem, siblings.last()@) {
            Some(d) => r.push(d),
            None => r,
        }
    }
}

/// The subtitles as plain values.
pub open spec fn subtitles_view(subs: Seq<DiscoveredSubtitle>) -> Seq<(Seq<char>, Option<Seq<char>>, SubtitleFormat)> {
    subs.map_values(|d: DiscoveredSubtitle| (d.path@, opt_view(d.language), d.format))
}

fn format_of(ext: &[char]) -> (r: Option<SubtitleFormat>)
    ensures
        r == format_spec(ext@),
{
    let srt = vec!['s', 'r', 't'];
    let vtt = vec!['v', 't', 't'];
    let ass = vec!['a', 's', 's'];
    let ssa = vec!['s', 's', 'a'];
    assert(srt@ =~= seq!['s', 'r', 't'] && vtt@ =~= seq!['v', 't', 't']);
    assert(ass@ =~= seq!['a', 's', 's'] && ssa@ =~= seq!['s', 's', 'a']);
    if chars_eq_ignore_case(ext, &srt) {
        Some(SubtitleFormat::Srt)
    } else if chars_eq_ignore_case(ext, &vtt) {
        Some(SubtitleFormat::Vtt)
    } else if chars_eq_ignore_case(ext, &ass) {
        Some(SubtitleFormat::Ass)
    } else if chars_eq_ignore_case(ext, &ssa) {
        Some(SubtitleFormat::Ssa)
    } else {
        None
    }
}

/// Reads a token as a language tag: two or three ASCII letters, lower-cased, that are
/// not a flag such as `sdh`, `cc` or `forced`.
pub fn parse_language_tag(token: &[char]) -> (r: Option<Vec<char>>)
    ensures
        match r {
            Some(l) => language_tag(token@) == Some(l@),
            None => language_tag(token@) is None,
        },
{
    if token.len() < 2 || token.len() > 3 {
        return None;
    }
    let mut i: usize = 0;
    while i < token.len()
        invariant
            i <= token.len(),
            forall|j: int| 0 <= j < i ==> is_ascii_alpha(#[trigger] token@[j]),
        decreases token.len() - i,
    {
        let c = token[i];
        if !(('a' <= c && c <= 'z') || ('A' <= c && c <= 'Z')) {
            return None;
        }
        i += 1;
    }
    let lower = lower_chars(token);
    let sdh = vec!['s', 'd', 'h'];
    let cc = vec!['c', 'c'];
    let forced = vec!['f', 'o', 'r', 'c', 'e', 'd'];
    assert(sdh@ =~= seq!['s', 'd', 'h'] && cc@ =~= seq!['c', 'c']);
    assert(forced@ =~= seq!['f', 'o', 'r', 'c', 'e', 'd']);
    if crate::chars::chars_eq(&lower, &sdh) || crate::chars::chars_eq(&lower, &cc) || crate::chars::chars_eq(&lower, &forced) {
        None
    } else {
        Some(lower)
    }
}

proof fn lemma_first_dot_bounds(s: Seq<char>, i: int)
    requires
        0 <= i <= s.len(),
    ensures
        i <= first_dot(s, i) <= s.len(),
        first_dot(s, i) < s.len() ==> s[first_dot(s, i)] == '.',
        forall|j: int| i <= j < first_dot(s, i) ==> #[trigger] s[j] != '.',
    decreases s.len() - i,
{
    if i < s.len() && s[i] != '.' {
        lemma_first_dot_bounds(s, i + 1);
    }
}

fn language_in(suffix: &[char]) -> (r: Option<Vec<char>>)
    ensures
        match r {
            Some(l) => first_language(suffix@) == Some(l@),
            None => first_language(suffix@) is None,
        },
{
    let mut start: usize = 0;
    let ghost full = suffix@;
    assert(full.subrange(0, full.len() as int) =~= full);
    loop
        invariant
            start <= suffix.len(),
            first_language(full) == first_language(full.subrange(start as int, full.len() as int)),
            full == suffix@,
        decreases suffix.len() - start,
    {
        let ghost rest = full.subrange(start as int, full.len() as int);
        let mut k: usize = start;
        while k < suffix.len() && suffix[k] != '.'
            invariant
                start <= k <= suffix.len(),
                forall|j: int| start <= j < k ==> suffix@[j] != '.',
            decreases suffix.len() - k,
        {
            k += 1;
        }
        proof {
            lemma_first_dot_bounds(rest, 0);
            assert forall|j: int| 0 <= j < k - start implies rest[j] != '.' by {
                assert(rest[j] == suffix@[start + j]);
            }
            if k < suffix.len() {
                assert(rest[k - start] == '.');
            }
            assert(first_dot(rest, 0) == k - start);
            assert(rest.subrange(0, k - start) =~= suffix@.subrange(start as int, k as int));
            if k < suffix.len() {
                assert(rest.subrange(k - start + 1, rest.len() as int) =~= full.subrange(k + 1, full.len() as int));
            }
        }
        let token = slice_chars(suffix, start, k);
        match parse_language_tag(&token) {
            Some(l) => return Some(l),
            None => {},
        }
        if k == suffix.len() {
            return None;
        }
        start = k + 1;
    }
}

fn discover_one(video_stem: &[char], sibling: &String) -> (r: Option<DiscoveredSubtitle>)
    ensures
        match r {
            Some(d) => discover_one_spec(video_stem@, sibling@) == Some((d.path@, opt_view(d.language), d.format)),
            None => discover_one_spec(video_stem@, sibling@) is None,
        },
{
    let v = chars_of(sibling.as_str());
    let (base, ext) = match split_ext_chars(&v) {
        Some(parts) => parts,
        None => return None,
    };
    let format = match format_of(&ext) {
        Some(f) => f,
        None => return None,
    };
    if base.len() < video_stem.len() {
        return None;
    }
    let head = slice_chars(&base, 0, video_stem.len());
    if !crate::chars::chars_eq(&head, video_stem) {
        return None;
    }
    let suffix = slice_chars(&base, video_stem.len(), base.len());
    if suffix.len() > 0 && suffix[0] != '.' {
        return None;
    }
    let language = match language_in(&suffix) {
        Some(l) => Some(string_of(&l)),
        None => None,
    };
    Some(DiscoveredSubtitle { path: sibling.clone(), language, format })
}

/// The subtitle files among the siblings of a video, in order: those named after the
/// video's stem, optionally followed by `.`-separated tags, with a subtitle extension.
/// The first tag of two or three letters that is not a flag gives the language.
pub fn discover_subtitles(video_path: &str, siblings: &[String]) -> (r: Vec<DiscoveredSubtitle>)
    ensures
        subtitles_view(r@) == discovered_spec(stem_of(video_path@), siblings@),
{
    let stem = chars_of(file_stem(video_path));
    let mut out: Vec<DiscoveredSubtitle> = Vec::new();
    let mut i: usize = 0;
    while i < siblings.len()
        invariant
            i <= siblings.len(),
            stem@ == stem_of(video_path@),
            subtitles_view(out@) == discovered_spec(stem@, siblings@.take(i as int)),
        decreases siblings.len() - i,
    {
        proof {
            assert(siblings@.take(i + 1).drop_last() =~= siblings@.take(i as int));
        }
        let ghost before = out@;
        match discover_one(&stem, &siblings[i]) {
            Some(d) => {
                out.push(d);
                proof {
                    assert(subtitles_view(out@) =~= subtitles_view(before).push((d.path@, opt_view(d.language), d.format)));
                }
            },
            None => {},
        }
        i += 1;
    }
    assert(siblings@.take(siblings.len() as int) =~= siblings@);
    out
}


proof fn lemma_text_extensions_lowered()
    ensures
        lower_seq(subtitle_extensions()[0]) == seq!['s', 'r', 't'],
        lower_seq(subtitle_extensions()[1]) == seq!['v', 't', 't'],
        lower_seq(subtitle_extensions()[2]) == seq!['a', 's', 's'],
        lower_seq(subtitle_extensions()[3]) == seq!['s', 's', 'a'],
        lower_seq(seq!['s', 'r', 't']) == seq!['s', 'r', 't'],
        lower_seq(seq!['v', 't', 't']) == seq!['v', 't', 't'],
        lower_seq(seq!['a', 's', 's']) == seq!['a', 's', 's'],
        lower_seq(seq!['s', 's', 'a']) == seq!['s', 's', 'a'],
{
    assert(lower_seq(seq!['s', 'r', 't']) =~= seq!['s', 'r', 't']);
    assert(lower_seq(seq!['v', 't', 't']) =~= seq!['v', 't', 't']);
    assert(lower_seq(seq!['a', 's', 's']) =~= seq!['a', 's', 's']);
    assert(lower_seq(seq!['s', 's', 'a']) =~= seq!['s', 's', 'a']);
    assert(subtitle_extensions()[0] == seq!['s', 'r', 't']);
    assert(subtitle_extensions()[1] == seq!['v', 't', 't']);
    assert(subtitle_extensions()[2] == seq!['a', 's', 's']);
    assert(subtitle_extensions()[3] == seq!['s', 's', 'a']);
}

/// Every text subtitle extension the scan sets aside (`srt`, `vtt`, `ass`, `ssa`, the
/// first four of its list), in any case, names the format of that name; and an
/// extension names a format only when it is one of those four.
pub proof fn law_each_text_subtitle_extension_names_its_format(e: Seq<char>)
    ensures
        eq_ignore_case(e, subtitle_extensions()[0]) ==> format_spec(e) == Some(SubtitleFormat::Srt),
        eq_ignore_case(e, subtitle_extensions()[1]) ==> format_spec(e) == Some(SubtitleFormat::Vtt),
        eq_ignore_case(e, subtitle_extensions()[2]) ==> format_spec(e) == Some(SubtitleFormat::Ass),
        eq_ignore_case(e, subtitle_extensions()[3]) ==> format_spec(e) == Some(SubtitleFormat::Ssa),
        format_spec(e) is Some ==> exists|i: int| 0 <= i < 4 && eq_ignore_case(e, #[trigger] subtitle_extensions()[i]),
{
    lemma_text_extensions_lowered();
    let x = subtitle_extensions();
    assert(seq!['s', 'r', 't'] != seq!['v', 't', 't']) by { assert(seq!['s', 'r', 't'][0] != seq!['v', 't', 't'][0]); }
    assert(seq!['s', 'r', 't'] != seq!['a', 's', 's']) by { assert(seq!['s', 'r', 't'][0] != seq!['a', 's', 's'][0]); }
    assert(seq!['s', 'r', 't'] != seq!['s', 's', 'a']) by { assert(seq!['s', 'r', 't'][1] != seq!['s', 's', 'a'][1]); }
    assert(seq!['v', 't', 't'] != seq!['a', 's', 's']) by { assert(seq!['v', 't', 't'][0] != seq!['a', 's', 's'][0]); }
    assert(seq!['v', 't', 't'] != seq!['s', 's', 'a']) by { assert(seq!['v', 't', 't'][0] != seq!['s', 's', 'a'][0]); }
    assert(seq!['a', 's', 's'] != seq!['s', 's', 'a']) by { assert(seq!['a', 's', 's'][0] != seq!['s', 's', 'a'][0]); }
    if format_spec(e) is Some {
        if eq_ignore_case(e, seq!['s', 'r', 't']) {
            assert(eq_ignore_case(e, x[0]));
        } else if eq_ignore_case(e, seq!['v', 't', 't']) {
            assert(eq_ignore_case(e, x[1]));
        } else if eq_ignore_case(e, seq!['a', 's', 's']) {
            assert(eq_ignore_case(e, x[2]));
        } else {
            assert(eq_ignore_case(e, x[3]));
        }
    }
}

/// A subtitle file beside a video is found whenever its name is the video's stem,
/// optionally followed by `.` and tags (a language, flags), then one of the text
/// subtitle extensions in any case: it is reported at its own path, in the format its
/// extension names.
pub proof fn law_a_subtitle_named_after_its_video_is_found(video_stem: Seq<char>, sibling: Seq<char>, i: int)
    requires
        0 <= i < 4,
        split_ext(sibling) matches Some((base, ext)) && eq_ignore_case(ext, subtitle_extensions()[i])
            && base.len() >= video_stem.len() && base.subrange(0, video_stem.len() as int) == video_stem
            && (base.len() == video_stem.len() || base[video_stem.len() as int] == '.'),
    ensures
        discover_one_spec(video_stem, sibling) matches Some((path, _, format)) && path == sibling
            && format == (if i == 0 {
                SubtitleFormat::Srt
            } else if i == 1 {
                SubtitleFormat::Vtt
            } else if i == 2 {
                SubtitleFormat::Ass
            } else {
                SubtitleFormat::Ssa
            }),
{
    let (base, ext) = split_ext(sibling).unwrap();
    law_each_text_subtitle_extension_names_its_format(ext);
    let suffix = base.subrange(video_stem.len() as int, base.len() as int);
    if suffix.len() > 0 {
        assert(suffix[0] == base[video_stem.len() as int]);
    }
}
} // verus!
