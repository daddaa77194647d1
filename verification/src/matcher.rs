use vstd::prelude::*;
use crate::catalog::Timestamp;
use crate::chars::{chars_of, lemma_lex_lt_irreflexive, lemma_lex_lt_total, lemma_lex_lt_transitive, lex_lt, str_eq, str_lt, string_of};
use crate::parse::{confidence_tier, parse_filename, parsed_episode, parsed_quality, parsed_season, parsed_title, parsed_year, ConfidenceTier, ParsedMedia};
use crate::scanner::DiscoveredFile;
use crate::sort::{stable_sort, stable_sort_by};
use crate::title::{normalize_spec, normalize_title};

verus! {

/// What files are grouped by: the title key, year, season and episode their names give.
#[derive(Debug, Clone, PartialEq, Eq)]
pub struct MatchKey {
    pub title_slug: String,
    pub year: Option<u16>,
    pub season: Option<u16>,
    pub episode: Option<u16>,
}

/// The files of one title, grouped.
#[derive(Debug, Clone, PartialEq, Eq)]
pub struct MatchedGroup {
    pub key: MatchKey,
    pub parsed: ParsedMedia,
    pub confidence: ConfidenceTier,
    pub files: Vec<DiscoveredFile>,
}

/// A file whose name did not say clearly enough what it holds.
#[derive(Debug, Clone, PartialEq, Eq)]
pub struct UnmatchedFile {
    pub id: String,
    pub library: String,
    pub path: String,
    pub created_at: Timestamp,
    pub updated_at: Timestamp,
}

/// Grouped files and the files left for a person to identify.
#[derive(Debug, Clone, PartialEq, Eq)]
pub struct MatchReport {
    pub matched: Vec<MatchedGroup>,
    pub unmatched: Vec<UnmatchedFile>,
}

/// Groups discovered files by the title their names give.
pub struct Matcher {
    threshold: ConfidenceTier,
}

/// A key as plain values.
pub type KeyView = (Seq<char>, Option<u16>, Option<u16>, Option<u16>);

pub open spec fn key_view(k: MatchKey) -> KeyView {
    (k.title_slug@, k.year, k.season, k.episode)
}

/// `a < b` for optional numbers: nothing first, then by value.
pub open spec fn opt_lt(a: Option<u16>, b: Option<u16>) -> bool {
    match (a, b) {
        (None, Some(_)) => true,
        (Some(x), Some(y)) => x < y,
        _ => false,
    }
}

/// The order of keys: by title key, then year, season and episode.
pub open spec fn key_lt(a: KeyView, b: KeyView) -> bool {
    ||| lex_lt(a.0, b.0)
    ||| (a.0 == b.0 && opt_lt(a.1, b.1))
    ||| (a.0 == b.0 && a.1 == b.1 && opt_lt(a.2, b.2))
    ||| (a.0 == b.0 && a.1 == b.1 && a.2 == b.2 && opt_lt(a.3, b.3))
}

/// The key a file's path gives.
pub open spec fn path_key(path: Seq<char>) -> KeyView {
    (normalize_spec(parsed_title(path)), parsed_year(path), parsed_season(path), parsed_episode(path))
}

/// How sure the parse of a path is of its title.
pub open spec fn path_tier(path: Seq<char>) -> ConfidenceTier {
    if parsed_title(path).len() == 0 {
        ConfidenceTier::Untitled
    } else if (parsed_season(path) is Some && parsed_episode(path) is Some) || parsed_year(path) is Some
        || crate::parse::parsed_external(path) is Some {
        ConfidenceTier::Strong
    } else {
        ConfidenceTier::Weak
    }
}

pub open spec fn tier_rank(t: ConfidenceTier) -> int {
    match t {
        ConfidenceTier::Untitled => 0,
        ConfidenceTier::Weak => 1,
        ConfidenceTier::Strong => 2,
    }
}

/// A file joins a group when its name gives a title and its parse is at least as sure
/// as the threshold.
pub open spec fn admitted(path: Seq<char>, threshold: ConfidenceTier) -> bool {
    parsed_title(path).len() > 0 && tier_rank(path_tier(path)) >= tier_rank(threshold)
}

/// Adds file `i` with key `k` to groups kept in ascending key order.
pub open spec fn group_insert(gs: Seq<(KeyView, Seq<usize>)>, k: KeyView, i: usize) -> Seq<(KeyView, Seq<usize>)>
    decreases gs.len(),
{
    if gs.len() == 0 {
        seq![(k, seq![i])]
    } else if gs[0].0 == k {
        seq![(k, gs[0].1.push(i))] + gs.drop_first()
    } else if key_lt(k, gs[0].0) {
        seq![(k, seq![i])] + gs
    } else {
        seq![gs[0]] + group_insert(gs.drop_first(), k, i)
    }
}

/// The groups of the admitted files among the first `n`: one per key, in ascending key
/// order, each with the indices of its files in the order given.
pub open spec fn groups_spec(files: Seq<DiscoveredFile>, threshold: ConfidenceTier, n: int) -> Seq<(KeyView, Seq<usize>)>
    decreases n,
{
    if n <= 0 {
        Seq::empty()
    } else {
        let gs = groups_spec(files, threshold, n - 1);
        let path = files[n - 1].path@;
        if admitted(path, threshold) {
            group_insert(gs, path_key(path), (n - 1) as usize)
        } else {
            gs
        }
    }
}

/// The indices of the files among the first `n` that join no group.
pub open spec fn unmatched_spec(files: Seq<DiscoveredFile>, threshold: ConfidenceTier, n: int) -> Seq<usize>
    decreases n,
{
    if n <= 0 {
        Seq::empty()
    } else {
        let r = unmatched_spec(files, threshold, n - 1);
        if admitted(files[n - 1].path@, threshold) {
            r
        } else {
            r.push((n - 1) as usize)
        }
    }
}

/// One file index before another when its path comes first.
pub open spec fn by_path(files: Seq<DiscoveredFile>) -> spec_fn(usize, usize) -> bool {
    |a: usize, b: usize| a < files.len() && b < files.len() && lex_lt(files[a as int].path@, files[b as int].path@)
}

/// The least sure tier among the files of `idxs`.
pub open spec fn min_tier(files: Seq<DiscoveredFile>, idxs: Seq<usize>) -> ConfidenceTier
    decreases idxs.len(),
{
    if idxs.len() == 0 {
        ConfidenceTier::Strong
    } else {
        let rest = min_tier(files, idxs.drop_last());
        let t = path_tier(files[idxs.last() as int].path@);
        if tier_rank(t) < tier_rank(rest) {
            t
        } else {
            rest
        }
    }
}

/// Two files that hold the same values.
pub open spec fn same_file(a: DiscoveredFile, b: DiscoveredFile) -> bool {
    &&& a.library == b.library
    &&& a.path == b.path
    &&& a.size_bytes == b.size_bytes
    &&& a.probe.duration_ms == b.probe.duration_ms
    &&& a.probe.video@ == b.probe.video@
    &&& a.probe.audio@ == b.probe.audio@
    &&& a.probe.subtitles@ == b.probe.subtitles@
    &&& a.subtitle_siblings@ == b.subtitle_siblings@
}

/// `g` is the group the model describes: its key, the parse of its first file, the
/// least sure tier of its files, and its files sorted by path.
pub open spec fn group_is(g: MatchedGroup, model: (KeyView, Seq<usize>), files: Seq<DiscoveredFile>) -> bool {
    let sorted = stable_sort(model.1, by_path(files));
    let first = files[model.1[0] as int].path@;
    &&& key_view(g.key) == model.0
    &&& g.parsed.title@ == parsed_title(first)
    &&& g.parsed.year == parsed_year(first)
    &&& g.parsed.season == parsed_season(first)
    &&& g.parsed.episode == parsed_episode(first)
    &&& g.parsed.quality == parsed_quality(first)
    &&& crate::parse::id_view(g.parsed.external_id) == crate::parse::parsed_external(first)
    &&& g.confidence == min_tier(files, model.1)
    &&& g.files@.len() == sorted.len()
    &&& forall|k: int| 0 <= k < sorted.len() ==> same_file(#[trigger] g.files@[k], files[sorted[k] as int])
}

/// The text every unmatched id starts with.
pub open spec fn unmatched_prefix() -> Seq<char> {
    seq!['u', 'n', 'm', 'a', 't', 'c', 'h', 'e', 'd', ':']
}

/// `u` is the unmatched entry of file `f`, found at `now`.
pub open spec fn unmatched_is(u: UnmatchedFile, f: DiscoveredFile, now: Timestamp) -> bool {
    &&& u.id@ == unmatched_prefix() + f.path@
    &&& u.library == f.library
    &&& u.path == f.path
    &&& u.created_at == now
    &&& u.updated_at == now
}

/// The report on `files` at `now`: the groups in key order, the files no group admits
/// in path order.
pub open spec fn report_is(r: MatchReport, files: Seq<DiscoveredFile>, threshold: ConfidenceTier, now: Timestamp) -> bool {
    let gs = groups_spec(files, threshold, files.len() as int);
    let un = stable_sort(unmatched_spec(files, threshold, files.len() as int), by_path(files));
    &&& r.matched@.len() == gs.len()
    &&& forall|j: int| 0 <= j < gs.len() ==> group_is(#[trigger] r.matched@[j], gs[j], files)
    &&& r.unmatched@.len() == un.len()
    &&& forall|j: int| 0 <= j < un.len() ==> unmatched_is(#[trigger] r.unmatched@[j], files[un[j] as int], now)
}

impl DiscoveredFile {
    /// A copy holding the same values.
    pub fn duplicate(&self) -> (r: DiscoveredFile)
        ensures
            same_file(r, *self),
    {
        let mut video: Vec<crate::media::VideoTrack> = Vec::new();
        let mut i: usize = 0;
        while i < self.probe.video.len()
            invariant
                i <= self.probe.video.len(),
                video@ == self.probe.video@.take(i as int),
            decreases self.probe.video.len() - i,
        {
            video.push(self.probe.video[i]);
            proof {
                assert(video@ =~= self.probe.video@.take(i + 1));
            }
            i += 1;
        }
        let mut audio: Vec<crate::media::AudioTrack> = Vec::new();
        let mut j: usize = 0;
        while j < self.probe.audio.len()
            invariant
                j <= self.probe.audio.len(),
                audio@ == self.probe.audio@.take(j as int),
            decreases self.probe.audio.len() - j,
        {
            audio.push(self.probe.audio[j].copy());
            proof {
                assert(audio@ =~= self.probe.audio@.take(j + 1));
            }
            j += 1;
        }
        let mut subs: Vec<crate::media::EmbeddedSubtitleTrack> = Vec::new();
        let mut k: usize = 0;
        while k < self.probe.subtitles.len()
            invariant
                k <= self.probe.subtitles.len(),
                subs@ == self.probe.subtitles@.take(k as int),
            decreases self.probe.subtitles.len() - k,
        {
            subs.push(self.probe.subtitles[k].copy());
            proof {
                assert(subs@ =~= self.probe.subtitles@.take(k + 1));
            }
            k += 1;
        }
        assert(self.probe.video@.take(self.probe.video.len() as int) =~= self.probe.video@);
        assert(self.probe.audio@.take(self.probe.audio.len() as int) =~= self.probe.audio@);
        assert(self.probe.subtitles@.take(self.probe.subtitles.len() as int) =~= self.probe.subtitles@);
        DiscoveredFile {
            library: self.library.clone(),
            path: self.path.clone(),
            size_bytes: self.size_bytes,
            probe: crate::media::ProbeResult { duration_ms: self.probe.duration_ms, video, audio, subtitles: subs },
            subtitle_siblings: crate::media::copy_strings(&self.subtitle_siblings),
        }
    }
}


proof fn lemma_key_lt_asymmetric(a: KeyView, b: KeyView)
    requires
        key_lt(a, b),
    ensures
        !key_lt(b, a),
        a != b,
{
    lemma_lex_lt_irreflexive(a.0);
    lemma_lex_lt_irreflexive(b.0);
    if lex_lt(a.0, b.0) && lex_lt(b.0, a.0) {
        lemma_lex_lt_transitive(a.0, b.0, a.0);
    }
}

proof fn lemma_key_lt_total(a: KeyView, b: KeyView)
    requires
        a != b,
    ensures
        key_lt(a, b) || key_lt(b, a),
{
    if a.0 != b.0 {
        lemma_lex_lt_total(a.0, b.0);
    }
}

/// Where `group_insert` puts file `i`: at the first group whose key is not below `k`,
/// into that group when the keys are equal, else as a new group there.
proof fn lemma_group_insert_at(gs: Seq<(KeyView, Seq<usize>)>, k: KeyView, i: usize, pos: int)
    requires
        0 <= pos <= gs.len(),
        forall|j: int| 0 <= j < pos ==> key_lt((#[trigger] gs[j]).0, k),
        pos == gs.len() || !key_lt(gs[pos].0, k),
    ensures
        group_insert(gs, k, i) == (if pos < gs.len() && gs[pos].0 == k {
            gs.update(pos, (k, gs[pos].1.push(i)))
        } else {
            gs.insert(pos, (k, seq![i]))
        }),
    decreases pos,
{
    if pos == 0 {
        if gs.len() == 0 {
            assert(gs.insert(0, (k, seq![i])) =~= seq![(k, seq![i])]);
        } else if gs[0].0 == k {
            assert(seq![(k, gs[0].1.push(i))] + gs.drop_first() =~= gs.update(0, (k, gs[0].1.push(i))));
        } else {
            lemma_key_lt_total(k, gs[0].0);
            assert(seq![(k, seq![i])] + gs =~= gs.insert(0, (k, seq![i])));
        }
    } else {
        lemma_key_lt_asymmetric(gs[0].0, k);
        let rest = gs.drop_first();
        assert forall|j: int| 0 <= j < pos - 1 implies key_lt((#[trigger] rest[j]).0, k) by {
            assert(rest[j] == gs[j + 1]);
        }
        lemma_group_insert_at(rest, k, i, pos - 1);
        if pos < gs.len() && gs[pos].0 == k {
            assert(seq![gs[0]] + rest.update(pos - 1, (k, rest[pos - 1].1.push(i))) =~= gs.update(pos, (k, gs[pos].1.push(i))));
        } else {
            assert(seq![gs[0]] + rest.insert(pos - 1, (k, seq![i])) =~= gs.insert(pos, (k, seq![i])));
        }
    }
}

/// Every group holds at least one file, each an index below `bound`.
pub open spec fn groups_wf(gs: Seq<(KeyView, Seq<usize>)>, bound: int) -> bool {
    forall|j: int| 0 <= j < gs.len() ==> {
        &&& (#[trigger] gs[j]).1.len() > 0
        &&& forall|m: int| 0 <= m < gs[j].1.len() ==> (#[trigger] gs[j].1[m]) < bound
    }
}

proof fn lemma_groups_wf(files: Seq<DiscoveredFile>, threshold: ConfidenceTier, n: int)
    requires
        0 <= n <= files.len(),
    ensures
        groups_wf(groups_spec(files, threshold, n), n),
    decreases n,
{
    if n > 0 {
        lemma_groups_wf(files, threshold, n - 1);
        let gs = groups_spec(files, threshold, n - 1);
        let path = files[n - 1].path@;
        if admitted(path, threshold) {
            let k = path_key(path);
            let pos = choose_position(gs, k);
            lemma_first_not_below(gs, k, 0);
            lemma_group_insert_at(gs, k, (n - 1) as usize, pos);
            let r = groups_spec(files, threshold, n);
            assert forall|j: int| 0 <= j < r.len() implies {
                &&& (#[trigger] r[j]).1.len() > 0
                &&& forall|m: int| 0 <= m < r[j].1.len() ==> (#[trigger] r[j].1[m]) < n
            } by {
                if pos < gs.len() && gs[pos].0 == k {
                    if j == pos {
                        assert forall|m: int| 0 <= m < r[j].1.len() implies (#[trigger] r[j].1[m]) < n by {
                            if m < gs[pos].1.len() {
                                assert(r[j].1[m] == gs[pos].1[m]);
                            }
                        }
                    } else {
                        assert(r[j] == gs[j]);
                    }
                } else {
                    if j < pos {
                        assert(r[j] == gs[j]);
                    } else if j > pos {
                        assert(r[j] == gs[j - 1]);
                    }
                }
            }
        }
    }
}

/// The first position whose key is not below `k`.
spec fn first_not_below(gs: Seq<(KeyView, Seq<usize>)>, k: KeyView, p: int) -> int
    decreases gs.len() - p,
{
    if p >= gs.len() || !key_lt(gs[p].0, k) {
        p
    } else {
        first_not_below(gs, k, p + 1)
    }
}

spec fn choose_position(gs: Seq<(KeyView, Seq<usize>)>, k: KeyView) -> int {
    first_not_below(gs, k, 0)
}

proof fn lemma_first_not_below(gs: Seq<(KeyView, Seq<usize>)>, k: KeyView, p: int)
    requires
        0 <= p <= gs.len(),
        forall|j: int| 0 <= j < p ==> key_lt((#[trigger] gs[j]).0, k),
    ensures
        p <= first_not_below(gs, k, p) <= gs.len(),
        forall|j: int| 0 <= j < first_not_below(gs, k, p) ==> key_lt((#[trigger] gs[j]).0, k),
        first_not_below(gs, k, p) == gs.len() || !key_lt(gs[first_not_below(gs, k, p)].0, k),
    decreases gs.len() - p,
{
    if p < gs.len() && key_lt(gs[p].0, k) {
        lemma_first_not_below(gs, k, p + 1);
    }
}

fn opt_less(a: Option<u16>, b: Option<u16>) -> (r: bool)
    ensures
        r == opt_lt(a, b),
{
    match (a, b) {
        (None, Some(_)) => true,
        (Some(x), Some(y)) => x < y,
        _ => false,
    }
}

/// Whether key `a` comes before key `b`.
pub fn key_less(a: &MatchKey, b: &MatchKey) -> (r: bool)
    ensures
        r == key_lt(key_view(*a), key_view(*b)),
{
    if str_lt(a.title_slug.as_str(), b.title_slug.as_str()) {
        return true;
    }
    if !str_eq(a.title_slug.as_str(), b.title_slug.as_str()) {
        return false;
    }
    if opt_less(a.year, b.year) {
        return true;
    }
    if a.year != b.year {
        return false;
    }
    if opt_less(a.season, b.season) {
        return true;
    }
    if a.season != b.season {
        return false;
    }
    opt_less(a.episode, b.episode)
}

/// Whether two keys are the same.
pub fn key_same(a: &MatchKey, b: &MatchKey) -> (r: bool)
    ensures
        r == (key_view(*a) == key_view(*b)),
{
    str_eq(a.title_slug.as_str(), b.title_slug.as_str()) && a.year == b.year && a.season == b.season
        && a.episode == b.episode
}

impl MatchKey {
    pub fn copy(&self) -> (r: MatchKey)
        ensures
            r == *self,
    {
        MatchKey { title_slug: self.title_slug.clone(), year: self.year, season: self.season, episode: self.episode }
    }
}

/// The groups as plain values.
pub open spec fn groups_view(gs: Seq<(MatchKey, Vec<usize>)>) -> Seq<(KeyView, Seq<usize>)> {
    gs.map_values(|g: (MatchKey, Vec<usize>)| (key_view(g.0), g.1@))
}

fn rank(t: ConfidenceTier) -> (r: u8)
    ensures
        r == tier_rank(t),
{
    match t {
        ConfidenceTier::Untitled => 0,
        ConfidenceTier::Weak => 1,
        ConfidenceTier::Strong => 2,
    }
}

fn sort_by_path(idxs: Vec<usize>, files: &[DiscoveredFile]) -> (r: Vec<usize>)
    ensures
        r@ == stable_sort(idxs@, by_path(files@)),
{
    let before = |a: &usize, b: &usize| -> (r: bool)
        ensures
            r == by_path(files@)(*a, *b),
        {
            *a < files.len() && *b < files.len() && str_lt(files[*a].path.as_str(), files[*b].path.as_str())
        };
    stable_sort_by(idxs, before, Ghost(by_path(files@)))
}

fn least_tier(files: &[DiscoveredFile], idxs: &Vec<usize>) -> (r: ConfidenceTier)
    requires
        forall|m: int| 0 <= m < idxs@.len() ==> (#[trigger] idxs@[m]) < files@.len(),
    ensures
        r == min_tier(files@, idxs@),
{
    let mut best = ConfidenceTier::Strong;
    let mut m: usize = 0;
    while m < idxs.len()
        invariant
            m <= idxs.len(),
            forall|q: int| 0 <= q < idxs@.len() ==> (#[trigger] idxs@[q]) < files@.len(),
            best == min_tier(files@, idxs@.take(m as int)),
        decreases idxs.len() - m,
    {
        proof {
            assert(idxs@.take(m + 1).drop_last() =~= idxs@.take(m as int));
        }
        let parsed = parse_filename(files[idxs[m]].path.as_str());
        let t = confidence_tier(&parsed);
        if rank(t) < rank(best) {
            best = t;
        }
        m += 1;
    }
    assert(idxs@.take(idxs@.len() as int) =~= idxs@);
    best
}

fn build_group(key: &MatchKey, idxs: &Vec<usize>, files: &[DiscoveredFile]) -> (r: MatchedGroup)
    requires
        idxs@.len() > 0,
        forall|m: int| 0 <= m < idxs@.len() ==> (#[trigger] idxs@[m]) < files@.len(),
    ensures
        group_is(r, (key_view(*key), idxs@), files@),
{
    let parsed = parse_filename(files[idxs[0]].path.as_str());
    let confidence = least_tier(files, idxs);
    let mut copy: Vec<usize> = Vec::new();
    let mut m: usize = 0;
    while m < idxs.len()
        invariant
            m <= idxs.len(),
            copy@ == idxs@.take(m as int),
        decreases idxs.len() - m,
    {
        copy.push(idxs[m]);
        proof {
            assert(copy@ =~= idxs@.take(m + 1));
        }
        m += 1;
    }
    assert(idxs@.take(idxs@.len() as int) =~= idxs@);
    let sorted = sort_by_path(copy, files);
    proof {
        crate::sort::lemma_stable_sort_permutes(idxs@, by_path(files@));
    }
    let mut grouped: Vec<DiscoveredFile> = Vec::new();
    let mut k: usize = 0;
    while k < sorted.len()
        invariant
            k <= sorted.len(),
            sorted@ == stable_sort(idxs@, by_path(files@)),
            sorted@.to_multiset() == idxs@.to_multiset(),
            forall|m: int| 0 <= m < idxs@.len() ==> (#[trigger] idxs@[m]) < files@.len(),
            grouped@.len() == k,
            forall|q: int| 0 <= q < k ==> same_file(#[trigger] grouped@[q], files@[sorted@[q] as int]),
        decreases sorted.len() - k,
    {
        proof {
            broadcast use vstd::seq_lib::group_to_multiset_ensures;
            let x = sorted@[k as int];
            assert(sorted@.to_multiset().count(x) > 0);
            assert(idxs@.contains(x));
        }
        grouped.push(files[sorted[k]].duplicate());
        k += 1;
    }
    MatchedGroup { key: key.copy(), parsed, confidence, files: grouped }
}

fn unmatched_entry(f: &DiscoveredFile, now: Timestamp) -> (r: UnmatchedFile)
    ensures
        unmatched_is(r, *f, now),
{
    let mut id: Vec<char> = vec!['u', 'n', 'm', 'a', 't', 'c', 'h', 'e', 'd', ':'];
    let path = chars_of(f.path.as_str());
    crate::fmt::extend(&mut id, &path);
    proof {
        assert(id@ =~= unmatched_prefix() + f.path@);
    }
    UnmatchedFile {
        id: string_of(&id),
        library: f.library.clone(),
        path: f.path.clone(),
        created_at: now,
        updated_at: now,
    }
}

proof fn lemma_unmatched_bounds(files: Seq<DiscoveredFile>, threshold: ConfidenceTier, n: int)
    requires
        0 <= n <= files.len(),
    ensures
        forall|m: int| 0 <= m < unmatched_spec(files, threshold, n).len()
            ==> (#[trigger] unmatched_spec(files, threshold, n)[m]) < n,
    decreases n,
{
    if n > 0 {
        lemma_unmatched_bounds(files, threshold, n - 1);
        let prev = unmatched_spec(files, threshold, n - 1);
        let r = unmatched_spec(files, threshold, n);
        assert forall|m: int| 0 <= m < r.len() implies (#[trigger] r[m]) < n by {
            if m < prev.len() {
                assert(r[m] == prev[m]);
            }
        }
    }
}

/// Reads the current time.
#[verifier::external_body]
fn now() -> (r: Timestamp)
{
    Timestamp { nanosecond: jiff::Timestamp::now().as_nanosecond() }
}

impl Matcher {
    pub closed spec fn threshold_spec(&self) -> ConfidenceTier {
        self.threshold
    }

    /// A matcher that groups only files whose names give a year or an episode marker.
    pub fn new() -> (r: Self)
        ensures
            r.threshold_spec() == ConfidenceTier::Strong,
    {
        Matcher { threshold: ConfidenceTier::Strong }
    }

    /// A matcher that groups files whose parse is at least as sure as `threshold`.
    pub fn with_threshold(threshold: ConfidenceTier) -> (r: Self)
        ensures
            r.threshold_spec() == threshold,
    {
        Matcher { threshold }
    }

    /// Groups the discovered files by title, as at `now`: files whose names give a title
    /// and are sure enough form one group per key, in key order, each with its files in
    /// path order; the rest are left unmatched, in path order.
    pub fn match_files_at(&self, discovered: &[DiscoveredFile], now: Timestamp) -> (r: MatchReport)
        ensures
            report_is(r, discovered@, self.threshold_spec(), now),
    {
        let ghost files = discovered@;
        let mut groups: Vec<(MatchKey, Vec<usize>)> = Vec::new();
        let mut unmatched: Vec<usize> = Vec::new();
        let mut i: usize = 0;
        while i < discovered.len()
            invariant
                i <= discovered.len(),
                files == discovered@,
                groups_view(groups@) == groups_spec(files, self.threshold, i as int),
                unmatched@ == unmatched_spec(files, self.threshold, i as int),
            decreases discovered.len() - i,
        {
            let parsed = parse_filename(discovered[i].path.as_str());
            let tier = confidence_tier(&parsed);
            let titled = parsed.title.as_str().unicode_len() > 0;
            if !titled || rank(tier) < rank(self.threshold) {
                unmatched.push(i);
            } else {
                let key = MatchKey {
                    title_slug: normalize_title(parsed.title.as_str()),
                    year: parsed.year,
                    season: parsed.season,
                    episode: parsed.episode,
                };
                let ghost gv = groups_view(groups@);
                let mut pos: usize = 0;
                let mut scanning = true;
                while scanning && pos < groups.len()
                    invariant
                        pos <= groups.len(),
                        gv == groups_view(groups@),
                        forall|j: int| 0 <= j < pos ==> key_lt((#[trigger] gv[j]).0, key_view(key)),
                        !scanning ==> pos < groups.len() && !key_lt(gv[pos as int].0, key_view(key)),
                    decreases groups.len() - pos + (if scanning { 1int } else { 0int }),
                {
                    if key_less(&groups[pos].0, &key) {
                        pos += 1;
                    } else {
                        scanning = false;
                    }
                }
                proof {
                    lemma_group_insert_at(gv, key_view(key), i, pos as int);
                }
                if pos < groups.len() && key_same(&groups[pos].0, &key) {
                    let mut entry = groups.remove(pos);
                    entry.1.push(i);
                    groups.insert(pos, entry);
                    proof {
                        assert(groups_view(groups@) =~= gv.update(pos as int, (key_view(key), gv[pos as int].1.push(i))));
                    }
                } else {
                    let mut first: Vec<usize> = Vec::new();
                    first.push(i);
                    groups.insert(pos, (key, first));
                    proof {
                        assert(first@ =~= seq![i]);
                        assert(groups_view(groups@) =~= gv.insert(pos as int, (key_view(key), seq![i])));
                    }
                }
            }
            i += 1;
        }
        proof {
            lemma_groups_wf(files, self.threshold, files.len() as int);
            lemma_unmatched_bounds(files, self.threshold, files.len() as int);
        }
        let ghost gs = groups_view(groups@);
        let mut matched: Vec<MatchedGroup> = Vec::new();
        let mut j: usize = 0;
        while j < groups.len()
            invariant
                j <= groups.len(),
                files == discovered@,
                gs == groups_view(groups@),
                groups_wf(gs, files.len() as int),
                matched@.len() == j,
                forall|q: int| 0 <= q < j ==> group_is(#[trigger] matched@[q], gs[q], files),
            decreases groups.len() - j,
        {
            proof {
                assert(gs[j as int].1 == groups@[j as int].1@);
                assert(gs[j as int].1.len() > 0);
                assert forall|m: int| 0 <= m < groups@[j as int].1@.len() implies (#[trigger] groups@[j as int].1@[m]) < files.len() by {
                    assert(gs[j as int].1[m] < files.len());
                }
            }
            let g = build_group(&groups[j].0, &groups[j].1, discovered);
            matched.push(g);
            j += 1;
        }
        let ghost un = unmatched@;
        let sorted = sort_by_path(unmatched, discovered);
        proof {
            crate::sort::lemma_stable_sort_permutes(un, by_path(files));
        }
        let mut left: Vec<UnmatchedFile> = Vec::new();
        let mut k: usize = 0;
        while k < sorted.len()
            invariant
                k <= sorted.len(),
                files == discovered@,
                un == unmatched_spec(files, self.threshold, files.len() as int),
                forall|m: int| 0 <= m < un.len() ==> (#[trigger] un[m]) < files.len(),
                sorted@ == stable_sort(un, by_path(files)),
                sorted@.to_multiset() == un.to_multiset(),
                left@.len() == k,
                forall|q: int| 0 <= q < k ==> unmatched_is(#[trigger] left@[q], files[sorted@[q] as int], now),
            decreases sorted.len() - k,
        {
            proof {
                broadcast use vstd::seq_lib::group_to_multiset_ensures;
                let x = sorted@[k as int];
                assert(sorted@.to_multiset().count(x) > 0);
                assert(un.contains(x));
            }
            left.push(unmatched_entry(&discovered[sorted[k]], now));
            k += 1;
        }
        MatchReport { matched, unmatched: left }
    }

    /// Groups the discovered files by title, stamping the unmatched ones with the
    /// current time.
    pub fn match_files(&self, discovered: &[DiscoveredFile]) -> (r: MatchReport)
        ensures
            exists|t: Timestamp| report_is(r, discovered@, self.threshold_spec(), t),
    {
        let t = now();
        self.match_files_at(discovered, t)
    }
}

proof fn lemma_key_lt_transitive(a: KeyView, b: KeyView, c: KeyView)
    requires
        key_lt(a, b),
        key_lt(b, c),
    ensures
        key_lt(a, c),
{
    if lex_lt(a.0, b.0) && lex_lt(b.0, c.0) {
        lemma_lex_lt_transitive(a.0, b.0, c.0);
    }
}

/// How many files the groups hold.
pub open spec fn total_files(gs: Seq<(KeyView, Seq<usize>)>) -> int
    decreases gs.len(),
{
    if gs.len() == 0 {
        0
    } else {
        gs[0].1.len() + total_files(gs.drop_first())
    }
}

proof fn lemma_total_insert(gs: Seq<(KeyView, Seq<usize>)>, k: KeyView, i: usize)
    ensures
        total_files(group_insert(gs, k, i)) == total_files(gs) + 1,
    decreases gs.len(),
{
    let r = group_insert(gs, k, i);
    if gs.len() == 0 {
        assert(r.drop_first() =~= Seq::<(KeyView, Seq<usize>)>::empty());
        assert(total_files(r.drop_first()) == 0);
    } else if gs[0].0 == k {
        assert(r.drop_first() =~= gs.drop_first());
        assert(r[0] == (k, gs[0].1.push(i)));
    } else if key_lt(k, gs[0].0) {
        assert(r.drop_first() =~= gs);
        assert(r[0] == (k, seq![i]));
    } else {
        lemma_total_insert(gs.drop_first(), k, i);
        assert(r.drop_first() =~= group_insert(gs.drop_first(), k, i));
        assert(r[0] == gs[0]);
    }
}

/// Every file ends up in exactly one place: the groups and the unmatched list together
/// hold as many files as were discovered.
pub proof fn law_match_accounts_for_every_file(files: Seq<DiscoveredFile>, threshold: ConfidenceTier, n: int)
    requires
        0 <= n <= files.len(),
    ensures
        total_files(groups_spec(files, threshold, n)) + unmatched_spec(files, threshold, n).len() == n,
    decreases n,
{
    if n > 0 {
        law_match_accounts_for_every_file(files, threshold, n - 1);
        let path = files[n - 1].path@;
        if admitted(path, threshold) {
            lemma_total_insert(groups_spec(files, threshold, n - 1), path_key(path), (n - 1) as usize);
        }
    }
}

/// The groups are in strictly ascending key order, so no key has two groups, and each
/// group holds only admitted files whose names give its key.
pub proof fn law_groups_are_keyed_and_ordered(files: Seq<DiscoveredFile>, threshold: ConfidenceTier, n: int)
    requires
        0 <= n <= files.len(),
        files.len() <= usize::MAX,
    ensures
        ({
            let gs = groups_spec(files, threshold, n);
            &&& forall|a: int, b: int| 0 <= a < b < gs.len() ==> key_lt((#[trigger] gs[a]).0, (#[trigger] gs[b]).0)
            &&& forall|j: int, m: int| 0 <= j < gs.len() && 0 <= m < gs[j].1.len() ==> {
                let f = files[(#[trigger] gs[j].1[m]) as int].path@;
                admitted(f, threshold) && path_key(f) == gs[j].0
            }
        }),
    decreases n,
{
    lemma_groups_wf(files, threshold, n);
    if n > 0 {
        law_groups_are_keyed_and_ordered(files, threshold, n - 1);
        lemma_groups_wf(files, threshold, n - 1);
        let gs = groups_spec(files, threshold, n - 1);
        let path = files[n - 1].path@;
        if admitted(path, threshold) {
            let k = path_key(path);
            let pos = choose_position(gs, k);
            lemma_first_not_below(gs, k, 0);
            lemma_group_insert_at(gs, k, (n - 1) as usize, pos);
            let r = groups_spec(files, threshold, n);
            let merged = pos < gs.len() && gs[pos].0 == k;
            if !merged && pos < gs.len() {
                lemma_key_lt_total(k, gs[pos].0);
            }
            assert forall|a: int, b: int| 0 <= a < b < r.len() implies key_lt((#[trigger] r[a]).0, (#[trigger] r[b]).0) by {
                if merged {
                    assert(r[a].0 == gs[a].0 && r[b].0 == gs[b].0);
                } else {
                    if b < pos {
                        assert(r[a] == gs[a] && r[b] == gs[b]);
                    } else if b == pos {
                        assert(r[a] == gs[a]);
                    } else if a < pos {
                        assert(r[a] == gs[a] && r[b] == gs[b - 1]);
                        if b - 1 > pos {
                            lemma_key_lt_transitive(k, gs[pos].0, gs[b - 1].0);
                        }
                        lemma_key_lt_transitive(gs[a].0, k, gs[b - 1].0);
                    } else if a == pos {
                        assert(r[b] == gs[b - 1]);
                        if b - 1 > pos {
                            lemma_key_lt_transitive(k, gs[pos].0, gs[b - 1].0);
                        }
                    } else {
                        assert(r[a] == gs[a - 1] && r[b] == gs[b - 1]);
                    }
                }
            }
            assert forall|j: int, m: int| 0 <= j < r.len() && 0 <= m < r[j].1.len() implies {
                let f = files[(#[trigger] r[j].1[m]) as int].path@;
                admitted(f, threshold) && path_key(f) == r[j].0
            } by {
                if merged {
                    if j == pos {
                        if m < gs[pos].1.len() {
                            assert(r[j].1[m] == gs[pos].1[m]);
                        } else {
                            assert(r[j].1[m] == (n - 1) as usize);
                        }
                    } else {
                        assert(r[j] == gs[j]);
                        assert(r[j].1[m] == gs[j].1[m]);
                    }
                } else {
                    if j < pos {
                        assert(r[j] == gs[j]);
                        assert(r[j].1[m] == gs[j].1[m]);
                    } else if j > pos {
                        assert(r[j] == gs[j - 1]);
                        assert(r[j].1[m] == gs[j - 1].1[m]);
                    } else {
                        assert(r[j].1[m] == (n - 1) as usize);
                    }
                }
            }
        }
    }
}

/// Whether file `i` is among the files of the group keyed `k`.
pub open spec fn in_group(gs: Seq<(KeyView, Seq<usize>)>, k: KeyView, i: usize) -> bool {
    exists|j: int| 0 <= j < gs.len() && (#[trigger] gs[j]).0 == k && gs[j].1.contains(i)
}

proof fn lemma_insert_keeps_members(gs: Seq<(KeyView, Seq<usize>)>, k: KeyView, i: usize, pos: int, kk: KeyView, x: usize)
    requires
        0 <= pos <= gs.len(),
        forall|j: int| 0 <= j < pos ==> key_lt((#[trigger] gs[j]).0, k),
        pos == gs.len() || !key_lt(gs[pos].0, k),
    ensures
        in_group(gs, kk, x) ==> in_group(group_insert(gs, k, i), kk, x),
        in_group(group_insert(gs, k, i), k, i),
{
    lemma_group_insert_at(gs, k, i, pos);
    let r = group_insert(gs, k, i);
    let merged = pos < gs.len() && gs[pos].0 == k;
    if in_group(gs, kk, x) {
        let j = choose|j: int| 0 <= j < gs.len() && (#[trigger] gs[j]).0 == kk && gs[j].1.contains(x);
        let m = choose|m: int| 0 <= m < gs[j].1.len() && gs[j].1[m] == x;
        if merged {
            if j == pos {
                assert(r[j].1[m] == x);
            } else {
                assert(r[j] == gs[j]);
            }
            assert(r[j].1.contains(x));
        } else if j < pos {
            assert(r[j] == gs[j]);
            assert(r[j].1.contains(x));
        } else {
            assert(r[j + 1] == gs[j]);
            assert(r[j + 1].1.contains(x));
        }
    }
    if merged {
        assert(r[pos].1[gs[pos].1.len() as int] == i);
    } else {
        assert(r[pos].1[0] == i);
    }
    assert(r[pos].1.contains(i));
}

/// Every file lands where its name puts it: a file whose name gives a title at the
/// threshold's confidence or better is in the group of its key; any other file is
/// unmatched; and the unmatched list holds no other file.
pub proof fn law_every_file_lands_where_its_name_puts_it(files: Seq<DiscoveredFile>, threshold: ConfidenceTier, n: int)
    requires
        0 <= n <= files.len(),
        files.len() <= usize::MAX,
    ensures
        forall|i: int| 0 <= i < n && admitted((#[trigger] files[i]).path@, threshold)
            ==> in_group(groups_spec(files, threshold, n), path_key(files[i].path@), i as usize),
        forall|i: int| 0 <= i < n && !admitted((#[trigger] files[i]).path@, threshold)
            ==> unmatched_spec(files, threshold, n).contains(i as usize),
        forall|m: int| 0 <= m < unmatched_spec(files, threshold, n).len()
            ==> (#[trigger] unmatched_spec(files, threshold, n)[m]) < n
            && !admitted(files[unmatched_spec(files, threshold, n)[m] as int].path@, threshold),
    decreases n,
{
    if n > 0 {
        law_every_file_lands_where_its_name_puts_it(files, threshold, n - 1);
        let gs = groups_spec(files, threshold, n - 1);
        let r = groups_spec(files, threshold, n);
        let un0 = unmatched_spec(files, threshold, n - 1);
        let un = unmatched_spec(files, threshold, n);
        let path = files[n - 1].path@;
        if admitted(path, threshold) {
            let k = path_key(path);
            let pos = choose_position(gs, k);
            lemma_first_not_below(gs, k, 0);
            assert forall|i: int| 0 <= i < n && admitted((#[trigger] files[i]).path@, threshold)
                implies in_group(r, path_key(files[i].path@), i as usize) by {
                lemma_insert_keeps_members(gs, k, (n - 1) as usize, pos, path_key(files[i].path@), i as usize);
            }
            assert(un == un0);
        } else {
            assert(r == gs);
            assert forall|i: int| 0 <= i < n && !admitted((#[trigger] files[i]).path@, threshold)
                implies un.contains(i as usize) by {
                if i < n - 1 {
                    let m = choose|m: int| 0 <= m < un0.len() && un0[m] == i as usize;
                    assert(un[m] == un0[m]);
                } else {
                    assert(un[un0.len() as int] == i as usize);
                }
            }
            assert forall|m: int| 0 <= m < un.len() implies (#[trigger] un[m]) < n
                && !admitted(files[un[m] as int].path@, threshold) by {
                if m < un0.len() {
                    assert(un[m] == un0[m]);
                }
            }
        }
    }
}
} // verus!
