use vstd::prelude::*;
use crate::catalog::{copy_opt, Collection, Episode, EpisodeCard, Movie, Season, Series, Timestamp, TitleId};
use crate::catalog::EpisodeContext;
use crate::chars::{lemma_lex_lt_irreflexive, lemma_lex_lt_total, lemma_lex_lt_transitive, lex_lt, str_eq, str_lt};
use crate::sort::{keep, lemma_keep_counts, lemma_keep_push, lemma_stable_sort_permutes, lemma_stable_sort_sorted, stable_sort, stable_sort_by, strict_order};

verus! {

/// How far a user got into a version, as stored.
#[derive(Debug, Clone, PartialEq, Eq)]
pub struct PlaybackProgress {
    pub user: String,
    pub version: String,
    pub position_ms: u64,
    pub audio_track: Option<u32>,
    pub subtitle: Option<String>,
    pub updated_at: Timestamp,
}

/// The card shown for a title that can be resumed.
#[derive(Debug, Clone, PartialEq, Eq)]
pub struct ResumeCard {
    pub title: TitleId,
    pub display_title: String,
    pub duration_ms: u64,
    pub progress_percent: u8,
    pub year: Option<u16>,
    pub series_title: Option<String>,
    pub season_number: Option<u16>,
    pub episode_number: Option<u16>,
}

/// A live playback session.
#[derive(Debug, Clone, PartialEq, Eq)]
pub struct PlaybackSession {
    pub id: String,
    pub user: String,
    pub device: Option<String>,
    pub version: String,
    pub position_ms: u64,
    pub started_at: Timestamp,
    pub last_heartbeat_at: Timestamp,
    pub completed: bool,
}

/// A session that is playing right now, with its card.
#[derive(Debug, Clone, PartialEq, Eq)]
pub struct NowPlaying {
    pub session: PlaybackSession,
    pub card: ResumeCard,
}

/// A stored progress entry with its card.
#[derive(Debug, Clone, PartialEq, Eq)]
pub struct ContinueWatchingItem {
    pub progress: PlaybackProgress,
    pub card: ResumeCard,
}

impl PlaybackProgress {
    pub fn copy(&self) -> (r: PlaybackProgress)
        ensures
            r == *self,
    {
        PlaybackProgress {
            user: self.user.clone(),
            version: self.version.clone(),
            position_ms: self.position_ms,
            audio_track: self.audio_track,
            subtitle: copy_opt(&self.subtitle),
            updated_at: self.updated_at,
        }
    }
}

impl ResumeCard {
    pub fn copy(&self) -> (r: ResumeCard)
        ensures
            r == *self,
    {
        ResumeCard {
            title: self.title.copy(),
            display_title: self.display_title.clone(),
            duration_ms: self.duration_ms,
            progress_percent: self.progress_percent,
            year: self.year,
            series_title: copy_opt(&self.series_title),
            season_number: self.season_number,
            episode_number: self.episode_number,
        }
    }
}

/// An entry that has been started: its position is past the beginning.
pub open spec fn has_started() -> spec_fn(PlaybackProgress) -> bool {
    |p: PlaybackProgress| p.position_ms > 0
}

/// One entry comes before another when it was updated more recently.
pub open spec fn by_recency() -> spec_fn(PlaybackProgress, PlaybackProgress) -> bool {
    |a: PlaybackProgress, b: PlaybackProgress| a.updated_at.nanosecond > b.updated_at.nanosecond
}

/// The started entries, most recently updated first; entries updated at the same
/// moment keep their order.
pub fn continue_watching(progress: &[PlaybackProgress]) -> (r: Vec<PlaybackProgress>)
    ensures
        r@ == stable_sort(keep(progress@, has_started()), by_recency()),
{
    let mut items: Vec<PlaybackProgress> = Vec::new();
    let mut i: usize = 0;
    while i < progress.len()
        invariant
            i <= progress.len(),
            items@ == keep(progress@.take(i as int), has_started()),
        decreases progress.len() - i,
    {
        proof {
            assert(progress@.take(i + 1) =~= progress@.take(i as int).push(progress@[i as int]));
            lemma_keep_push(progress@.take(i as int), progress@[i as int], has_started());
        }
        if progress[i].position_ms > 0 {
            items.push(progress[i].copy());
        }
        i += 1;
    }
    assert(progress@.take(progress.len() as int) =~= progress@);
    let newer = |a: &PlaybackProgress, b: &PlaybackProgress| -> (r: bool)
        ensures
            r == by_recency()(*a, *b),
        { a.updated_at.nanosecond > b.updated_at.nanosecond };
    stable_sort_by(items, newer, Ghost(by_recency()))
}

/// What continue-watching returns holds exactly the started entries, each as often as
/// it was stored, and runs from the most recently updated to the least.
pub proof fn law_continue_watching_is_started_entries_newest_first(progress: Seq<PlaybackProgress>)
    ensures
        ({
            let r = stable_sort(keep(progress, has_started()), by_recency());
            &&& forall|p: PlaybackProgress| r.to_multiset().count(p)
                == (if p.position_ms > 0 { progress.to_multiset().count(p) } else { 0 })
            &&& forall|i: int, j: int| 0 <= i < j < r.len()
                ==> r[i].updated_at.nanosecond >= r[j].updated_at.nanosecond
        }),
{
    let started = keep(progress, has_started());
    let r = stable_sort(started, by_recency());
    lemma_stable_sort_permutes(started, by_recency());
    assert forall|p: PlaybackProgress| r.to_multiset().count(p)
        == (if p.position_ms > 0 { progress.to_multiset().count(p) } else { 0 }) by {
        lemma_keep_counts(progress, has_started(), p);
    }
    assert(strict_order(by_recency()));
    lemma_stable_sort_sorted(started, by_recency());
    assert forall|i: int, j: int| 0 <= i < j < r.len()
        implies r[i].updated_at.nanosecond >= r[j].updated_at.nanosecond by {
        assert(!by_recency()(r[j], r[i]));
    }
}


impl PlaybackSession {
    pub fn copy(&self) -> (r: PlaybackSession)
        ensures
            r == *self,
    {
        PlaybackSession {
            id: self.id.clone(),
            user: self.user.clone(),
            device: copy_opt(&self.device),
            version: self.version.clone(),
            position_ms: self.position_ms,
            started_at: self.started_at,
            last_heartbeat_at: self.last_heartbeat_at,
            completed: self.completed,
        }
    }
}

/// Whether some stored progress entry is for this version.
pub open spec fn has_progress_for(in_progress: Seq<ContinueWatchingItem>, version: Seq<char>) -> bool {
    exists|i: int| 0 <= i < in_progress.len() && (#[trigger] in_progress[i]).progress.version@ == version
}

/// A playing session whose version has no stored progress entry.
pub open spec fn not_resumable(in_progress: Seq<ContinueWatchingItem>) -> spec_fn(NowPlaying) -> bool {
    |n: NowPlaying| !has_progress_for(in_progress, n.session.version@)
}

/// A playing session whose card shows some progress.
pub open spec fn shows_progress() -> spec_fn(NowPlaying) -> bool {
    |n: NowPlaying| n.card.progress_percent > 0
}

fn progress_for(in_progress: &[ContinueWatchingItem], version: &str) -> (r: bool)
    ensures
        r == has_progress_for(in_progress@, version@),
{
    let mut i: usize = 0;
    while i < in_progress.len()
        invariant
            i <= in_progress.len(),
            forall|j: int| 0 <= j < i ==> (#[trigger] in_progress@[j]).progress.version@ != version@,
        decreases in_progress.len() - i,
    {
        if str_eq(in_progress[i].progress.version.as_str(), version) {
            return true;
        }
        i += 1;
    }
    false
}

/// The playing sessions, in order, without those whose version is already on the
/// continue-watching rail: that rail offers them already.
pub fn drop_resumable(now_playing: Vec<NowPlaying>, in_progress: &[ContinueWatchingItem]) -> (r: Vec<NowPlaying>)
    ensures
        r@ == keep(now_playing@, not_resumable(in_progress@)),
{
    let ghost all = now_playing@;
    let mut rest = now_playing;
    let mut out: Vec<NowPlaying> = Vec::new();
    let mut k: usize = 0;
    assert(rest.len() == all.len());
    while rest.len() > 0
        invariant
            k + rest.len() == all.len(),
            all.len() <= usize::MAX,
            rest@ == all.skip(k as int),
            out@ == keep(all.take(k as int), not_resumable(in_progress@)),
        decreases rest.len(),
    {
        let n = rest.remove(0);
        proof {
            assert(all.take(k + 1) =~= all.take(k as int).push(n));
            assert(rest@ =~= all.skip(k + 1));
            lemma_keep_push(all.take(k as int), n, not_resumable(in_progress@));
        }
        if !progress_for(in_progress, n.session.version.as_str()) {
            out.push(n);
        }
        k += 1;
    }
    assert(all.take(k as int) =~= all);
    out
}

/// The playing sessions, in order, without those whose card shows no progress yet.
pub fn drop_unstarted(now_playing: Vec<NowPlaying>) -> (r: Vec<NowPlaying>)
    ensures
        r@ == keep(now_playing@, shows_progress()),
{
    let ghost all = now_playing@;
    let mut rest = now_playing;
    let mut out: Vec<NowPlaying> = Vec::new();
    let mut k: usize = 0;
    assert(rest.len() == all.len());
    while rest.len() > 0
        invariant
            k + rest.len() == all.len(),
            all.len() <= usize::MAX,
            rest@ == all.skip(k as int),
            out@ == keep(all.take(k as int), shows_progress()),
        decreases rest.len(),
    {
        let n = rest.remove(0);
        proof {
            assert(all.take(k + 1) =~= all.take(k as int).push(n));
            assert(rest@ =~= all.skip(k + 1));
            lemma_keep_push(all.take(k as int), n, shows_progress());
        }
        if n.card.progress_percent > 0 {
            out.push(n);
        }
        k += 1;
    }
    assert(all.take(k as int) =~= all);
    out
}

/// What a user has watched of a title.
#[derive(Debug, Clone, PartialEq, Eq)]
pub struct WatchHistory {
    pub user: String,
    pub title: TitleId,
    pub watched: bool,
    pub play_count: u32,
    pub last_watched_at: Option<Timestamp>,
    pub completed: bool,
}

/// Whether `h` marks the movie (or, with `movies` false, the episode) `id` as watched.
pub open spec fn marks_watched(h: WatchHistory, movies: bool, id: Seq<char>) -> bool {
    &&& h.watched
    &&& match h.title {
        TitleId::Movie(m) => movies && m@ == id,
        TitleId::Episode(e) => !movies && e@ == id,
    }
}

/// Whether `id` is one of `ids`.
pub open spec fn in_ids(ids: Seq<String>, id: Seq<char>) -> bool {
    exists|k: int| 0 <= k < ids.len() && (#[trigger] ids[k])@ == id
}

/// Whether some entry of `history` marks the title `id` of the kind as watched.
pub open spec fn watched_in(history: Seq<WatchHistory>, movies: bool, id: Seq<char>) -> bool {
    exists|i: int| 0 <= i < history.len() && marks_watched(#[trigger] history[i], movies, id)
}

/// `ids` names each watched title of the kind once, and nothing else.
pub open spec fn is_watched_set(ids: Seq<String>, history: Seq<WatchHistory>, movies: bool) -> bool {
    &&& forall|j: int| 0 <= j < ids.len() ==> watched_in(history, movies, (#[trigger] ids[j])@)
    &&& forall|i: int, id: Seq<char>| 0 <= i < history.len() && #[trigger] marks_watched(history[i], movies, id)
        ==> in_ids(ids, id)
    &&& forall|j: int, k: int| 0 <= j < k < ids.len() ==> (#[trigger] ids[j])@ != (#[trigger] ids[k])@
}

/// Whether `id` is one of `ids`.
pub fn contains_id(ids: &[String], id: &str) -> (r: bool)
    ensures
        r == in_ids(ids@, id@),
{
    let mut k: usize = 0;
    while k < ids.len()
        invariant
            k <= ids.len(),
            forall|j: int| 0 <= j < k ==> (#[trigger] ids@[j])@ != id@,
        decreases ids.len() - k,
    {
        if str_eq(ids[k].as_str(), id) {
            return true;
        }
        k += 1;
    }
    false
}

fn watched_ids(history: &[WatchHistory], movies: bool) -> (r: Vec<String>)
    ensures
        is_watched_set(r@, history@, movies),
{
    let mut out: Vec<String> = Vec::new();
    let mut i: usize = 0;
    while i < history.len()
        invariant
            i <= history.len(),
            is_watched_set(out@, history@.take(i as int), movies),
        decreases history.len() - i,
    {
        let h = &history[i];
        let wanted: Option<&String> = if !h.watched {
            None
        } else {
            match &h.title {
                TitleId::Movie(m) => if movies { Some(m) } else { None },
                TitleId::Episode(e) => if movies { None } else { Some(e) },
            }
        };
        let ghost before = out@;
        match wanted {
            Some(id) => {
                if !contains_id(&out, id.as_str()) {
                    out.push(id.clone());
                }
            },
            None => {},
        }
        proof {
            let hs = history@.take(i + 1);
            assert(history@.take(i as int) =~= hs.take(i as int));
            assert forall|j: int, k: int| 0 <= j < k < out@.len() implies (#[trigger] out@[j])@ != (#[trigger] out@[k])@ by {
                if k >= before.len() {
                    assert(out@[j] == before[j]);
                    assert(!in_ids(before, out@[k]@));
                } else {
                    assert(out@[j] == before[j] && out@[k] == before[k]);
                }
            }
            assert forall|j: int| 0 <= j < out@.len()
                implies watched_in(hs, movies, (#[trigger] out@[j])@) by {
                if j < before.len() {
                    assert(out@[j] == before[j]);
                    assert(watched_in(history@.take(i as int), movies, before[j]@));
                    let x = choose|x: int| 0 <= x < i && marks_watched(#[trigger] history@.take(i as int)[x], movies, before[j]@);
                    assert(hs[x] == history@.take(i as int)[x]);
                    assert(marks_watched(hs[x], movies, out@[j]@));
                } else {
                    assert(hs[i as int] == history@[i as int]);
                    assert(marks_watched(hs[i as int], movies, out@[j]@));
                }
            }
            assert forall|x: int, id: Seq<char>| 0 <= x < hs.len() && #[trigger] marks_watched(hs[x], movies, id)
                implies in_ids(out@, id) by {
                if x < i {
                    assert(hs[x] == history@.take(i as int)[x]);
                    assert(marks_watched(history@.take(i as int)[x], movies, id));
                    assert(in_ids(before, id));
                    let k = choose|k: int| 0 <= k < before.len() && (#[trigger] before[k])@ == id;
                    assert(out@[k] == before[k]);
                } else {
                    assert(hs[x] == history@[i as int]);
                    if !in_ids(before, id) {
                        assert(out@[before.len() as int]@ == id);
                    } else {
                        let k = choose|k: int| 0 <= k < before.len() && (#[trigger] before[k])@ == id;
                        assert(out@[k] == before[k]);
                    }
                }
            }
            assert(is_watched_set(out@, hs, movies));
        }
        i += 1;
    }
    assert(history@.take(history.len() as int) =~= history@);
    out
}

/// The movies marked watched, each once.
pub fn watched_movie_ids(history: &[WatchHistory]) -> (r: Vec<String>)
    ensures
        is_watched_set(r@, history@, true),
{
    watched_ids(history, true)
}

/// The episodes marked watched, each once.
pub fn watched_episode_ids(history: &[WatchHistory]) -> (r: Vec<String>)
    ensures
        is_watched_set(r@, history@, false),
{
    watched_ids(history, false)
}

/// Index of the last movie of `movies[0..n)` that is among `watched`, or -1.
pub open spec fn last_watched_before(movies: Seq<String>, watched: Seq<String>, n: int) -> int
    decreases n,
{
    if n <= 0 {
        -1
    } else if in_ids(watched, movies[n - 1]@) {
        n - 1
    } else {
        last_watched_before(movies, watched, n - 1)
    }
}

/// The movie right after the last watched one of a collection, if there is one.
pub open spec fn next_in_collection(c: Collection, watched: Seq<String>) -> Option<String> {
    let k = last_watched_before(c.movies@, watched, c.movies@.len() as int);
    if 0 <= k && k + 1 < c.movies@.len() {
        Some(c.movies@[k + 1])
    } else {
        None
    }
}

/// For each collection in order, the movie after its last watched one, where there is one.
pub open spec fn candidates_spec(cs: Seq<Collection>, watched: Seq<String>) -> Seq<String>
    decreases cs.len(),
{
    if cs.len() == 0 {
        Seq::empty()
    } else {
        let r = candidates_spec(cs.drop_last(), watched);
        match next_in_collection(cs.last(), watched) {
            Some(id) => r.push(id),
            None => r,
        }
    }
}

/// The last movie of `ms[0..n)` with this id: later entries win, as when a map is
/// filled from the list.
pub open spec fn movie_by_id(ms: Seq<Movie>, id: Seq<char>, n: int) -> Option<Movie>
    decreases n,
{
    if n <= 0 {
        None
    } else if ms[n - 1].id@ == id {
        Some(ms[n - 1])
    } else {
        movie_by_id(ms, id, n - 1)
    }
}

/// For each collection in order, the movie after its last watched one, where there is
/// one and `movies` holds it.
pub open spec fn next_movies_spec(cs: Seq<Collection>, ms: Seq<Movie>, watched: Seq<String>) -> Seq<Movie>
    decreases cs.len(),
{
    if cs.len() == 0 {
        Seq::empty()
    } else {
        let r = next_movies_spec(cs.drop_last(), ms, watched);
        match next_in_collection(cs.last(), watched) {
            Some(id) => match movie_by_id(ms, id@, ms.len() as int) {
                Some(m) => r.push(m),
                None => r,
            },
            None => r,
        }
    }
}

fn next_in(c: &Collection, watched: &[String]) -> (r: Option<String>)
    ensures
        r == next_in_collection(*c, watched@),
{
    let len = c.movies.len();
    let mut n: usize = len;
    while n > 0
        invariant
            n <= len == c.movies@.len(),
            last_watched_before(c.movies@, watched@, len as int) == last_watched_before(c.movies@, watched@, n as int),
        decreases n,
    {
        if contains_id(watched, c.movies[n - 1].as_str()) {
            if n < len {
                return Some(c.movies[n].clone());
            } else {
                return None;
            }
        }
        n -= 1;
    }
    None
}

fn find_movie<'a>(ms: &'a [Movie], id: &str) -> (r: Option<&'a Movie>)
    ensures
        match r {
            Some(m) => movie_by_id(ms@, id@, ms@.len() as int) == Some(*m),
            None => movie_by_id(ms@, id@, ms@.len() as int) is None,
        },
{
    let mut n: usize = ms.len();
    while n > 0
        invariant
            n <= ms@.len(),
            movie_by_id(ms@, id@, ms@.len() as int) == movie_by_id(ms@, id@, n as int),
        decreases n,
    {
        if str_eq(ms[n - 1].id.as_str(), id) {
            return Some(&ms[n - 1]);
        }
        n -= 1;
    }
    None
}

/// For each collection, in order, the movie after the last one watched; a collection
/// with nothing watched, or whose last watched movie ends it, offers none.
pub fn next_movie_candidates(collections: &[Collection], watched: &[String]) -> (r: Vec<String>)
    ensures
        r@ == candidates_spec(collections@, watched@),
{
    let mut out: Vec<String> = Vec::new();
    let mut i: usize = 0;
    while i < collections.len()
        invariant
            i <= collections.len(),
            out@ == candidates_spec(collections@.take(i as int), watched@),
        decreases collections.len() - i,
    {
        proof {
            assert(collections@.take(i + 1).drop_last() =~= collections@.take(i as int));
        }
        match next_in(&collections[i], watched) {
            Some(id) => out.push(id),
            None => {},
        }
        i += 1;
    }
    assert(collections@.take(collections.len() as int) =~= collections@);
    out
}

/// The candidates of [`next_movie_candidates`] that `movies` holds, as those movies.
pub fn next_movies(collections: &[Collection], movies: &[Movie], watched: &[String]) -> (r: Vec<Movie>)
    ensures
        r@ == next_movies_spec(collections@, movies@, watched@),
{
    let mut out: Vec<Movie> = Vec::new();
    let mut i: usize = 0;
    while i < collections.len()
        invariant
            i <= collections.len(),
            out@ == next_movies_spec(collections@.take(i as int), movies@, watched@),
        decreases collections.len() - i,
    {
        proof {
            assert(collections@.take(i + 1).drop_last() =~= collections@.take(i as int));
        }
        match next_in(&collections[i], watched) {
            Some(id) => match find_movie(movies, id.as_str()) {
                Some(m) => out.push(m.copy()),
                None => {},
            },
            None => {},
        }
        i += 1;
    }
    assert(collections@.take(collections.len() as int) =~= collections@);
    out
}

/// Season and episode `(s1, n1)` come no later than `(s2, n2)`.
pub open spec fn slot_le(s1: u16, n1: u16, s2: u16, n2: u16) -> bool {
    s1 < s2 || (s1 == s2 && n1 <= n2)
}

/// Whether some seen episode of `series` sits at season `s`, number `n`.
pub open spec fn slot_seen(seen: Seq<EpisodeContext>, series: Seq<char>, s: u16, n: u16) -> bool {
    exists|i: int| 0 <= i < seen.len() && (#[trigger] seen[i]).series@ == series
        && seen[i].season_number == s && seen[i].episode.number == n
}

/// Whether `series` has an entry in `marks`.
pub open spec fn listed(marks: Seq<(String, u16, u16)>, series: Seq<char>) -> bool {
    exists|j: int| 0 <= j < marks.len() && (#[trigger] marks[j]).0@ == series
}

/// `marks` holds, for each series with a seen episode, the furthest seen season and
/// episode, one entry per series, in ascending order of series id.
pub open spec fn is_furthest(marks: Seq<(String, u16, u16)>, seen: Seq<EpisodeContext>) -> bool {
    &&& forall|j: int| 0 <= j < marks.len()
        ==> slot_seen(seen, (#[trigger] marks[j]).0@, marks[j].1, marks[j].2)
    &&& forall|i: int, j: int| 0 <= i < seen.len() && 0 <= j < marks.len()
        && (#[trigger] seen[i]).series@ == (#[trigger] marks[j]).0@
        ==> slot_le(seen[i].season_number, seen[i].episode.number, marks[j].1, marks[j].2)
    &&& forall|i: int| 0 <= i < seen.len() ==> listed(marks, (#[trigger] seen[i]).series@)
    &&& forall|j: int, k: int| 0 <= j < k < marks.len() ==> lex_lt((#[trigger] marks[j]).0@, (#[trigger] marks[k]).0@)
}

/// The furthest-watched marks do not depend on the order the episodes were seen in:
/// marks that hold for the seen episodes hold for any reordering of them.
pub proof fn law_furthest_watched_ignores_order(marks: Seq<(String, u16, u16)>, seen: Seq<EpisodeContext>, reordered: Seq<EpisodeContext>)
    requires
        is_furthest(marks, seen),
        reordered.to_multiset() == seen.to_multiset(),
    ensures
        is_furthest(marks, reordered),
{
    broadcast use vstd::seq_lib::group_to_multiset_ensures;
    reordered.to_multiset_ensures();
    seen.to_multiset_ensures();
    assert forall|x: EpisodeContext| reordered.contains(x) == seen.contains(x) by {
        assert(reordered.to_multiset().count(x) == seen.to_multiset().count(x));
        assert(reordered.contains(x) <==> reordered.to_multiset().count(x) > 0);
        assert(seen.contains(x) <==> seen.to_multiset().count(x) > 0);
    }
    assert forall|j: int| 0 <= j < marks.len()
        implies slot_seen(reordered, (#[trigger] marks[j]).0@, marks[j].1, marks[j].2) by {
        let i = choose|i: int| 0 <= i < seen.len() && (#[trigger] seen[i]).series@ == marks[j].0@
            && seen[i].season_number == marks[j].1 && seen[i].episode.number == marks[j].2;
        assert(seen.contains(seen[i]));
        assert(reordered.contains(seen[i]));
        let i2 = choose|i2: int| 0 <= i2 < reordered.len() && reordered[i2] == seen[i];
        assert(reordered[i2].series@ == marks[j].0@);
    }
    assert forall|i: int, j: int| 0 <= i < reordered.len() && 0 <= j < marks.len()
        && (#[trigger] reordered[i]).series@ == (#[trigger] marks[j]).0@
        implies slot_le(reordered[i].season_number, reordered[i].episode.number, marks[j].1, marks[j].2) by {
        assert(reordered.contains(reordered[i]));
        assert(seen.contains(reordered[i]));
        let i2 = choose|i2: int| 0 <= i2 < seen.len() && seen[i2] == reordered[i];
        assert(seen[i2].series@ == marks[j].0@);
    }
    assert forall|i: int| 0 <= i < reordered.len() implies listed(marks, (#[trigger] reordered[i]).series@) by {
        assert(reordered.contains(reordered[i]));
        assert(seen.contains(reordered[i]));
        let i2 = choose|i2: int| 0 <= i2 < seen.len() && seen[i2] == reordered[i];
        assert(listed(marks, seen[i2].series@));
    }
}

proof fn lemma_furthest_insert(marks: Seq<(String, u16, u16)>, seen: Seq<EpisodeContext>, e: EpisodeContext, k: int)
    requires
        is_furthest(marks, seen),
        0 <= k <= marks.len(),
        forall|m: int| 0 <= m < k ==> lex_lt((#[trigger] marks[m]).0@, e.series@),
        k == marks.len() || lex_lt(e.series@, marks[k].0@),
    ensures
        is_furthest(marks.insert(k, (e.series, e.season_number, e.episode.number)), seen.push(e)),
{
    let x = (e.series, e.season_number, e.episode.number);
    let r = marks.insert(k, x);
    let sp = seen.push(e);
    assert forall|m: int| 0 <= m < marks.len() implies (#[trigger] marks[m]).0@ != e.series@ by {
        if m < k {
            lemma_lex_lt_irreflexive(e.series@);
        } else {
            if m > k {
                lemma_lex_lt_transitive(e.series@, marks[k].0@, marks[m].0@);
            }
            lemma_lex_lt_irreflexive(e.series@);
        }
    }
    assert forall|j: int| 0 <= j < r.len() implies slot_seen(sp, (#[trigger] r[j]).0@, r[j].1, r[j].2) by {
        if j == k {
            assert(sp[seen.len() as int] == e);
        } else {
            let jj = if j < k { j } else { j - 1 };
            assert(r[j] == marks[jj]);
            assert(slot_seen(seen, marks[jj].0@, marks[jj].1, marks[jj].2));
            let i = choose|i: int| 0 <= i < seen.len() && (#[trigger] seen[i]).series@ == marks[jj].0@
                && seen[i].season_number == marks[jj].1 && seen[i].episode.number == marks[jj].2;
            assert(sp[i] == seen[i]);
        }
    }
    assert forall|i: int, j: int| 0 <= i < sp.len() && 0 <= j < r.len() && (#[trigger] sp[i]).series@ == (#[trigger] r[j]).0@
        implies slot_le(sp[i].season_number, sp[i].episode.number, r[j].1, r[j].2) by {
        if i == seen.len() {
            if j != k {
                let jj = if j < k { j } else { j - 1 };
                assert(r[j] == marks[jj]);
                assert(marks[jj].0@ != e.series@);
            }
        } else {
            assert(sp[i] == seen[i]);
            assert(listed(marks, seen[i].series@));
            if j == k {
                let jj = choose|jj: int| 0 <= jj < marks.len() && (#[trigger] marks[jj]).0@ == seen[i].series@;
                assert(marks[jj].0@ != e.series@);
            } else {
                let jj = if j < k { j } else { j - 1 };
                assert(r[j] == marks[jj]);
            }
        }
    }
    assert forall|i: int| 0 <= i < sp.len() implies listed(r, (#[trigger] sp[i]).series@) by {
        if i == seen.len() {
            assert(r[k] == x);
        } else {
            assert(sp[i] == seen[i]);
            assert(listed(marks, seen[i].series@));
            let jj = choose|jj: int| 0 <= jj < marks.len() && (#[trigger] marks[jj]).0@ == seen[i].series@;
            if jj < k {
                assert(r[jj] == marks[jj]);
            } else {
                assert(r[jj + 1] == marks[jj]);
            }
        }
    }
    assert forall|a: int, b: int| 0 <= a < b < r.len() implies lex_lt((#[trigger] r[a]).0@, (#[trigger] r[b]).0@) by {
        if a < k && b < k {
            assert(r[a] == marks[a] && r[b] == marks[b]);
        } else if a < k && b == k {
            assert(r[a] == marks[a]);
        } else if a < k {
            assert(r[a] == marks[a] && r[b] == marks[b - 1]);
            if b - 1 > k {
                lemma_lex_lt_transitive(marks[a].0@, e.series@, marks[k].0@);
                lemma_lex_lt_transitive(marks[a].0@, marks[k].0@, marks[b - 1].0@);
            } else {
                lemma_lex_lt_transitive(marks[a].0@, e.series@, marks[k].0@);
            }
        } else if a == k {
            assert(r[b] == marks[b - 1]);
            if b - 1 > k {
                lemma_lex_lt_transitive(e.series@, marks[k].0@, marks[b - 1].0@);
            }
        } else {
            assert(r[a] == marks[a - 1] && r[b] == marks[b - 1]);
        }
    }
}

proof fn lemma_furthest_update(marks: Seq<(String, u16, u16)>, seen: Seq<EpisodeContext>, e: EpisodeContext, k: int)
    requires
        is_furthest(marks, seen),
        0 <= k < marks.len(),
        marks[k].0@ == e.series@,
    ensures
        is_furthest(
            marks.update(k, if slot_le(e.season_number, e.episode.number, marks[k].1, marks[k].2) {
                marks[k]
            } else {
                (marks[k].0, e.season_number, e.episode.number)
            }),
            seen.push(e),
        ),
{
    let keep_old = slot_le(e.season_number, e.episode.number, marks[k].1, marks[k].2);
    let x = if keep_old { marks[k] } else { (marks[k].0, e.season_number, e.episode.number) };
    let r = marks.update(k, x);
    let sp = seen.push(e);
    assert forall|m: int| 0 <= m < marks.len() && m != k implies (#[trigger] marks[m]).0@ != e.series@ by {
        if m < k {
            assert(lex_lt(marks[m].0@, marks[k].0@));
        } else {
            assert(lex_lt(marks[k].0@, marks[m].0@));
        }
        lemma_lex_lt_irreflexive(e.series@);
    }
    assert forall|j: int| 0 <= j < r.len() implies slot_seen(sp, (#[trigger] r[j]).0@, r[j].1, r[j].2) by {
        if j == k && !keep_old {
            assert(sp[seen.len() as int] == e);
        } else {
            assert(r[j] == marks[j]);
            assert(slot_seen(seen, marks[j].0@, marks[j].1, marks[j].2));
            let i = choose|i: int| 0 <= i < seen.len() && (#[trigger] seen[i]).series@ == marks[j].0@
                && seen[i].season_number == marks[j].1 && seen[i].episode.number == marks[j].2;
            assert(sp[i] == seen[i]);
        }
    }
    assert forall|i: int, j: int| 0 <= i < sp.len() && 0 <= j < r.len() && (#[trigger] sp[i]).series@ == (#[trigger] r[j]).0@
        implies slot_le(sp[i].season_number, sp[i].episode.number, r[j].1, r[j].2) by {
        if i == seen.len() {
            if j != k {
                assert(r[j] == marks[j]);
            }
        } else {
            assert(sp[i] == seen[i]);
            if j != k {
                assert(r[j] == marks[j]);
            } else {
                assert(slot_le(seen[i].season_number, seen[i].episode.number, marks[k].1, marks[k].2));
            }
        }
    }
    assert forall|i: int| 0 <= i < sp.len() implies listed(r, (#[trigger] sp[i]).series@) by {
        if i == seen.len() {
            assert(r[k].0@ == e.series@);
        } else {
            assert(sp[i] == seen[i]);
            assert(listed(marks, seen[i].series@));
            let jj = choose|jj: int| 0 <= jj < marks.len() && (#[trigger] marks[jj]).0@ == seen[i].series@;
            assert(r[jj].0@ == marks[jj].0@);
        }
    }
    assert forall|a: int, b: int| 0 <= a < b < r.len() implies lex_lt((#[trigger] r[a]).0@, (#[trigger] r[b]).0@) by {
        assert(r[a].0@ == marks[a].0@ && r[b].0@ == marks[b].0@);
    }
}

/// For each series with a watched episode, the furthest season and episode watched,
/// one entry per series, in ascending order of series id.
pub fn furthest_watched(seen: &[EpisodeContext]) -> (r: Vec<(String, u16, u16)>)
    ensures
        is_furthest(r@, seen@),
{
    let mut out: Vec<(String, u16, u16)> = Vec::new();
    let mut i: usize = 0;
    while i < seen.len()
        invariant
            i <= seen.len(),
            is_furthest(out@, seen@.take(i as int)),
        decreases seen.len() - i,
    {
        let e = &seen[i];
        let mut k: usize = 0;
        let mut searching = true;
        while searching && k < out.len()
            invariant
                k <= out.len(),
                is_furthest(out@, seen@.take(i as int)),
                forall|m: int| 0 <= m < k ==> lex_lt((#[trigger] out@[m]).0@, e.series@),
                !searching ==> k < out.len() && !lex_lt(out@[k as int].0@, e.series@),
            decreases out.len() - k + (if searching { 1int } else { 0int }),
        {
            if str_lt(out[k].0.as_str(), e.series.as_str()) {
                k += 1;
            } else {
                searching = false;
            }
        }
        proof {
            assert(seen@.take(i + 1) =~= seen@.take(i as int).push(*e));
        }
        if k < out.len() && str_eq(out[k].0.as_str(), e.series.as_str()) {
            let (s0, n0) = (out[k].1, out[k].2);
            let later = e.season_number > s0 || (e.season_number == s0 && e.episode.number > n0);
            proof {
                lemma_furthest_update(out@, seen@.take(i as int), *e, k as int);
            }
            if later {
                let name = out[k].0.clone();
                out.set(k, (name, e.season_number, e.episode.number));
            }
        } else {
            proof {
                if k < out.len() {
                    lemma_lex_lt_total(out@[k as int].0@, e.series@);
                }
                lemma_furthest_insert(out@, seen@.take(i as int), *e, k as int);
            }
            out.insert(k, (e.series.clone(), e.season_number, e.episode.number));
        }
        i += 1;
    }
    assert(seen@.take(seen.len() as int) =~= seen@);
    out
}

/// An entry of a home rail.
#[derive(Debug, Clone, PartialEq, Eq)]
pub enum HubItem {
    Movie(Movie),
    Series { series: Series, episode_count: Option<u32> },
    Episode(Box<EpisodeCard>),
}

/// A labelled rail of the home screen.
#[derive(Debug, Clone, PartialEq, Eq)]
pub struct Hub {
    pub id: String,
    pub title: String,
    pub items: Vec<HubItem>,
}

/// How many movies and series a recently-added rail shows.
pub const RECENT_ROW: usize = 10;

/// How many of the newest episodes the recently-added series rail looks at.
pub const EPISODE_WINDOW: u32 = 2000;

/// How many items any home rail shows at most.
pub const HUB_LIMIT: usize = 20;

/// One movie comes before another when added later; at the same moment, by id.
pub open spec fn newest_movie_first() -> spec_fn(Movie, Movie) -> bool {
    |a: Movie, b: Movie| a.added_at.nanosecond > b.added_at.nanosecond
        || (a.added_at.nanosecond == b.added_at.nanosecond && lex_lt(a.id@, b.id@))
}

/// The first `n` items of `s`, or all of them when there are fewer.
pub open spec fn first_n<T>(s: Seq<T>, n: int) -> Seq<T> {
    if n < s.len() { s.take(n) } else { s }
}

/// The movies as rail entries.
pub open spec fn as_movie_items(ms: Seq<Movie>) -> Seq<HubItem> {
    ms.map_values(|m: Movie| HubItem::Movie(m))
}

/// The newest `limit` movies, newest first, ties by id, as rail entries.
pub fn recently_added_movies(movies: &[Movie], limit: usize) -> (r: Vec<HubItem>)
    ensures
        r@ == as_movie_items(first_n(stable_sort(movies@, newest_movie_first()), limit as int)),
{
    let mut copies: Vec<Movie> = Vec::new();
    let mut i: usize = 0;
    while i < movies.len()
        invariant
            i <= movies.len(),
            copies@ == movies@.take(i as int),
        decreases movies.len() - i,
    {
        copies.push(movies[i].copy());
        proof {
            assert(copies@ =~= movies@.take(i + 1));
        }
        i += 1;
    }
    assert(movies@.take(movies.len() as int) =~= movies@);
    let newest = |a: &Movie, b: &Movie| -> (r: bool)
        ensures
            r == newest_movie_first()(*a, *b),
        {
            a.added_at.nanosecond > b.added_at.nanosecond
                || (a.added_at.nanosecond == b.added_at.nanosecond && str_lt(a.id.as_str(), b.id.as_str()))
        };
    let sorted = stable_sort_by(copies, newest, Ghost(newest_movie_first()));
    let ghost want = first_n(sorted@, limit as int);
    let mut out: Vec<HubItem> = Vec::new();
    let mut k: usize = 0;
    while k < sorted.len() && k < limit
        invariant
            k <= sorted.len(),
            k <= limit,
            out@ == as_movie_items(sorted@.take(k as int)),
        decreases sorted.len() - k,
    {
        out.push(HubItem::Movie(sorted[k].copy()));
        proof {
            assert(out@ =~= as_movie_items(sorted@.take(k + 1)));
        }
        k += 1;
    }
    assert(sorted@.take(k as int) =~= want);
    out
}

/// Newest-first ordering of movies is a strict order.
pub proof fn lemma_newest_movie_first_is_strict()
    ensures
        strict_order(newest_movie_first()),
{
    let lt = newest_movie_first();
    assert forall|a: Movie| !#[trigger] lt(a, a) by {
        lemma_lex_lt_irreflexive(a.id@);
    }
    assert forall|a: Movie, b: Movie, c: Movie| #[trigger] lt(a, b) && #[trigger] lt(b, c) implies lt(a, c) by {
        if a.added_at.nanosecond == b.added_at.nanosecond && b.added_at.nanosecond == c.added_at.nanosecond {
            lemma_lex_lt_transitive(a.id@, b.id@, c.id@);
        }
    }
}

/// The recently-added movie rail shows at most `limit` of the given movies, each at
/// most as often as given, newest first, and among movies added at the same moment,
/// by ascending id.
pub proof fn law_recently_added_movies_newest_first(movies: Seq<Movie>, limit: nat)
    ensures
        ({
            let r = first_n(stable_sort(movies, newest_movie_first()), limit as int);
            &&& r.len() == (if limit < movies.len() { limit } else { movies.len() })
            &&& forall|m: Movie| r.to_multiset().count(m) <= movies.to_multiset().count(m)
            &&& forall|i: int, j: int| 0 <= i < j < r.len() ==> ({
                ||| r[i].added_at.nanosecond > r[j].added_at.nanosecond
                ||| (r[i].added_at.nanosecond == r[j].added_at.nanosecond && !lex_lt(r[j].id@, r[i].id@))
            })
        }),
{
    let sorted = stable_sort(movies, newest_movie_first());
    let r = first_n(sorted, limit as int);
    lemma_stable_sort_permutes(movies, newest_movie_first());
    lemma_newest_movie_first_is_strict();
    lemma_stable_sort_sorted(movies, newest_movie_first());
    assert forall|m: Movie| r.to_multiset().count(m) <= movies.to_multiset().count(m) by {
        if limit < sorted.len() {
            vstd::seq_lib::lemma_multiset_commutative(sorted.take(limit as int), sorted.skip(limit as int));
            assert(sorted =~= sorted.take(limit as int) + sorted.skip(limit as int));
        }
    }
    assert forall|i: int, j: int| 0 <= i < j < r.len() implies ({
        ||| r[i].added_at.nanosecond > r[j].added_at.nanosecond
        ||| (r[i].added_at.nanosecond == r[j].added_at.nanosecond && !lex_lt(r[j].id@, r[i].id@))
    }) by {
        assert(r[i] == sorted[i] && r[j] == sorted[j]);
        assert(!newest_movie_first()(sorted[j], sorted[i]));
    }
}

/// One episode comes before another when added later; at the same moment, by id.
pub open spec fn newest_episode_first() -> spec_fn(EpisodeContext, EpisodeContext) -> bool {
    |a: EpisodeContext, b: EpisodeContext| a.episode.added_at.nanosecond > b.episode.added_at.nanosecond
        || (a.episode.added_at.nanosecond == b.episode.added_at.nanosecond && lex_lt(a.episode.id@, b.episode.id@))
}

/// Index of the entry for `series` in `order`, or -1.
pub open spec fn series_index(order: Seq<(Seq<char>, int)>, series: Seq<char>, n: int) -> int
    decreases n,
{
    if n <= 0 {
        -1
    } else if order[n - 1].0 == series {
        n - 1
    } else {
        series_index(order, series, n - 1)
    }
}

/// Walks the episodes newest first: an episode of a series already admitted adds one to
/// its count; one of a new series admits it with a count of one, until `limit` series
/// are in, when the walk stops. Returns the admitted series with their counts, in order
/// of admission, and whether the walk stopped.
pub open spec fn shows_walk(s: Seq<EpisodeContext>, limit: int) -> (Seq<(Seq<char>, int)>, bool)
    decreases s.len(),
{
    if s.len() == 0 {
        (Seq::empty(), false)
    } else {
        let prev = shows_walk(s.drop_last(), limit);
        let order = prev.0;
        let e = s.last();
        let k = series_index(order, e.series@, order.len() as int);
        if prev.1 {
            prev
        } else if k >= 0 {
            (order.update(k, (order[k].0, order[k].1 + 1)), false)
        } else if order.len() == limit {
            (order, true)
        } else {
            (order.push((e.series@, 1int)), false)
        }
    }
}

/// The series and counts as plain values.
pub open spec fn shows_view(order: Seq<(String, u32)>) -> Seq<(Seq<char>, int)> {
    order.map_values(|p: (String, u32)| (p.0@, p.1 as int))
}

proof fn lemma_series_index(order: Seq<(Seq<char>, int)>, series: Seq<char>, n: int)
    requires
        0 <= n <= order.len(),
    ensures
        -1 <= series_index(order, series, n) < n,
        series_index(order, series, n) >= 0 ==> order[series_index(order, series, n)].0 == series,
        series_index(order, series, n) < 0 ==> forall|j: int| 0 <= j < n ==> (#[trigger] order[j]).0 != series,
    decreases n,
{
    if n > 0 {
        lemma_series_index(order, series, n - 1);
    }
}

proof fn lemma_shows_walk_stays_stopped(s: Seq<EpisodeContext>, limit: int, n: int, m: int)
    requires
        0 <= n <= m <= s.len(),
        shows_walk(s.take(n), limit).1,
    ensures
        shows_walk(s.take(m), limit) == shows_walk(s.take(n), limit),
    decreases m - n,
{
    if m > n {
        lemma_shows_walk_stays_stopped(s, limit, n, m - 1);
        assert(s.take(m).drop_last() =~= s.take(m - 1));
    }
}

/// The series of the newest episodes, newest first, with how many of those episodes
/// each has, until `limit` series are in; the run of the last admitted series is
/// counted only as far as the walk went.
pub fn recently_added_shows(window: &[EpisodeContext], limit: usize) -> (r: Vec<(String, u32)>)
    requires
        window.len() <= u32::MAX,
    ensures
        shows_view(r@) == shows_walk(stable_sort(window@, newest_episode_first()), limit as int).0,
{
    let mut copies: Vec<EpisodeContext> = Vec::new();
    let mut i: usize = 0;
    while i < window.len()
        invariant
            i <= window.len(),
            copies@ == window@.take(i as int),
        decreases window.len() - i,
    {
        copies.push(window[i].copy());
        proof {
            assert(copies@ =~= window@.take(i + 1));
        }
        i += 1;
    }
    assert(window@.take(window.len() as int) =~= window@);
    let newest = |a: &EpisodeContext, b: &EpisodeContext| -> (r: bool)
        ensures
            r == newest_episode_first()(*a, *b),
        {
            a.episode.added_at.nanosecond > b.episode.added_at.nanosecond
                || (a.episode.added_at.nanosecond == b.episode.added_at.nanosecond
                    && str_lt(a.episode.id.as_str(), b.episode.id.as_str()))
        };
    let sorted = stable_sort_by(copies, newest, Ghost(newest_episode_first()));
    proof {
        lemma_stable_sort_permutes(window@, newest_episode_first());
    }
    let mut order: Vec<(String, u32)> = Vec::new();
    let mut stopped = false;
    let mut n: usize = 0;
    while n < sorted.len() && !stopped
        invariant
            n <= sorted.len() <= u32::MAX,
            (shows_view(order@), stopped) == shows_walk(sorted@.take(n as int), limit as int),
            forall|j: int| 0 <= j < order@.len() ==> (#[trigger] order@[j]).1 <= n,
        decreases sorted.len() - n,
    {
        let e = &sorted[n];
        let ghost prev = shows_view(order@);
        proof {
            assert(sorted@.take(n + 1).drop_last() =~= sorted@.take(n as int));
            lemma_series_index(prev, e.series@, prev.len() as int);
        }
        let mut k: usize = order.len();
        let mut found = false;
        while k > 0 && !found
            invariant
                k <= order.len(),
                prev == shows_view(order@),
                found ==> k < order.len() && series_index(prev, e.series@, prev.len() as int) == k,
                !found ==> series_index(prev, e.series@, prev.len() as int) == series_index(prev, e.series@, k as int),
            decreases k + (if found { 0int } else { 1int }),
        {
            let same = str_eq(order[k - 1].0.as_str(), e.series.as_str());
            proof {
                assert(prev[k - 1].0 == order@[k - 1].0@);
            }
            k -= 1;
            if same {
                found = true;
            }
        }
        if found {
            let name = order[k].0.clone();
            let count = order[k].1 + 1;
            order.set(k, (name, count));
            proof {
                assert(shows_view(order@) =~= prev.update(k as int, (prev[k as int].0, prev[k as int].1 + 1)));
            }
        } else if order.len() == limit {
            stopped = true;
        } else {
            order.push((e.series.clone(), 1));
            proof {
                assert(shows_view(order@) =~= prev.push((e.series@, 1int)));
            }
        }
        n += 1;
    }
    proof {
        if stopped {
            lemma_shows_walk_stays_stopped(sorted@, limit as int, n as int, sorted@.len() as int);
        }
        assert(sorted@.take(sorted@.len() as int) =~= sorted@);
    }
    order
}

/// A title a user saved to watch later.
#[derive(Debug, Clone, PartialEq, Eq)]
pub struct WatchlistItem {
    pub user: String,
    pub title: TitleId,
    pub added_at: Timestamp,
}

impl WatchlistItem {
    pub fn copy(&self) -> (r: WatchlistItem)
        ensures
            r == *self,
    {
        WatchlistItem { user: self.user.clone(), title: self.title.copy(), added_at: self.added_at }
    }
}

/// One saved title comes before another when saved later; at the same moment, by id.
pub open spec fn newest_saved_first() -> spec_fn(WatchlistItem, WatchlistItem) -> bool {
    |a: WatchlistItem, b: WatchlistItem| a.added_at.nanosecond > b.added_at.nanosecond
        || (a.added_at.nanosecond == b.added_at.nanosecond && lex_lt(a.title.id_view(), b.title.id_view()))
}

/// The last card of `cs[0..n)` for this episode id: later entries win.
pub open spec fn card_by_id(cs: Seq<EpisodeCard>, id: Seq<char>, n: int) -> Option<EpisodeCard>
    decreases n,
{
    if n <= 0 {
        None
    } else if cs[n - 1].episode.id@ == id {
        Some(cs[n - 1])
    } else {
        card_by_id(cs, id, n - 1)
    }
}

/// The rail entry for a saved title, if the viewer can see the title.
pub open spec fn saved_entry(item: WatchlistItem, ms: Seq<Movie>, cs: Seq<EpisodeCard>) -> Option<HubItem> {
    match item.title {
        TitleId::Movie(id) => match movie_by_id(ms, id@, ms.len() as int) {
            Some(m) => Some(HubItem::Movie(m)),
            None => None,
        },
        TitleId::Episode(id) => match card_by_id(cs, id@, cs.len() as int) {
            Some(c) => Some(HubItem::Episode(Box::new(c))),
            None => None,
        },
    }
}

/// Walks the saved titles in order, adding the entry of each visible one until the
/// row holds `limit` entries.
pub open spec fn watchlist_walk(s: Seq<WatchlistItem>, ms: Seq<Movie>, cs: Seq<EpisodeCard>, limit: int) -> Seq<HubItem>
    decreases s.len(),
{
    if s.len() == 0 {
        Seq::empty()
    } else {
        let row = watchlist_walk(s.drop_last(), ms, cs, limit);
        if row.len() >= limit {
            row
        } else {
            match saved_entry(s.last(), ms, cs) {
                Some(x) => row.push(x),
                None => row,
            }
        }
    }
}

fn find_card<'a>(cs: &'a [EpisodeCard], id: &str) -> (r: Option<&'a EpisodeCard>)
    ensures
        match r {
            Some(c) => card_by_id(cs@, id@, cs@.len() as int) == Some(*c),
            None => card_by_id(cs@, id@, cs@.len() as int) is None,
        },
{
    let mut n: usize = cs.len();
    while n > 0
        invariant
            n <= cs@.len(),
            card_by_id(cs@, id@, cs@.len() as int) == card_by_id(cs@, id@, n as int),
        decreases n,
    {
        if str_eq(cs[n - 1].episode.id.as_str(), id) {
            return Some(&cs[n - 1]);
        }
        n -= 1;
    }
    None
}

/// The saved titles, newest saved first (ties by id), that the viewer can see, as rail
/// entries, at most `limit` of them: a title missing from `movies` and `episodes` is
/// skipped and the rest keep their place.
pub fn watchlist_row(items: &[WatchlistItem], movies: &[Movie], episodes: &[EpisodeCard], limit: usize) -> (r: Vec<HubItem>)
    ensures
        r@ == watchlist_walk(stable_sort(items@, newest_saved_first()), movies@, episodes@, limit as int),
{
    let mut copies: Vec<WatchlistItem> = Vec::new();
    let mut i: usize = 0;
    while i < items.len()
        invariant
            i <= items.len(),
            copies@ == items@.take(i as int),
        decreases items.len() - i,
    {
        copies.push(items[i].copy());
        proof {
            assert(copies@ =~= items@.take(i + 1));
        }
        i += 1;
    }
    assert(items@.take(items.len() as int) =~= items@);
    let newest = |a: &WatchlistItem, b: &WatchlistItem| -> (r: bool)
        ensures
            r == newest_saved_first()(*a, *b),
        {
            a.added_at.nanosecond > b.added_at.nanosecond
                || (a.added_at.nanosecond == b.added_at.nanosecond && str_lt(a.title.id(), b.title.id()))
        };
    let sorted = stable_sort_by(copies, newest, Ghost(newest_saved_first()));
    let mut row: Vec<HubItem> = Vec::new();
    let mut n: usize = 0;
    while n < sorted.len()
        invariant
            n <= sorted.len(),
            row@ == watchlist_walk(sorted@.take(n as int), movies@, episodes@, limit as int),
        decreases sorted.len() - n,
    {
        proof {
            assert(sorted@.take(n + 1).drop_last() =~= sorted@.take(n as int));
        }
        if row.len() < limit {
            match &sorted[n].title {
                TitleId::Movie(id) => {
                    match find_movie(movies, id.as_str()) {
                        Some(m) => row.push(HubItem::Movie(m.copy())),
                        None => {},
                    }
                },
                TitleId::Episode(id) => {
                    match find_card(episodes, id.as_str()) {
                        Some(c) => row.push(HubItem::Episode(Box::new(c.copy()))),
                        None => {},
                    }
                },
            }
        }
        n += 1;
    }
    assert(sorted@.take(sorted@.len() as int) =~= sorted@);
    row
}

/// The labels of the home rails, in the order they are shown.
pub open spec fn hub_ids() -> Seq<Seq<char>> {
    seq!["watchlist"@, "recently_added_movies"@, "recently_added_shows"@, "on_deck"@, "continue_watching"@]
}

/// The titles of the home rails, in the order they are shown.
pub open spec fn hub_titles() -> Seq<Seq<char>> {
    seq!["On Your Watchlist"@, "Recently Added Movies"@, "Recently Added Series"@, "On Deck"@, "Continue Watching"@]
}

/// The rails built from the first `n` rows: each non-empty row, capped, under its label.
pub open spec fn hubs_spec(rows: Seq<Seq<HubItem>>, n: int) -> Seq<(Seq<char>, Seq<char>, Seq<HubItem>)>
    decreases n,
{
    if n <= 0 {
        Seq::empty()
    } else {
        let r = hubs_spec(rows, n - 1);
        if rows[n - 1].len() > 0 {
            r.push((hub_ids()[n - 1], hub_titles()[n - 1], first_n(rows[n - 1], HUB_LIMIT as int)))
        } else {
            r
        }
    }
}

/// The rails as plain values.
pub open spec fn hubs_view(hubs: Seq<Hub>) -> Seq<(Seq<char>, Seq<char>, Seq<HubItem>)> {
    hubs.map_values(|h: Hub| (h.id@, h.title@, h.items@))
}

fn push_hub(hubs: &mut Vec<Hub>, id: &str, title: &str, items: Vec<HubItem>)
    ensures
        hubs_view(final(hubs)@) == if items@.len() > 0 {
            hubs_view(old(hubs)@).push((id@, title@, first_n(items@, HUB_LIMIT as int)))
        } else {
            hubs_view(old(hubs)@)
        },
{
    if items.len() > 0 {
        let ghost given = items@;
        let mut capped = items;
        capped.truncate(HUB_LIMIT);
        assert(capped@ =~= first_n(given, HUB_LIMIT as int));
        hubs.push(Hub { id: id.to_owned(), title: title.to_owned(), items: capped });
        assert(hubs_view(hubs@) =~= hubs_view(old(hubs)@).push((id@, title@, first_n(given, HUB_LIMIT as int))));
    }
}

/// The home screen: the watchlist, recently added movies, recently added series, on
/// deck and continue watching rails, in that order, each under its label and capped at
/// [`HUB_LIMIT`] entries; an empty row makes no rail.
pub fn home_hubs(
    watchlist: Vec<HubItem>,
    recent_movies: Vec<HubItem>,
    recent_shows: Vec<HubItem>,
    on_deck: Vec<HubItem>,
    continue_watching: Vec<HubItem>,
) -> (r: Vec<Hub>)
    ensures
        hubs_view(r@) == hubs_spec(seq![watchlist@, recent_movies@, recent_shows@, on_deck@, continue_watching@], 5),
{
    let ghost rows = seq![watchlist@, recent_movies@, recent_shows@, on_deck@, continue_watching@];
    let mut hubs: Vec<Hub> = Vec::new();
    assert(hubs_view(hubs@) =~= hubs_spec(rows, 0));
    push_hub(&mut hubs, "watchlist", "On Your Watchlist", watchlist);
    assert(hubs_view(hubs@) == hubs_spec(rows, 1));
    push_hub(&mut hubs, "recently_added_movies", "Recently Added Movies", recent_movies);
    assert(hubs_view(hubs@) == hubs_spec(rows, 2));
    push_hub(&mut hubs, "recently_added_shows", "Recently Added Series", recent_shows);
    assert(hubs_view(hubs@) == hubs_spec(rows, 3));
    push_hub(&mut hubs, "on_deck", "On Deck", on_deck);
    assert(hubs_view(hubs@) == hubs_spec(rows, 4));
    push_hub(&mut hubs, "continue_watching", "Continue Watching", continue_watching);
    assert(hubs_view(hubs@) == hubs_spec(rows, 5));
    hubs
}

/// A playing session stays off the now-playing rail exactly when its version has a
/// stored progress entry; the others stay, as often as they came.
pub proof fn law_drop_resumable_keeps_sessions_without_progress(now_playing: Seq<NowPlaying>, in_progress: Seq<ContinueWatchingItem>)
    ensures
        forall|n: NowPlaying| #[trigger] keep(now_playing, not_resumable(in_progress)).to_multiset().count(n)
            == (if has_progress_for(in_progress, n.session.version@) { 0 } else { now_playing.to_multiset().count(n) }),
{
    assert forall|n: NowPlaying| #[trigger] keep(now_playing, not_resumable(in_progress)).to_multiset().count(n)
        == (if has_progress_for(in_progress, n.session.version@) { 0 } else { now_playing.to_multiset().count(n) }) by {
        lemma_keep_counts(now_playing, not_resumable(in_progress), n);
    }
}

/// A playing session whose card shows no progress never reaches the rail; the others
/// stay, as often as they came.
pub proof fn law_drop_unstarted_keeps_sessions_with_progress(now_playing: Seq<NowPlaying>)
    ensures
        forall|n: NowPlaying| #[trigger] keep(now_playing, shows_progress()).to_multiset().count(n)
            == (if n.card.progress_percent > 0 { now_playing.to_multiset().count(n) } else { 0 }),
{
    assert forall|n: NowPlaying| #[trigger] keep(now_playing, shows_progress()).to_multiset().count(n)
        == (if n.card.progress_percent > 0 { now_playing.to_multiset().count(n) } else { 0 }) by {
        lemma_keep_counts(now_playing, shows_progress(), n);
    }
}

/// The recently-added series rail admits at most `limit` series, each once, and every
/// count is at least one.
pub proof fn law_recent_shows_admit_at_most_limit(s: Seq<EpisodeContext>, limit: nat)
    ensures
        ({
            let order = shows_walk(s, limit as int).0;
            &&& order.len() <= limit
            &&& forall|j: int, k: int| 0 <= j < k < order.len() ==> (#[trigger] order[j]).0 != (#[trigger] order[k]).0
            &&& forall|j: int| 0 <= j < order.len() ==> (#[trigger] order[j]).1 >= 1
        }),
    decreases s.len(),
{
    if s.len() > 0 {
        law_recent_shows_admit_at_most_limit(s.drop_last(), limit);
        let prev = shows_walk(s.drop_last(), limit as int);
        lemma_series_index(prev.0, s.last().series@, prev.0.len() as int);
    }
}

/// Whether `x` is the rail entry of one of the saved titles.
pub open spec fn entry_of_saved(s: Seq<WatchlistItem>, ms: Seq<Movie>, cs: Seq<EpisodeCard>, x: HubItem) -> bool {
    exists|i: int| 0 <= i < s.len() && saved_entry(#[trigger] s[i], ms, cs) == Some(x)
}

/// The watchlist row holds at most `limit` entries, each the entry of a saved title
/// the viewer can see.
pub proof fn law_watchlist_row_is_capped(s: Seq<WatchlistItem>, ms: Seq<Movie>, cs: Seq<EpisodeCard>, limit: nat)
    ensures
        watchlist_walk(s, ms, cs, limit as int).len() <= limit,
        forall|j: int| 0 <= j < watchlist_walk(s, ms, cs, limit as int).len()
            ==> entry_of_saved(s, ms, cs, #[trigger] watchlist_walk(s, ms, cs, limit as int)[j]),
    decreases s.len(),
{
    if s.len() > 0 {
        law_watchlist_row_is_capped(s.drop_last(), ms, cs, limit);
        let row = watchlist_walk(s, ms, cs, limit as int);
        let prev = watchlist_walk(s.drop_last(), ms, cs, limit as int);
        assert forall|j: int| 0 <= j < row.len() implies entry_of_saved(s, ms, cs, #[trigger] row[j]) by {
            if j < prev.len() {
                assert(row[j] == prev[j]);
                assert(entry_of_saved(s.drop_last(), ms, cs, prev[j]));
                let i = choose|i: int| 0 <= i < s.drop_last().len() && saved_entry(#[trigger] s.drop_last()[i], ms, cs) == Some(prev[j]);
                assert(s[i] == s.drop_last()[i]);
            } else {
                assert(s[s.len() - 1] == s.last());
            }
        }
    }
}

/// Every home rail has at least one entry and at most [`HUB_LIMIT`], and the rails
/// keep the fixed order of their labels.
pub proof fn law_home_hubs_are_nonempty_and_capped(rows: Seq<Seq<HubItem>>, n: int)
    requires
        0 <= n <= rows.len(),
        n <= 5,
    ensures
        ({
            let hubs = hubs_spec(rows, n);
            &&& hubs.len() <= n
            &&& forall|k: int| 0 <= k < hubs.len() ==> 0 < (#[trigger] hubs[k]).2.len() <= HUB_LIMIT
            &&& forall|k: int| 0 <= k < hubs.len() ==> exists|x: int| 0 <= x < n
                && (#[trigger] hubs[k]).0 == hub_ids()[x] && hubs[k].1 == hub_titles()[x]
        }),
    decreases n,
{
    if n > 0 {
        law_home_hubs_are_nonempty_and_capped(rows, n - 1);
        let hubs = hubs_spec(rows, n);
        let prev = hubs_spec(rows, n - 1);
        assert forall|k: int| 0 <= k < hubs.len() implies exists|x: int| 0 <= x < n
            && (#[trigger] hubs[k]).0 == hub_ids()[x] && hubs[k].1 == hub_titles()[x] by {
            if k < prev.len() {
                assert(hubs[k] == prev[k]);
            }
        }
    }
}

/// The rows, of the first `n`, that have items, in order.
pub open spec fn filled_rows(rows: Seq<Seq<HubItem>>, n: int) -> Seq<int>
    decreases n,
{
    if n <= 0 {
        Seq::empty()
    } else if rows[n - 1].len() > 0 {
        filled_rows(rows, n - 1).push(n - 1)
    } else {
        filled_rows(rows, n - 1)
    }
}

/// The home screen has one rail for each row with items, in the order of the rows
/// (watchlist, recently added movies, recently added series, on deck, continue
/// watching), and no other: each rail has its row's id and title and the first twenty
/// items of the row.
pub proof fn law_home_hubs_follow_the_filled_rows(rows: Seq<Seq<HubItem>>, n: int)
    requires
        0 <= n <= rows.len(),
        n <= 5,
    ensures
        ({
            let hubs = hubs_spec(rows, n);
            let f = filled_rows(rows, n);
            &&& hubs.len() == f.len()
            &&& forall|k: int| 0 <= k < f.len() ==> 0 <= #[trigger] f[k] < n && rows[f[k]].len() > 0
                && hubs[k] == (hub_ids()[f[k]], hub_titles()[f[k]], first_n(rows[f[k]], HUB_LIMIT as int))
            &&& forall|j: int, k: int| 0 <= j < k < f.len() ==> #[trigger] f[j] < #[trigger] f[k]
            &&& forall|x: int| 0 <= x < n && (#[trigger] rows[x]).len() > 0 ==> f.contains(x)
        }),
    decreases n,
{
    if n > 0 {
        law_home_hubs_follow_the_filled_rows(rows, n - 1);
        let f = filled_rows(rows, n);
        let g = filled_rows(rows, n - 1);
        if rows[n - 1].len() > 0 {
            assert(f[f.len() - 1] == n - 1);
            assert forall|x: int| 0 <= x < n && (#[trigger] rows[x]).len() > 0 implies f.contains(x) by {
                if x < n - 1 {
                    let k = choose|k: int| 0 <= k < g.len() && g[k] == x;
                    assert(f[k] == x);
                } else {
                    assert(f[f.len() - 1] == x);
                }
            }
        }
    }
}

/// How far into a version a position is, in whole percent, at most 100; 0 for a version
/// of unknown length.
pub open spec fn percent_spec(position_ms: u64, duration_ms: u64) -> int {
    if duration_ms == 0 {
        0
    } else if position_ms as int * 100 / duration_ms as int > 100 {
        100
    } else {
        position_ms as int * 100 / duration_ms as int
    }
}

/// How far into a version a position is, in whole percent.
pub fn progress_percent(position_ms: u64, duration_ms: u64) -> (r: u8)
    ensures
        r == percent_spec(position_ms, duration_ms),
{
    if duration_ms == 0 {
        return 0;
    }
    let scaled: u128 = position_ms as u128 * 100;
    let p: u128 = scaled / duration_ms as u128;
    if p > 100 {
        100
    } else {
        p as u8
    }
}

/// The name a card shows: the movie's or episode's title where the catalog holds it,
/// else the title's id.
pub open spec fn card_name(title: TitleId, movie: Option<&Movie>, episode: Option<&Episode>) -> Seq<char> {
    match title {
        TitleId::Movie(id) => match movie {
            Some(m) => m.title@,
            None => id@,
        },
        TitleId::Episode(id) => match episode {
            Some(e) => e.title@,
            None => id@,
        },
    }
}

/// The card for a version of `title`, `duration_ms` long, played up to `position_ms`,
/// from what the catalog holds: the movie, or the episode, its season and that season's
/// series. The season counts only with the episode, the series only with the season.
pub fn resume_card_of(
    title: &TitleId,
    duration_ms: u64,
    position_ms: u64,
    movie: Option<&Movie>,
    episode: Option<&Episode>,
    season: Option<&Season>,
    series: Option<&Series>,
) -> (r: ResumeCard)
    ensures
        r.title == *title,
        r.display_title@ == card_name(*title, movie, episode),
        r.duration_ms == duration_ms,
        r.progress_percent == percent_spec(position_ms, duration_ms),
        r.year == (match (title, movie) {
            (TitleId::Movie(_), Some(m)) => m.year,
            _ => None,
        }),
        r.episode_number == (match (title, episode) {
            (TitleId::Episode(_), Some(e)) => Some(e.number),
            _ => None,
        }),
        r.season_number == (match (title, episode, season) {
            (TitleId::Episode(_), Some(_), Some(se)) => Some(se.number),
            _ => None,
        }),
        (r.series_title is Some) == (title is Episode && episode is Some && season is Some && series is Some),
        r.series_title is Some ==> r.series_title->0@ == series->0.title@,
{
    let mut card = ResumeCard {
        title: title.copy(),
        display_title: String::new(),
        duration_ms,
        progress_percent: progress_percent(position_ms, duration_ms),
        year: None,
        series_title: None,
        season_number: None,
        episode_number: None,
    };
    match title {
        TitleId::Movie(id) => match movie {
            Some(m) => {
                card.display_title = m.title.clone();
                card.year = m.year;
            },
            None => card.display_title = id.clone(),
        },
        TitleId::Episode(id) => match episode {
            Some(e) => {
                card.display_title = e.title.clone();
                card.episode_number = Some(e.number);
                match season {
                    Some(se) => {
                        card.season_number = Some(se.number);
                        match series {
                            Some(sr) => card.series_title = Some(sr.title.clone()),
                            None => {},
                        }
                    },
                    None => {},
                }
            },
            None => card.display_title = id.clone(),
        },
    }
    card
}

} // verus!
