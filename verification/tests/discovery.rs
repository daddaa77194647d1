use services::catalog::{Collection, Episode, EpisodeCard, EpisodeContext, Movie, Season, Series, Timestamp, TitleId};
use services::discovery::{
    continue_watching, drop_resumable, drop_unstarted, furthest_watched, home_hubs, next_movie_candidates,
    next_movies, progress_percent, recently_added_movies, recently_added_shows, resume_card_of, watched_episode_ids,
    watched_movie_ids, watchlist_row, ContinueWatchingItem, Hub, HubItem, NowPlaying, PlaybackProgress,
    PlaybackSession, ResumeCard, WatchHistory, WatchlistItem, HUB_LIMIT,
};

fn at(seconds: i64) -> Timestamp {
    Timestamp { nanosecond: seconds as i128 * 1_000_000_000 }
}

fn progress(version: &str, position_ms: u64, seconds: i64) -> PlaybackProgress {
    PlaybackProgress {
        user: "u1".to_owned(),
        version: version.to_owned(),
        position_ms,
        audio_track: None,
        subtitle: None,
        updated_at: at(seconds),
    }
}

fn versions(items: &[PlaybackProgress]) -> Vec<String> {
    items.iter().map(|p| p.version.clone()).collect()
}

#[test]
fn orders_started_by_recency() {
    let entries = [progress("older", 50, 10), progress("newest", 50, 30), progress("middle", 50, 20)];
    let rows = continue_watching(&entries);
    assert_eq!(versions(&rows), vec!["newest", "middle", "older"]);
}

#[test]
fn excludes_unstarted() {
    let entries = [progress("unstarted", 0, 20), progress("resume", 120, 10)];
    let rows = continue_watching(&entries);
    assert_eq!(versions(&rows), vec!["resume"]);
}

#[test]
fn entries_updated_together_keep_their_order() {
    let entries = [progress("a", 1, 10), progress("b", 1, 10), progress("c", 1, 20)];
    assert_eq!(versions(&continue_watching(&entries)), vec!["c", "a", "b"]);
}

fn card_at(progress_percent: u8) -> ResumeCard {
    ResumeCard {
        title: TitleId::Movie("m1".to_owned()),
        display_title: "Big Buck Bunny".to_owned(),
        duration_ms: 1000,
        progress_percent,
        year: None,
        series_title: None,
        season_number: None,
        episode_number: None,
    }
}

fn item(version: &str) -> ContinueWatchingItem {
    ContinueWatchingItem { progress: progress(version, 400, 10), card: card_at(40) }
}

fn playing(version: &str) -> NowPlaying {
    NowPlaying {
        session: PlaybackSession {
            id: format!("s-{version}"),
            user: "u1".to_owned(),
            device: None,
            version: version.to_owned(),
            position_ms: 580,
            started_at: at(0),
            last_heartbeat_at: at(0),
            completed: false,
        },
        card: card_at(40),
    }
}

fn session_versions(rows: &[NowPlaying]) -> Vec<String> {
    rows.iter().map(|n| n.session.version.clone()).collect()
}

#[test]
fn a_version_with_stored_progress_is_not_also_reported_as_playing() {
    let in_progress = [item("v1")];
    let rows = drop_resumable(vec![playing("v1"), playing("v2")], &in_progress);
    assert_eq!(session_versions(&rows), vec!["v2"]);
}

#[test]
fn a_session_with_no_stored_progress_yet_survives() {
    let rows = drop_resumable(vec![playing("v1")], &[]);
    assert_eq!(rows.len(), 1);
}

#[test]
fn a_session_sitting_at_the_start_never_reaches_the_rail() {
    let stalled = NowPlaying { card: card_at(0), ..playing("v1") };
    let rows = drop_unstarted(vec![stalled, playing("v2")]);
    assert_eq!(session_versions(&rows), vec!["v2"]);
}

#[test]
fn several_stale_sessions_for_one_version_all_go() {
    let in_progress = [item("v1")];
    let rows = drop_resumable(vec![playing("v1"), playing("v1"), playing("v1")], &in_progress);
    assert!(rows.is_empty());
}

fn episode(id: &str, season: &str, number: u16, seconds: i64) -> Episode {
    Episode {
        id: id.to_owned(),
        season: season.to_owned(),
        number,
        title: id.to_owned(),
        overview: None,
        runtime_minutes: None,
        air_date: None,
        manually_edited: false,
        added_at: at(seconds),
        updated_at: at(seconds),
    }
}

fn seen(id: &str, series: &str, season_number: u16, number: u16) -> EpisodeContext {
    EpisodeContext {
        episode: episode(id, "se1", number, 0),
        season: "se1".to_owned(),
        season_number,
        season_title: None,
        series: series.to_owned(),
    }
}

fn movie(id: &str, seconds: i64) -> Movie {
    Movie {
        id: id.to_owned(),
        title: id.to_owned(),
        sort_title: id.to_owned(),
        year: None,
        overview: None,
        runtime_minutes: None,
        content_rating: None,
        manually_edited: false,
        added_at: at(seconds),
        updated_at: at(seconds),
    }
}

fn marks(found: &[(String, u16, u16)]) -> Vec<(String, u16, u16)> {
    found.to_vec()
}

#[test]
fn the_furthest_watched_slot_wins_even_when_an_earlier_one_comes_last() {
    let watched = [seen("s2e1", "show", 2, 1), seen("s1e1", "show", 1, 1), seen("s1e2", "show", 1, 2)];
    assert_eq!(marks(&furthest_watched(&watched)), vec![("show".to_owned(), 2, 1)]);
}

#[test]
fn nothing_watched_leaves_nothing_to_resume() {
    assert!(furthest_watched(&[]).is_empty());
}

#[test]
fn each_series_resumes_independently_and_in_id_order() {
    let watched = [seen("b1e1", "beta", 1, 1), seen("a1e1", "alpha", 1, 1), seen("a1e2", "alpha", 1, 2)];
    assert_eq!(
        marks(&furthest_watched(&watched)),
        vec![("alpha".to_owned(), 1, 2), ("beta".to_owned(), 1, 1)]
    );
}

fn collection(id: &str, movies: &[&str]) -> Collection {
    Collection {
        id: id.to_owned(),
        name: id.to_uppercase(),
        movies: movies.iter().map(|m| m.to_string()).collect(),
    }
}

#[test]
fn a_collection_offers_the_movie_after_the_last_watched_one() {
    let collections = [collection("mtx", &["m1", "m2", "m3"])];
    let watched = vec!["m1".to_owned()];
    assert_eq!(next_movie_candidates(&collections, &watched), vec!["m2".to_owned()]);
    assert!(next_movie_candidates(&collections, &[]).is_empty());
}

#[test]
fn the_candidate_follows_the_last_watched_movie_not_the_first() {
    let collections = [collection("mtx", &["m1", "m2", "m3", "m4"])];
    let watched = vec!["m3".to_owned(), "m1".to_owned()];
    assert_eq!(next_movie_candidates(&collections, &watched), vec!["m4".to_owned()]);
}

#[test]
fn next_movie_in_collection_after_last_watched() {
    let collections = [collection("mtx", &["m1", "m2", "m3"])];
    let movies = [movie("m1", 0), movie("m2", 0), movie("m3", 0)];
    let watched = vec!["m1".to_owned()];
    let next = next_movies(&collections, &movies, &watched);
    assert_eq!(next.iter().map(|m| m.id.clone()).collect::<Vec<_>>(), vec!["m2"]);
}

#[test]
fn no_next_movie_when_unstarted_finished_or_missing() {
    let unstarted = [collection("a", &["m1"])];
    let movies = [movie("m1", 0)];
    assert!(next_movies(&unstarted, &movies, &[]).is_empty());
    let finished = vec!["m1".to_owned()];
    assert!(next_movies(&unstarted, &movies, &finished).is_empty());
    let missing_next = [collection("b", &["m1", "gone"])];
    assert!(next_movies(&missing_next, &movies, &finished).is_empty());
}

fn history(title: TitleId, watched: bool) -> WatchHistory {
    WatchHistory { user: "u1".to_owned(), title, watched, play_count: 1, last_watched_at: None, completed: watched }
}

#[test]
fn watched_ids_split_by_kind_and_skip_unwatched_and_repeats() {
    let h = [
        history(TitleId::Movie("m1".to_owned()), true),
        history(TitleId::Episode("e1".to_owned()), true),
        history(TitleId::Movie("m2".to_owned()), false),
        history(TitleId::Movie("m1".to_owned()), true),
    ];
    assert_eq!(watched_movie_ids(&h), vec!["m1".to_owned()]);
    assert_eq!(watched_episode_ids(&h), vec!["e1".to_owned()]);
}

fn shown(items: &[HubItem]) -> Vec<(String, Option<u32>)> {
    items
        .iter()
        .map(|i| match i {
            HubItem::Movie(m) => (m.title.clone(), None),
            HubItem::Series { series, episode_count } => (series.title.clone(), *episode_count),
            HubItem::Episode(card) => (card.episode.title.clone(), None),
        })
        .collect()
}

#[test]
fn movies_are_newest_first_and_capped() {
    let movies = [movie("old", 10), movie("new", 30), movie("mid", 20)];
    let items = recently_added_movies(&movies, 2);
    assert_eq!(shown(&items), vec![("new".to_owned(), None), ("mid".to_owned(), None)]);
}

#[test]
fn movies_added_together_are_ordered_by_id() {
    let movies = [movie("b", 10), movie("a", 10), movie("c", 10)];
    let items = recently_added_movies(&movies, 10);
    assert_eq!(
        shown(&items),
        vec![("a".to_owned(), None), ("b".to_owned(), None), ("c".to_owned(), None)]
    );
}

fn context(id: &str, series: &str, seconds: i64) -> EpisodeContext {
    EpisodeContext {
        episode: episode(id, "se1", 1, seconds),
        season: "se1".to_owned(),
        season_number: 1,
        season_title: None,
        series: series.to_owned(),
    }
}

#[test]
fn shows_are_driven_by_episodes_not_by_the_series_row() {
    let window = [context("e1", "ongoing", 500), context("e2", "ongoing", 400), context("e3", "fresh", 300)];
    assert_eq!(
        recently_added_shows(&window, 10),
        vec![("ongoing".to_owned(), 2), ("fresh".to_owned(), 1)]
    );
}

#[test]
fn the_scan_finishes_the_run_of_the_last_show_it_admits() {
    let window = [
        context("a1", "a", 900),
        context("b1", "b", 800),
        context("b2", "b", 700),
        context("c1", "c", 600),
        context("b3", "b", 500),
    ];
    assert_eq!(recently_added_shows(&window, 2), vec![("a".to_owned(), 1), ("b".to_owned(), 2)]);
}

fn show(id: &str) -> Series {
    Series {
        id: id.to_owned(),
        title: id.to_owned(),
        sort_title: id.to_owned(),
        year: None,
        overview: None,
        content_rating: None,
        manually_edited: false,
        added_at: at(0),
        updated_at: at(0),
    }
}

fn card(id: &str, series: Option<&str>) -> EpisodeCard {
    EpisodeCard {
        episode: episode(id, "se1", 1, 0),
        series: series.map(|s| s.to_owned()),
        series_title: series.map(|s| s.to_owned()),
        season_number: series.map(|_| 1),
        season_title: None,
    }
}

fn ids(hubs: &[Hub]) -> Vec<String> {
    hubs.iter().map(|h| h.id.clone()).collect()
}

#[test]
fn home_hubs_labels_orders_and_drops_empty_rows() {
    let hubs = home_hubs(
        Vec::new(),
        vec![HubItem::Movie(movie("m", 10))],
        vec![HubItem::Series { series: show("s1"), episode_count: Some(3) }],
        Vec::new(),
        vec![HubItem::Movie(movie("c", 10))],
    );
    assert_eq!(hubs.len(), 3);
    assert_eq!(hubs[0].id, "recently_added_movies");
    assert_eq!(hubs[0].title, "Recently Added Movies");
    assert_eq!(hubs[1].id, "recently_added_shows");
    assert_eq!(shown(&hubs[1].items), vec![("s1".to_owned(), Some(3))]);
    assert_eq!(hubs[2].id, "continue_watching");
}

#[test]
fn home_hubs_caps_each_row() {
    let big: Vec<HubItem> = (0..HUB_LIMIT + 5).map(|n| HubItem::Movie(movie(&format!("m{n}"), 0))).collect();
    let hubs = home_hubs(Vec::new(), big, Vec::new(), Vec::new(), Vec::new());
    assert_eq!(hubs.len(), 1);
    assert_eq!(hubs[0].items.len(), HUB_LIMIT);
}

#[test]
fn the_watchlist_rail_sits_above_recently_added() {
    let hubs = home_hubs(
        vec![HubItem::Movie(movie("w", 10))],
        vec![HubItem::Movie(movie("m", 10))],
        Vec::new(),
        Vec::new(),
        Vec::new(),
    );
    assert_eq!(ids(&hubs), vec!["watchlist", "recently_added_movies"]);
    assert_eq!(hubs[0].title, "On Your Watchlist");
}

#[test]
fn all_five_rails_in_their_fixed_order() {
    let one = || vec![HubItem::Movie(movie("x", 0))];
    let hubs = home_hubs(one(), one(), one(), one(), one());
    assert_eq!(
        ids(&hubs),
        vec!["watchlist", "recently_added_movies", "recently_added_shows", "on_deck", "continue_watching"]
    );
    assert_eq!(hubs[3].title, "On Deck");
    assert_eq!(hubs[4].title, "Continue Watching");
    assert_eq!(hubs[2].title, "Recently Added Series");
}

fn saved(title: TitleId, seconds: i64) -> WatchlistItem {
    WatchlistItem { user: "u1".to_owned(), title, added_at: at(seconds) }
}

fn saved_movie(id: &str, seconds: i64) -> WatchlistItem {
    saved(TitleId::Movie(id.to_owned()), seconds)
}

fn saved_episode(id: &str, seconds: i64) -> WatchlistItem {
    saved(TitleId::Episode(id.to_owned()), seconds)
}

#[test]
fn the_watchlist_row_is_newest_saved_first_and_capped() {
    let movies = [movie("old", 0), movie("new", 0), movie("mid", 0)];
    let items = [saved_movie("old", 10), saved_movie("new", 30), saved_movie("mid", 20)];
    let row = watchlist_row(&items, &movies, &[], 2);
    assert_eq!(shown(&row), vec![("new".to_owned(), None), ("mid".to_owned(), None)]);
}

#[test]
fn every_saved_episode_keeps_its_own_card() {
    let cards = [card("e1", Some("s1")), card("e2", Some("s1")), card("e3", Some("s1"))];
    let items = [saved_episode("e1", 30), saved_episode("e2", 20), saved_episode("e3", 10)];
    let row = watchlist_row(&items, &[], &cards, 10);
    assert_eq!(
        shown(&row),
        vec![("e1".to_owned(), None), ("e2".to_owned(), None), ("e3".to_owned(), None)]
    );
}

#[test]
fn a_saved_episode_carries_the_context_its_card_needs() {
    let row = watchlist_row(&[saved_episode("e1", 10)], &[], &[card("e1", Some("s1"))], 10);
    match &row[..] {
        [HubItem::Episode(card)] => {
            assert_eq!(card.series, Some("s1".to_owned()));
            assert_eq!(card.series_title.as_deref(), Some("s1"));
            assert_eq!(card.season_number, Some(1));
        }
        other => panic!("unexpected watchlist row: {other:?}"),
    }
}

#[test]
fn the_watchlist_row_skips_entries_whose_title_is_gone() {
    let movies = [movie("kept", 0)];
    let cards = [card("stray", None), card("e1", Some("known"))];
    let items = [
        saved_movie("kept", 60),
        saved_movie("deleted", 50),
        saved_episode("gone", 40),
        saved_episode("stray", 30),
        saved_episode("e1", 20),
    ];
    let row = watchlist_row(&items, &movies, &cards, 10);
    assert_eq!(
        shown(&row),
        vec![("kept".to_owned(), None), ("stray".to_owned(), None), ("e1".to_owned(), None)]
    );
    match &row[1] {
        HubItem::Episode(card) => assert!(card.series_title.is_none()),
        other => panic!("unexpected row entry: {other:?}"),
    }
}

#[test]
fn percent_is_whole_and_capped() {
    assert_eq!(progress_percent(250, 1000), 25);
    assert_eq!(progress_percent(1000, 2000), 50);
    assert_eq!(progress_percent(999, 1000), 99);
    assert_eq!(progress_percent(5000, 1000), 100);
    assert_eq!(progress_percent(10, 0), 0);
}

#[test]
fn builds_movie_card_with_title_and_percent() {
    let m = Movie { year: Some(2008), ..movie("m1", 0) };
    let m = Movie { title: "Alpha".to_owned(), ..m };
    let card = resume_card_of(&TitleId::Movie("m1".to_owned()), 1000, 250, Some(&m), None, None, None);
    assert_eq!(card.display_title, "Alpha");
    assert_eq!(card.duration_ms, 1000);
    assert_eq!(card.progress_percent, 25);
    assert_eq!(card.year, Some(2008));
    assert_eq!(card.title, TitleId::Movie("m1".to_owned()));
}

#[test]
fn builds_episode_card_with_series_context() {
    let e = Episode { title: "Pilot".to_owned(), ..episode("e1", "se1", 3, 0) };
    let season = Season {
        id: "se1".to_owned(),
        series: "sr1".to_owned(),
        number: 2,
        title: None,
        overview: None,
        added_at: at(0),
        updated_at: at(0),
    };
    let series = Series { title: "Show ABC".to_owned(), ..show("sr1") };
    let card = resume_card_of(
        &TitleId::Episode("e1".to_owned()),
        2000,
        1000,
        None,
        Some(&e),
        Some(&season),
        Some(&series),
    );
    assert_eq!(card.display_title, "Pilot");
    assert_eq!(card.progress_percent, 50);
    assert_eq!(card.series_title.as_deref(), Some("Show ABC"));
    assert_eq!(card.season_number, Some(2));
    assert_eq!(card.episode_number, Some(3));
    assert_eq!(card.year, None);
}

#[test]
fn episode_card_survives_a_missing_season() {
    let e = episode("e1", "gone", 3, 0);
    let card = resume_card_of(&TitleId::Episode("e1".to_owned()), 2000, 1000, None, Some(&e), None, None);
    assert_eq!(card.episode_number, Some(3));
    assert_eq!(card.season_number, None);
    assert_eq!(card.series_title, None);
}

#[test]
fn falls_back_when_title_row_absent() {
    let card = resume_card_of(&TitleId::Movie("gone".to_owned()), 1000, 0, None, None, None, None);
    assert_eq!(card.display_title, "gone");
    assert_eq!(card.progress_percent, 0);
}
