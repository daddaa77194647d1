use services::catalog::{Episode, EpisodeContext, Movie, Series, Timestamp, TitleId};
use services::discovery::{ContinueWatchingItem, HubItem, PlaybackProgress, ResumeCard, WatchlistItem};
use services::hub_rows::{cards_for, continue_row, split_watchlist, started_movies};

fn at(n: i128) -> Timestamp {
    Timestamp { nanosecond: n }
}

fn movie(id: &str) -> Movie {
    Movie {
        id: id.into(),
        title: id.into(),
        sort_title: id.into(),
        year: None,
        overview: None,
        runtime_minutes: None,
        content_rating: None,
        manually_edited: false,
        added_at: at(0),
        updated_at: at(0),
    }
}

fn show(id: &str, title: &str) -> Series {
    Series {
        id: id.into(),
        title: title.into(),
        sort_title: title.into(),
        year: None,
        overview: None,
        content_rating: None,
        manually_edited: false,
        added_at: at(0),
        updated_at: at(0),
    }
}

fn context(episode: &str, series: &str, season_number: u16) -> EpisodeContext {
    EpisodeContext {
        episode: Episode {
            id: episode.into(),
            season: "se".into(),
            number: 1,
            title: episode.into(),
            overview: None,
            runtime_minutes: None,
            air_date: None,
            manually_edited: false,
            added_at: at(0),
            updated_at: at(0),
        },
        season: "se".into(),
        season_number,
        season_title: Some("Book One".into()),
        series: series.into(),
    }
}

fn saved(title: TitleId) -> WatchlistItem {
    WatchlistItem { user: "u1".into(), title, added_at: at(0) }
}

fn watching(title: TitleId) -> ContinueWatchingItem {
    ContinueWatchingItem {
        progress: PlaybackProgress {
            user: "u1".into(),
            version: "v".into(),
            position_ms: 10,
            audio_track: None,
            subtitle: None,
            updated_at: at(0),
        },
        card: ResumeCard {
            title,
            display_title: "x".into(),
            duration_ms: 100,
            progress_percent: 10,
            year: None,
            series_title: None,
            season_number: None,
            episode_number: None,
        },
    }
}

#[test]
fn episode_cards_carry_their_show_and_season() {
    let cards = cards_for(
        vec![context("e1", "s1", 2), context("e2", "gone", 1), context("e3", "s1", 3)],
        &[show("s1", "Avatar")],
    );
    assert_eq!(cards.len(), 3);
    assert_eq!(cards[0].series.as_deref(), Some("s1"));
    assert_eq!(cards[0].series_title.as_deref(), Some("Avatar"));
    assert_eq!(cards[0].season_number, Some(2));
    assert_eq!(cards[0].season_title.as_deref(), Some("Book One"));
    assert_eq!(cards[1].series.as_deref(), Some("gone"));
    assert_eq!(cards[1].series_title, None);
    assert_eq!(cards[2].episode.id, "e3");
}

#[test]
fn a_watchlist_splits_into_movies_and_episodes() {
    let items = [
        saved(TitleId::Movie("m1".into())),
        saved(TitleId::Episode("e1".into())),
        saved(TitleId::Movie("m2".into())),
    ];
    let (movies, episodes) = split_watchlist(&items);
    assert_eq!(movies, vec!["m1".to_owned(), "m2".to_owned()]);
    assert_eq!(episodes, vec!["e1".to_owned()]);
}

#[test]
fn the_continue_row_keeps_visible_started_movies_in_order() {
    let items = [
        watching(TitleId::Movie("m2".into())),
        watching(TitleId::Episode("e1".into())),
        watching(TitleId::Movie("hidden".into())),
        watching(TitleId::Movie("m1".into())),
    ];
    let started = started_movies(&items);
    assert_eq!(started, vec!["m2".to_owned(), "hidden".to_owned(), "m1".to_owned()]);
    let row = continue_row(&started, &[movie("m1"), movie("m2")]);
    let ids: Vec<&str> = row
        .iter()
        .map(|item| match item {
            HubItem::Movie(m) => m.id.as_str(),
            _ => panic!("expected a movie"),
        })
        .collect();
    assert_eq!(ids, ["m2", "m1"]);
}
