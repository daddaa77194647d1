use services::enrich::RefreshAction::{
    AttachCollection, ClearMovieEdit, DiscardSeriesEdits, EpisodeArtwork, MovieArtwork, PersistEnrichment, RefreshSeasons,
    SeasonArtwork, SeriesArtwork, WriteEpisode, WriteMovie, WriteSeason, WriteSeries,
};
use services::catalog::{ContentRating, Episode, Movie, Series, Timestamp};
use services::enrich::{
    cleared_edits, new_movie, new_series, refresh_movie_actions, refresh_seasons_actions, refresh_series_actions,
    refreshed_movie, refreshed_series, refreshed_title, EpisodeRead, SeasonRead, TitleMetadata,
};

fn at(n: i128) -> Timestamp {
    Timestamp { nanosecond: n }
}

fn rating(code: &str) -> ContentRating {
    ContentRating { system: "MPAA".into(), code: code.into() }
}

fn meta(title: &str) -> TitleMetadata {
    TitleMetadata {
        title: title.into(),
        year: Some(1999),
        overview: Some("From the provider".into()),
        runtime_minutes: Some(136),
        content_rating: Some(rating("R")),
        external_ids: Vec::new(),
    }
}

fn stored_movie(edited: bool) -> Movie {
    Movie {
        id: "m1".into(),
        title: "My Cut".into(),
        sort_title: "my cut".into(),
        year: Some(2000),
        overview: Some("Mine".into()),
        runtime_minutes: Some(90),
        content_rating: None,
        manually_edited: edited,
        added_at: at(1),
        updated_at: at(2),
    }
}

fn stored_series(edited: bool) -> Series {
    Series {
        id: "s1".into(),
        title: "Show".into(),
        sort_title: "show".into(),
        year: None,
        overview: None,
        content_rating: Some(rating("TV-14")),
        manually_edited: edited,
        added_at: at(1),
        updated_at: at(2),
    }
}

#[test]
fn an_ingested_movie_takes_the_provider_fields() {
    let m = meta("  The Matrix  ");
    let movie = new_movie("m1", Some(&m), "the matrix", Some(1998), "matrix".into(), at(5));
    assert_eq!(movie.id, "m1");
    assert_eq!(movie.title, "The Matrix");
    assert_eq!(movie.sort_title, "matrix");
    assert_eq!(movie.year, Some(1999));
    assert_eq!(movie.overview.as_deref(), Some("From the provider"));
    assert_eq!(movie.runtime_minutes, Some(136));
    assert_eq!(movie.content_rating, Some(rating("R")));
    assert!(!movie.manually_edited);
    assert_eq!((movie.added_at, movie.updated_at), (at(5), at(5)));
}

#[test]
fn an_ingested_movie_without_metadata_keeps_the_parsed_name() {
    let movie = new_movie("m2", None, "Heat", Some(1995), "heat".into(), at(5));
    assert_eq!(movie.title, "Heat");
    assert_eq!(movie.year, Some(1995));
    assert_eq!(movie.overview, None);
    assert_eq!(movie.runtime_minutes, None);
    assert_eq!(movie.content_rating, None);
    let blank = TitleMetadata { year: None, ..meta("   ") };
    let movie = new_movie("m2", Some(&blank), "Heat", Some(1995), "heat".into(), at(5));
    assert_eq!(movie.title, "Heat");
    assert_eq!(movie.year, Some(1995));
}

#[test]
fn an_ingested_series_takes_the_provider_fields() {
    let s = new_series("s1", Some(&meta("Dark")), "dark", None, "dark".into(), at(3));
    assert_eq!(s.title, "Dark");
    assert_eq!(s.year, Some(1999));
    assert_eq!(s.overview.as_deref(), Some("From the provider"));
    assert_eq!(s.content_rating, Some(rating("R")));
    assert!(!s.manually_edited);
}

#[test]
fn a_refresh_keeps_a_blank_provider_title_out() {
    assert_eq!(refreshed_title("Old", "  "), "Old");
    assert_eq!(refreshed_title("Old", ""), "Old");
    assert_eq!(refreshed_title("Old", " New "), " New ");
}

#[test]
fn a_plain_refresh_leaves_an_edited_movie_alone() {
    assert_eq!(refreshed_movie(&stored_movie(true), &meta("The Matrix"), false, "matrix".into()), None);
}

#[test]
fn a_forced_refresh_overwrites_an_edited_movie_and_clears_the_flag() {
    let m = refreshed_movie(&stored_movie(true), &meta("The Matrix"), true, "matrix".into()).unwrap();
    assert_eq!(m.title, "The Matrix");
    assert_eq!(m.sort_title, "matrix");
    assert_eq!(m.year, Some(1999));
    assert_eq!(m.overview.as_deref(), Some("From the provider"));
    assert_eq!(m.runtime_minutes, Some(136));
    assert_eq!(m.content_rating, Some(rating("R")));
    assert!(!m.manually_edited);
    assert_eq!(m.id, "m1");
    assert_eq!((m.added_at, m.updated_at), (at(1), at(2)));
}

#[test]
fn a_refresh_keeps_what_the_provider_does_not_say() {
    let sparse = TitleMetadata { year: None, overview: None, runtime_minutes: None, content_rating: None, ..meta("") };
    let m = refreshed_movie(&stored_movie(false), &sparse, false, "my cut".into()).unwrap();
    assert_eq!(m, stored_movie(false));
}

#[test]
fn a_series_refresh_follows_the_same_rules() {
    assert_eq!(refreshed_series(&stored_series(true), &meta("Dark"), false, "dark".into()), None);
    let s = refreshed_series(&stored_series(true), &meta("Dark"), true, "dark".into()).unwrap();
    assert_eq!(s.title, "Dark");
    assert_eq!(s.year, Some(1999));
    assert_eq!(s.content_rating, Some(rating("R")));
    assert!(!s.manually_edited);
    let sparse = TitleMetadata { year: None, overview: None, runtime_minutes: None, content_rating: None, ..meta("") };
    assert_eq!(refreshed_series(&stored_series(false), &sparse, false, "show".into()), Some(stored_series(false)));
}

#[test]
fn a_forced_refresh_clears_only_the_edited_episodes() {
    let ep = |id: &str, edited: bool| Episode {
        id: id.into(),
        season: "se1".into(),
        number: 1,
        title: id.into(),
        overview: None,
        runtime_minutes: None,
        air_date: None,
        manually_edited: edited,
        added_at: at(0),
        updated_at: at(0),
    };
    let cleared = cleared_edits(&[ep("e1", true), ep("e2", false), ep("e3", true)]);
    assert_eq!(cleared, vec![ep("e1", false), ep("e3", false)]);
    assert!(cleared_edits(&[ep("e2", false)]).is_empty());
}

#[test]
fn a_non_force_refresh_leaves_an_edited_movie_row_alone() {
    assert_eq!(
        refresh_movie_actions(true, true, false, true, false),
        vec![PersistEnrichment, MovieArtwork]
    );
    assert_eq!(
        refresh_movie_actions(true, true, true, true, false),
        vec![ClearMovieEdit, WriteMovie, PersistEnrichment, MovieArtwork]
    );
    assert_eq!(refresh_movie_actions(false, true, true, true, true), Vec::new());
}

#[test]
fn a_movie_refresh_without_metadata_only_clears_a_forced_edit() {
    assert_eq!(refresh_movie_actions(true, true, true, false, true), vec![ClearMovieEdit]);
    assert_eq!(refresh_movie_actions(true, false, true, false, true), Vec::new());
    assert_eq!(
        refresh_movie_actions(true, false, false, true, true),
        vec![WriteMovie, PersistEnrichment, AttachCollection, MovieArtwork]
    );
}

#[test]
fn a_series_refresh_discards_edits_when_forced_and_walks_its_seasons() {
    assert_eq!(
        refresh_series_actions(true, false, true, true, true),
        vec![DiscardSeriesEdits, WriteSeries, PersistEnrichment, SeriesArtwork, RefreshSeasons]
    );
    assert_eq!(refresh_series_actions(true, true, false, true, false), vec![PersistEnrichment, SeriesArtwork]);
    assert_eq!(refresh_series_actions(true, true, true, false, true), vec![DiscardSeriesEdits]);
    assert_eq!(refresh_series_actions(false, false, true, true, true), Vec::new());
}

#[test]
fn refresh_series_populates_existing_seasons_and_episodes() {
    let seasons = vec![
        SeasonRead {
            found: true,
            episodes: vec![
                EpisodeRead { matched: true, edited: false },
                EpisodeRead { matched: false, edited: false },
                EpisodeRead { matched: true, edited: true },
            ],
        },
        SeasonRead { found: false, episodes: vec![EpisodeRead { matched: true, edited: false }] },
        SeasonRead { found: true, episodes: Vec::new() },
    ];
    assert_eq!(
        refresh_seasons_actions(&seasons, false),
        vec![
            WriteSeason(0),
            SeasonArtwork(0),
            WriteEpisode(0, 0),
            EpisodeArtwork(0, 0),
            EpisodeArtwork(0, 2),
            WriteSeason(2),
            SeasonArtwork(2),
        ]
    );
    let forced = refresh_seasons_actions(&seasons, true);
    assert_eq!(forced[4..6], [WriteEpisode(0, 2), EpisodeArtwork(0, 2)]);
}
