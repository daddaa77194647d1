use services::fetch::{filename_tag, safe_segment, FetchJobPayload, LibraryKind};
use services::parse::{parse_filename, ExternalId, Quality};

fn movie(title: &str, year: Option<u16>, external_id: Option<&str>) -> FetchJobPayload {
    FetchJobPayload {
        library: "lib1".into(),
        source_url: "https://example.com/watch?v=abc".into(),
        kind: LibraryKind::Movie,
        title: title.into(),
        year,
        external_id: external_id.map(str::to_owned),
        season: None,
        episode: None,
    }
}

fn series(title: &str, season: Option<u16>, episode: Option<u16>, external_id: Option<&str>) -> FetchJobPayload {
    FetchJobPayload {
        kind: LibraryKind::Tv,
        title: title.into(),
        season,
        episode,
        external_id: external_id.map(str::to_owned),
        ..movie(title, None, None)
    }
}

fn id(source: &str, value: &str) -> ExternalId {
    ExternalId { source: source.into(), value: value.into() }
}

#[test]
fn a_typed_title_is_kept_whole_however_it_reads_as_a_release_name() {
    let payload = movie("THIS IS 4K ANIME YOUR NAME 2160P 60FPS", None, None);
    let parsed = payload.parsed("/ext/whatever.mkv");
    assert_eq!(parsed.title, "THIS IS 4K ANIME YOUR NAME 2160P 60FPS");
    assert_eq!(parse_filename("/ext/THIS IS 4K ANIME.mkv").title, "THIS IS");
}

#[test]
fn a_title_that_ends_in_a_bare_year_keeps_it() {
    let parsed = movie("Blade Runner 2049", None, None).parsed("/ext/x.mkv");
    assert_eq!(parsed.title, "Blade Runner 2049");
    assert_eq!(parsed.year, None);
}

#[test]
fn a_movie_carries_its_year_and_no_episode_numbering() {
    let parsed = movie("The Matrix", Some(1999), Some("tt0133093")).parsed("/ext/x.mkv");
    assert_eq!(parsed.year, Some(1999));
    assert_eq!(parsed.season, None);
    assert_eq!(parsed.episode, None);
    assert_eq!(parsed.external_id.unwrap().source, "imdb");
}

#[test]
fn an_episode_defaults_to_the_same_numbering_the_filename_uses() {
    let payload = series("Great Show", None, None, None);
    let parsed = payload.parsed("/ext/x.mkv");
    assert_eq!((parsed.season, parsed.episode), (Some(1), Some(1)));
    assert!(payload.filename_stem().contains("S01E01"));
    let numbered = series("Great Show", Some(2), Some(5), None).parsed("/ext/x.mkv");
    assert_eq!((numbered.season, numbered.episode), (Some(2), Some(5)));
}

#[test]
fn quality_still_comes_from_the_file_since_the_payload_cannot_know_it() {
    let payload = movie("Anything", None, None);
    assert_eq!(payload.parsed("/ext/x.mkv").quality, None);
    assert_eq!(payload.parsed("/ext/x 2160p.mkv").quality, parse_filename("/ext/x 2160p.mkv").quality);
    assert_eq!(payload.parsed("/ext/x 2160p.mkv").quality, Some(Quality::Uhd));
}

#[test]
fn resolved_external_id_detects_imdb_tmdb_and_blank() {
    let mut payload = movie("The Matrix", None, Some("tt0133093"));
    assert_eq!(payload.resolved_external_id(), Some(id("imdb", "tt0133093")));
    payload.external_id = Some("603".into());
    assert_eq!(payload.resolved_external_id(), Some(id("tmdb", "movie/603")));
    payload.kind = LibraryKind::Tv;
    payload.external_id = Some("1399".into());
    assert_eq!(payload.resolved_external_id(), Some(id("tmdb", "tv/1399")));
    payload.external_id = Some("tv/1399".into());
    assert_eq!(payload.resolved_external_id(), Some(id("tmdb", "tv/1399")));
    payload.external_id = Some("  ".into());
    assert_eq!(payload.resolved_external_id(), None);
    payload.external_id = None;
    assert_eq!(payload.resolved_external_id(), None);
}

#[test]
fn an_external_id_is_trimmed_before_it_is_read() {
    let payload = movie("X", None, Some("  tt1 \t"));
    assert_eq!(payload.resolved_external_id(), Some(id("imdb", "tt1")));
}

#[test]
fn movie_stem_round_trips_through_parser() {
    let payload = movie("The Matrix", Some(1999), None);
    assert_eq!(payload.filename_stem(), "The Matrix (1999)");
    let parsed = parse_filename(&format!("{}.mkv", payload.filename_stem()));
    assert_eq!(parsed.title, "The Matrix");
    assert_eq!(parsed.year, Some(1999));
    assert!(!parsed.is_episodic());
}

#[test]
fn movie_without_year_stem_round_trips_through_parser() {
    let payload = movie("Some Movie", None, None);
    let parsed = parse_filename(&format!("{}.mkv", payload.filename_stem()));
    assert_eq!(parsed.title, "Some Movie");
    assert_eq!(parsed.year, None);
}

#[test]
fn tv_stem_round_trips_through_parser() {
    let payload = series("Great Show", Some(1), Some(2), None);
    assert_eq!(payload.filename_stem(), "Great Show - S01E02");
    let parsed = parse_filename(&format!("{}.mkv", payload.filename_stem()));
    assert_eq!(parsed.title, "Great Show");
    assert_eq!(parsed.season, Some(1));
    assert_eq!(parsed.episode, Some(2));
}

#[test]
fn tagged_stems_name_their_source() {
    assert_eq!(movie("The Matrix", None, Some("603")).filename_stem(), "The Matrix [tmdbid-603]");
    assert_eq!(
        movie("The Matrix", Some(1999), Some("tt0133093")).filename_stem(),
        "The Matrix (1999) [imdbid-tt0133093]"
    );
    assert_eq!(
        series("Great Show", Some(1), Some(2), Some("1399")).filename_stem(),
        "Great Show - S01E02 [tmdbid-1399]"
    );
}

#[test]
fn a_provider_we_do_not_tag_for_leaves_the_name_alone() {
    assert_eq!(filename_tag(&id("tvdb", "603")), None);
    assert_eq!(filename_tag(&id("tmdb", "tv/1399")), Some("tmdbid-1399".to_owned()));
}

#[test]
fn a_movie_lands_in_a_title_directory() {
    assert_eq!(movie("The Matrix", Some(1999), None).destination_dir("/ext", "job-1"), "/ext/The Matrix (1999)");
    assert_eq!(movie("Some Movie", None, None).destination_dir("/ext", "job-1"), "/ext/Some Movie");
}

#[test]
fn an_episode_lands_under_a_padded_season_directory() {
    assert_eq!(
        series("Great Show", Some(1), Some(2), None).destination_dir("/ext", "job-1"),
        "/ext/Great Show/Season 01"
    );
    assert_eq!(series("Great Show", None, None, None).destination_dir("/ext", "job-1"), "/ext/Great Show/Season 01");
    assert_eq!(
        series("Great Show", Some(12), Some(3), None).destination_dir("/ext", "job-1"),
        "/ext/Great Show/Season 12"
    );
}

#[test]
fn a_title_cannot_escape_the_library_root() {
    assert_eq!(movie("../../etc", None, None).destination_dir("/ext", "job-1"), "/ext/....etc");
    assert_eq!(movie("Face/Off", Some(1997), None).destination_dir("/ext", "job-1"), "/ext/FaceOff (1997)");
    assert_eq!(movie("Alien: Resurrection", None, None).filename_stem(), "Alien Resurrection");
}

#[test]
fn a_title_that_sanitises_to_nothing_falls_back_to_the_job_id() {
    assert_eq!(movie("///", None, None).destination_dir("/ext", "job-1"), "/ext/job-1");
    assert_eq!(series("///", Some(2), Some(1), None).destination_dir("/ext", "job-1"), "/ext/job-1/Season 02");
}

#[test]
fn segments_are_trimmed_and_separator_free() {
    assert_eq!(safe_segment("  a\\b/c  "), "abc");
    assert_eq!(safe_segment(".."), "");
}

use services::acl::{Principal, Role};
use services::fetch::{
    admit_fetch, check_cookies, check_fetch_source, fetch_payload, CookieVerdict, FetchInput, LibraryError,
    LibraryOrigin,
};

fn caller(role: Role) -> Principal {
    Principal { user: "u1".to_owned(), role }
}

#[test]
fn fetching_takes_an_admin_and_the_flag() {
    assert_eq!(admit_fetch(&caller(Role::User), true), Err(LibraryError::Forbidden));
    assert_eq!(admit_fetch(&caller(Role::Admin), false), Err(LibraryError::Disabled));
    assert_eq!(admit_fetch(&caller(Role::User), false), Err(LibraryError::Forbidden));
    assert_eq!(admit_fetch(&caller(Role::Admin), true), Ok(()));
}

#[test]
fn a_fetch_source_must_be_an_http_url_into_an_external_library() {
    let ok = "https://example.com/watch?v=abc";
    assert_eq!(check_fetch_source(None, ok), Err(LibraryError::NotFound));
    assert_eq!(check_fetch_source(Some(LibraryOrigin::Local), ok), Err(LibraryError::Forbidden));
    assert_eq!(check_fetch_source(Some(LibraryOrigin::External), ok), Ok("example.com".to_owned()));
    assert_eq!(
        check_fetch_source(Some(LibraryOrigin::External), "file:///etc/passwd"),
        Err(LibraryError::InvalidRequest("source_url must be an http or https URL".to_owned()))
    );
    assert_eq!(
        check_fetch_source(Some(LibraryOrigin::External), "not a url"),
        Err(LibraryError::InvalidRequest("source_url is not a valid URL".to_owned()))
    );
}

#[test]
fn expired_cookies_refuse_the_fetch() {
    assert!(matches!(
        check_cookies("example.com", Some(CookieVerdict::Expired)),
        Err(LibraryError::InvalidRequest(msg)) if msg.contains("[example.com] have expired")
    ));
    assert_eq!(check_cookies("example.com", Some(CookieVerdict::Live)), Ok(()));
    assert_eq!(check_cookies("example.com", Some(CookieVerdict::NotApplicable)), Ok(()));
    assert_eq!(check_cookies("example.com", None), Ok(()));
}

#[test]
fn a_checked_fetch_becomes_its_payload() {
    let input = FetchInput {
        source_url: "https://example.com/a".to_owned(),
        kind: LibraryKind::Movie,
        title: "The Matrix".to_owned(),
        year: Some(1999),
        external_id: None,
        season: None,
        episode: None,
    };
    let payload = fetch_payload("ext", input);
    assert_eq!(payload.library, "ext");
    assert_eq!(payload.title, "The Matrix");
    assert_eq!(payload.year, Some(1999));
}

use services::enrichment::{refresh_source, MetadataSource};
use services::parse::{confidence_tier, ConfidenceTier};

#[test]
fn a_tagged_movie_survives_a_wipe_without_its_year() {
    let payload = movie("The Matrix", None, Some("603"));
    assert_eq!(payload.filename_stem(), "The Matrix [tmdbid-603]");
    let parsed = parse_filename(&format!("{}.mkv", payload.filename_stem()));
    assert_eq!(parsed.title, "The Matrix");
    assert_eq!(parsed.year, None);
    assert_eq!(parsed.external_id, Some(ExternalId { source: "tmdb".into(), value: "movie/603".into() }));
    assert_eq!(confidence_tier(&parsed), ConfidenceTier::Strong);
}

#[test]
fn an_imdb_id_is_tagged_and_read_back_as_imdb() {
    let payload = movie("The Matrix", Some(1999), Some("tt0133093"));
    assert_eq!(payload.filename_stem(), "The Matrix (1999) [imdbid-tt0133093]");
    let parsed = parse_filename(&format!("{}.mkv", payload.filename_stem()));
    assert_eq!(parsed.title, "The Matrix");
    assert_eq!(parsed.year, Some(1999));
    assert_eq!(parsed.external_id, Some(ExternalId { source: "imdb".into(), value: "tt0133093".into() }));
}

#[test]
fn a_tagged_episode_reads_back_as_a_tv_id() {
    let payload = series("Great Show", Some(1), Some(2), Some("1399"));
    assert_eq!(payload.filename_stem(), "Great Show - S01E02 [tmdbid-1399]");
    let parsed = parse_filename(&format!("{}.mkv", payload.filename_stem()));
    assert_eq!(parsed.title, "Great Show");
    assert_eq!(parsed.external_id, Some(ExternalId { source: "tmdb".into(), value: "tv/1399".into() }));
}

#[test]
fn a_scanned_file_carrying_a_provider_tag_resolves_by_id_and_never_searches() {
    let parsed = parse_filename("/ext/The Matrix (1999)/The Matrix (1999) [tmdbid-603].mkv");
    let id = parsed.external_id.clone().unwrap();
    assert_eq!(id, ExternalId { source: "tmdb".into(), value: "movie/603".into() });
    assert_eq!(refresh_source(parsed.external_id.as_ref(), None), MetadataSource::ById(id));
}

#[test]
fn a_scanned_file_without_a_tag_still_searches_by_title() {
    let plain = parse_filename("/ext/The Matrix (1999).mkv");
    assert_eq!(plain.external_id, None);
    assert_eq!(plain.title, "The Matrix");
    assert_eq!(refresh_source(plain.external_id.as_ref(), None), MetadataSource::Search);
}

#[test]
fn only_a_well_formed_trailing_tag_is_read() {
    assert_eq!(parse_filename("Movie [tvdbid-5].mkv").external_id, None);
    assert_eq!(parse_filename("Movie [tmdbid-].mkv").external_id, None);
    assert_eq!(parse_filename("Movie [tmdbid-5] extra.mkv").external_id, None);
    let p = parse_filename("Movie [tmdbid-5].mkv");
    assert_eq!(p.title, "Movie");
    assert_eq!(p.external_id.unwrap().value, "movie/5");
}

#[test]
fn unicode_white_space_around_an_id_is_trimmed_as_std_trims_it() {
    for ws in ['\t', '\u{85}', '\u{a0}', '\u{1680}', '\u{2003}', '\u{2028}', '\u{202f}', '\u{205f}', '\u{3000}'] {
        assert!(ws.is_whitespace());
        let raw = format!("{ws}603{ws}");
        assert_eq!(movie("M", None, Some(&raw)).resolved_external_id(), Some(id("tmdb", "movie/603")));
    }
    let raw = "\u{200b}603";
    assert!(!'\u{200b}'.is_whitespace());
    assert_eq!(movie("M", None, Some(raw)).resolved_external_id(), Some(id("tmdb", "movie/\u{200b}603")));
}
