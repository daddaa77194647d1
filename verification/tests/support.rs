use services::acl::{can_access_library, is_admin, is_automation, rating_permits, Principal, Role, Viewer};
use services::catalog::{Timestamp, TitleId, Version};
use services::debounce::Debouncer;
use services::enrich::{
    derive_id, display_title, display_year, imdb_id, is_unchanged, plan_file_ingest, qualified_provider_id,
    quality_from_height, recorded_size, resolve_quality, tmdb_external_id, version_id_of, IngestMode, SubtitleSource,
    TitleMetadata,
};
use services::subtitles::SubtitleFormat;
use services::fetch::LibraryKind;
use services::media::{ProbeResult, VideoTrack};
use services::parse::{ExternalId, Quality};
use services::scanner::DiscoveredFile;
use services::schedule::{daily_expression, daily_schedule, next_daily_fire, next_fire_after};
use services::tokens::{hash_api_token, is_api_token, role_from_claim, role_to_claim, signature_of};

fn ts(text: &str) -> Timestamp {
    let t: jiff::Timestamp = text.parse().unwrap();
    Timestamp { nanosecond: t.as_nanosecond() }
}

const SECOND: i128 = 1_000_000_000;

#[test]
fn fires_once_after_quiet_window() {
    let mut debouncer = Debouncer::new(10 * SECOND);
    debouncer.offer(ts("2026-01-01T00:00:00Z"));
    assert!(!debouncer.take_ready(ts("2026-01-01T00:00:05Z")));
    assert!(debouncer.take_ready(ts("2026-01-01T00:00:10Z")));
    assert!(!debouncer.take_ready(ts("2026-01-01T00:00:20Z")));
}

#[test]
fn a_burst_coalesces_into_one_fire() {
    let mut debouncer = Debouncer::new(10 * SECOND);
    debouncer.offer(ts("2026-01-01T00:00:00Z"));
    debouncer.offer(ts("2026-01-01T00:00:05Z"));
    assert!(!debouncer.take_ready(ts("2026-01-01T00:00:12Z")));
    assert!(debouncer.take_ready(ts("2026-01-01T00:00:15Z")));
}

#[test]
fn take_ready_without_changes_is_false() {
    let mut debouncer = Debouncer::new(10 * SECOND);
    assert!(!debouncer.take_ready(ts("2026-01-01T00:00:00Z")));
}

#[test]
fn a_deadline_past_the_last_instant_never_fires() {
    let mut debouncer = Debouncer::new(10 * SECOND);
    let last = Timestamp { nanosecond: jiff::Timestamp::MAX.as_nanosecond() };
    debouncer.offer(last);
    assert!(!debouncer.take_ready(last));
}

fn principal(role: Role) -> Principal {
    Principal { user: "u1".to_owned(), role }
}

#[test]
fn admin_detection() {
    assert!(is_admin(&principal(Role::Admin)));
    assert!(!is_admin(&principal(Role::User)));
    assert!(!is_admin(&principal(Role::Player)));
    assert!(!is_admin(&principal(Role::Automation)));
}

#[test]
fn automation_detection() {
    assert!(is_automation(&principal(Role::Automation)));
    assert!(!is_automation(&principal(Role::Admin)));
    assert!(!is_automation(&principal(Role::User)));
    assert!(!is_automation(&principal(Role::Player)));
}

#[test]
fn library_access_membership() {
    let access = ["lib1".to_owned(), "lib2".to_owned()];
    assert!(can_access_library(&access, "lib1"));
    assert!(!can_access_library(&access, "lib3"));
    assert!(!can_access_library(&[], "lib1"));
}

#[test]
fn rating_gate_allows_within_cap_and_unknowns() {
    let pg13 = Some(13);
    let r = Some(17);
    let unknown = None;
    assert!(rating_permits(r, pg13));
    assert!(rating_permits(pg13, pg13));
    assert!(!rating_permits(pg13, r));
    assert!(rating_permits(None, r));
    assert!(rating_permits(pg13, None));
    assert!(rating_permits(unknown, r));
}

#[test]
fn a_viewer_is_scoped_to_its_grants() {
    let seen = Viewer::new(Some(13), vec!["lib1".to_owned(), "lib2".to_owned()]);
    assert_eq!(seen.scope(None), vec!["lib1".to_owned(), "lib2".to_owned()]);
    assert_eq!(seen.scope(Some("lib2")), vec!["lib2".to_owned()]);
    assert!(seen.scope(Some("forbidden")).is_empty());
    assert!(seen.permits(Some(10)));
    assert!(!seen.permits(Some(17)));
    assert!(seen.sees_library("lib1"));
    assert!(!seen.sees_library("lib3"));
}

#[test]
fn a_missing_account_fails_closed() {
    let seen = Viewer::new(None, Vec::new());
    assert!(seen.scope(None).is_empty());
    assert!(!seen.sees_library("lib1"));
}

#[test]
fn computes_next_hourly_fire() {
    let next = next_fire_after("0 0 * * * * *", ts("2026-01-01T00:00:00Z"), &jiff::tz::TimeZone::UTC);
    assert_eq!(next, Some(ts("2026-01-01T01:00:00Z")));
}

#[test]
fn computes_next_daily_fire() {
    let next = next_fire_after("0 0 3 * * * *", ts("2026-01-01T00:00:00Z"), &jiff::tz::TimeZone::UTC);
    assert_eq!(next, Some(ts("2026-01-01T03:00:00Z")));
}

#[test]
fn invalid_expression_is_none() {
    assert_eq!(next_fire_after("not a cron", ts("2026-01-01T00:00:00Z"), &jiff::tz::TimeZone::UTC), None);
}

#[test]
fn daily_fire_is_the_next_occurrence_of_the_clock_time() {
    let utc = jiff::tz::TimeZone::UTC;
    assert_eq!(next_daily_fire("04:00", ts("2026-01-01T00:00:00Z"), &utc), Some(ts("2026-01-01T04:00:00Z")));
    assert_eq!(next_daily_fire("04:00", ts("2026-01-01T06:00:00Z"), &utc), Some(ts("2026-01-02T04:00:00Z")));
    assert_eq!(next_daily_fire("23:45", ts("2026-01-01T00:00:00Z"), &utc), Some(ts("2026-01-01T23:45:00Z")));
}

#[test]
fn daily_fire_rejects_anything_that_is_not_a_clock_time() {
    for value in ["", "off", "4pm", "25:00", "04:61"] {
        assert_eq!(
            next_daily_fire(value, ts("2026-01-01T00:00:00Z"), &jiff::tz::TimeZone::UTC),
            None,
            "{value} should not parse"
        );
    }
}

#[test]
fn daily_expressions_name_minute_then_hour() {
    assert_eq!(daily_expression(4, 0), "0 0 4 * * * *");
    assert_eq!(daily_expression(23, 45), "0 45 23 * * * *");
}

#[test]
fn api_tokens_hash_to_hex_sha256() {
    assert_eq!(hash_api_token("abc"), "ba7816bf8f01cfea414140de5dae2223b00361a396177a9cb410ff61f20015ad");
    assert_eq!(hash_api_token("").len(), 64);
    assert_ne!(hash_api_token("smk_a"), hash_api_token("smk_b"));
}

#[test]
fn api_tokens_are_told_apart_by_prefix() {
    assert!(is_api_token("smk_0123"));
    assert!(!is_api_token("smk"));
    assert!(!is_api_token("eyJhbGciOi.x.y"));
}

#[test]
fn the_signature_is_the_last_dotted_part() {
    assert_eq!(signature_of("a.b.c"), "c");
    assert_eq!(signature_of("plain"), "plain");
    assert_eq!(signature_of("a.b."), "");
}

#[test]
fn role_claims_round_trip() {
    for role in [Role::Admin, Role::User, Role::Player, Role::Automation] {
        assert_eq!(role_from_claim(&role_to_claim(role)), Some(role));
    }
    assert_eq!(role_to_claim(Role::Admin), "admin");
    assert_eq!(role_from_claim("root"), None);
}

fn id(source: &str, value: &str) -> ExternalId {
    ExternalId { source: source.into(), value: value.into() }
}

#[test]
fn a_bare_tmdb_id_is_qualified_by_the_library_kind() {
    let bare = id("tmdb", "4629");
    assert_eq!(qualified_provider_id(&bare, LibraryKind::Tv).value, "tv/4629");
    assert_eq!(qualified_provider_id(&bare, LibraryKind::Movie).value, "movie/4629");
    assert_eq!(qualified_provider_id(&id("tmdb", "movie/4629"), LibraryKind::Tv).value, "movie/4629");
    for other in [id("imdb", "tt0118480"), id("tmdb", "tt0118480")] {
        assert_eq!(qualified_provider_id(&other, LibraryKind::Tv).value, "tt0118480");
    }
}

fn metadata(title: &str, year: Option<u16>, ids: Vec<ExternalId>) -> TitleMetadata {
    TitleMetadata {
        title: title.to_owned(),
        year,
        overview: None,
        runtime_minutes: None,
        content_rating: None,
        external_ids: ids,
    }
}

#[test]
fn imdb_id_extracts_matching_source() {
    let m = metadata("x", None, vec![id("tmdb", "movie/603"), id("imdb", "tt0133093")]);
    assert_eq!(imdb_id(Some(&m)), Some("tt0133093".to_owned()));
    assert_eq!(imdb_id(Some(&metadata("x", None, Vec::new()))), None);
    assert_eq!(imdb_id(None), None);
    assert_eq!(tmdb_external_id(Some(&m)), Some(id("tmdb", "movie/603")));
}

#[test]
fn display_title_and_year_prefer_the_provider() {
    let m = metadata("  The Matrix ", Some(1999), Vec::new());
    assert_eq!(display_title(Some(&m), "the matrix"), "The Matrix");
    assert_eq!(display_title(Some(&metadata("   ", None, Vec::new())), "parsed"), "parsed");
    assert_eq!(display_title(None, "parsed"), "parsed");
    assert_eq!(display_year(Some(&m), Some(2000)), Some(1999));
    assert_eq!(display_year(Some(&metadata("x", None, Vec::new())), Some(2000)), Some(2000));
}

fn probe(height: Option<u32>, duration_ms: u64) -> ProbeResult {
    ProbeResult {
        duration_ms,
        video: height.map(|h| vec![VideoTrack { index: 0, width: h * 16 / 9, height: h }]).unwrap_or_default(),
        audio: Vec::new(),
        subtitles: Vec::new(),
    }
}

#[test]
fn resolve_quality_prefers_filename_then_falls_back_to_probed_height() {
    assert_eq!(resolve_quality(Some(Quality::Hd), &probe(Some(2160), 0)), Quality::Hd);
    assert_eq!(resolve_quality(None, &probe(Some(2160), 0)), Quality::Uhd);
    assert_eq!(resolve_quality(None, &probe(None, 0)), Quality::Sd);
    assert_eq!(quality_from_height(1080), Quality::Fhd);
    assert_eq!(quality_from_height(719), Quality::Sd);
}

fn version(size_bytes: u64, duration_ms: u64) -> Version {
    Version {
        id: "v1".to_owned(),
        title: TitleId::Movie("m1".to_owned()),
        library: "lib".to_owned(),
        quality: Quality::Hd,
        container: "mkv".to_owned(),
        path: "/m/a.mkv".to_owned(),
        size_bytes,
        duration_ms,
        available: true,
        added_at: Timestamp { nanosecond: 0 },
        updated_at: Timestamp { nanosecond: 0 },
    }
}

fn discovered(size_bytes: u64, duration_ms: u64) -> DiscoveredFile {
    DiscoveredFile {
        library: "lib".to_owned(),
        path: "/m/a.mkv".to_owned(),
        size_bytes,
        probe: probe(None, duration_ms),
        subtitle_siblings: Vec::new(),
    }
}

#[test]
fn a_file_without_a_size_keeps_the_recorded_one() {
    let stored = version(500, 60_000);
    assert_eq!(recorded_size(&discovered(0, 60_000), Some(&stored)), 500);
    assert_eq!(recorded_size(&discovered(700, 60_000), Some(&stored)), 700);
    assert_eq!(recorded_size(&discovered(0, 60_000), None), 0);
    assert!(is_unchanged(Some(&stored), &discovered(0, 60_000)));
    assert!(is_unchanged(Some(&stored), &discovered(500, 60_000)));
    assert!(!is_unchanged(Some(&stored), &discovered(500, 61_000)));
    assert!(!is_unchanged(None, &discovered(500, 60_000)));
}

#[test]
fn a_scan_skips_an_unchanged_file_and_an_explicit_ingest_does_not() {
    let stored = version(500, 60_000);
    let file = discovered(500, 60_000);
    let title = TitleId::Movie("m1".to_owned());
    let now = Timestamp { nanosecond: 42 };
    assert!(plan_file_ingest(&file, &title, "lib", None, IngestMode::Scan, Some(&stored), now).is_none());
    let plan = plan_file_ingest(&file, &title, "lib", None, IngestMode::Explicit, Some(&stored), now).unwrap();
    assert_eq!(plan.version.size_bytes, 500);
    assert_eq!(plan.version.added_at, now);
    assert_eq!(plan.version.id, version_id_of("/m/a.mkv"));
    assert_eq!(plan.version.id, derive_id("version", "/m/a.mkv"));
}

#[test]
fn an_ingested_file_records_its_version_and_sidecar_subtitles() {
    let mut file = discovered(900, 5_000);
    file.path = "/m/Heat (1995) 1080p.MKV".to_owned();
    file.subtitle_siblings = vec!["/m/Heat (1995) 1080p.en.srt".to_owned(), "/m/other.srt".to_owned()];
    let title = TitleId::Movie("m1".to_owned());
    let now = Timestamp { nanosecond: 7 };
    let plan = plan_file_ingest(&file, &title, "lib", Some(Quality::Fhd), IngestMode::Scan, None, now).unwrap();
    assert_eq!(plan.version.container, "mkv");
    assert_eq!(plan.version.quality, Quality::Fhd);
    assert_eq!(plan.version.library, "lib");
    assert!(plan.version.available);
    assert_eq!(plan.subtitles.len(), 1);
    assert_eq!(plan.subtitles[0].language, Some("en".to_owned()));
    assert_eq!(plan.subtitles[0].format, SubtitleFormat::Srt);
    assert_eq!(plan.subtitles[0].source, SubtitleSource::External);
    assert_eq!(plan.subtitles[0].version, plan.version.id);
    assert_eq!(plan.subtitles[0].id, derive_id("subtitle", "/m/Heat (1995) 1080p.en.srt"));
    assert!(plan.has_native_subtitle);
    let bare = discovered(1, 1);
    let plan = plan_file_ingest(&bare, &title, "lib", None, IngestMode::Scan, None, now).unwrap();
    assert!(!plan.has_native_subtitle);
    assert_eq!(plan.version.quality, Quality::Sd);
}

use services::jobs::{select_audio_track, translation_payload, translation_payload_with_source};
use services::media::AudioTrack;

fn track(index: u32, language: Option<&str>) -> AudioTrack {
    AudioTrack { index, language: language.map(|l| l.to_owned()) }
}

#[test]
fn select_audio_track_returns_index_of_preferred_language() {
    let tracks = [track(1, Some("eng")), track(2, Some("spa"))];
    assert_eq!(select_audio_track(&tracks, Some("spa")), Some(2));
}

#[test]
fn select_audio_track_returns_first_match() {
    let tracks = [track(1, Some("eng")), track(2, Some("eng"))];
    assert_eq!(select_audio_track(&tracks, Some("eng")), Some(1));
}

#[test]
fn select_audio_track_is_none_without_a_match() {
    let tracks = [track(1, Some("eng")), track(2, None)];
    assert_eq!(select_audio_track(&tracks, Some("spa")), None);
}

#[test]
fn select_audio_track_is_none_without_a_preference() {
    let tracks = [track(1, Some("eng"))];
    assert_eq!(select_audio_track(&tracks, None), None);
}

#[test]
fn select_audio_track_is_none_when_empty() {
    assert_eq!(select_audio_track(&[], Some("eng")), None);
}

#[test]
fn translation_job_is_none_without_languages() {
    assert!(translation_payload("v1", &Vec::new()).is_none());
}

#[test]
fn a_translation_targets_the_languages_asked_for() {
    let payload = translation_payload("v1", &vec!["fr".to_owned()]).unwrap();
    assert_eq!(payload.version_id, "v1");
    assert_eq!(payload.target_languages, vec!["fr".to_owned()]);
    assert_eq!(payload.source_subtitle_id, None);
    let chosen = translation_payload_with_source("v1", "sf1", "zh");
    assert_eq!(chosen.target_languages, vec!["zh".to_owned()]);
    assert_eq!(chosen.source_subtitle_id.as_deref(), Some("sf1"));
}

#[test]
fn derive_id_is_deterministic_and_distinct_per_kind() {
    assert_eq!(derive_id("movie", "the matrix:1999"), derive_id("movie", "the matrix:1999"));
    assert_ne!(derive_id("movie", "the matrix:1999"), derive_id("series", "the matrix:1999"));
}

use services::catalog::{Episode, Season};
use services::enrich::{
    matched_episode, new_episode, new_season, refreshed_episode, refreshed_season, writes_entity, EpisodeMetadata,
    IngestPlan, SeasonMetadata,
};

fn episode_info(number: u16, name: Option<&str>, air_date: Option<&str>) -> EpisodeMetadata {
    EpisodeMetadata {
        number,
        name: name.map(str::to_owned),
        overview: Some(format!("about {number}")),
        runtime_minutes: Some(42),
        air_date: air_date.map(str::to_owned),
    }
}

fn season_info(name: Option<&str>) -> SeasonMetadata {
    SeasonMetadata {
        name: name.map(str::to_owned),
        overview: Some("the season".to_owned()),
        episodes: vec![episode_info(1, Some("Pilot"), Some("2020-01-02")), episode_info(2, None, Some("not a date"))],
    }
}

#[test]
fn new_records_fall_back_to_numbered_labels() {
    let now = Timestamp { nanosecond: 5 };
    let season = new_season("se1", "sr1", 3, None, now);
    assert_eq!(season.title.as_deref(), Some("Season 3"));
    assert_eq!(season.overview, None);
    let named = new_season("se1", "sr1", 3, Some(&season_info(Some("Book One"))), now);
    assert_eq!(named.title.as_deref(), Some("Book One"));
    assert_eq!(named.overview.as_deref(), Some("the season"));
    let info = season_info(None);
    let pilot = new_episode("e1", "se1", 1, Some(&info), now);
    assert_eq!(pilot.title, "Pilot");
    assert_eq!(pilot.runtime_minutes, Some(42));
    assert_eq!(pilot.air_date, Some(ts("2020-01-02T00:00:00Z")));
    let second = new_episode("e2", "se1", 2, Some(&info), now);
    assert_eq!(second.title, "Episode 2");
    assert_eq!(second.air_date, None);
    let unknown = new_episode("e9", "se1", 9, Some(&info), now);
    assert_eq!(unknown.title, "Episode 9");
    assert_eq!(unknown.overview, None);
    assert!(matched_episode(Some(&info), 9).is_none());
    assert_eq!(matched_episode(Some(&info), 2).map(|e| e.number), Some(2));
}

#[test]
fn entities_are_looked_up_only_when_a_scan_writes_the_title() {
    let scan = IngestPlan { mode: IngestMode::Scan, writes_title: true };
    assert!(writes_entity(&scan, false));
    assert!(!writes_entity(&scan, true));
    let explicit = IngestPlan { mode: IngestMode::Explicit, writes_title: true };
    assert!(writes_entity(&explicit, true));
    let known = IngestPlan { mode: IngestMode::Scan, writes_title: false };
    assert!(!writes_entity(&known, false));
}

fn stored_episode(manually_edited: bool) -> Episode {
    Episode {
        id: "e1".to_owned(),
        season: "se1".to_owned(),
        number: 1,
        title: "Old".to_owned(),
        overview: Some("old".to_owned()),
        runtime_minutes: None,
        air_date: None,
        manually_edited,
        added_at: Timestamp { nanosecond: 1 },
        updated_at: Timestamp { nanosecond: 1 },
    }
}

#[test]
fn a_refresh_keeps_manual_edits_unless_forced() {
    let now = Timestamp { nanosecond: 9 };
    let info = episode_info(1, Some("Pilot"), Some("2020-01-02"));
    assert!(refreshed_episode(&stored_episode(true), &info, false, now).is_none());
    let forced = refreshed_episode(&stored_episode(true), &info, true, now).unwrap();
    assert_eq!(forced.title, "Pilot");
    assert!(!forced.manually_edited);
    assert_eq!(forced.updated_at, now);
    assert_eq!(forced.added_at, Timestamp { nanosecond: 1 });
    let blank = EpisodeMetadata { number: 1, name: None, overview: None, runtime_minutes: None, air_date: None };
    let kept = refreshed_episode(&stored_episode(false), &blank, false, now).unwrap();
    assert_eq!(kept.title, "Old");
    assert_eq!(kept.overview.as_deref(), Some("old"));
}

#[test]
fn a_refreshed_season_takes_what_the_provider_gives() {
    let stored = Season {
        id: "se1".to_owned(),
        series: "sr1".to_owned(),
        number: 1,
        title: Some("Season 1".to_owned()),
        overview: Some("kept".to_owned()),
        added_at: Timestamp { nanosecond: 1 },
        updated_at: Timestamp { nanosecond: 1 },
    };
    let info = SeasonMetadata { name: Some("Book One".to_owned()), overview: None, episodes: Vec::new() };
    let now = Timestamp { nanosecond: 3 };
    let refreshed = refreshed_season(&stored, &info, now);
    assert_eq!(refreshed.title.as_deref(), Some("Book One"));
    assert_eq!(refreshed.overview.as_deref(), Some("kept"));
    assert_eq!(refreshed.updated_at, now);
}

use services::tokens::{checked_claims, link_code_expiry, principal_of, session_of, AuthError, Claims, DecodeFailure};

fn claims(typ: &str, rol: &str, jti: Option<&str>) -> Claims {
    Claims {
        sub: "u1".to_owned(),
        rol: rol.to_owned(),
        aud: "shadowmask-api".to_owned(),
        typ: typ.to_owned(),
        exp: 0,
        jti: jti.map(str::to_owned),
    }
}

#[test]
fn decoded_tokens_are_checked_for_their_type() {
    assert_eq!(checked_claims(Err(DecodeFailure::Expired), "access"), Err(AuthError::TokenExpired));
    assert_eq!(checked_claims(Err(DecodeFailure::Invalid), "access"), Err(AuthError::InvalidToken));
    assert_eq!(checked_claims(Ok(claims("refresh", "user", None)), "access"), Err(AuthError::InvalidToken));
    assert_eq!(checked_claims(Ok(claims("access", "user", None)), "access"), Ok(claims("access", "user", None)));
}

#[test]
fn an_access_token_names_its_caller() {
    let p = principal_of(&claims("access", "admin", None)).unwrap();
    assert_eq!(p.user, "u1");
    assert_eq!(p.role, Role::Admin);
    assert_eq!(principal_of(&claims("access", "root", None)), Err(AuthError::InvalidToken));
    assert_eq!(session_of(&claims("refresh", "user", Some("s1"))), Ok("s1".to_owned()));
    assert_eq!(session_of(&claims("refresh", "user", None)), Err(AuthError::InvalidToken));
}

#[test]
fn a_link_code_lives_fifteen_minutes_unless_told() {
    let now = 1_767_225_600;
    assert_eq!(link_code_expiry(now, None).unwrap().nanosecond, (now + 900) as i128 * 1_000_000_000);
    assert_eq!(link_code_expiry(now, Some(60)).unwrap().nanosecond, (now + 60) as i128 * 1_000_000_000);
    assert!(matches!(link_code_expiry(now, Some(300_000_000_000)), Err(AuthError::Repository(_))));
}

use services::tokens::refresh_is_current;

#[test]
fn only_the_stored_refresh_token_is_current() {
    assert!(refresh_is_current("sig", "head.body.sig"));
    assert!(!refresh_is_current("old", "head.body.sig"));
}

#[test]
fn a_daily_scan_runs_on_the_expression_of_its_clock_time() {
    assert_eq!(daily_schedule("04:00"), Some("0 0 4 * * * *".to_owned()));
    assert_eq!(daily_schedule("23:45"), Some("0 45 23 * * * *".to_owned()));
    assert_eq!(daily_schedule("25:00"), None);
    assert_eq!(daily_schedule("noon"), None);
}
