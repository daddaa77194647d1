use services::acl::{Principal, Role};
use services::catalog::{Episode, Timestamp, TitleId, Version};
use services::fetch::LibraryError;
use services::library_service::{
    check_combine, check_delete, check_library, check_relink_series, check_relink_version, deletion_outcome,
    edited_episode, granted_access, listed_libraries, require_admin, visible_to, CatalogItem, EpisodeEdit,
    LibraryServiceImpl, ResolveTarget,
};
use services::parse::{ExternalId, Quality};

type Svc = LibraryServiceImpl<(), (), (), (), (), ()>;

fn who(role: Role) -> Principal {
    Principal { user: "u1".into(), role }
}

fn admin() -> Principal {
    who(Role::Admin)
}

fn member() -> Principal {
    who(Role::User)
}

fn svc() -> Svc {
    LibraryServiceImpl::new((), (), (), (), None)
}

fn ids(v: &[&str]) -> Vec<String> {
    v.iter().map(|s| s.to_string()).collect()
}

fn provider() -> ResolveTarget {
    ResolveTarget::Provider(ExternalId { source: "tmdb".into(), value: "42".into() })
}

fn version(id: &str, title: TitleId, available: bool) -> Version {
    Version {
        id: id.into(),
        title,
        library: "lib1".into(),
        quality: Quality::Fhd,
        container: "mkv".into(),
        path: format!("/media/{id}.mkv"),
        size_bytes: 10,
        duration_ms: 1000,
        available,
        added_at: Timestamp { nanosecond: 0 },
        updated_at: Timestamp { nanosecond: 0 },
    }
}

#[test]
fn a_new_service_has_every_optional_job_switched_off() {
    let s = svc();
    assert_eq!(s.check_transcription(&admin(), Some(&[0]), None), Err(LibraryError::Disabled));
    assert_eq!(s.check_translation(&admin(), Some(&ids(&["s1"])), "s1"), Err(LibraryError::Disabled));
    assert_eq!(s.check_upscale(&admin(), true), Err(LibraryError::Disabled));
    assert_eq!(s.check_fetch(&admin()), Err(LibraryError::Disabled));
    assert!(s.cookie_inspector().is_none());
}

#[test]
fn switches_turn_the_optional_jobs_on() {
    let s = svc().with_enrichment_flags(true, true, true).with_content_fetch(true);
    assert_eq!(s.check_transcription(&admin(), Some(&[0, 2]), Some(2)), Ok(()));
    assert_eq!(s.check_translation(&admin(), Some(&ids(&["s1", "s2"])), "s2"), Ok(()));
    assert_eq!(s.check_upscale(&admin(), true), Ok(()));
    assert_eq!(s.check_fetch(&admin()), Ok(()));
    let only_upscale = svc().with_enrichment_flags(false, false, true);
    assert_eq!(only_upscale.check_upscale(&admin(), true), Ok(()));
    assert_eq!(only_upscale.check_transcription(&admin(), Some(&[0]), None), Err(LibraryError::Disabled));
}

#[test]
fn triggers_require_an_administrator_first() {
    let s = svc().with_enrichment_flags(true, true, true).with_content_fetch(true);
    for role in [Role::User, Role::Player, Role::Automation] {
        let caller = who(role);
        assert_eq!(s.check_transcription(&caller, None, None), Err(LibraryError::Forbidden));
        assert_eq!(s.check_translation(&caller, None, "x"), Err(LibraryError::Forbidden));
        assert_eq!(s.check_upscale(&caller, false), Err(LibraryError::Forbidden));
        assert_eq!(s.check_fetch(&caller), Err(LibraryError::Forbidden));
        assert_eq!(check_combine(&caller, None, "a", "b"), Err(LibraryError::Forbidden));
        assert_eq!(require_admin(&caller), Err(LibraryError::Forbidden));
    }
    assert_eq!(require_admin(&admin()), Ok(()));
}

#[test]
fn a_missing_version_or_track_is_not_found() {
    let s = svc().with_enrichment_flags(true, true, true);
    assert_eq!(s.check_transcription(&admin(), None, None), Err(LibraryError::NotFound));
    assert_eq!(s.check_transcription(&admin(), Some(&[0, 1]), Some(3)), Err(LibraryError::NotFound));
    assert_eq!(s.check_transcription(&admin(), Some(&[]), None), Ok(()));
    assert_eq!(s.check_translation(&admin(), None, "s1"), Err(LibraryError::NotFound));
    assert_eq!(s.check_translation(&admin(), Some(&ids(&["s1"])), "s9"), Err(LibraryError::NotFound));
    assert_eq!(s.check_upscale(&admin(), false), Err(LibraryError::NotFound));
}

#[test]
fn combining_needs_both_subtitle_files() {
    let files = ids(&["top", "bottom"]);
    assert_eq!(check_combine(&admin(), Some(&files), "top", "bottom"), Ok(()));
    assert_eq!(check_combine(&admin(), Some(&files), "top", "other"), Err(LibraryError::NotFound));
    assert_eq!(check_combine(&admin(), Some(&files), "other", "bottom"), Err(LibraryError::NotFound));
    assert_eq!(check_combine(&admin(), None, "top", "bottom"), Err(LibraryError::NotFound));
}

#[test]
fn listing_shows_an_admin_everything_and_a_member_its_grants() {
    let all = ids(&["lib1", "lib2", "lib3"]);
    let access = ids(&["lib3", "lib1"]);
    assert_eq!(listed_libraries(&admin(), &all, &[]), all);
    assert_eq!(listed_libraries(&member(), &all, &access), ids(&["lib1", "lib3"]));
    assert_eq!(listed_libraries(&who(Role::Automation), &all, &[]), Vec::<String>::new());
}

#[test]
fn a_hidden_library_reads_as_missing() {
    let access = ids(&["lib1"]);
    assert_eq!(check_library(&member(), true, &access, "lib1"), Ok(()));
    assert_eq!(check_library(&member(), true, &access, "lib2"), Err(LibraryError::NotFound));
    assert_eq!(check_library(&member(), false, &access, "lib9"), Err(LibraryError::NotFound));
    assert_eq!(check_library(&admin(), true, &[], "lib2"), Ok(()));
    assert_eq!(check_library(&admin(), false, &[], "lib2"), Err(LibraryError::NotFound));
}

#[test]
fn automation_sees_every_library() {
    assert!(visible_to(&who(Role::Automation), &[], "lib2"));
    assert!(visible_to(&admin(), &[], "lib2"));
    assert!(!visible_to(&member(), &[], "lib2"));
    assert!(!visible_to(&who(Role::Player), &ids(&["lib1"]), "lib2"));
}

#[test]
fn a_new_grant_keeps_the_earlier_ones() {
    let first = granted_access(Vec::new(), "lib1");
    assert_eq!(first, ids(&["lib1"]));
    assert_eq!(granted_access(first, "lib2"), ids(&["lib1", "lib2"]));
}

#[test]
fn a_series_relinks_only_to_a_provider() {
    let existing = ResolveTarget::Existing(TitleId::Movie("m1".into()));
    assert_eq!(
        check_relink_series(&admin(), &existing, true, &[], &[]),
        Err(LibraryError::InvalidRequest("a series can only be relinked to a provider id".into()))
    );
    assert_eq!(check_relink_series(&member(), &provider(), true, &[], &[]), Err(LibraryError::Forbidden));
    assert_eq!(check_relink_series(&admin(), &provider(), false, &[], &[]), Err(LibraryError::NotFound));
}

#[test]
fn a_series_with_stranded_episodes_is_refused() {
    let versions = vec![
        version("v1", TitleId::Episode("e1".into()), true),
        version("v2", TitleId::Episode("e2".into()), false),
        version("v3", TitleId::Movie("e3".into()), true),
    ];
    let episodes = ids(&["e1", "e2", "e3"]);
    assert_eq!(
        check_relink_series(&admin(), &provider(), true, &versions, &episodes),
        Err(LibraryError::Unavailable("2 episodes have no available file".into()))
    );
    assert_eq!(check_relink_series(&admin(), &provider(), true, &versions, &ids(&["e1"])), Ok(()));
    assert_eq!(
        check_relink_series(&admin(), &provider(), true, &[], &[]),
        Err(LibraryError::Unavailable("the series has nothing to relink".into()))
    );
}

#[test]
fn a_version_relinks_only_while_its_file_is_there() {
    let there = version("v1", TitleId::Movie("m1".into()), true);
    let gone = version("v2", TitleId::Movie("m1".into()), false);
    let existing = ResolveTarget::Existing(TitleId::Movie("m2".into()));
    assert_eq!(check_relink_version(&admin(), Some(&there), &provider(), false), Ok(()));
    assert_eq!(check_relink_version(&admin(), Some(&there), &existing, true), Ok(()));
    assert_eq!(check_relink_version(&admin(), Some(&there), &existing, false), Err(LibraryError::NotFound));
    assert_eq!(
        check_relink_version(&admin(), Some(&gone), &provider(), true),
        Err(LibraryError::Unavailable("the file for this version is missing".into()))
    );
    assert_eq!(check_relink_version(&admin(), None, &provider(), true), Err(LibraryError::NotFound));
    assert_eq!(check_relink_version(&member(), Some(&there), &provider(), true), Err(LibraryError::Forbidden));
}

#[test]
fn deletes_refuse_items_that_still_hold_something() {
    assert_eq!(check_delete(&member(), true), Err(LibraryError::Forbidden));
    assert_eq!(check_delete(&admin(), false), Err(LibraryError::NotFound));
    assert_eq!(check_delete(&admin(), true), Ok(()));
    assert_eq!(
        deletion_outcome(CatalogItem::Movie, false),
        Err(LibraryError::NotEmpty("the movie still has versions".into()))
    );
    assert_eq!(
        deletion_outcome(CatalogItem::Series, false),
        Err(LibraryError::NotEmpty("the series still has seasons".into()))
    );
    assert_eq!(
        deletion_outcome(CatalogItem::Season, false),
        Err(LibraryError::NotEmpty("the season still has episodes".into()))
    );
    assert_eq!(
        deletion_outcome(CatalogItem::Episode, false),
        Err(LibraryError::NotEmpty("the episode still has versions".into()))
    );
    assert_eq!(deletion_outcome(CatalogItem::Version, false), Ok(()));
    assert_eq!(deletion_outcome(CatalogItem::Movie, true), Ok(()));
}

#[test]
fn an_edited_episode_is_marked_and_keeps_its_place() {
    let existing = Episode {
        id: "e1".into(),
        season: "s1".into(),
        number: 3,
        title: "Old".into(),
        overview: None,
        runtime_minutes: Some(40),
        air_date: None,
        manually_edited: false,
        added_at: Timestamp { nanosecond: 5 },
        updated_at: Timestamp { nanosecond: 5 },
    };
    let edit = EpisodeEdit {
        title: "New".into(),
        overview: Some("Plot".into()),
        runtime_minutes: None,
        air_date: Some(Timestamp { nanosecond: 7 }),
    };
    let e = edited_episode(existing, edit, Timestamp { nanosecond: 9 });
    assert_eq!(e.id, "e1");
    assert_eq!(e.season, "s1");
    assert_eq!(e.number, 3);
    assert_eq!(e.title, "New");
    assert_eq!(e.overview.as_deref(), Some("Plot"));
    assert_eq!(e.runtime_minutes, None);
    assert_eq!(e.air_date, Some(Timestamp { nanosecond: 7 }));
    assert!(e.manually_edited);
    assert_eq!(e.added_at, Timestamp { nanosecond: 5 });
    assert_eq!(e.updated_at, Timestamp { nanosecond: 9 });
}

#[test]
fn the_cookie_inspector_is_kept() {
    let s: LibraryServiceImpl<(), (), (), (), (), u8> =
        LibraryServiceImpl::new((), (), (), (), None).with_cookie_inspector(Some(7));
    assert_eq!(*s.cookie_inspector(), Some(7));
    let s = s.with_enrichment_flags(true, false, false);
    assert_eq!(*s.cookie_inspector(), Some(7));
    assert_eq!(s.check_transcription(&admin(), Some(&[1]), Some(1)), Ok(()));
}

use services::cards::TitleRef;
use services::fetch::LibraryKind;
use services::library_service::{library_refresh_payloads, person_refresh_payload, relink_payload, MetadataJobPayload};

#[test]
fn a_library_refresh_queues_one_unforced_job_per_title() {
    let jobs = library_refresh_payloads(LibraryKind::Tv, &ids(&["s1", "s2"]));
    assert_eq!(
        jobs,
        vec![
            MetadataJobPayload::Title { title: TitleRef::Series("s1".into()), external_id: None, force: false },
            MetadataJobPayload::Title { title: TitleRef::Series("s2".into()), external_id: None, force: false },
        ]
    );
    let movies = library_refresh_payloads(LibraryKind::Movie, &ids(&["m1"]));
    assert_eq!(movies, vec![MetadataJobPayload::Title { title: TitleRef::Movie("m1".into()), external_id: None, force: false }]);
    assert!(library_refresh_payloads(LibraryKind::Movie, &[]).is_empty());
}

#[test]
fn a_person_refresh_is_forced() {
    assert_eq!(person_refresh_payload("p1"), MetadataJobPayload::People { ids: ids(&["p1"]), force: true });
}

#[test]
fn a_relink_names_the_version_its_library_and_file() {
    let v = version("v1", TitleId::Movie("m1".into()), true);
    let job = relink_payload(&v, provider());
    assert_eq!(job.version, "v1");
    assert_eq!(job.library, "lib1");
    assert_eq!(job.path, "/media/v1.mkv");
    assert_eq!(job.target, provider());
}

use services::enrichment::{MediaKind, MetadataMatch};
use services::library_service::{candidate_query, resolve_candidates, ResolveCandidate, TitleDisplay};

#[test]
fn an_unmatched_file_is_searched_by_its_name_unless_asked_otherwise() {
    let q = candidate_query(None, "/media/Blade.Runner.1982.1080p.mkv", LibraryKind::Movie);
    assert_eq!(q.title, "Blade Runner");
    assert_eq!(q.year, Some(1982));
    assert_eq!(q.kind, MediaKind::Movie);
    let q = candidate_query(Some("Bladerunner".into()), "/media/Blade.Runner.1982.1080p.mkv", LibraryKind::Tv);
    assert_eq!(q.title, "Bladerunner");
    assert_eq!(q.year, Some(1982));
    assert_eq!(q.kind, MediaKind::Series);
}

#[test]
fn candidates_list_the_catalog_titles_then_the_provider_hits() {
    let known = vec![
        TitleDisplay { title: TitleId::Movie("m1".into()), shown: Some(("Alien".into(), Some(1979), MediaKind::Movie)) },
        TitleDisplay { title: TitleId::Movie("gone".into()), shown: None },
        TitleDisplay { title: TitleId::Episode("e1".into()), shown: Some(("Pilot".into(), None, MediaKind::Series)) },
    ];
    let hits = vec![MetadataMatch {
        external_id: ExternalId { source: "tmdb".into(), value: "movie/348".into() },
        title: "Alien".into(),
        year: Some(1979),
        kind: MediaKind::Movie,
    }];
    let found = resolve_candidates(known, Some(hits));
    assert_eq!(
        found,
        vec![
            ResolveCandidate { target: ResolveTarget::Existing(TitleId::Movie("m1".into())), title: "Alien".into(), year: Some(1979), kind: MediaKind::Movie },
            ResolveCandidate { target: ResolveTarget::Existing(TitleId::Episode("e1".into())), title: "Pilot".into(), year: None, kind: MediaKind::Series },
            ResolveCandidate {
                target: ResolveTarget::Provider(ExternalId { source: "tmdb".into(), value: "movie/348".into() }),
                title: "Alien".into(),
                year: Some(1979),
                kind: MediaKind::Movie,
            },
        ]
    );
    assert!(resolve_candidates(Vec::new(), None).is_empty());
}

use services::library_service::people_payload;

#[test]
fn named_people_are_fetched_unforced_and_nobody_queues_nothing() {
    assert_eq!(people_payload(ids(&["p1", "p2"])), Some(MetadataJobPayload::People { ids: ids(&["p1", "p2"]), force: false }));
    assert_eq!(people_payload(Vec::new()), None);
}

use services::fetch::LibraryOrigin;
use services::library_service::{is_nightly_library, new_library, updated_library, Library, LibraryUpdate, NewLibrary, WatcherStrategy};

fn made() -> Library {
    new_library(
        "lib9".into(),
        NewLibrary {
            name: "New".into(),
            kind: LibraryKind::Movie,
            origin: LibraryOrigin::Local,
            roots: vec!["/n".into()],
            watcher: WatcherStrategy::Manual,
            scan_schedule: None,
            metadata_sources: vec!["tmdb".into()],
            sort_articles: vec!["the".into()],
        },
        Timestamp { nanosecond: 4 },
    )
}

#[test]
fn a_new_library_takes_the_request_and_the_time() {
    let lib = made();
    assert_eq!(lib.id, "lib9");
    assert_eq!(lib.name, "New");
    assert_eq!(lib.sort_articles, vec!["the".to_owned()]);
    assert_eq!(lib.metadata_sources, vec!["tmdb".to_owned()]);
    assert_eq!((lib.created_at, lib.updated_at), (Timestamp { nanosecond: 4 }, Timestamp { nanosecond: 4 }));
}

#[test]
fn an_update_keeps_the_id_and_origin() {
    let lib = made();
    let update = LibraryUpdate {
        name: "Renamed".into(),
        kind: LibraryKind::Tv,
        roots: vec!["/n".into()],
        watcher: WatcherStrategy::Scheduled,
        scan_schedule: Some("0 3 * * *".into()),
        metadata_sources: Vec::new(),
        sort_articles: vec!["die".into()],
    };
    let after = updated_library(lib.id.clone(), lib.origin, update, Timestamp { nanosecond: 8 });
    assert_eq!(after.id, "lib9");
    assert_eq!(after.origin, LibraryOrigin::Local);
    assert_eq!(after.name, "Renamed");
    assert_eq!(after.kind, LibraryKind::Tv);
    assert_eq!(after.updated_at, Timestamp { nanosecond: 8 });
    assert!(is_nightly_library(&after));
    assert!(!is_nightly_library(&lib));
    assert!(!is_nightly_library(&Library { origin: LibraryOrigin::External, ..after }));
}

use services::fetch::{CookieVerdict, FetchInput};
use services::jobs::{JobKind, JobPriority};
use services::library_service::CookieInspector;

struct StubCookies(CookieVerdict);

impl CookieInspector for StubCookies {
    fn verdict_for(&self, _host: &str) -> CookieVerdict {
        self.0
    }
}

type FetchSvc = LibraryServiceImpl<(), (), (), (), (), StubCookies>;

fn fetch_svc(enabled: bool, cookies: Option<CookieVerdict>) -> FetchSvc {
    LibraryServiceImpl::new((), (), (), (), None).with_content_fetch(enabled).with_cookie_inspector(cookies.map(StubCookies))
}

fn fetch_input() -> FetchInput {
    FetchInput {
        source_url: "https://example.com/watch?v=abc".into(),
        kind: LibraryKind::Movie,
        title: "Some Movie".into(),
        year: None,
        external_id: None,
        season: None,
        episode: None,
    }
}

#[test]
fn create_fetch_rejects_expired_cookies() {
    let r = fetch_svc(true, Some(CookieVerdict::Expired)).create_fetch(&admin(), "ext", Some(LibraryOrigin::External), fetch_input());
    assert!(matches!(r, Err(LibraryError::InvalidRequest(msg)) if msg.contains("[example.com] have expired")));
}

#[test]
fn create_fetch_proceeds_when_cookies_live() {
    let svc = fetch_svc(true, Some(CookieVerdict::Live));
    assert!(svc.create_fetch(&admin(), "ext", Some(LibraryOrigin::External), fetch_input()).is_ok());
}

#[test]
fn create_fetch_proceeds_when_cookies_not_applicable() {
    let svc = fetch_svc(true, Some(CookieVerdict::NotApplicable));
    assert!(svc.create_fetch(&admin(), "ext", Some(LibraryOrigin::External), fetch_input()).is_ok());
}

#[test]
fn create_fetch_enqueues_fetch_job_for_external_library() {
    let job = fetch_svc(true, None).create_fetch(&admin(), "ext", Some(LibraryOrigin::External), fetch_input()).unwrap();
    assert_eq!(job.kind, JobKind::Fetch);
    assert_eq!(job.priority, JobPriority::Normal);
    assert_eq!(job.parent, None);
    assert_eq!(job.payload.library, "ext");
    assert_eq!(job.payload.source_url, "https://example.com/watch?v=abc");
    assert_eq!(job.payload.title, "Some Movie");
}

#[test]
fn create_fetch_requires_admin() {
    let r = fetch_svc(true, None).create_fetch(&member(), "ext", Some(LibraryOrigin::External), fetch_input());
    assert_eq!(r, Err(LibraryError::Forbidden));
}

#[test]
fn create_fetch_is_disabled_when_flag_off() {
    let r = fetch_svc(false, None).create_fetch(&admin(), "ext", Some(LibraryOrigin::External), fetch_input());
    assert_eq!(r, Err(LibraryError::Disabled));
}

#[test]
fn create_fetch_rejects_local_library() {
    let r = fetch_svc(true, None).create_fetch(&admin(), "local", Some(LibraryOrigin::Local), fetch_input());
    assert_eq!(r, Err(LibraryError::Forbidden));
}

#[test]
fn create_fetch_missing_library_is_not_found() {
    assert_eq!(fetch_svc(true, None).create_fetch(&admin(), "ghost", None, fetch_input()), Err(LibraryError::NotFound));
}

#[test]
fn create_fetch_rejects_non_http_scheme() {
    let input = FetchInput { source_url: "file:///etc/passwd".into(), ..fetch_input() };
    let r = fetch_svc(true, None).create_fetch(&admin(), "ext", Some(LibraryOrigin::External), input);
    assert!(matches!(r, Err(LibraryError::InvalidRequest(_))));
}

#[test]
fn create_fetch_rejects_unparseable_url() {
    let input = FetchInput { source_url: "not a url".into(), ..fetch_input() };
    let r = fetch_svc(true, None).create_fetch(&admin(), "ext", Some(LibraryOrigin::External), input);
    assert!(matches!(r, Err(LibraryError::InvalidRequest(_))));
}

use services::acl::viewer;
use services::enrich::{ingest_episode_actions, ingest_movie_actions, IngestAction, IngestMode, IngestPlan};
use services::enrich::IngestAction::{
    AttachCollection, EpisodeArtwork, IngestFiles, MovieArtwork, PersistEnrichment, SeasonArtwork, SeriesArtwork, WriteEpisode,
    WriteMovie, WriteSeason, WriteSeries,
};
use services::library_service::{
    library_articles, queue_scan, relink_series_jobs, scan_state_or_idle, series_library, version_library,
    ScanState, ScanStatus,
};

#[test]
fn a_new_scanned_episode_writes_every_missing_row_and_its_artwork() {

    let plan = IngestPlan { mode: IngestMode::Scan, writes_title: true };
    assert_eq!(
        ingest_episode_actions(&plan, false, false, true),
        vec![WriteSeries, WriteSeason, WriteEpisode, IngestFiles, PersistEnrichment, SeriesArtwork, SeasonArtwork, EpisodeArtwork]
    );
    assert_eq!(
        ingest_episode_actions(&plan, true, false, true),
        vec![WriteSeason, WriteEpisode, IngestFiles, SeasonArtwork, EpisodeArtwork]
    );
    assert_eq!(ingest_episode_actions(&plan, false, true, false), vec![WriteSeries, WriteEpisode, IngestFiles, SeriesArtwork, EpisodeArtwork]);
}

#[test]
fn a_known_episode_only_records_its_files() {
    let plan = IngestPlan { mode: IngestMode::Scan, writes_title: false };
    assert_eq!(ingest_episode_actions(&plan, false, false, true), vec![IngestAction::IngestFiles]);
}

#[test]
fn an_explicit_episode_rewrites_every_row_without_looking() {

    let plan = IngestPlan { mode: IngestMode::Explicit, writes_title: true };
    assert_eq!(
        ingest_episode_actions(&plan, true, true, true),
        vec![WriteSeries, WriteSeason, WriteEpisode, IngestFiles, PersistEnrichment, SeriesArtwork, SeasonArtwork, EpisodeArtwork]
    );
}

#[test]
fn a_movie_write_enriches_and_collects_only_what_the_provider_gave() {

    let plan = IngestPlan { mode: IngestMode::Scan, writes_title: true };
    assert_eq!(ingest_movie_actions(&plan, true, true), vec![WriteMovie, IngestFiles, PersistEnrichment, AttachCollection, MovieArtwork]);
    assert_eq!(ingest_movie_actions(&plan, true, false), vec![WriteMovie, IngestFiles, PersistEnrichment, MovieArtwork]);
    assert_eq!(ingest_movie_actions(&plan, false, true), vec![WriteMovie, IngestFiles, MovieArtwork]);
    let known = IngestPlan { mode: IngestMode::Scan, writes_title: false };
    assert_eq!(ingest_movie_actions(&known, true, true), vec![IngestFiles]);
}

#[test]
fn a_scan_is_not_queued_twice() {
    assert_eq!(queue_scan(Some(ScanStatus::Queued), "lib1", None), None);
    assert_eq!(queue_scan(Some(ScanStatus::Running), "lib1", None), None);
    for status in [None, Some(ScanStatus::Idle), Some(ScanStatus::Failed)] {
        let (state, job) = queue_scan(status, "lib1", Some("parent1")).unwrap();
        assert_eq!(state.library, "lib1");
        assert_eq!(state.status, ScanStatus::Queued);
        assert_eq!((state.started_at, state.last_scanned_at, state.error), (None, None, None));
        assert_eq!(job.kind, JobKind::LibraryScan);
        assert_eq!(job.priority, JobPriority::Normal);
        assert_eq!(job.payload, "lib1");
        assert_eq!(job.parent.as_deref(), Some("parent1"));
    }
    assert_eq!(queue_scan(None, "lib1", None).unwrap().1.parent, None);
}

#[test]
fn scan_state_defaults_to_idle() {
    let idle = scan_state_or_idle(None, "lib1");
    assert_eq!(idle.status, ScanStatus::Idle);
    assert_eq!(idle.library, "lib1");
    assert_eq!((idle.started_at, idle.last_scanned_at, idle.error.clone()), (None, None, None));
    let stored = ScanState { error: Some("boom".into()), status: ScanStatus::Failed, ..idle };
    assert_eq!(scan_state_or_idle(Some(stored.clone()), "lib1"), stored);
}

#[test]
fn a_missing_account_sees_no_library_and_has_no_cap() {
    let v = viewer(None, Vec::new());
    assert!(!v.sees_library("lib1"));
    assert!(v.permits(Some(18)));
    let capped = viewer(Some(Some(13)), ids(&["lib1"]));
    assert!(capped.sees_library("lib1"));
    assert!(!capped.permits(Some(17)));
}

#[test]
fn a_title_lives_in_its_first_versions_library() {
    let v = version("v1", TitleId::Movie("m1".into()), true);
    assert_eq!(version_library(&[v]), Some("lib1".to_owned()));
    assert_eq!(version_library(&[]), None);
    assert_eq!(series_library(&[None, Some("lib2".into()), Some("lib3".into())]), Some("lib2".to_owned()));
    assert_eq!(series_library(&[None]), None);
    assert_eq!(library_articles(Some(&made())), vec!["the".to_owned()]);
    assert_eq!(library_articles(None), Vec::<String>::new());
}

#[test]
fn relink_series_fans_out_over_every_episode_version() {
    let versions = vec![
        version("v1", TitleId::Episode("se1e1".into()), true),
        version("v2", TitleId::Episode("se1e2".into()), true),
        version("v3", TitleId::Episode("se2e1".into()), true),
    ];
    let episodes = ids(&["se1e1", "se1e2", "se2e1"]);
    let jobs = relink_series_jobs(&admin(), &provider(), true, &versions, &episodes).unwrap();
    assert_eq!(jobs.len(), 3);
    for (job, v) in jobs.iter().zip(&versions) {
        assert_eq!(job.kind, JobKind::Relink);
        assert_eq!(job.priority, JobPriority::Normal);
        assert_eq!(job.parent, None);
        assert_eq!(job.payload.version, v.id);
        assert_eq!(job.payload.path, v.path);
        assert_eq!(job.payload.library, v.library);
        assert_eq!(job.payload.target, provider());
    }
}

#[test]
fn relink_series_refuses_while_any_episode_has_no_available_file() {
    let versions = vec![version("v1", TitleId::Episode("e1".into()), true)];
    assert_eq!(
        relink_series_jobs(&admin(), &provider(), true, &versions, &ids(&["e1", "e2"])),
        Err(LibraryError::Unavailable("1 episodes have no available file".into()))
    );
    assert_eq!(relink_series_jobs(&member(), &provider(), true, &versions, &ids(&["e1"])), Err(LibraryError::Forbidden));
    assert_eq!(
        relink_series_jobs(&admin(), &provider(), true, &[], &[]),
        Err(LibraryError::Unavailable("the series has nothing to relink".into()))
    );
}
