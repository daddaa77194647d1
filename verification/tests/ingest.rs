use services::enrich::{
    enrichment_request, episode_ids_of, movie_id_of, derive_id, EnrichmentJob, EnrichmentJobs, IngestMode, IngestPlan, SubtitleContext,
};
use services::jobs::{
    combine_request, translation_payload, translation_payload_with_source, translation_request, upscale_request, JobKind,
    JobPriority, TranscriptionEnqueuer, TranslationEnqueuer, TrickplayJobPayload, VersionTracks,
};
use services::media::{AudioTrack, ProbeResult, VideoTrack};
use services::parse::ParsedMedia;
use services::scanner::{
    gather_walks, probes_to_start, progress_due, scan_report, siblings_for, ScanPlan, Scanner, SkipReason, WalkedEntry, DEFAULT_PROBE_CONCURRENCY,
    PROGRESS_EVERY,
};

fn entry(path: &str, size_bytes: u64) -> WalkedEntry {
    WalkedEntry { path: path.to_owned(), size_bytes }
}

fn probe(duration_ms: u64, audio: Vec<AudioTrack>) -> ProbeResult {
    ProbeResult {
        duration_ms,
        video: vec![VideoTrack { index: 0, width: 1920, height: 1080 }],
        audio,
        subtitles: Vec::new(),
    }
}

#[test]
fn a_plan_keeps_visible_media_once_and_sets_subtitles_aside() {
    let scanner = Scanner::new((), ());
    let entries = vec![
        entry("/m/a/movie.mkv", 10),
        entry("/m/a/movie.en.srt", 1),
        entry("/m/a/.hidden.mkv", 10),
        entry("/m/a/movie.mkv", 10),
        entry("/m/a/notes.txt", 1),
        entry("/m/b/other.MP4", 20),
    ];
    let plan = scanner.plan(&entries);
    let paths: Vec<&str> = plan.candidates.iter().map(|e| e.path.as_str()).collect();
    assert_eq!(paths, ["/m/a/movie.mkv", "/m/b/other.MP4"]);
    assert_eq!(plan.subtitles, vec!["/m/a/movie.en.srt".to_owned()]);
    assert_eq!(siblings_for(&plan, "/m/a/movie.mkv"), vec!["/m/a/movie.en.srt".to_owned()]);
    assert!(siblings_for(&plan, "/m/b/other.MP4").is_empty());
}

#[test]
fn probe_concurrency_is_at_least_one() {
    let scanner = Scanner::new((), ());
    assert_eq!(scanner.probe_concurrency(), DEFAULT_PROBE_CONCURRENCY);
    assert_eq!(Scanner::new((), ()).with_probe_concurrency(0).probe_concurrency(), 1);
    assert_eq!(Scanner::new((), ()).with_probe_concurrency(3).probe_concurrency(), 3);
    let custom = Scanner::with_extensions((), (), vec!["ogv".to_owned()]);
    let plan = custom.plan(&vec![entry("/m/a.ogv", 1), entry("/m/b.mkv", 1)]);
    assert_eq!(plan.candidates.len(), 1);
}

#[test]
fn a_report_splits_probed_from_failed_candidates() {
    let plan = ScanPlan {
        candidates: vec![entry("/m/a/one.mkv", 5), entry("/m/a/two.mkv", 6)],
        subtitles: vec!["/m/a/one.en.srt".to_owned()],
    };
    let report = scan_report(&"lib".to_owned(), plan, vec![Ok(probe(1000, Vec::new())), Err("corrupt".to_owned())]);
    assert_eq!(report.total_candidates, 2);
    assert_eq!(report.discovered.len(), 1);
    assert_eq!(report.discovered[0].path, "/m/a/one.mkv");
    assert_eq!(report.discovered[0].size_bytes, 5);
    assert_eq!(report.discovered[0].library, "lib");
    assert_eq!(report.discovered[0].subtitle_siblings, vec!["/m/a/one.en.srt".to_owned()]);
    assert_eq!(report.skipped.len(), 1);
    assert_eq!(report.skipped[0].path, "/m/a/two.mkv");
    assert_eq!(report.skipped[0].reason, SkipReason::ProbeFailed("corrupt".to_owned()));
}

#[test]
fn progress_is_reported_every_two_hundred_files_before_the_end() {
    let ticks: Vec<usize> = (1..=1000).filter(|done| progress_due(*done, 1000)).collect();
    assert_eq!(ticks, vec![200, 400, 600, 800]);
    assert_eq!(PROGRESS_EVERY, 200);
    assert!(!progress_due(200, 200));
}

fn parsed(title: &str, year: Option<u16>, season: Option<u16>, episode: Option<u16>) -> ParsedMedia {
    ParsedMedia { title: title.to_owned(), year, season, episode, quality: None, external_id: None }
}

#[test]
fn title_ids_are_derived_from_the_title_key() {
    assert_eq!(movie_id_of(&parsed("The Matrix", Some(1999), None, None)), derive_id("movie", "the matrix:1999"));
    assert_eq!(movie_id_of(&parsed("Heat", None, None, None)), derive_id("movie", "heat:0"));
    let ids = episode_ids_of(&parsed("Great Show", None, Some(1), Some(2))).unwrap();
    assert_eq!(ids.series, derive_id("series", "great show"));
    assert_eq!(ids.season, derive_id("season", "great show:1"));
    assert_eq!(ids.episode, derive_id("episode", "great show:1:2"));
    assert_eq!((ids.season_number, ids.episode_number), (1, 2));
    assert!(episode_ids_of(&parsed("Great Show", None, Some(1), None)).is_none());
}

#[test]
fn ingest_plans_name_their_mode() {
    let plan = IngestPlan::unidentified(false);
    assert_eq!(plan.mode, IngestMode::Explicit);
    assert!(plan.writes_title);
    assert!(!plan.checks_entities());
    let scanned = IngestPlan::scanned(IngestMode::Scan, true);
    assert!(!scanned.writes_title);
    assert!(IngestPlan::explicit().writes_title);
}

fn track(index: u32, language: Option<&str>) -> AudioTrack {
    AudioTrack { index, language: language.map(str::to_owned) }
}

fn context() -> SubtitleContext {
    SubtitleContext { imdb_id: Some("tt0133093".to_owned()), title: "The Matrix".to_owned(), season: None, episode: None }
}

#[test]
fn a_file_gets_trickplay_then_subtitles_or_transcription_then_translation() {
    let mut jobs = EnrichmentJobs::new(());
    jobs.subtitle_languages = vec!["en".to_owned()];
    jobs.transcription_enabled = true;
    jobs.translation_languages = vec!["fr".to_owned()];
    let p = probe(60_000, vec![track(1, Some("eng"))]);
    let planned = jobs.plan_for_file("v1", "/m/a.mkv", &p, &context(), true);
    assert_eq!(planned.len(), 3);
    assert!(matches!(&planned[0], EnrichmentJob::Trickplay(t) if t.duration_ms == 60_000));
    assert!(matches!(&planned[1], EnrichmentJob::Subtitles(s) if !s.transcribe_on_miss));
    assert!(matches!(&planned[2], EnrichmentJob::Translation(t) if t.target_languages == vec!["fr".to_owned()]));

    jobs.subtitle_languages = Vec::new();
    let planned = jobs.plan_for_file("v1", "/m/a.mkv", &p, &context(), false);
    assert_eq!(planned.len(), 2);
    assert!(matches!(&planned[1], EnrichmentJob::Transcription(t) if t.audio_track_index.is_none() && !t.force));
}

#[test]
fn transcription_is_queued_only_for_audio_without_subtitles() {
    let enqueuer = TranscriptionEnqueuer::new((), (), vec!["spa".to_owned()], true);
    let version = VersionTracks {
        path: "/m/a.mkv".to_owned(),
        audio: vec![track(1, Some("eng")), track(2, Some("spa"))],
        has_subtitle_files: false,
    };
    let job = enqueuer.plan("v1", Some(&version), Some("scan-1")).unwrap();
    assert_eq!(job.kind, JobKind::Transcription);
    assert_eq!(job.priority, JobPriority::Low);
    assert_eq!(job.parent.as_deref(), Some("scan-1"));
    assert_eq!(job.payload.audio_track_index, Some(2));
    assert_eq!(job.payload.source_language.as_deref(), Some("spa"));
    assert_eq!(job.payload.source_path, "/m/a.mkv");
    assert!(!job.payload.force);
    let subtitled = VersionTracks { has_subtitle_files: true, ..version.clone() };
    assert!(enqueuer.plan("v1", Some(&subtitled), None).is_none());
    assert!(enqueuer.plan("v1", None, None).is_none());
    let off = TranscriptionEnqueuer::new((), (), Vec::new(), false);
    assert!(off.plan("v1", Some(&version), None).is_none());
}

#[test]
fn enqueues_a_translation_job_when_languages_configured() {
    let translations = TranslationEnqueuer::new((), vec!["de".to_owned()]);
    let job = translations.plan("v1", Some("parent")).unwrap();
    assert_eq!(job.kind, JobKind::Translation);
    assert_eq!(job.priority, JobPriority::Low);
    assert_eq!(job.parent.as_deref(), Some("parent"));
    assert_eq!(job.payload.version_id, "v1");
    assert_eq!(job.payload.target_languages, vec!["de".to_owned()]);
    assert_eq!(job.payload.source_subtitle_id, None);
    assert!(TranslationEnqueuer::new((), Vec::new()).plan("v1", None).is_none());
    assert_eq!(translations.plan("v1", None).unwrap().parent, None);
}

#[test]
fn follow_up_jobs_run_at_the_priority_of_their_kind_under_their_parent() {
    let trick = EnrichmentJob::Trickplay(TrickplayJobPayload {
        version_id: "v1".to_owned(),
        source_path: "/m/a.mkv".to_owned(),
        duration_ms: 5,
    });
    let r = enrichment_request(trick.clone(), Some("scan-1"));
    assert_eq!((r.kind, r.priority, r.parent.as_deref()), (JobKind::Trickplay, JobPriority::Normal, Some("scan-1")));
    assert_eq!(r.payload, trick);
    let tr = EnrichmentJob::Translation(translation_payload("v1", &vec!["fr".to_owned()]).unwrap());
    let r = enrichment_request(tr, None);
    assert_eq!((r.kind, r.priority, r.parent), (JobKind::Translation, JobPriority::Low, None));
}

#[test]
fn jobs_a_user_asks_for_run_at_low_priority_without_a_parent() {
    let r = upscale_request("v1", 2160);
    assert_eq!((r.kind, r.priority, r.parent.clone()), (JobKind::Upscale, JobPriority::Low, None));
    assert_eq!((r.payload.version_id.as_str(), r.payload.target_height), ("v1", 2160));
    let r = combine_request("v1", "top", "bottom");
    assert_eq!((r.kind, r.priority), (JobKind::Combine, JobPriority::Low));
    assert_eq!((r.payload.top_subtitle_id.as_str(), r.payload.bottom_subtitle_id.as_str()), ("top", "bottom"));
    let r = translation_request(translation_payload_with_source("v1", "s1", "de"));
    assert_eq!((r.kind, r.priority, r.parent.clone()), (JobKind::Translation, JobPriority::Low, None));
    assert_eq!(r.payload.source_subtitle_id.as_deref(), Some("s1"));
}

#[test]
fn scan_dedupes_across_overlapping_roots() {
    let scanner = Scanner::new((), ());
    let walks = vec![Ok(vec![entry("/shared/movie.mkv", 1)]), Ok(vec![entry("/shared/movie.mkv", 1)])];
    let entries = gather_walks(&walks).unwrap();
    assert_eq!(entries.len(), 2);
    let plan = scanner.plan(&entries);
    let report = scan_report(&"lib".to_owned(), plan, vec![Ok(probe(1, Vec::new()))]);
    assert_eq!(report.discovered.len(), 1);
}

#[test]
fn scan_propagates_walk_failure() {
    let walks: Vec<Result<Vec<WalkedEntry>, String>> =
        vec![Ok(vec![entry("/m/a.mkv", 1)]), Err("root not found: /missing".to_owned()), Err("later".to_owned())];
    assert_eq!(gather_walks(&walks).unwrap_err(), "root not found: /missing");
}

#[test]
fn scan_of_empty_roots_is_empty() {
    let entries = gather_walks(&Vec::new()).unwrap();
    assert!(entries.is_empty());
    let plan = Scanner::new((), ()).plan(&entries);
    let report = scan_report(&"lib".to_owned(), plan, Vec::new());
    assert!(report.discovered.is_empty());
    assert_eq!(report.total_candidates, 0);
}

#[test]
fn walks_are_gathered_root_after_root() {
    let walks = vec![Ok(vec![entry("/a/1.mkv", 1), entry("/a/2.mkv", 2)]), Ok(Vec::new()), Ok(vec![entry("/b/3.mkv", 3)])];
    let paths: Vec<String> = gather_walks(&walks).unwrap().into_iter().map(|e| e.path).collect();
    assert_eq!(paths, ["/a/1.mkv", "/a/2.mkv", "/b/3.mkv"]);
}

#[test]
fn probes_run_concurrently_up_to_the_configured_ceiling() {
    let limit = Scanner::new((), ()).with_probe_concurrency(4).probe_concurrency();
    let (mut started, mut finished, mut peak) = (0usize, 0usize, 0usize);
    while finished < 20 {
        started += probes_to_start(started, finished, 20, limit);
        peak = peak.max(started - finished);
        finished += 1;
    }
    assert_eq!(started, 20);
    assert_eq!(peak, 4);
}

#[test]
fn one_probe_at_a_time_is_still_allowed() {
    let limit = Scanner::new((), ()).with_probe_concurrency(0).probe_concurrency();
    let (mut started, mut finished, mut peak) = (0usize, 0usize, 0usize);
    while finished < 5 {
        let more = probes_to_start(started, finished, 5, limit);
        assert!(more > 0, "a zero ceiling would stall the stream forever, so it floors at one");
        started += more;
        peak = peak.max(started - finished);
        finished += 1;
    }
    assert_eq!(peak, 1);
}

#[test]
fn no_probe_starts_past_the_last_candidate_or_the_ceiling() {
    assert_eq!(probes_to_start(0, 0, 3, 8), 3);
    assert_eq!(probes_to_start(8, 2, 100, 8), 2);
    assert_eq!(probes_to_start(10, 10, 10, 8), 0);
}
