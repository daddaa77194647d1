use services::catalog::{Timestamp, TitleId};
use services::dedup::{find_duplicates, synthetic_title_id};
use services::matcher::{MatchKey, MatchedGroup, Matcher};
use services::media::{ProbeResult, VideoTrack};
use services::parse::{ConfidenceTier, ParsedMedia};
use services::scanner::DiscoveredFile;
use services::subtitles::{discover_subtitles, parse_language_tag, SubtitleFormat};

fn file(path: &str) -> DiscoveredFile {
    sized(path, None)
}

fn sized(path: &str, height: Option<u32>) -> DiscoveredFile {
    DiscoveredFile {
        library: "lib".to_owned(),
        path: path.to_owned(),
        size_bytes: 1,
        probe: ProbeResult {
            duration_ms: 0,
            video: height
                .map(|h| vec![VideoTrack { index: 0, width: h * 16 / 9, height: h }])
                .unwrap_or_default(),
            audio: Vec::new(),
            subtitles: Vec::new(),
        },
        subtitle_siblings: Vec::new(),
    }
}

fn at_zero() -> Timestamp {
    Timestamp { nanosecond: 0 }
}

#[test]
fn groups_multiple_qualities_of_one_movie() {
    let report = Matcher::new().match_files(&[
        file("/m/The Matrix (1999) 1080p.mkv"),
        file("/m/The Matrix (1999) 2160p.mkv"),
    ]);
    assert_eq!(report.matched.len(), 1);
    assert_eq!(report.matched[0].files.len(), 2);
    assert_eq!(report.matched[0].key.title_slug, "the matrix");
    assert_eq!(report.matched[0].key.year, Some(1999));
    assert_eq!(report.matched[0].confidence, ConfidenceTier::Strong);
    assert!(report.unmatched.is_empty());
}

#[test]
fn separate_episodes_are_separate_groups() {
    let report = Matcher::new().match_files(&[file("/tv/Show.S01E01.mkv"), file("/tv/Show.S01E02.mkv")]);
    assert_eq!(report.matched.len(), 2);
    assert_eq!(report.matched[0].key.episode, Some(1));
    assert_eq!(report.matched[1].key.episode, Some(2));
}

#[test]
fn low_confidence_file_goes_to_unmatched_queue() {
    let report = Matcher::new().match_files_at(&[file("/m/recording.mkv")], at_zero());
    assert!(report.matched.is_empty());
    assert_eq!(report.unmatched.len(), 1);
    assert_eq!(report.unmatched[0].id, "unmatched:/m/recording.mkv");
    assert_eq!(report.unmatched[0].library, "lib");
    assert_eq!(report.unmatched[0].created_at, at_zero());
}

#[test]
fn empty_title_file_goes_to_unmatched_queue() {
    let report = Matcher::new().match_files(&[file("/m/2019.mkv")]);
    assert!(report.matched.is_empty());
    assert_eq!(report.unmatched.len(), 1);
}

#[test]
fn mixed_input_partitions_deterministically() {
    let report = Matcher::new().match_files(&[
        file("/m/recording.mkv"),
        file("/m/The Matrix (1999).mkv"),
        file("/m/Sinister 2 (2015).mkv"),
    ]);
    assert_eq!(report.matched.len(), 2);
    assert_eq!(report.matched[0].key.title_slug, "sinister 2");
    assert_eq!(report.matched[1].key.title_slug, "the matrix");
    assert_eq!(report.unmatched.len(), 1);
    assert_eq!(report.unmatched[0].path, "/m/recording.mkv");
}

#[test]
fn empty_input_yields_empty_report() {
    let report = Matcher::new().match_files(&[]);
    assert!(report.matched.is_empty());
    assert!(report.unmatched.is_empty());
}

#[test]
fn threshold_override_can_admit_bare_titles() {
    let report = Matcher::with_threshold(ConfidenceTier::Weak).match_files(&[file("/m/recording.mkv")]);
    assert_eq!(report.matched.len(), 1);
    assert_eq!(report.matched[0].key.title_slug, "recording");
    assert_eq!(report.matched[0].confidence, ConfidenceTier::Weak);
    assert!(report.unmatched.is_empty());
}

#[test]
fn unmatched_queue_is_sorted_by_path() {
    let report = Matcher::new().match_files(&[file("/m/zebra.mkv"), file("/m/apple.mkv")]);
    assert!(report.matched.is_empty());
    let paths: Vec<&str> = report.unmatched.iter().map(|u| u.path.as_str()).collect();
    assert_eq!(paths, ["/m/apple.mkv", "/m/zebra.mkv"]);
}

#[test]
fn group_files_are_sorted_by_path_and_confidence_is_the_weakest() {
    let report = Matcher::with_threshold(ConfidenceTier::Weak).match_files(&[
        file("/m/b/Heat (1995).mkv"),
        file("/m/a/Heat (1995).mkv"),
    ]);
    assert_eq!(report.matched.len(), 1);
    let paths: Vec<&str> = report.matched[0].files.iter().map(|f| f.path.as_str()).collect();
    assert_eq!(paths, ["/m/a/Heat (1995).mkv", "/m/b/Heat (1995).mkv"]);
    assert_eq!(report.matched[0].parsed.title, "Heat");
}

fn group(
    slug: &str,
    year: Option<u16>,
    season: Option<u16>,
    episode: Option<u16>,
    files: Vec<DiscoveredFile>,
) -> MatchedGroup {
    MatchedGroup {
        key: MatchKey { title_slug: slug.to_owned(), year, season, episode },
        parsed: ParsedMedia {
            title: slug.to_owned(),
            year,
            season,
            episode,
            quality: None,
            external_id: None,
        },
        confidence: ConfidenceTier::Strong,
        files,
    }
}

#[test]
fn two_files_same_resolution_are_a_duplicate() {
    let groups = [group(
        "the-matrix",
        Some(1999),
        None,
        None,
        vec![sized("/m/matrix-b.mkv", Some(1080)), sized("/m/matrix-a.mkv", Some(1080))],
    )];
    let dupes = find_duplicates(&groups);
    assert_eq!(dupes.len(), 1);
    assert_eq!(dupes[0].id, "dup:scan:the-matrix:1999:1080");
    assert_eq!(dupes[0].title, TitleId::Movie("scan:the-matrix:1999".to_owned()));
    assert_eq!(dupes[0].paths, vec!["/m/matrix-a.mkv", "/m/matrix-b.mkv"]);
}

#[test]
fn different_resolutions_are_legitimate_versions() {
    let groups = [group(
        "the-matrix",
        Some(1999),
        None,
        None,
        vec![sized("/m/matrix.1080p.mkv", Some(1080)), sized("/m/matrix.2160p.mkv", Some(2160))],
    )];
    assert!(find_duplicates(&groups).is_empty());
}

#[test]
fn single_file_is_not_a_duplicate() {
    let groups = [group("solo", Some(2020), None, None, vec![sized("/m/solo.mkv", Some(1080))])];
    assert!(find_duplicates(&groups).is_empty());
}

#[test]
fn episodic_group_yields_episode_title() {
    let groups = [group(
        "show",
        None,
        Some(1),
        Some(2),
        vec![sized("/tv/show.s01e02.mkv", Some(720)), sized("/tv/show.s01e02.repack.mkv", Some(720))],
    )];
    let dupes = find_duplicates(&groups);
    assert_eq!(dupes.len(), 1);
    assert_eq!(dupes[0].title, TitleId::Episode("scan:show:s01e02".to_owned()));
}

#[test]
fn files_without_video_bucket_together() {
    let groups = [group("audio-only", None, None, None, vec![sized("/m/a.mkv", None), sized("/m/b.mkv", None)])];
    let dupes = find_duplicates(&groups);
    assert_eq!(dupes.len(), 1);
    assert_eq!(dupes[0].id, "dup:scan:audio-only:0");
}

#[test]
fn multiple_resolution_buckets_each_flagged_and_sorted() {
    let groups = [group(
        "movie",
        Some(2001),
        None,
        None,
        vec![
            sized("/m/1080-a.mkv", Some(1080)),
            sized("/m/720-a.mkv", Some(720)),
            sized("/m/1080-b.mkv", Some(1080)),
            sized("/m/720-b.mkv", Some(720)),
        ],
    )];
    let dupes = find_duplicates(&groups);
    assert_eq!(dupes.len(), 2);
    assert_eq!(dupes[0].id, "dup:scan:movie:2001:1080");
    assert_eq!(dupes[1].id, "dup:scan:movie:2001:720");
}

#[test]
fn synthetic_ids_pad_season_and_episode() {
    let g = group("show", Some(2010), Some(3), Some(12), Vec::new());
    assert_eq!(synthetic_title_id(&g), TitleId::Episode("scan:show:2010:s03e12".to_owned()));
    let g = group("film", None, Some(3), None, Vec::new());
    assert_eq!(synthetic_title_id(&g), TitleId::Movie("scan:film".to_owned()));
}

fn paths(names: &[&str]) -> Vec<String> {
    names.iter().map(|n| (*n).to_owned()).collect()
}

#[test]
fn discovers_sidecar_with_language() {
    let subs = discover_subtitles("/m/Movie.mkv", &paths(&["/m/Movie.en.srt"]));
    assert_eq!(subs.len(), 1);
    assert_eq!(subs[0].path, "/m/Movie.en.srt");
    assert_eq!(subs[0].language, Some("en".to_owned()));
    assert_eq!(subs[0].format, SubtitleFormat::Srt);
}

#[test]
fn discovers_sidecar_without_language() {
    let subs = discover_subtitles("/m/Movie.mkv", &paths(&["/m/Movie.srt"]));
    assert_eq!(subs.len(), 1);
    assert_eq!(subs[0].language, None);
    assert_eq!(subs[0].format, SubtitleFormat::Srt);
}

#[test]
fn ignores_other_titles_and_non_subtitle_files() {
    let subs = discover_subtitles(
        "/m/Movie.mkv",
        &paths(&["/m/Movie.mkv", "/m/Movie.nfo", "/m/Other.en.srt", "/m/Movieish.en.srt"]),
    );
    assert!(subs.is_empty());
}

#[test]
fn parses_language_ignoring_flags_and_mixed_formats() {
    let subs = discover_subtitles(
        "/m/Movie.mkv",
        &paths(&["/m/Movie.en.srt", "/m/Movie.es.forced.srt", "/m/Movie.sdh.srt", "/m/Movie.vtt"]),
    );
    assert_eq!(subs.len(), 4);
    assert_eq!(subs[0].language, Some("en".to_owned()));
    assert_eq!(subs[1].language, Some("es".to_owned()));
    assert_eq!(subs[2].language, None);
    assert_eq!(subs[3].language, None);
    assert_eq!(subs[3].format, SubtitleFormat::Vtt);
}

#[test]
fn language_tags_are_lowered_and_flags_refused() {
    let tag = |t: &str| parse_language_tag(&t.chars().collect::<Vec<char>>()).map(|v| v.into_iter().collect::<String>());
    assert_eq!(tag("EN"), Some("en".to_owned()));
    assert_eq!(tag("por"), Some("por".to_owned()));
    assert_eq!(tag("CC"), None);
    assert_eq!(tag("sdh"), None);
    assert_eq!(tag("e"), None);
    assert_eq!(tag("engl"), None);
    assert_eq!(tag("e1"), None);
}

#[test]
fn subtitle_extension_case_does_not_matter() {
    let subs = discover_subtitles("C:\\m\\Movie.mkv", &paths(&["C:\\m\\Movie.FR.SRT", "/x/Movie.ass"]));
    assert_eq!(subs.len(), 2);
    assert_eq!(subs[0].language, Some("fr".to_owned()));
    assert_eq!(subs[1].format, SubtitleFormat::Ass);
}
