use services::paths::{
    basename, container_of, default_extensions, dir_of, file_stem, is_hidden, is_media_candidate,
    is_subtitle_file,
};

#[test]
fn candidate_filter_matches_media_extensions_case_insensitively() {
    let exts = default_extensions();
    assert!(is_media_candidate("/m/movie.mkv", &exts));
    assert!(is_media_candidate("/m/Movie.MP4", &exts));
    assert!(!is_media_candidate("/m/notes.txt", &exts));
    assert!(!is_media_candidate("/m/README", &exts));
    assert!(!is_media_candidate("/m/.mkv", &exts));
}

#[test]
fn hidden_detects_dotfiles_by_basename() {
    assert!(is_hidden("/m/.secret.mkv"));
    assert!(!is_hidden("/m/movie.mkv"));
}

#[test]
fn subtitle_and_dir_helpers() {
    assert!(is_subtitle_file("/m/a.SRT"));
    assert!(is_subtitle_file("/m/a.vtt"));
    assert!(!is_subtitle_file("/m/a.mkv"));
    assert!(!is_subtitle_file("/m/.srt"));
    assert_eq!(dir_of("/m/a/movie.mkv"), "/m/a");
    assert_eq!(dir_of("movie.mkv"), "");
}

#[test]
fn container_of_extracts_extension_or_defaults() {
    assert_eq!(container_of("/m/Movie.MKV"), "mkv");
    assert_eq!(container_of("/m/nested.dir/clip.mp4"), "mp4");
    assert_eq!(container_of("/m/no_extension"), "bin");
}

#[test]
fn default_extensions_are_the_ingested_containers() {
    assert_eq!(
        default_extensions(),
        vec!["mkv", "mp4", "avi", "mov", "m4v", "wmv", "flv", "webm", "mpg", "mpeg", "ts", "m2ts"]
    );
}

#[test]
fn basename_and_stem_split_on_both_separators() {
    assert_eq!(basename("/m/a\\b.c.mkv"), "b.c.mkv");
    assert_eq!(file_stem("/m/a\\b.c.mkv"), "b.c");
    assert_eq!(basename("plain"), "plain");
    assert_eq!(file_stem("/m/.mkv"), "");
    assert_eq!(dir_of("C:\\films\\x.mkv"), "C:\\films");
}

#[test]
fn media_candidates_follow_the_given_extensions() {
    let exts = vec!["iso".to_owned()];
    assert!(is_media_candidate("/m/disc.ISO", &exts));
    assert!(!is_media_candidate("/m/movie.mkv", &exts));
    assert!(is_subtitle_file("/m/a.Ass"));
    assert!(is_subtitle_file("/m/a.ssa"));
    assert!(is_subtitle_file("/m/a.sub"));
    assert!(!is_subtitle_file("/m/srt"));
}
