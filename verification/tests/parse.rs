use services::parse::{
    confidence_tier, find_quality, find_season_episode, find_year, parse_filename, ConfidenceTier,
    ParsedMedia, Quality,
};
use services::title::{clean_title, normalize_title};

fn parse(name: &str) -> ParsedMedia {
    parse_filename(name)
}

#[test]
fn parses_dotted_movie_with_year_and_resolution() {
    let p = parse("/m/The.Matrix.1999.1080p.BluRay.x264-GRP.mkv");
    assert_eq!(p.title, "The Matrix");
    assert_eq!(p.year, Some(1999));
    assert_eq!(p.season, None);
    assert_eq!(p.episode, None);
    assert_eq!(p.quality, Some(Quality::Fhd));
}

#[test]
fn parses_parenthesized_year() {
    let p = parse("The Matrix (1999).mkv");
    assert_eq!(p.title, "The Matrix");
    assert_eq!(p.year, Some(1999));
    assert_eq!(p.quality, None);
}

#[test]
fn parenthesized_release_year_wins_over_year_in_title() {
    let p = parse("Blade Runner 2049 (2017) 2160p.mkv");
    assert_eq!(p.title, "Blade Runner 2049");
    assert_eq!(p.year, Some(2017));
    assert_eq!(p.quality, Some(Quality::Uhd));
}

#[test]
fn keeps_number_in_movie_title() {
    let p = parse("Sinister 2 (2015).mkv");
    assert_eq!(p.title, "Sinister 2");
    assert_eq!(p.year, Some(2015));
}

#[test]
fn parses_dotted_season_episode() {
    let p = parse("Show.Name.S01E02.720p.mkv");
    assert_eq!(p.title, "Show Name");
    assert_eq!(p.season, Some(1));
    assert_eq!(p.episode, Some(2));
    assert_eq!(p.year, None);
    assert_eq!(p.quality, Some(Quality::Hd));
    assert!(p.is_episodic());
}

#[test]
fn parses_x_style_season_episode() {
    let p = parse("Show - 1x02.mkv");
    assert_eq!(p.title, "Show");
    assert_eq!(p.season, Some(1));
    assert_eq!(p.episode, Some(2));
}

#[test]
fn multi_episode_keeps_first_episode() {
    let p = parse("Show.S01E02E03.mkv");
    assert_eq!(p.title, "Show");
    assert_eq!(p.season, Some(1));
    assert_eq!(p.episode, Some(2));
}

#[test]
fn bare_title_has_no_year_or_episode() {
    let p = parse("recording.mkv");
    assert_eq!(p.title, "recording");
    assert_eq!(p.year, None);
    assert!(!p.is_episodic());
}

#[test]
fn year_only_name_has_empty_title() {
    let p = parse("2019.mkv");
    assert_eq!(p.title, "");
    assert_eq!(p.year, Some(2019));
}

#[test]
fn dotfile_stem_is_empty() {
    let p = parse("/m/.mkv");
    assert_eq!(p.title, "");
}

#[test]
fn resolution_token_maps_to_quality() {
    assert_eq!(parse("A (2001) 4k.mkv").quality, Some(Quality::Uhd));
    assert_eq!(parse("A (2001) 2160p.mkv").quality, Some(Quality::Uhd));
    assert_eq!(parse("A (2001) 1080p.mkv").quality, Some(Quality::Fhd));
    assert_eq!(parse("A (2001) 720p.mkv").quality, Some(Quality::Hd));
    assert_eq!(parse("A (2001) 480p.mkv").quality, Some(Quality::Sd));
    assert_eq!(parse("A (2001) 576p.mkv").quality, Some(Quality::Sd));
}

#[test]
fn normalize_collapses_case_and_punctuation() {
    assert_eq!(normalize_title("The Matrix"), "the matrix");
    assert_eq!(normalize_title("The.Matrix!!"), "the matrix");
    assert_eq!(normalize_title("  Spider-Man  "), "spider man");
}

fn parsed(title: &str, year: Option<u16>, season: Option<u16>, episode: Option<u16>) -> ParsedMedia {
    ParsedMedia { title: title.into(), year, season, episode, quality: None, external_id: None }
}

#[test]
fn confidence_tiers() {
    let episodic = parsed("Show", None, Some(1), Some(2));
    let movie_year = parsed("Movie", Some(2001), None, None);
    let movie_bare = parsed("Movie", None, None, None);
    let empty = parsed("", Some(2001), None, None);
    assert_eq!(confidence_tier(&episodic), ConfidenceTier::Strong);
    assert_eq!(confidence_tier(&movie_year), ConfidenceTier::Strong);
    assert_eq!(confidence_tier(&movie_bare), ConfidenceTier::Weak);
    assert_eq!(confidence_tier(&empty), ConfidenceTier::Untitled);
}

#[test]
fn a_directory_prefix_changes_nothing() {
    for name in ["The.Matrix.1999.1080p.mkv", "Show - 1x02.mkv", "x", ""] {
        assert_eq!(parse(&format!("/a/b/{name}")), parse(name));
        assert_eq!(parse(&format!("C:\\films\\{name}")), parse(name));
    }
}

#[test]
fn season_and_episode_come_together_and_years_stay_in_range() {
    for name in ["S1E.mkv", "s123e4", "Show 1x2345", "1999 2100 1899 (2099)", "x 1x02b", "ſ01e02 K"] {
        let p = parse(name);
        assert_eq!(p.season.is_some(), p.episode.is_some(), "{name}");
        if let Some(y) = p.year {
            assert!((1900..=2099).contains(&y), "{name}");
        }
        assert_eq!(p.title.trim_matches(|c: char| c == '-' || c == ' '), p.title.as_str());
    }
}

#[test]
fn marker_edge_cases_follow_the_grammar() {
    assert_eq!(find_season_episode("s123e4"), None);
    assert_eq!(find_season_episode("xS1E2345"), None);
    assert_eq!(find_season_episode("a S1E2345"), Some((1, 234, 2)));
    assert_eq!(find_season_episode("Show 1x2345"), None);
    assert_eq!(find_season_episode("Show 1x23"), Some((1, 23, 5)));
    assert_eq!(find_season_episode("\u{17F}01e02"), Some((1, 2, 0)));
    assert_eq!(find_year("1999 (2004)"), Some((2004, 5)));
    assert_eq!(find_year("x1999 2001"), Some((2001, 6)));
    assert_eq!(find_year("[1950]"), Some((1950, 0)));
    assert_eq!(find_year("2100"), None);
    assert_eq!(find_quality("a 4K b"), Some(Quality::Uhd));
    assert_eq!(find_quality("a 4\u{212A} b"), Some(Quality::Sd));
    assert_eq!(find_quality("a 1080P"), Some(Quality::Fhd));
    assert_eq!(find_quality("a1080p"), None);
}

#[test]
fn clean_title_squashes_and_trims() {
    assert_eq!(clean_title("- The__Matrix . -"), "The Matrix");
    assert_eq!(clean_title("a\t\u{3000}b"), "a b");
    assert_eq!(clean_title("---"), "");
}

#[test]
fn normalize_title_is_idempotent_on_examples() {
    for input in ["The.Matrix!!", "  Spider-Man  ", "ÄÖ x", ""] {
        let once = normalize_title(input);
        assert_eq!(normalize_title(&once), once);
    }
}
