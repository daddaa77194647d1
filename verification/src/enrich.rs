use vstd::prelude::*;
use crate::chars::chars_of;
use crate::fmt::{decimal, decimal_chars, extend};
use crate::jobs::{
    opt_view, strings_view, SubtitleJobPayload, TranscriptionJobPayload, TranslationJobPayload,
    TrickplayJobPayload, clone_strings, source_language_spec, select_audio_spec, transcription_payload,
    translation_payload, owned_parent, parent_is, JobKind, JobPriority, JobRequest,
};
use crate::media::ProbeResult;
use crate::catalog::{copy_opt, copy_rating, ContentRating, Episode, Movie, Season, Series, Timestamp, TitleId, Version};
use crate::paths::{container_of, container_spec, stem_of};
use crate::subtitles::{discover_subtitles, discovered_spec, subtitles_view, SubtitleFormat};
use crate::fetch::{endpoint, has_char, trim_white, trim_ws, LibraryKind};
use crate::parse::{token_quality, ExternalId, ParsedMedia, Quality};
use crate::scanner::DiscoveredFile;
use crate::title::{normalize_spec, normalize_title};

verus! {

/// A scan ingests unchanged files and known titles lightly; an explicit ingest redoes them.
#[derive(Debug, Clone, Copy, PartialEq, Eq, Structural)]
pub enum IngestMode {
    Scan,
    Explicit,
}

impl IngestMode {
    /// A scan skips files whose size and duration did not change.
    pub fn skips_unchanged(self) -> (r: bool)
        ensures
            r == (self == IngestMode::Scan),
    {
        self == IngestMode::Scan
    }

    /// A scan leaves titles that already exist alone.
    pub fn skips_existing_titles(self) -> (r: bool)
        ensures
            r == (self == IngestMode::Scan),
    {
        self == IngestMode::Scan
    }
}

/// How one file is ingested: in which mode, and whether its title is written.
#[derive(Debug, Clone, Copy, PartialEq, Eq)]
pub struct IngestPlan {
    pub mode: IngestMode,
    pub writes_title: bool,
}

impl IngestPlan {
    /// An explicit ingest writes the title.
    pub fn explicit() -> (r: Self)
        ensures
            r.mode == IngestMode::Explicit,
            r.writes_title,
    {
        IngestPlan { mode: IngestMode::Explicit, writes_title: true }
    }

    /// A scanned file writes its title only when the title is not known yet.
    pub fn scanned(mode: IngestMode, title_is_known: bool) -> (r: Self)
        ensures
            r.mode == mode,
            r.writes_title == !title_is_known,
    {
        IngestPlan { mode, writes_title: !title_is_known }
    }

    /// A file without metadata is ingested explicitly, its title written only when not known yet.
    pub fn unidentified(title_is_known: bool) -> (r: Self)
        ensures
            r.mode == IngestMode::Explicit,
            r.writes_title == !title_is_known,
    {
        IngestPlan { mode: IngestMode::Explicit, writes_title: !title_is_known }
    }

    /// Whether the entities of the title are looked up before writing it.
    pub fn checks_entities(&self) -> (r: bool)
        ensures
            r == (self.writes_title && self.mode == IngestMode::Scan),
    {
        self.writes_title && self.mode.skips_existing_titles()
    }
}

/// How a resolve request ended: the title was found at a source, or not.
#[derive(Debug, Clone, Copy, PartialEq, Eq, Structural)]
pub enum ResolveOutcome {
    Identified,
    Unidentified,
}

/// A scan enricher that does nothing.
#[derive(Debug, Clone, Copy, PartialEq, Eq)]
pub struct NoopEnricher;

/// The id `uuid::Uuid::new_v5(&Uuid::NAMESPACE_URL, name)` gives for the UTF-8 of `name`, hyphenated.
pub uninterp spec fn uuid_v5_url(name: Seq<char>) -> Seq<char>;

/// Calls `uuid::Uuid::new_v5` in the URL namespace on the bytes of `name` and
/// renders the result hyphenated (`to_string`). Claimed: the result is
/// `uuid_v5_url(name)`, a function of the name alone (the version 5 scheme hashes
/// namespace and name with SHA-1 and nothing else), and it is 36 chars long.
#[verifier::external_body]
fn uuid_v5_url_string(name: &str) -> (r: String)
    ensures
        r@ == uuid_v5_url(name@),
        r@.len() == 36,
{
    uuid::Uuid::new_v5(&uuid::Uuid::NAMESPACE_URL, name.as_bytes()).to_string()
}

/// `kind:key`.
pub open spec fn id_name(kind: Seq<char>, key: Seq<char>) -> Seq<char> {
    kind + seq![':'] + key
}

/// A stable id for a title derived from its kind and key.
pub fn derive_id(kind: &str, key: &str) -> (r: String)
    ensures
        r@ == uuid_v5_url(id_name(kind@, key@)),
{
    let mut name: Vec<char> = chars_of(kind);
    name.push(':');
    extend(&mut name, &chars_of(key));
    assert(name@ =~= id_name(kind@, key@));
    let text = crate::chars::string_of(&name);
    uuid_v5_url_string(text.as_str())
}

pub open spec fn year_or_zero(year: Option<u16>) -> nat {
    match year {
        Some(y) => y as nat,
        None => 0,
    }
}

/// The key of a movie: its title key and year (0 when unknown).
pub open spec fn movie_key(parsed: ParsedMedia) -> Seq<char> {
    normalize_spec(parsed.title@) + seq![':'] + decimal(year_or_zero(parsed.year))
}

pub open spec fn movie_chars() -> Seq<char> {
    seq!['m', 'o', 'v', 'i', 'e']
}

/// The id of the movie a parse stands for.
pub fn movie_id_of(parsed: &ParsedMedia) -> (r: String)
    ensures
        r@ == uuid_v5_url(id_name(movie_chars(), movie_key(*parsed))),
{
    let slug = normalize_title(parsed.title.as_str());
    let mut key = chars_of(slug.as_str());
    key.push(':');
    let year: u64 = match parsed.year {
        Some(y) => y as u64,
        None => 0,
    };
    extend(&mut key, &decimal_chars(year));
    assert(key@ =~= movie_key(*parsed));
    let key_text = crate::chars::string_of(&key);
    let kind = crate::chars::string_of(&['m', 'o', 'v', 'i', 'e']);
    assert(kind@ == movie_chars());
    derive_id(kind.as_str(), key_text.as_str())
}

/// The ids of a series, season and episode a parse stands for.
#[derive(Debug, Clone, PartialEq, Eq)]
pub struct EpisodeIds {
    pub series: String,
    pub season: String,
    pub episode: String,
    pub season_number: u16,
    pub episode_number: u16,
}

pub open spec fn series_chars() -> Seq<char> {
    seq!['s', 'e', 'r', 'i', 'e', 's']
}

pub open spec fn season_chars() -> Seq<char> {
    seq!['s', 'e', 'a', 's', 'o', 'n']
}

pub open spec fn episode_chars() -> Seq<char> {
    seq!['e', 'p', 'i', 's', 'o', 'd', 'e']
}

/// The ids of the series, season and episode of an episodic parse; none otherwise.
pub fn episode_ids_of(parsed: &ParsedMedia) -> (r: Option<EpisodeIds>)
    ensures
        (r is Some) == parsed.episodic(),
        r matches Some(ids) ==> ({
            let key = normalize_spec(parsed.title@);
            let s = parsed.season->0 as nat;
            let e = parsed.episode->0 as nat;
            &&& ids.season_number == parsed.season->0
            &&& ids.episode_number == parsed.episode->0
            &&& ids.series@ == uuid_v5_url(id_name(series_chars(), key))
            &&& ids.season@ == uuid_v5_url(id_name(season_chars(), key + seq![':'] + decimal(s)))
            &&& ids.episode@ == uuid_v5_url(
                id_name(episode_chars(), key + seq![':'] + decimal(s) + seq![':'] + decimal(e)),
            )
        }),
{
    let (season_number, episode_number) = match (parsed.season, parsed.episode) {
        (Some(s), Some(e)) => (s, e),
        _ => return None,
    };
    let series_key = chars_of(normalize_title(parsed.title.as_str()).as_str());
    let mut season_key = series_key.clone();
    season_key.push(':');
    extend(&mut season_key, &decimal_chars(season_number as u64));
    let mut episode_key = season_key.clone();
    episode_key.push(':');
    extend(&mut episode_key, &decimal_chars(episode_number as u64));
    let ghost k = normalize_spec(parsed.title@);
    assert(season_key@ =~= k + seq![':'] + decimal(season_number as nat));
    assert(episode_key@ =~= k + seq![':'] + decimal(season_number as nat) + seq![':'] + decimal(episode_number as nat));
    let series_kind = crate::chars::string_of(&['s', 'e', 'r', 'i', 'e', 's']);
    let season_kind = crate::chars::string_of(&['s', 'e', 'a', 's', 'o', 'n']);
    let episode_kind = crate::chars::string_of(&['e', 'p', 'i', 's', 'o', 'd', 'e']);
    assert(series_kind@ == series_chars());
    assert(season_kind@ == season_chars());
    assert(episode_kind@ == episode_chars());
    Some(EpisodeIds {
        series: derive_id(series_kind.as_str(), crate::chars::string_of(&series_key).as_str()),
        season: derive_id(season_kind.as_str(), crate::chars::string_of(&season_key).as_str()),
        episode: derive_id(episode_kind.as_str(), crate::chars::string_of(&episode_key).as_str()),
        season_number,
        episode_number,
    })
}

/// Who a subtitle download is for.
#[derive(Debug, Clone, PartialEq, Eq)]
pub struct SubtitleContext {
    pub imdb_id: Option<String>,
    pub title: String,
    pub season: Option<u16>,
    pub episode: Option<u16>,
}

/// A follow-up job for an ingested file.
#[derive(Debug, Clone, PartialEq, Eq)]
pub enum EnrichmentJob {
    Trickplay(TrickplayJobPayload),
    Subtitles(SubtitleJobPayload),
    Transcription(TranscriptionJobPayload),
    Translation(TranslationJobPayload),
}

/// The kind of job that runs a follow-up job.
pub open spec fn enrichment_kind(job: EnrichmentJob) -> JobKind {
    match job {
        EnrichmentJob::Trickplay(_) => JobKind::Trickplay,
        EnrichmentJob::Subtitles(_) => JobKind::Subtitles,
        EnrichmentJob::Transcription(_) => JobKind::Transcription,
        EnrichmentJob::Translation(_) => JobKind::Translation,
    }
}

/// How urgently a follow-up job runs: seek thumbnails and subtitle downloads at normal
/// priority, transcriptions and translations at low priority.
pub open spec fn enrichment_priority(job: EnrichmentJob) -> JobPriority {
    match job {
        EnrichmentJob::Trickplay(_) | EnrichmentJob::Subtitles(_) => JobPriority::Normal,
        EnrichmentJob::Transcription(_) | EnrichmentJob::Translation(_) => JobPriority::Low,
    }
}

/// The request that queues a follow-up job of an ingested file under `parent`, the job
/// that found the file.
pub fn enrichment_request(job: EnrichmentJob, parent: Option<&str>) -> (r: JobRequest<EnrichmentJob>)
    ensures
        r.kind == enrichment_kind(job),
        r.priority == enrichment_priority(job),
        parent_is(r.parent, parent),
        r.payload == job,
{
    let (kind, priority) = match &job {
        EnrichmentJob::Trickplay(_) => (JobKind::Trickplay, JobPriority::Normal),
        EnrichmentJob::Subtitles(_) => (JobKind::Subtitles, JobPriority::Normal),
        EnrichmentJob::Transcription(_) => (JobKind::Transcription, JobPriority::Low),
        EnrichmentJob::Translation(_) => (JobKind::Translation, JobPriority::Low),
    };
    JobRequest { kind, priority, parent: owned_parent(parent), payload: job }
}

/// Decides the follow-up jobs of ingested files.
pub struct EnrichmentJobs<J> {
    pub jobs: J,
    pub subtitle_languages: Vec<String>,
    pub transcription_enabled: bool,
    pub translation_languages: Vec<String>,
}

pub open spec fn b2n(b: bool) -> int {
    if b {
        1
    } else {
        0
    }
}

impl<J> EnrichmentJobs<J> {
    pub open spec fn jobs_spec(&self) -> J {
        self.jobs
    }

    /// No subtitle languages, no transcription, no translation.
    pub fn new(jobs: J) -> (r: Self)
        ensures
            r.jobs_spec() == jobs,
            r.subtitle_languages@.len() == 0,
            !r.transcription_enabled,
            r.translation_languages@.len() == 0,
    {
        EnrichmentJobs {
            jobs,
            subtitle_languages: Vec::new(),
            transcription_enabled: false,
            translation_languages: Vec::new(),
        }
    }

    pub fn jobs(&self) -> (r: &J)
        ensures
            *r == self.jobs_spec(),
    {
        &self.jobs
    }

    /// Subtitles are fetched from a source when languages are configured for it.
    pub open spec fn subtitles_wanted(&self) -> bool {
        self.subtitle_languages@.len() > 0
    }

    /// A file is transcribed when transcription is on and it has audio but no subtitles of its own.
    pub open spec fn transcription_wanted(&self, probe: ProbeResult, has_native_subtitle: bool) -> bool {
        self.transcription_enabled && !has_native_subtitle && probe.audio@.len() > 0
    }

    /// The follow-up jobs of an ingested file, in the order they are queued:
    /// seek thumbnails always; a subtitle download when subtitle languages are set
    /// (transcribing on a miss when the file would be transcribed); else a
    /// transcription when wanted; and a translation of its own subtitles when it
    /// has them and translation languages are set.
    pub fn plan_for_file(
        &self,
        version_id: &str,
        path: &str,
        probe: &ProbeResult,
        subtitle: &SubtitleContext,
        has_native_subtitle: bool,
    ) -> (r: Vec<EnrichmentJob>)
        ensures
            ({
                let subs = self.subtitles_wanted();
                let trans = !subs && self.transcription_wanted(*probe, has_native_subtitle);
                let transl = has_native_subtitle && self.translation_languages@.len() > 0;
                &&& r@.len() == 1 + b2n(subs) + b2n(trans) + b2n(transl)
                &&& r@[0] matches EnrichmentJob::Trickplay(t) && t.version_id@ == version_id@
                    && t.source_path@ == path@ && t.duration_ms == probe.duration_ms
                &&& subs ==> (r@[1] matches EnrichmentJob::Subtitles(p) && p.version_id@ == version_id@
                    && opt_view(p.imdb_id) == opt_view(subtitle.imdb_id)
                    && opt_view(p.title) == Some(subtitle.title@)
                    && strings_view(p.languages@) == strings_view(self.subtitle_languages@)
                    && p.season == subtitle.season && p.episode == subtitle.episode
                    && p.transcribe_on_miss == self.transcription_wanted(*probe, has_native_subtitle))
                &&& trans ==> (r@[1] matches EnrichmentJob::Transcription(p) && p.version_id@ == version_id@
                    && p.source_path@ == path@
                    && p.audio_track_index == select_audio_spec(probe.audio@, None)
                    && opt_view(p.source_language) == source_language_spec(probe.audio@, p.audio_track_index)
                    && !p.force)
                &&& transl ==> (r@[r@.len() - 1] matches EnrichmentJob::Translation(p)
                    && p.version_id@ == version_id@
                    && strings_view(p.target_languages@) == strings_view(self.translation_languages@)
                    && p.source_subtitle_id is None)
            }),
    {
        let mut out: Vec<EnrichmentJob> = Vec::new();
        out.push(EnrichmentJob::Trickplay(TrickplayJobPayload {
            version_id: version_id.to_string(),
            source_path: path.to_string(),
            duration_ms: probe.duration_ms,
        }));
        let transcription_wanted = self.transcription_enabled && !has_native_subtitle && probe.audio.len() > 0;
        if self.subtitle_languages.len() > 0 {
            out.push(EnrichmentJob::Subtitles(SubtitleJobPayload {
                version_id: version_id.to_string(),
                imdb_id: clone_opt_string(&subtitle.imdb_id),
                title: Some(subtitle.title.clone()),
                languages: clone_strings(&self.subtitle_languages),
                season: subtitle.season,
                episode: subtitle.episode,
                transcribe_on_miss: transcription_wanted,
            }));
        } else if transcription_wanted {
            out.push(EnrichmentJob::Transcription(
                transcription_payload(version_id, path, probe.audio.as_slice(), &self.subtitle_languages),
            ));
        }
        if has_native_subtitle {
            if let Some(p) = translation_payload(version_id, &self.translation_languages) {
                out.push(EnrichmentJob::Translation(p));
            }
        }
        out
    }
}

pub fn clone_opt_string(o: &Option<String>) -> (r: Option<String>)
    ensures
        opt_view(r) == opt_view(*o),
{
    match o {
        Some(s) => Some(s.clone()),
        None => None,
    }
}


/// The quality a picture height stands for.
pub open spec fn height_quality(height: u32) -> Quality {
    if height >= 2160 {
        Quality::Uhd
    } else if height >= 1080 {
        Quality::Fhd
    } else if height >= 720 {
        Quality::Hd
    } else {
        Quality::Sd
    }
}

/// The quality of a picture `height` pixels tall.
pub fn quality_from_height(height: u32) -> (r: Quality)
    ensures
        r == height_quality(height),
{
    if height >= 2160 {
        Quality::Uhd
    } else if height >= 1080 {
        Quality::Fhd
    } else if height >= 720 {
        Quality::Hd
    } else {
        Quality::Sd
    }
}

/// How sure a quality is of a sharp picture: SD below HD below Full HD below UHD.
pub open spec fn quality_rank(q: Quality) -> int {
    match q {
        Quality::Sd => 0,
        Quality::Hd => 1,
        Quality::Fhd => 2,
        Quality::Uhd => 3,
    }
}

/// A probed picture height has the quality that the resolution token of the tallest
/// standard height it reaches gives in a file name: below 720 lines that of `480p` and
/// `576p`, from 720 that of `720p`, from 1080 that of `1080p`, from 2160 that of
/// `2160p`; so a file is recorded alike whether its name or its stream tells its size.
/// And a taller picture never has a lower quality.
pub proof fn law_a_height_has_the_quality_of_its_resolution_token(h: u32, taller: u32)
    ensures
        h < 720 ==> height_quality(h) == token_quality(seq!['4', '8', '0', 'p'])
            && height_quality(h) == token_quality(seq!['5', '7', '6', 'p']),
        720 <= h < 1080 ==> height_quality(h) == token_quality(seq!['7', '2', '0', 'p']),
        1080 <= h < 2160 ==> height_quality(h) == token_quality(seq!['1', '0', '8', '0', 'p']),
        2160 <= h ==> height_quality(h) == token_quality(seq!['2', '1', '6', '0', 'p']),
        h <= taller ==> quality_rank(height_quality(h)) <= quality_rank(height_quality(taller)),
{
    let p480 = seq!['4', '8', '0', 'p'];
    let p576 = seq!['5', '7', '6', 'p'];
    let p720 = seq!['7', '2', '0', 'p'];
    let p1080 = seq!['1', '0', '8', '0', 'p'];
    let p2160 = seq!['2', '1', '6', '0', 'p'];
    let k4 = seq!['4', 'k'];
    assert(p480 != p2160 && p480 != k4 && p480 != p1080 && p480 != p720) by {
        assert(p480.len() != p2160.len() && p480.len() != k4.len() && p480.len() != p1080.len());
        assert(p480[0] != p720[0]);
    }
    assert(p576 != p2160 && p576 != k4 && p576 != p1080 && p576 != p720) by {
        assert(p576.len() != p2160.len() && p576.len() != k4.len() && p576.len() != p1080.len());
        assert(p576[0] != p720[0]);
    }
    assert(p720 != p2160 && p720 != k4 && p720 != p1080) by {
        assert(p720.len() != p2160.len() && p720.len() != k4.len() && p720.len() != p1080.len());
    }
    assert(p1080 != p2160 && p1080 != k4) by {
        assert(p1080[0] != p2160[0] && p1080.len() != k4.len());
    }
}

/// The quality a file name gives, else the one its tallest video stream stands for.
pub fn resolve_quality(parsed: Option<Quality>, probe: &ProbeResult) -> (r: Quality)
    ensures
        r == match parsed {
            Some(q) => q,
            None => height_quality(crate::media::max_height(probe.video@)),
        },
{
    match parsed {
        Some(q) => q,
        None => quality_from_height(crate::media::resolution(probe)),
    }
}

/// A bare TMDB id is qualified by the library's kind; an IMDb id, an id that already
/// names its endpoint, or another source's id is left alone.
pub open spec fn qualified_spec(source: Seq<char>, value: Seq<char>, kind: LibraryKind) -> Seq<char> {
    if source != seq!['t', 'm', 'd', 'b'] || has_char(value, '/')
        || (value.len() >= 2 && value[0] == 't' && value[1] == 't') {
        value
    } else {
        endpoint(kind) + seq!['/'] + value
    }
}

/// The provider id to ask for: see [`qualified_spec`].
pub fn qualified_provider_id(id: &ExternalId, kind: LibraryKind) -> (r: ExternalId)
    ensures
        r.source@ == id.source@,
        r.value@ == qualified_spec(id.source@, id.value@, kind),
{
    let source = chars_of(id.source.as_str());
    let value = chars_of(id.value.as_str());
    let tmdb = vec!['t', 'm', 'd', 'b'];
    assert(tmdb@ =~= seq!['t', 'm', 'd', 'b']);
    let mut slash = false;
    let mut i: usize = 0;
    while i < value.len()
        invariant
            i <= value.len(),
            slash == (exists|j: int| 0 <= j < i && value@[j] == '/'),
        decreases value.len() - i,
    {
        if value[i] == '/' {
            slash = true;
        }
        i += 1;
    }
    let imdb_like = value.len() >= 2 && value[0] == 't' && value[1] == 't';
    if !crate::chars::chars_eq(&source, &tmdb) || slash || imdb_like {
        return ExternalId { source: id.source.clone(), value: id.value.clone() };
    }
    let mut out: Vec<char> = match kind {
        LibraryKind::Tv => vec!['t', 'v'],
        LibraryKind::Movie => vec!['m', 'o', 'v', 'i', 'e'],
    };
    assert(out@ =~= endpoint(kind));
    out.push('/');
    extend(&mut out, &value);
    ExternalId { source: id.source.clone(), value: crate::chars::string_of(&out) }
}

/// The size to record for a file: a file that reports no size keeps the size stored
/// for it before.
pub open spec fn recorded_size_spec(file_size: u64, existing: Option<Version>) -> u64 {
    match existing {
        Some(v) => if file_size == 0 { v.size_bytes } else { file_size },
        None => file_size,
    }
}

/// The size to record for `file`.
pub fn recorded_size(file: &DiscoveredFile, existing: Option<&Version>) -> (r: u64)
    ensures
        r == recorded_size_spec(file.size_bytes, match existing {
            Some(v) => Some(*v),
            None => None,
        }),
{
    match existing {
        Some(v) => if file.size_bytes == 0 { v.size_bytes } else { file.size_bytes },
        None => file.size_bytes,
    }
}

/// Whether a file is the version already stored: same recorded size, same duration.
pub fn is_unchanged(existing: Option<&Version>, file: &DiscoveredFile) -> (r: bool)
    ensures
        r == match existing {
            Some(v) => v.size_bytes == recorded_size_spec(file.size_bytes, Some(*v))
                && v.duration_ms == file.probe.duration_ms,
            None => false,
        },
{
    match existing {
        Some(v) => v.size_bytes == recorded_size(file, existing) && v.duration_ms == file.probe.duration_ms,
        None => false,
    }
}

/// What a metadata provider says of a title, as far as ingest reads it.
#[derive(Debug, Clone, PartialEq, Eq)]
pub struct TitleMetadata {
    pub title: String,
    pub year: Option<u16>,
    pub overview: Option<String>,
    pub runtime_minutes: Option<u32>,
    pub content_rating: Option<ContentRating>,
    pub external_ids: Vec<ExternalId>,
}

/// The first of `ids` from `source`.
pub open spec fn first_from(ids: Seq<ExternalId>, source: Seq<char>, i: int) -> Option<ExternalId>
    decreases ids.len() - i,
{
    if i < 0 || i >= ids.len() {
        None
    } else if ids[i].source@ == source {
        Some(ids[i])
    } else {
        first_from(ids, source, i + 1)
    }
}

fn find_source(ids: &Vec<ExternalId>, source: &[char]) -> (r: Option<ExternalId>)
    ensures
        match r {
            Some(e) => match first_from(ids@, source@, 0) {
                Some(f) => e.source@ == f.source@ && e.value@ == f.value@,
                None => false,
            },
            None => first_from(ids@, source@, 0) is None,
        },
{
    let mut i: usize = 0;
    while i < ids.len()
        invariant
            i <= ids.len(),
            first_from(ids@, source@, 0) == first_from(ids@, source@, i as int),
        decreases ids.len() - i,
    {
        if crate::chars::chars_eq(&chars_of(ids[i].source.as_str()), source) {
            return Some(ExternalId { source: ids[i].source.clone(), value: ids[i].value.clone() });
        }
        i += 1;
    }
    None
}

/// The IMDb id among a title's metadata ids, if any.
pub fn imdb_id(metadata: Option<&TitleMetadata>) -> (r: Option<String>)
    ensures
        opt_view(r) == match metadata {
            Some(m) => match first_from(m.external_ids@, seq!['i', 'm', 'd', 'b'], 0) {
                Some(e) => Some(e.value@),
                None => None,
            },
            None => None,
        },
{
    let m = match metadata {
        Some(m) => m,
        None => return None,
    };
    let imdb = vec!['i', 'm', 'd', 'b'];
    assert(imdb@ =~= seq!['i', 'm', 'd', 'b']);
    match find_source(&m.external_ids, &imdb) {
        Some(e) => Some(e.value),
        None => None,
    }
}

/// The TMDB id among a title's metadata ids, if any.
pub fn tmdb_external_id(metadata: Option<&TitleMetadata>) -> (r: Option<ExternalId>)
    ensures
        match r {
            Some(e) => match metadata {
                Some(m) => match first_from(m.external_ids@, seq!['t', 'm', 'd', 'b'], 0) {
                    Some(f) => e.source@ == f.source@ && e.value@ == f.value@,
                    None => false,
                },
                None => false,
            },
            None => match metadata {
                Some(m) => first_from(m.external_ids@, seq!['t', 'm', 'd', 'b'], 0) is None,
                None => true,
            },
        },
{
    let m = match metadata {
        Some(m) => m,
        None => return None,
    };
    let tmdb = vec!['t', 'm', 'd', 'b'];
    assert(tmdb@ =~= seq!['t', 'm', 'd', 'b']);
    find_source(&m.external_ids, &tmdb)
}

/// The title to show: the provider's, trimmed, unless that is blank; else the parsed one.
pub open spec fn display_title_spec(metadata: Option<TitleMetadata>, parsed: Seq<char>) -> Seq<char> {
    match metadata {
        Some(m) => if trim_ws(m.title@).len() > 0 { trim_ws(m.title@) } else { parsed },
        None => parsed,
    }
}

/// The title to show for an ingested title.
pub fn display_title(metadata: Option<&TitleMetadata>, parsed: &str) -> (r: String)
    ensures
        r@ == display_title_spec(match metadata {
            Some(m) => Some(*m),
            None => None,
        }, parsed@),
{
    match metadata {
        Some(m) => {
            let t = trim_white(&chars_of(m.title.as_str()));
            if t.len() > 0 {
                crate::chars::string_of(&t)
            } else {
                parsed.to_owned()
            }
        },
        None => parsed.to_owned(),
    }
}

/// The year to show: the provider's, else the parsed one.
pub open spec fn display_year_spec(metadata: Option<TitleMetadata>, parsed: Option<u16>) -> Option<u16> {
    match metadata {
        Some(m) => match m.year {
            Some(y) => Some(y),
            None => parsed,
        },
        None => parsed,
    }
}

/// The year to show for an ingested title.
pub fn display_year(metadata: Option<&TitleMetadata>, parsed: Option<u16>) -> (r: Option<u16>)
    ensures
        r == display_year_spec(match metadata {
            Some(m) => Some(*m),
            None => None,
        }, parsed),
{
    match metadata {
        Some(m) => match m.year {
            Some(y) => Some(y),
            None => parsed,
        },
        None => parsed,
    }
}

/// Where a subtitle file came from.
#[derive(Debug, Clone, Copy, PartialEq, Eq, Structural)]
pub enum SubtitleSource {
    External,
    OpenSubtitles,
    MachineTranslated,
}

/// A subtitle file stored for a version.
#[derive(Debug, Clone, PartialEq, Eq)]
pub struct SubtitleFile {
    pub id: String,
    pub version: String,
    pub language: Option<String>,
    pub format: SubtitleFormat,
    pub source: SubtitleSource,
    pub path: String,
    pub translated_from: Option<String>,
    pub label: Option<String>,
    pub pinned: bool,
}

/// What ingesting one file writes: its version, the subtitle files found beside it,
/// and whether it has subtitles of its own.
#[derive(Debug, Clone, PartialEq, Eq)]
pub struct FileIngestPlan {
    pub version: Version,
    pub subtitles: Vec<SubtitleFile>,
    pub has_native_subtitle: bool,
}

pub open spec fn version_chars() -> Seq<char> {
    seq!['v', 'e', 'r', 's', 'i', 'o', 'n']
}

pub open spec fn subtitle_chars() -> Seq<char> {
    seq!['s', 'u', 'b', 't', 'i', 't', 'l', 'e']
}

/// The id of the version stored for the file at `path`.
pub fn version_id_of(path: &str) -> (r: String)
    ensures
        r@ == uuid_v5_url(id_name(version_chars(), path@)),
{
    let kind = crate::chars::string_of(&vec!['v', 'e', 'r', 's', 'i', 'o', 'n']);
    assert(kind@ =~= version_chars());
    derive_id(kind.as_str(), path)
}

/// Whether a file is skipped: a scan skips a file that did not change since it was stored.
pub open spec fn skips_file(mode: IngestMode, existing: Option<Version>, file: DiscoveredFile) -> bool {
    mode == IngestMode::Scan && match existing {
        Some(v) => v.size_bytes == recorded_size_spec(file.size_bytes, Some(v))
            && v.duration_ms == file.probe.duration_ms,
        None => false,
    }
}

/// `s` is the stored subtitle file for the discovered one `d` of version `version`.
pub open spec fn subtitle_record_is(s: SubtitleFile, d: (Seq<char>, Option<Seq<char>>, SubtitleFormat), version: Seq<char>) -> bool {
    &&& s.id@ == uuid_v5_url(id_name(subtitle_chars(), d.0))
    &&& s.version@ == version
    &&& opt_view(s.language) == d.1
    &&& s.format == d.2
    &&& s.source == SubtitleSource::External
    &&& s.path@ == d.0
    &&& s.translated_from is None
    &&& s.label is None
    &&& !s.pinned
}

/// What ingesting `file` for `title` in `library` writes at `now`, given the version
/// stored for it before: nothing when a scan finds the file unchanged; else the
/// version (its quality from the name or the picture height, its container from the
/// extension, its size kept when the file reports none), the subtitle files found
/// beside it, and whether it has subtitles at all.
pub fn plan_file_ingest(
    file: &DiscoveredFile,
    title: &TitleId,
    library: &str,
    quality: Option<Quality>,
    mode: IngestMode,
    existing: Option<&Version>,
    now: Timestamp,
) -> (r: Option<FileIngestPlan>)
    ensures
        r is None <==> skips_file(mode, match existing {
            Some(v) => Some(*v),
            None => None,
        }, *file),
        r matches Some(p) ==> {
            let v = p.version;
            let found = discovered_spec(stem_of(file.path@), file.subtitle_siblings@);
            &&& v.id@ == uuid_v5_url(id_name(version_chars(), file.path@))
            &&& v.title == *title
            &&& v.library@ == library@
            &&& v.quality == match quality {
                Some(q) => q,
                None => height_quality(crate::media::max_height(file.probe.video@)),
            }
            &&& v.container@ == container_spec(file.path@)
            &&& v.path == file.path
            &&& v.size_bytes == recorded_size_spec(file.size_bytes, match existing {
                Some(e) => Some(*e),
                None => None,
            })
            &&& v.duration_ms == file.probe.duration_ms
            &&& v.available
            &&& v.added_at == now && v.updated_at == now
            &&& p.subtitles@.len() == found.len()
            &&& forall|k: int| 0 <= k < found.len() ==> subtitle_record_is(#[trigger] p.subtitles@[k], found[k], v.id@)
            &&& p.has_native_subtitle == (found.len() > 0 || file.probe.subtitles@.len() > 0)
        },
{
    if mode.skips_unchanged() && is_unchanged(existing, file) {
        return None;
    }
    let version_id = version_id_of(file.path.as_str());
    let version = Version {
        id: version_id.clone(),
        title: title.copy(),
        library: library.to_owned(),
        quality: resolve_quality(quality, &file.probe),
        container: container_of(file.path.as_str()),
        path: file.path.clone(),
        size_bytes: recorded_size(file, existing),
        duration_ms: file.probe.duration_ms,
        available: true,
        added_at: now,
        updated_at: now,
    };
    let found = discover_subtitles(file.path.as_str(), &file.subtitle_siblings);
    let ghost found_view = subtitles_view(found@);
    let kind = crate::chars::string_of(&vec!['s', 'u', 'b', 't', 'i', 't', 'l', 'e']);
    assert(kind@ =~= subtitle_chars());
    let mut subtitles: Vec<SubtitleFile> = Vec::new();
    let mut k: usize = 0;
    while k < found.len()
        invariant
            k <= found.len(),
            kind@ == subtitle_chars(),
            found_view == subtitles_view(found@),
            subtitles@.len() == k,
            forall|j: int| 0 <= j < k ==> subtitle_record_is(#[trigger] subtitles@[j], found_view[j], version_id@),
        decreases found.len() - k,
    {
        let d = &found[k];
        let record = SubtitleFile {
            id: derive_id(kind.as_str(), d.path.as_str()),
            version: version_id.clone(),
            language: clone_opt_string(&d.language),
            format: d.format,
            source: SubtitleSource::External,
            path: d.path.clone(),
            translated_from: None,
            label: None,
            pinned: false,
        };
        subtitles.push(record);
        k += 1;
    }
    let has_native_subtitle = subtitles.len() > 0 || file.probe.subtitles.len() > 0;
    Some(FileIngestPlan { version, subtitles, has_native_subtitle })
}

/// What a metadata provider says of one episode of a season.
#[derive(Debug, Clone, PartialEq, Eq)]
pub struct EpisodeMetadata {
    pub number: u16,
    pub name: Option<String>,
    pub overview: Option<String>,
    pub runtime_minutes: Option<u32>,
    pub air_date: Option<String>,
}

/// What a metadata provider says of a season.
#[derive(Debug, Clone, PartialEq, Eq)]
pub struct SeasonMetadata {
    pub name: Option<String>,
    pub overview: Option<String>,
    pub episodes: Vec<EpisodeMetadata>,
}

/// The instant a provider's air date (`YYYY-MM-DD`) names: midnight UTC that day, in
/// nanoseconds since the epoch.
pub uninterp spec fn air_date_nanos(text: Seq<char>) -> Option<int>;

/// Parses `text` as a `jiff::civil::Date` and takes its start in UTC. Claimed: the
/// result is `air_date_nanos(text)`, a function of the text alone; text that is no
/// date gives nothing.
#[verifier::external_body]
fn parse_air_date(text: &str) -> (r: Option<Timestamp>)
    ensures
        match r {
            Some(t) => air_date_nanos(text@) == Some(t.nanosecond as int),
            None => air_date_nanos(text@) is None,
        },
{
    let date: jiff::civil::Date = text.parse().ok()?;
    let zoned = date.to_zoned(jiff::tz::TimeZone::UTC).ok()?;
    Some(Timestamp { nanosecond: zoned.timestamp().as_nanosecond() })
}

/// The air date an episode's text gives, if any.
pub open spec fn air_date_of(text: Option<String>) -> Option<Timestamp> {
    match text {
        Some(t) => match air_date_nanos(t@) {
            Some(n) => Some(Timestamp { nanosecond: n as i128 }),
            None => None,
        },
        None => None,
    }
}

fn air_date(text: &Option<String>) -> (r: Option<Timestamp>)
    ensures
        r == air_date_of(*text),
{
    match text {
        Some(t) => parse_air_date(t.as_str()),
        None => None,
    }
}

/// The first episode of the season's metadata with this number.
pub open spec fn episode_numbered(eps: Seq<EpisodeMetadata>, number: u16, i: int) -> Option<EpisodeMetadata>
    decreases eps.len() - i,
{
    if i < 0 || i >= eps.len() {
        None
    } else if eps[i].number == number {
        Some(eps[i])
    } else {
        episode_numbered(eps, number, i + 1)
    }
}

/// The metadata of episode `number` in a season's metadata, if the provider has it.
pub fn matched_episode(season: Option<&SeasonMetadata>, number: u16) -> (r: Option<&EpisodeMetadata>)
    ensures
        match r {
            Some(e) => match season {
                Some(s) => episode_numbered(s.episodes@, number, 0) == Some(*e),
                None => false,
            },
            None => match season {
                Some(s) => episode_numbered(s.episodes@, number, 0) is None,
                None => true,
            },
        },
{
    let s = match season {
        Some(s) => s,
        None => return None,
    };
    let mut i: usize = 0;
    while i < s.episodes.len()
        invariant
            i <= s.episodes.len(),
            season == Some(s),
            episode_numbered(s.episodes@, number, 0) == episode_numbered(s.episodes@, number, i as int),
        decreases s.episodes.len() - i,
    {
        if s.episodes[i].number == number {
            assert(episode_numbered(s.episodes@, number, i as int) == Some(s.episodes@[i as int]));
            return Some(&s.episodes[i]);
        }
        i += 1;
    }
    None
}

/// `prefix`, a space and the number.
pub open spec fn numbered_label(prefix: Seq<char>, n: u16) -> Seq<char> {
    prefix + seq![' '] + crate::fmt::decimal(n as nat)
}

pub open spec fn season_word() -> Seq<char> {
    seq!['S', 'e', 'a', 's', 'o', 'n']
}

pub open spec fn episode_word() -> Seq<char> {
    seq!['E', 'p', 'i', 's', 'o', 'd', 'e']
}

fn label(prefix: &[char], n: u16) -> (r: String)
    ensures
        r@ == numbered_label(prefix@, n),
{
    let mut out: Vec<char> = Vec::new();
    extend(&mut out, prefix);
    out.push(' ');
    let digits = decimal_chars(n as u64);
    extend(&mut out, &digits);
    assert(out@ =~= numbered_label(prefix@, n));
    crate::chars::string_of(&out)
}

/// Whether a title's entity (its series or season) is written: looked up first when
/// the plan checks entities, then written only when missing; else written with the
/// title.
pub fn writes_entity(plan: &IngestPlan, found: bool) -> (r: bool)
    ensures
        r == if plan.writes_title && plan.mode == IngestMode::Scan { !found } else { plan.writes_title },
{
    if plan.checks_entities() {
        !found
    } else {
        plan.writes_title
    }
}

/// The season record a new episode's season is written as: the provider's name, else
/// `Season N`, and its overview.
pub fn new_season(id: &str, series: &str, number: u16, info: Option<&SeasonMetadata>, now: Timestamp) -> (r: Season)
    ensures
        r.id@ == id@,
        r.series@ == series@,
        r.number == number,
        opt_view(r.title) == Some(match info {
            Some(s) => match s.name {
                Some(n) => n@,
                None => numbered_label(season_word(), number),
            },
            None => numbered_label(season_word(), number),
        }),
        opt_view(r.overview) == match info {
            Some(s) => opt_view(s.overview),
            None => None,
        },
        r.added_at == now && r.updated_at == now,
{
    let title = match info {
        Some(s) => match &s.name {
            Some(n) => n.clone(),
            None => label(&['S', 'e', 'a', 's', 'o', 'n'], number),
        },
        None => label(&['S', 'e', 'a', 's', 'o', 'n'], number),
    };
    let overview = match info {
        Some(s) => copy_opt(&s.overview),
        None => None,
    };
    Season {
        id: id.to_owned(),
        series: series.to_owned(),
        number,
        title: Some(title),
        overview,
        added_at: now,
        updated_at: now,
    }
}

/// The episode record a new episode is written as, from its season's metadata: the
/// provider's name for it, else `Episode N`, and its overview, runtime and air date.
pub fn new_episode(id: &str, season_id: &str, number: u16, info: Option<&SeasonMetadata>, now: Timestamp) -> (r: Episode)
    ensures
        ({
            let m = match info {
                Some(s) => episode_numbered(s.episodes@, number, 0),
                None => None,
            };
            &&& r.id@ == id@
            &&& r.season@ == season_id@
            &&& r.number == number
            &&& r.title@ == match m {
                Some(e) => match e.name {
                    Some(n) => n@,
                    None => numbered_label(episode_word(), number),
                },
                None => numbered_label(episode_word(), number),
            }
            &&& opt_view(r.overview) == match m {
                Some(e) => opt_view(e.overview),
                None => None,
            }
            &&& r.runtime_minutes == match m {
                Some(e) => e.runtime_minutes,
                None => None,
            }
            &&& r.air_date == match m {
                Some(e) => air_date_of(e.air_date),
                None => None,
            }
            &&& !r.manually_edited
            &&& r.added_at == now && r.updated_at == now
        }),
{
    let m = matched_episode(info, number);
    let title = match m {
        Some(e) => match &e.name {
            Some(n) => n.clone(),
            None => label(&['E', 'p', 'i', 's', 'o', 'd', 'e'], number),
        },
        None => label(&['E', 'p', 'i', 's', 'o', 'd', 'e'], number),
    };
    let (overview, runtime_minutes, air) = match m {
        Some(e) => (copy_opt(&e.overview), e.runtime_minutes, air_date(&e.air_date)),
        None => (None, None, None),
    };
    Episode {
        id: id.to_owned(),
        season: season_id.to_owned(),
        number,
        title,
        overview,
        runtime_minutes,
        air_date: air,
        manually_edited: false,
        added_at: now,
        updated_at: now,
    }
}

/// A stored season refreshed from its metadata: the name and overview the provider
/// gives replace the stored ones; what it leaves out is kept.
pub fn refreshed_season(season: &Season, info: &SeasonMetadata, now: Timestamp) -> (r: Season)
    ensures
        r.id == season.id,
        r.series == season.series,
        r.number == season.number,
        r.title == (if info.name is Some { info.name } else { season.title }),
        r.overview == (if info.overview is Some { info.overview } else { season.overview }),
        r.added_at == season.added_at,
        r.updated_at == now,
{
    Season {
        id: season.id.clone(),
        series: season.series.clone(),
        number: season.number,
        title: if info.name.is_some() { copy_opt(&info.name) } else { copy_opt(&season.title) },
        overview: if info.overview.is_some() { copy_opt(&info.overview) } else { copy_opt(&season.overview) },
        added_at: season.added_at,
        updated_at: now,
    }
}

/// A stored episode refreshed from its metadata: nothing, when it was edited by hand
/// and the refresh is not forced; else each field the provider gives replaces the
/// stored one, and the episode no longer counts as edited by hand.
pub fn refreshed_episode(episode: &Episode, info: &EpisodeMetadata, force: bool, now: Timestamp) -> (r: Option<Episode>)
    ensures
        r is None <==> (episode.manually_edited && !force),
        r matches Some(e) ==> {
            &&& e.id == episode.id
            &&& e.season == episode.season
            &&& e.number == episode.number
            &&& e.title == match info.name {
                Some(n) => n,
                None => episode.title,
            }
            &&& e.overview == (if info.overview is Some { info.overview } else { episode.overview })
            &&& e.runtime_minutes == (if info.runtime_minutes is Some { info.runtime_minutes } else { episode.runtime_minutes })
            &&& e.air_date == match air_date_of(info.air_date) {
                Some(t) => Some(t),
                None => episode.air_date,
            }
            &&& !e.manually_edited
            &&& e.added_at == episode.added_at
            &&& e.updated_at == now
        },
{
    if episode.manually_edited && !force {
        return None;
    }
    let air = match air_date(&info.air_date) {
        Some(t) => Some(t),
        None => episode.air_date,
    };
    Some(Episode {
        id: episode.id.clone(),
        season: episode.season.clone(),
        number: episode.number,
        title: match &info.name {
            Some(n) => n.clone(),
            None => episode.title.clone(),
        },
        overview: if info.overview.is_some() { copy_opt(&info.overview) } else { copy_opt(&episode.overview) },
        runtime_minutes: if info.runtime_minutes.is_some() { info.runtime_minutes } else { episode.runtime_minutes },
        air_date: air,
        manually_edited: false,
        added_at: episode.added_at,
        updated_at: now,
    })
}
/// The provider's value where it has one, else the stored one.
pub open spec fn or_else<T>(provided: Option<T>, stored: Option<T>) -> Option<T> {
    match provided {
        Some(v) => Some(v),
        None => stored,
    }
}

/// What the provider says of a field, where there is a provider.
pub open spec fn from_metadata<T>(metadata: Option<TitleMetadata>, field: spec_fn(TitleMetadata) -> Option<T>) -> Option<T> {
    match metadata {
        Some(m) => field(m),
        None => None,
    }
}

/// The movie row an ingest writes at `now`: the title and year to show, the provider's
/// overview, runtime and rating, not edited by hand; `sort_title` is the sort key of
/// that title.
pub fn new_movie(
    id: &str,
    metadata: Option<&TitleMetadata>,
    parsed_title: &str,
    parsed_year: Option<u16>,
    sort_title: String,
    now: Timestamp,
) -> (r: Movie)
    ensures
        r.id@ == id@,
        r.title@ == display_title_spec(match metadata { Some(m) => Some(*m), None => None }, parsed_title@),
        r.sort_title == sort_title,
        r.year == display_year_spec(match metadata { Some(m) => Some(*m), None => None }, parsed_year),
        r.overview == from_metadata(match metadata { Some(m) => Some(*m), None => None }, |m: TitleMetadata| m.overview),
        r.runtime_minutes == from_metadata(match metadata { Some(m) => Some(*m), None => None }, |m: TitleMetadata| m.runtime_minutes),
        r.content_rating == from_metadata(match metadata { Some(m) => Some(*m), None => None }, |m: TitleMetadata| m.content_rating),
        !r.manually_edited,
        r.added_at == now,
        r.updated_at == now,
{
    Movie {
        id: id.to_owned(),
        title: display_title(metadata, parsed_title),
        sort_title,
        year: display_year(metadata, parsed_year),
        overview: match metadata { Some(x) => copy_opt(&x.overview), None => None },
        runtime_minutes: match metadata { Some(x) => x.runtime_minutes, None => None },
        content_rating: match metadata { Some(x) => copy_rating(&x.content_rating), None => None },
        manually_edited: false,
        added_at: now,
        updated_at: now,
    }
}

/// The series row an ingest writes at `now`, as for a movie but without a runtime.
pub fn new_series(
    id: &str,
    metadata: Option<&TitleMetadata>,
    parsed_title: &str,
    parsed_year: Option<u16>,
    sort_title: String,
    now: Timestamp,
) -> (r: Series)
    ensures
        r.id@ == id@,
        r.title@ == display_title_spec(match metadata { Some(m) => Some(*m), None => None }, parsed_title@),
        r.sort_title == sort_title,
        r.year == display_year_spec(match metadata { Some(m) => Some(*m), None => None }, parsed_year),
        r.overview == from_metadata(match metadata { Some(m) => Some(*m), None => None }, |m: TitleMetadata| m.overview),
        r.content_rating == from_metadata(match metadata { Some(m) => Some(*m), None => None }, |m: TitleMetadata| m.content_rating),
        !r.manually_edited,
        r.added_at == now,
        r.updated_at == now,
{
    Series {
        id: id.to_owned(),
        title: display_title(metadata, parsed_title),
        sort_title,
        year: display_year(metadata, parsed_year),
        overview: match metadata { Some(x) => copy_opt(&x.overview), None => None },
        content_rating: match metadata { Some(x) => copy_rating(&x.content_rating), None => None },
        manually_edited: false,
        added_at: now,
        updated_at: now,
    }
}

/// The title after a refresh: the provider's, as given, unless it is blank.
pub open spec fn refreshed_title_spec(stored: Seq<char>, provided: Seq<char>) -> Seq<char> {
    if trim_ws(provided).len() == 0 { stored } else { provided }
}

/// The title a refresh leaves on a row.
pub fn refreshed_title(stored: &str, provided: &str) -> (r: String)
    ensures
        r@ == refreshed_title_spec(stored@, provided@),
{
    if trim_white(&chars_of(provided)).len() == 0 {
        stored.to_owned()
    } else {
        provided.to_owned()
    }
}

/// Whether a refresh rewrites a row: not one edited by hand, unless forced.
pub open spec fn refresh_rewrites(manually_edited: bool, force: bool) -> bool {
    !manually_edited || force
}

/// The movie after a refresh with the provider's metadata, or nothing where the row keeps
/// its hand edits: the refreshed title (`sort_title` is its sort key), and each of year,
/// overview, runtime and rating from the provider where it has one, the flag cleared.
pub fn refreshed_movie(stored: &Movie, metadata: &TitleMetadata, force: bool, sort_title: String) -> (r: Option<Movie>)
    ensures
        r is None <==> !refresh_rewrites(stored.manually_edited, force),
        r matches Some(m) ==> m == (Movie {
            title: m.title,
            sort_title: sort_title,
            year: or_else(metadata.year, stored.year),
            overview: or_else(metadata.overview, stored.overview),
            runtime_minutes: or_else(metadata.runtime_minutes, stored.runtime_minutes),
            content_rating: or_else(metadata.content_rating, stored.content_rating),
            manually_edited: false,
            ..*stored
        }) && m.title@ == refreshed_title_spec(stored.title@, metadata.title@),
{
    if stored.manually_edited && !force {
        return None;
    }
    let base = stored.copy();
    Some(Movie {
        title: refreshed_title(stored.title.as_str(), metadata.title.as_str()),
        sort_title,
        year: match metadata.year { Some(y) => Some(y), None => stored.year },
        overview: match &metadata.overview { Some(o) => Some(o.clone()), None => copy_opt(&stored.overview) },
        runtime_minutes: match metadata.runtime_minutes { Some(x) => Some(x), None => stored.runtime_minutes },
        content_rating: match &metadata.content_rating { Some(c) => Some(c.copy()), None => copy_rating(&stored.content_rating) },
        manually_edited: false,
        ..base
    })
}

/// The series after a refresh, as for a movie but without a runtime.
pub fn refreshed_series(stored: &Series, metadata: &TitleMetadata, force: bool, sort_title: String) -> (r: Option<Series>)
    ensures
        r is None <==> !refresh_rewrites(stored.manually_edited, force),
        r matches Some(m) ==> m == (Series {
            title: m.title,
            sort_title: sort_title,
            year: or_else(metadata.year, stored.year),
            overview: or_else(metadata.overview, stored.overview),
            content_rating: or_else(metadata.content_rating, stored.content_rating),
            manually_edited: false,
            ..*stored
        }) && m.title@ == refreshed_title_spec(stored.title@, metadata.title@),
{
    if stored.manually_edited && !force {
        return None;
    }
    let base = stored.copy();
    Some(Series {
        title: refreshed_title(stored.title.as_str(), metadata.title.as_str()),
        sort_title,
        year: match metadata.year { Some(y) => Some(y), None => stored.year },
        overview: match &metadata.overview { Some(o) => Some(o.clone()), None => copy_opt(&stored.overview) },
        content_rating: match &metadata.content_rating { Some(c) => Some(c.copy()), None => copy_rating(&stored.content_rating) },
        manually_edited: false,
        ..base
    })
}

/// The episodes whose hand edits a forced refresh discards: those edited, in order, with
/// the flag cleared.
pub open spec fn cleared_spec(episodes: Seq<Episode>) -> Seq<Episode>
    decreases episodes.len(),
{
    if episodes.len() == 0 {
        Seq::empty()
    } else {
        let rest = cleared_spec(episodes.drop_last());
        let e = episodes.last();
        if e.manually_edited {
            rest.push(Episode { manually_edited: false, ..e })
        } else {
            rest
        }
    }
}

/// The episode rows a forced refresh rewrites to drop their hand edits.
pub fn cleared_edits(episodes: &[Episode]) -> (r: Vec<Episode>)
    ensures
        r@ == cleared_spec(episodes@),
{
    let mut out: Vec<Episode> = Vec::new();
    let mut i: usize = 0;
    while i < episodes.len()
        invariant
            i <= episodes.len(),
            out@ == cleared_spec(episodes@.subrange(0, i as int)),
        decreases episodes.len() - i,
    {
        assert(episodes@.subrange(0, i + 1).drop_last() =~= episodes@.subrange(0, i as int));
        if episodes[i].manually_edited {
            let e = episodes[i].copy();
            out.push(Episode { manually_edited: false, ..e });
        }
        i = i + 1;
    }
    assert(episodes@.subrange(0, episodes.len() as int) =~= episodes@);
    out
}

/// One step of writing an ingested title, in the order the steps run.
#[derive(Debug, Clone, Copy, PartialEq, Eq, Structural)]
pub enum IngestAction {
    WriteSeries,
    WriteSeason,
    WriteEpisode,
    WriteMovie,
    /// Record the title's files and queue their jobs.
    IngestFiles,
    /// Store the provider's cast, genres and studios for the title written.
    PersistEnrichment,
    /// Add the movie to the provider's collection.
    AttachCollection,
    SeriesArtwork,
    SeasonArtwork,
    EpisodeArtwork,
    MovieArtwork,
}

pub open spec fn step_if<A>(b: bool, a: A) -> Seq<A> {
    if b { seq![a] } else { Seq::empty() }
}

/// The steps of writing an episode: the series and the season rows when they are to be
/// written (see [`writes_entity`]), the episode row when the title is written, then its
/// files; then the provider's enrichment of the series, only when the series row was
/// written and there is metadata; then the artwork of each row written.
pub open spec fn episode_steps(plan: IngestPlan, series_found: bool, season_found: bool, has_metadata: bool) -> Seq<IngestAction> {
    let ws = if plan.writes_title && plan.mode == IngestMode::Scan { !series_found } else { plan.writes_title };
    let wn = if plan.writes_title && plan.mode == IngestMode::Scan { !season_found } else { plan.writes_title };
    step_if(ws, IngestAction::WriteSeries) + step_if(wn, IngestAction::WriteSeason)
        + step_if(plan.writes_title, IngestAction::WriteEpisode) + seq![IngestAction::IngestFiles]
        + step_if(ws && has_metadata, IngestAction::PersistEnrichment) + step_if(ws, IngestAction::SeriesArtwork)
        + step_if(wn, IngestAction::SeasonArtwork) + step_if(plan.writes_title, IngestAction::EpisodeArtwork)
}

/// The steps of writing a movie: its row when the title is written, then its files; and
/// only when the title is written, the provider's enrichment and collection (where there
/// is metadata, and it names a collection), then the movie's artwork.
pub open spec fn movie_steps(plan: IngestPlan, has_metadata: bool, has_collection: bool) -> Seq<IngestAction> {
    step_if(plan.writes_title, IngestAction::WriteMovie) + seq![IngestAction::IngestFiles]
        + step_if(plan.writes_title && has_metadata, IngestAction::PersistEnrichment)
        + step_if(plan.writes_title && has_metadata && has_collection, IngestAction::AttachCollection)
        + step_if(plan.writes_title, IngestAction::MovieArtwork)
}

fn push_if<A>(v: &mut Vec<A>, b: bool, a: A)
    ensures
        final(v)@ == old(v)@ + step_if(b, a),
{
    if b {
        v.push(a);
        assert(v@ =~= old(v)@ + step_if(b, a));
    } else {
        assert(v@ =~= old(v)@ + step_if(b, a));
    }
}

/// The steps of writing an ingested episode, given whether its series and season rows
/// were found (looked at only when the plan checks entities) and whether the provider
/// gave metadata.
pub fn ingest_episode_actions(plan: &IngestPlan, series_found: bool, season_found: bool, has_metadata: bool) -> (r: Vec<IngestAction>)
    ensures
        r@ == episode_steps(*plan, series_found, season_found, has_metadata),
{
    let ws = writes_entity(plan, series_found);
    let wn = writes_entity(plan, season_found);
    let mut v: Vec<IngestAction> = Vec::new();
    push_if(&mut v, ws, IngestAction::WriteSeries);
    push_if(&mut v, wn, IngestAction::WriteSeason);
    push_if(&mut v, plan.writes_title, IngestAction::WriteEpisode);
    push_if(&mut v, true, IngestAction::IngestFiles);
    push_if(&mut v, ws && has_metadata, IngestAction::PersistEnrichment);
    push_if(&mut v, ws, IngestAction::SeriesArtwork);
    push_if(&mut v, wn, IngestAction::SeasonArtwork);
    push_if(&mut v, plan.writes_title, IngestAction::EpisodeArtwork);
    assert(v@ =~= episode_steps(*plan, series_found, season_found, has_metadata));
    v
}

/// The steps of writing an ingested movie, given whether the provider gave metadata and
/// whether that metadata names a collection.
pub fn ingest_movie_actions(plan: &IngestPlan, has_metadata: bool, has_collection: bool) -> (r: Vec<IngestAction>)
    ensures
        r@ == movie_steps(*plan, has_metadata, has_collection),
{
    let mut v: Vec<IngestAction> = Vec::new();
    push_if(&mut v, plan.writes_title, IngestAction::WriteMovie);
    push_if(&mut v, true, IngestAction::IngestFiles);
    push_if(&mut v, plan.writes_title && has_metadata, IngestAction::PersistEnrichment);
    push_if(&mut v, plan.writes_title && has_metadata && has_collection, IngestAction::AttachCollection);
    push_if(&mut v, plan.writes_title, IngestAction::MovieArtwork);
    assert(v@ =~= movie_steps(*plan, has_metadata, has_collection));
    v
}


/// One step of refreshing a title from its provider, in the order the steps run.
#[derive(Debug, Clone, Copy, PartialEq, Eq, Structural)]
pub enum RefreshAction {
    /// Store the movie with its manual-edit flag cleared, before anything is fetched.
    ClearMovieEdit,
    /// Clear the manual-edit flag of the series and of each of its edited episodes.
    DiscardSeriesEdits,
    /// Write the movie row that `refreshed_movie` gives.
    WriteMovie,
    /// Write the series row that `refreshed_series` gives.
    WriteSeries,
    /// Store the provider's cast, genres and studios for the title.
    PersistEnrichment,
    /// Add the movie to the collection its metadata names.
    AttachCollection,
    MovieArtwork,
    SeriesArtwork,
    /// Refresh the stored seasons from the provider's series id.
    RefreshSeasons,
    /// Write the `i`-th stored season with the provider's season.
    WriteSeason(usize),
    SeasonArtwork(usize),
    /// Write the `j`-th stored episode of the `i`-th season with the provider's episode.
    WriteEpisode(usize, usize),
    EpisodeArtwork(usize, usize),
}

/// The steps of refreshing a movie: nothing when it is not stored; when forced, its
/// edit flag is cleared first (if set); nothing more when the provider gave no
/// metadata; else its row is rewritten unless it was edited and the refresh is not
/// forced, and in either case its enrichment, its collection (where the metadata names
/// one) and its artwork follow.
pub open spec fn movie_refresh_steps(found: bool, edited: bool, force: bool, has_metadata: bool, has_collection: bool) -> Seq<RefreshAction> {
    if !found {
        Seq::empty()
    } else {
        step_if(force && edited, RefreshAction::ClearMovieEdit) + if !has_metadata {
            Seq::empty()
        } else {
            step_if(!(edited && !force), RefreshAction::WriteMovie) + seq![RefreshAction::PersistEnrichment]
                + step_if(has_collection, RefreshAction::AttachCollection) + seq![RefreshAction::MovieArtwork]
        }
    }
}

/// The steps of refreshing a series: nothing when it is not stored; when forced, its
/// edits and those of its episodes are discarded first; nothing more without metadata;
/// else its row is rewritten unless it was edited and the refresh is not forced, then
/// its enrichment and artwork, and its seasons when the metadata gives a TMDB id.
pub open spec fn series_refresh_steps(found: bool, edited: bool, force: bool, has_metadata: bool, has_tmdb_id: bool) -> Seq<RefreshAction> {
    if !found {
        Seq::empty()
    } else {
        step_if(force, RefreshAction::DiscardSeriesEdits) + if !has_metadata {
            Seq::empty()
        } else {
            step_if(!(edited && !force), RefreshAction::WriteSeries) + seq![RefreshAction::PersistEnrichment]
                + seq![RefreshAction::SeriesArtwork] + step_if(has_tmdb_id, RefreshAction::RefreshSeasons)
        }
    }
}

/// The steps of refreshing a movie, given whether it is stored, whether its row is
/// marked as edited, whether the refresh is forced, whether the provider gave metadata
/// and whether that metadata names a collection.
pub fn refresh_movie_actions(found: bool, edited: bool, force: bool, has_metadata: bool, has_collection: bool) -> (r: Vec<RefreshAction>)
    ensures
        r@ == movie_refresh_steps(found, edited, force, has_metadata, has_collection),
{
    let mut v: Vec<RefreshAction> = Vec::new();
    if found {
        push_if(&mut v, force && edited, RefreshAction::ClearMovieEdit);
        if has_metadata {
            push_if(&mut v, !(edited && !force), RefreshAction::WriteMovie);
            push_if(&mut v, true, RefreshAction::PersistEnrichment);
            push_if(&mut v, has_collection, RefreshAction::AttachCollection);
            push_if(&mut v, true, RefreshAction::MovieArtwork);
        }
    }
    assert(v@ =~= movie_refresh_steps(found, edited, force, has_metadata, has_collection));
    v
}

/// The steps of refreshing a series, given whether it is stored, whether its row is
/// marked as edited, whether the refresh is forced, whether the provider gave metadata
/// and whether that metadata carries a TMDB id.
pub fn refresh_series_actions(found: bool, edited: bool, force: bool, has_metadata: bool, has_tmdb_id: bool) -> (r: Vec<RefreshAction>)
    ensures
        r@ == series_refresh_steps(found, edited, force, has_metadata, has_tmdb_id),
{
    let mut v: Vec<RefreshAction> = Vec::new();
    if found {
        push_if(&mut v, force, RefreshAction::DiscardSeriesEdits);
        if has_metadata {
            push_if(&mut v, !(edited && !force), RefreshAction::WriteSeries);
            push_if(&mut v, true, RefreshAction::PersistEnrichment);
            push_if(&mut v, true, RefreshAction::SeriesArtwork);
            push_if(&mut v, has_tmdb_id, RefreshAction::RefreshSeasons);
        }
    }
    assert(v@ =~= series_refresh_steps(found, edited, force, has_metadata, has_tmdb_id));
    v
}

/// What a season refresh read for one stored episode: whether the provider's season
/// has an episode of its number, and whether the stored row is marked as edited.
#[derive(Debug, Clone, Copy, PartialEq, Eq, Structural)]
pub struct EpisodeRead {
    pub matched: bool,
    pub edited: bool,
}

/// What a season refresh read for one stored season: whether the provider had the
/// season, and its stored episodes.
#[derive(Debug, Clone, PartialEq, Eq)]
pub struct SeasonRead {
    pub found: bool,
    pub episodes: Vec<EpisodeRead>,
}

/// The steps for the first `n` stored episodes of season `i`: each episode the
/// provider has is rewritten unless it was edited and the refresh is not forced, and
/// its artwork is queued either way; an episode the provider lacks is left alone.
pub open spec fn episode_refresh_steps(i: usize, eps: Seq<EpisodeRead>, force: bool, n: int) -> Seq<RefreshAction>
    decreases n,
{
    if n <= 0 {
        Seq::empty()
    } else {
        let e = eps[n - 1];
        let j = (n - 1) as usize;
        episode_refresh_steps(i, eps, force, n - 1) + if e.matched {
            step_if(!(e.edited && !force), RefreshAction::WriteEpisode(i, j)) + seq![RefreshAction::EpisodeArtwork(i, j)]
        } else {
            Seq::empty()
        }
    }
}

/// The steps for the first `n` stored seasons: a season the provider lacks is skipped;
/// else it is rewritten, its artwork queued, then its episodes refreshed.
pub open spec fn season_refresh_steps(seasons: Seq<SeasonRead>, force: bool, n: int) -> Seq<RefreshAction>
    decreases n,
{
    if n <= 0 {
        Seq::empty()
    } else {
        let s = seasons[n - 1];
        let i = (n - 1) as usize;
        season_refresh_steps(seasons, force, n - 1) + if s.found {
            seq![RefreshAction::WriteSeason(i), RefreshAction::SeasonArtwork(i)]
                + episode_refresh_steps(i, s.episodes@, force, s.episodes@.len() as int)
        } else {
            Seq::empty()
        }
    }
}

/// The steps of refreshing a series' stored seasons, from what was read of each.
pub fn refresh_seasons_actions(seasons: &Vec<SeasonRead>, force: bool) -> (r: Vec<RefreshAction>)
    ensures
        r@ == season_refresh_steps(seasons@, force, seasons@.len() as int),
{
    let mut v: Vec<RefreshAction> = Vec::new();
    let mut i: usize = 0;
    while i < seasons.len()
        invariant
            i <= seasons.len(),
            v@ == season_refresh_steps(seasons@, force, i as int),
        decreases seasons.len() - i,
    {
        let s = &seasons[i];
        let ghost before = v@;
        if s.found {
            v.push(RefreshAction::WriteSeason(i));
            v.push(RefreshAction::SeasonArtwork(i));
            let ghost head = v@;
            assert(head =~= before + seq![RefreshAction::WriteSeason(i), RefreshAction::SeasonArtwork(i)]);
            let mut j: usize = 0;
            while j < s.episodes.len()
                invariant
                    j <= s.episodes.len(),
                    v@ == head + episode_refresh_steps(i, s.episodes@, force, j as int),
                decreases s.episodes.len() - j,
            {
                let e = s.episodes[j];
                let ghost mid = v@;
                if e.matched {
                    push_if(&mut v, !(e.edited && !force), RefreshAction::WriteEpisode(i, j));
                    push_if(&mut v, true, RefreshAction::EpisodeArtwork(i, j));
                }
                assert(v@ =~= head + episode_refresh_steps(i, s.episodes@, force, j + 1));
                j = j + 1;
            }
        }
        assert(v@ =~= season_refresh_steps(seasons@, force, i + 1));
        i = i + 1;
    }
    v
}
} // verus!
