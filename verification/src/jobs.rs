use vstd::prelude::*;
use crate::media::AudioTrack;
use crate::chars::str_eq;

verus! {

/// What a queued job does.
#[derive(Debug, Clone, Copy, PartialEq, Eq, Structural)]
pub enum JobKind {
    Metadata,
    Artwork,
    Subtitles,
    Transcription,
    Translation,
    Trickplay,
    Upscale,
    Combine,
    Fetch,
    Ingest,
    LibraryScan,
    Relink,
}

/// A job to queue: what it does, how urgently, under which parent job, with what
/// payload.
#[derive(Debug, Clone, PartialEq, Eq)]
pub struct JobRequest<P> {
    pub kind: JobKind,
    pub priority: JobPriority,
    pub parent: Option<String>,
    pub payload: P,
}

/// A job's parent is the one the caller named, if any.
pub open spec fn parent_is(stored: Option<String>, given: Option<&str>) -> bool {
    match given {
        Some(p) => stored matches Some(q) && q@ == p@,
        None => stored is None,
    }
}

/// The parent id to store for the one the caller named.
pub fn owned_parent(parent: Option<&str>) -> (r: Option<String>)
    ensures
        parent_is(r, parent),
{
    match parent {
        Some(p) => Some(p.to_owned()),
        None => None,
    }
}

/// How urgently a queued job runs.
#[derive(Debug, Clone, Copy, PartialEq, Eq, Structural)]
pub enum JobPriority {
    Low,
    Normal,
    High,
}

/// A transcription of a version's audio into subtitles.
#[derive(Debug, Clone, PartialEq, Eq)]
pub struct TranscriptionJobPayload {
    pub version_id: String,
    pub source_path: String,
    pub source_language: Option<String>,
    pub audio_track_index: Option<u32>,
    pub force: bool,
}

/// A translation of a version's subtitles into other languages.
#[derive(Debug, Clone, PartialEq, Eq)]
pub struct TranslationJobPayload {
    pub version_id: String,
    pub target_languages: Vec<String>,
    pub source_subtitle_id: Option<String>,
}

/// A subtitle download for a version.
#[derive(Debug, Clone, PartialEq, Eq)]
pub struct SubtitleJobPayload {
    pub version_id: String,
    pub imdb_id: Option<String>,
    pub title: Option<String>,
    pub languages: Vec<String>,
    pub season: Option<u16>,
    pub episode: Option<u16>,
    pub transcribe_on_miss: bool,
}

/// Seek thumbnails for a version.
#[derive(Debug, Clone, PartialEq, Eq)]
pub struct TrickplayJobPayload {
    pub version_id: String,
    pub source_path: String,
    pub duration_ms: u64,
}

/// An upscale of a version to a target height.
#[derive(Debug, Clone, PartialEq, Eq)]
pub struct UpscaleJobPayload {
    pub version_id: String,
    pub target_height: u32,
}

/// A stacked subtitle track made of two others.
#[derive(Debug, Clone, PartialEq, Eq)]
pub struct CombineJobPayload {
    pub version_id: String,
    pub top_subtitle_id: String,
    pub bottom_subtitle_id: String,
}

pub open spec fn strings_view(v: Seq<String>) -> Seq<Seq<char>> {
    v.map_values(|s: String| s@)
}

pub open spec fn opt_view(o: Option<String>) -> Option<Seq<char>> {
    match o {
        Some(s) => Some(s@),
        None => None,
    }
}

/// The first track whose language is `preferred`, from index `i` on.
pub open spec fn first_track_in(tracks: Seq<AudioTrack>, preferred: Seq<char>, i: int) -> Option<u32>
    decreases tracks.len() - i,
{
    if i < 0 || i >= tracks.len() {
        None
    } else if opt_view(tracks[i].language) == Some(preferred) {
        Some(tracks[i].index)
    } else {
        first_track_in(tracks, preferred, i + 1)
    }
}

/// The stream index of the first track in the preferred language, if a language is preferred.
pub open spec fn select_audio_spec(tracks: Seq<AudioTrack>, preferred: Option<Seq<char>>) -> Option<u32> {
    match preferred {
        Some(p) => first_track_in(tracks, p, 0),
        None => None,
    }
}

pub fn opt_string_eq(a: &Option<String>, b: &str) -> (r: bool)
    ensures
        r == (opt_view(*a) == Some(b@)),
{
    match a {
        Some(s) => s.as_str().unicode_len() == b.unicode_len() && str_eq(s.as_str(), b),
        None => false,
    }
}

/// The stream index of the first audio track in the preferred language.
pub fn select_audio_track(tracks: &[AudioTrack], preferred: Option<&str>) -> (r: Option<u32>)
    ensures
        r == select_audio_spec(tracks@, match preferred { Some(p) => Some(p@), None => None }),
{
    let wanted = match preferred {
        Some(p) => p,
        None => return None,
    };
    let mut i: usize = 0;
    while i < tracks.len()
        invariant
            i <= tracks.len(),
            preferred == Some(wanted),
            first_track_in(tracks@, wanted@, 0) == first_track_in(tracks@, wanted@, i as int),
        decreases tracks.len() - i,
    {
        if opt_string_eq(&tracks[i].language, wanted) {
            assert(first_track_in(tracks@, wanted@, i as int) == Some(tracks@[i as int].index));
            return Some(tracks[i].index);
        }
        i += 1;
    }
    None
}

/// The track with the given stream index, first of them from `i` on.
pub open spec fn track_with_index(tracks: Seq<AudioTrack>, index: u32, i: int) -> Option<AudioTrack>
    decreases tracks.len() - i,
{
    if i < 0 || i >= tracks.len() {
        None
    } else if tracks[i].index == index {
        Some(tracks[i])
    } else {
        track_with_index(tracks, index, i + 1)
    }
}

/// The language a transcription is labelled with: that of the selected track,
/// else that of the first track.
pub open spec fn source_language_spec(tracks: Seq<AudioTrack>, selected: Option<u32>) -> Option<Seq<char>> {
    let chosen = match selected {
        Some(index) => match track_with_index(tracks, index, 0) {
            Some(t) => Some(t),
            None => if tracks.len() > 0 { Some(tracks[0]) } else { None },
        },
        None => if tracks.len() > 0 { Some(tracks[0]) } else { None },
    };
    match chosen {
        Some(t) => opt_view(t.language),
        None => None,
    }
}

fn clone_opt(o: &Option<String>) -> (r: Option<String>)
    ensures
        opt_view(r) == opt_view(*o),
{
    match o {
        Some(s) => Some(s.clone()),
        None => None,
    }
}

/// The language a transcription is labelled with.
pub fn source_language(tracks: &[AudioTrack], selected: Option<u32>) -> (r: Option<String>)
    ensures
        opt_view(r) == source_language_spec(tracks@, selected),
{
    if let Some(index) = selected {
        let mut i: usize = 0;
        while i < tracks.len()
            invariant
                i <= tracks.len(),
                selected == Some(index),
                track_with_index(tracks@, index, 0) == track_with_index(tracks@, index, i as int),
            decreases tracks.len() - i,
        {
            if tracks[i].index == index {
                assert(track_with_index(tracks@, index, i as int) == Some(tracks@[i as int]));
                return clone_opt(&tracks[i].language);
            }
            i += 1;
        }
    }
    if tracks.len() > 0 {
        clone_opt(&tracks[0].language)
    } else {
        None
    }
}

pub fn clone_strings(v: &Vec<String>) -> (r: Vec<String>)
    ensures
        strings_view(r@) == strings_view(v@),
{
    let mut r: Vec<String> = Vec::new();
    let mut i: usize = 0;
    while i < v.len()
        invariant
            i <= v.len(),
            r@.len() == i,
            forall|j: int| 0 <= j < i ==> #[trigger] r@[j]@ == v@[j]@,
        decreases v.len() - i,
    {
        r.push(v[i].clone());
        i += 1;
    }
    assert(strings_view(r@) =~= strings_view(v@));
    r
}

/// A transcription request: the preferred language picks the track; automatic, not forced.
pub fn transcription_payload(
    version_id: &str,
    source_path: &str,
    audio: &[AudioTrack],
    subtitle_languages: &Vec<String>,
) -> (r: TranscriptionJobPayload)
    ensures
        r.version_id@ == version_id@,
        r.source_path@ == source_path@,
        r.audio_track_index == select_audio_spec(
            audio@,
            if subtitle_languages@.len() > 0 { Some(subtitle_languages@[0]@) } else { None },
        ),
        opt_view(r.source_language) == source_language_spec(audio@, r.audio_track_index),
        !r.force,
{
    let preferred: Option<&str> = if subtitle_languages.len() > 0 {
        Some(subtitle_languages[0].as_str())
    } else {
        None
    };
    let audio_track_index = select_audio_track(audio, preferred);
    let source_language = source_language(audio, audio_track_index);
    TranscriptionJobPayload {
        version_id: version_id.to_string(),
        source_path: source_path.to_string(),
        source_language,
        audio_track_index,
        force: false,
    }
}

/// A translation into the given languages, or nothing when there are none.
pub fn translation_payload(version_id: &str, target_languages: &Vec<String>) -> (r: Option<TranslationJobPayload>)
    ensures
        (r is None) == (target_languages@.len() == 0),
        r matches Some(p) ==> p.version_id@ == version_id@
            && strings_view(p.target_languages@) == strings_view(target_languages@)
            && p.source_subtitle_id is None,
{
    if target_languages.len() == 0 {
        return None;
    }
    Some(TranslationJobPayload {
        version_id: version_id.to_string(),
        target_languages: clone_strings(target_languages),
        source_subtitle_id: None,
    })
}

/// A translation of one chosen subtitle file into one language.
pub fn translation_payload_with_source(version_id: &str, source_subtitle_id: &str, target_language: &str) -> (r: TranslationJobPayload)
    ensures
        r.version_id@ == version_id@,
        strings_view(r.target_languages@) == seq![target_language@],
        opt_view(r.source_subtitle_id) == Some(source_subtitle_id@),
{
    let mut langs: Vec<String> = Vec::new();
    langs.push(target_language.to_string());
    assert(strings_view(langs@) =~= seq![target_language@]);
    TranslationJobPayload {
        version_id: version_id.to_string(),
        target_languages: langs,
        source_subtitle_id: Some(source_subtitle_id.to_string()),
    }
}

/// What the library knows of a stored version when it decides on transcription.
#[derive(Debug, Clone, PartialEq, Eq)]
pub struct VersionTracks {
    pub path: String,
    pub audio: Vec<AudioTrack>,
    pub has_subtitle_files: bool,
}

/// Queues a transcription for a version that has audio but no subtitle file.
pub struct TranscriptionEnqueuer<J, C> {
    jobs: J,
    catalog: C,
    subtitle_languages: Vec<String>,
    enabled: bool,
}

impl<J, C> TranscriptionEnqueuer<J, C> {
    pub closed spec fn jobs_spec(&self) -> J {
        self.jobs
    }

    pub closed spec fn catalog_spec(&self) -> C {
        self.catalog
    }

    pub closed spec fn languages_spec(&self) -> Seq<Seq<char>> {
        strings_view(self.subtitle_languages@)
    }

    pub closed spec fn enabled_spec(&self) -> bool {
        self.enabled
    }

    pub fn new(jobs: J, catalog: C, subtitle_languages: Vec<String>, enabled: bool) -> (r: Self)
        ensures
            r.jobs_spec() == jobs,
            r.catalog_spec() == catalog,
            r.languages_spec() == strings_view(subtitle_languages@),
            r.enabled_spec() == enabled,
    {
        TranscriptionEnqueuer { jobs, catalog, subtitle_languages, enabled }
    }

    pub fn jobs(&self) -> (r: &J)
        ensures
            *r == self.jobs_spec(),
    {
        &self.jobs
    }

    pub fn catalog(&self) -> (r: &C)
        ensures
            *r == self.catalog_spec(),
    {
        &self.catalog
    }

    /// Whether the catalog needs asking at all: only when transcription is on.
    pub fn enabled(&self) -> (r: bool)
        ensures
            r == self.enabled_spec(),
    {
        self.enabled
    }

    /// The transcription to queue for a version, if any: none when transcription
    /// is off, the version is unknown, it already has a subtitle file, or it has no audio;
    /// else a low-priority transcription job under `parent`.
    pub fn plan(&self, version_id: &str, version: Option<&VersionTracks>, parent: Option<&str>) -> (r: Option<JobRequest<TranscriptionJobPayload>>)
        ensures
            (r is Some) == (self.enabled_spec() && version is Some && !version->0.has_subtitle_files
                && version->0.audio@.len() > 0),
            r matches Some(job) ==> job.kind == JobKind::Transcription && job.priority == JobPriority::Low
                && parent_is(job.parent, parent),
            r matches Some(job) ==> ({
                let p = job.payload;
                let v = version->0;
                &&& p.version_id@ == version_id@
                &&& p.source_path@ == v.path@
                &&& p.audio_track_index == select_audio_spec(
                    v.audio@,
                    if self.languages_spec().len() > 0 { Some(self.languages_spec()[0]) } else { None },
                )
                &&& opt_view(p.source_language) == source_language_spec(v.audio@, p.audio_track_index)
                &&& !p.force
            }),
    {
        if !self.enabled {
            return None;
        }
        let detail = match version {
            Some(d) => d,
            None => return None,
        };
        if detail.has_subtitle_files || detail.audio.len() == 0 {
            return None;
        }
        Some(JobRequest {
            kind: JobKind::Transcription,
            priority: JobPriority::Low,
            parent: owned_parent(parent),
            payload: transcription_payload(version_id, detail.path.as_str(), detail.audio.as_slice(), &self.subtitle_languages),
        })
    }
}

/// A job of one of the kinds that a user asks for from the player (transcription,
/// translation, upscale, stacked subtitles): low priority, no parent.
pub open spec fn requested_job<P>(r: JobRequest<P>, kind: JobKind, payload: P) -> bool {
    r.kind == kind && r.priority == JobPriority::Low && r.parent is None && r.payload == payload
}

/// The request for a transcription asked for by a user.
pub fn transcription_request(payload: TranscriptionJobPayload) -> (r: JobRequest<TranscriptionJobPayload>)
    ensures
        requested_job(r, JobKind::Transcription, payload),
{
    JobRequest { kind: JobKind::Transcription, priority: JobPriority::Low, parent: None, payload }
}

/// The request for a translation asked for by a user.
pub fn translation_request(payload: TranslationJobPayload) -> (r: JobRequest<TranslationJobPayload>)
    ensures
        requested_job(r, JobKind::Translation, payload),
{
    JobRequest { kind: JobKind::Translation, priority: JobPriority::Low, parent: None, payload }
}

/// The request for an upscale of a version to `target_height`.
pub fn upscale_request(version_id: &str, target_height: u32) -> (r: JobRequest<UpscaleJobPayload>)
    ensures
        r.kind == JobKind::Upscale && r.priority == JobPriority::Low && r.parent is None,
        r.payload.version_id@ == version_id@ && r.payload.target_height == target_height,
{
    JobRequest {
        kind: JobKind::Upscale,
        priority: JobPriority::Low,
        parent: None,
        payload: UpscaleJobPayload { version_id: version_id.to_owned(), target_height },
    }
}

/// The request for stacking subtitle `top_id` over `bottom_id` for a version.
pub fn combine_request(version_id: &str, top_id: &str, bottom_id: &str) -> (r: JobRequest<CombineJobPayload>)
    ensures
        r.kind == JobKind::Combine && r.priority == JobPriority::Low && r.parent is None,
        r.payload.version_id@ == version_id@ && r.payload.top_subtitle_id@ == top_id@
            && r.payload.bottom_subtitle_id@ == bottom_id@,
{
    JobRequest {
        kind: JobKind::Combine,
        priority: JobPriority::Low,
        parent: None,
        payload: CombineJobPayload {
            version_id: version_id.to_owned(),
            top_subtitle_id: top_id.to_owned(),
            bottom_subtitle_id: bottom_id.to_owned(),
        },
    }
}

/// Queues a translation of a version's subtitles into the configured languages.
pub struct TranslationEnqueuer<J> {
    jobs: J,
    target_languages: Vec<String>,
}

impl<J> TranslationEnqueuer<J> {
    pub closed spec fn jobs_spec(&self) -> J {
        self.jobs
    }

    pub closed spec fn languages_spec(&self) -> Seq<Seq<char>> {
        strings_view(self.target_languages@)
    }

    pub fn new(jobs: J, target_languages: Vec<String>) -> (r: Self)
        ensures
            r.jobs_spec() == jobs,
            r.languages_spec() == strings_view(target_languages@),
    {
        TranslationEnqueuer { jobs, target_languages }
    }

    pub fn jobs(&self) -> (r: &J)
        ensures
            *r == self.jobs_spec(),
    {
        &self.jobs
    }

    /// The translation to queue for a version, or nothing without target languages: a
    /// low-priority translation job under `parent` into every target language.
    pub fn plan(&self, version_id: &str, parent: Option<&str>) -> (r: Option<JobRequest<TranslationJobPayload>>)
        ensures
            (r is None) == (self.languages_spec().len() == 0),
            r matches Some(job) ==> job.kind == JobKind::Translation && job.priority == JobPriority::Low
                && parent_is(job.parent, parent)
                && job.payload.version_id@ == version_id@
                && strings_view(job.payload.target_languages@) == self.languages_spec()
                && job.payload.source_subtitle_id is None,
    {
        match translation_payload(version_id, &self.target_languages) {
            Some(payload) => Some(JobRequest {
                kind: JobKind::Translation,
                priority: JobPriority::Low,
                parent: owned_parent(parent),
                payload,
            }),
            None => None,
        }
    }
}

} // verus!
