use vstd::prelude::*;

verus! {

/// A video stream of a probed file: what the library reads of it.
#[derive(Debug, Clone, Copy, PartialEq, Eq)]
pub struct VideoTrack {
    pub index: u32,
    pub width: u32,
    pub height: u32,
}

/// An audio stream of a probed file.
#[derive(Debug, Clone, PartialEq, Eq)]
pub struct AudioTrack {
    pub index: u32,
    pub language: Option<String>,
}

/// A subtitle stream inside a media file.
#[derive(Debug, Clone, PartialEq, Eq)]
pub struct EmbeddedSubtitleTrack {
    pub index: u32,
    pub language: Option<String>,
    pub format: crate::subtitles::SubtitleFormat,
    pub forced: bool,
    pub default: bool,
}

impl EmbeddedSubtitleTrack {
    pub fn copy(&self) -> (r: EmbeddedSubtitleTrack)
        ensures
            r == *self,
    {
        EmbeddedSubtitleTrack {
            index: self.index,
            language: crate::catalog::copy_opt(&self.language),
            format: self.format,
            forced: self.forced,
            default: self.default,
        }
    }
}

/// What a probe reports of a media file.
#[derive(Debug, Clone, PartialEq, Eq)]
pub struct ProbeResult {
    pub duration_ms: u64,
    pub video: Vec<VideoTrack>,
    pub audio: Vec<AudioTrack>,
    pub subtitles: Vec<EmbeddedSubtitleTrack>,
}

/// The tallest video stream, or 0 without one.
pub open spec fn max_height(tracks: Seq<VideoTrack>) -> u32
    decreases tracks.len(),
{
    if tracks.len() == 0 {
        0
    } else {
        let rest = max_height(tracks.drop_last());
        if tracks.last().height > rest {
            tracks.last().height
        } else {
            rest
        }
    }
}

/// The height of the tallest video stream, or 0 when there is none.
pub fn resolution(probe: &ProbeResult) -> (r: u32)
    ensures
        r == max_height(probe.video@),
{
    let mut best: u32 = 0;
    let mut i: usize = 0;
    while i < probe.video.len()
        invariant
            i <= probe.video.len(),
            best == max_height(probe.video@.subrange(0, i as int)),
        decreases probe.video.len() - i,
    {
        assert(probe.video@.subrange(0, i + 1).drop_last() =~= probe.video@.subrange(0, i as int));
        if probe.video[i].height > best {
            best = probe.video[i].height;
        }
        i += 1;
    }
    assert(probe.video@.subrange(0, probe.video@.len() as int) =~= probe.video@);
    best
}


/// An exact copy of a list of strings.
pub fn copy_strings(v: &Vec<String>) -> (r: Vec<String>)
    ensures
        r@ == v@,
{
    let mut r: Vec<String> = Vec::new();
    let mut i: usize = 0;
    while i < v.len()
        invariant
            i <= v.len(),
            r@ == v@.take(i as int),
        decreases v.len() - i,
    {
        r.push(v[i].clone());
        proof {
            assert(r@ =~= v@.take(i + 1));
        }
        i += 1;
    }
    assert(v@.take(v.len() as int) =~= v@);
    r
}

impl AudioTrack {
    pub fn copy(&self) -> (r: AudioTrack)
        ensures
            r == *self,
    {
        AudioTrack { index: self.index, language: crate::catalog::copy_opt(&self.language) }
    }
}

} // verus!
