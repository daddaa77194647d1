use vstd::prelude::*;

verus! {

/// A point in time, in nanoseconds since the Unix epoch.
#[derive(Debug, Clone, Copy, PartialEq, Eq, Structural)]
pub struct Timestamp {
    pub nanosecond: i128,
}

/// A playable title: a movie or an episode, by id.
#[derive(Debug, Clone, PartialEq, Eq)]
pub enum TitleId {
    Movie(String),
    Episode(String),
}

impl TitleId {
    pub open spec fn id_view(&self) -> Seq<char> {
        match self {
            TitleId::Movie(id) => id@,
            TitleId::Episode(id) => id@,
        }
    }

    /// The id, whichever kind of title it is.
    pub fn id(&self) -> (r: &str)
        ensures
            r@ == self.id_view(),
    {
        match self {
            TitleId::Movie(id) => id.as_str(),
            TitleId::Episode(id) => id.as_str(),
        }
    }

    pub fn copy(&self) -> (r: TitleId)
        ensures
            r == *self,
    {
        match self {
            TitleId::Movie(id) => TitleId::Movie(id.clone()),
            TitleId::Episode(id) => TitleId::Episode(id.clone()),
        }
    }
}

/// A content rating as a rating system and a code in it.
#[derive(Debug, Clone, PartialEq, Eq)]
pub struct ContentRating {
    pub system: String,
    pub code: String,
}

impl ContentRating {
    pub fn copy(&self) -> (r: ContentRating)
        ensures
            r == *self,
    {
        ContentRating { system: self.system.clone(), code: self.code.clone() }
    }
}

pub fn copy_rating(o: &Option<ContentRating>) -> (r: Option<ContentRating>)
    ensures
        r == *o,
{
    match o {
        Some(c) => Some(c.copy()),
        None => None,
    }
}

#[derive(Debug, Clone, PartialEq, Eq)]
pub struct Movie {
    pub id: String,
    pub title: String,
    pub sort_title: String,
    pub year: Option<u16>,
    pub overview: Option<String>,
    pub runtime_minutes: Option<u32>,
    pub content_rating: Option<ContentRating>,
    pub manually_edited: bool,
    pub added_at: Timestamp,
    pub updated_at: Timestamp,
}

#[derive(Debug, Clone, PartialEq, Eq)]
pub struct Series {
    pub id: String,
    pub title: String,
    pub sort_title: String,
    pub year: Option<u16>,
    pub overview: Option<String>,
    pub content_rating: Option<ContentRating>,
    pub manually_edited: bool,
    pub added_at: Timestamp,
    pub updated_at: Timestamp,
}

#[derive(Debug, Clone, PartialEq, Eq)]
pub struct Episode {
    pub id: String,
    pub season: String,
    pub number: u16,
    pub title: String,
    pub overview: Option<String>,
    pub runtime_minutes: Option<u32>,
    pub air_date: Option<Timestamp>,
    pub manually_edited: bool,
    pub added_at: Timestamp,
    pub updated_at: Timestamp,
}

/// An episode with where it sits: its season and series.
#[derive(Debug, Clone, PartialEq, Eq)]
pub struct EpisodeContext {
    pub episode: Episode,
    pub season: String,
    pub season_number: u16,
    pub season_title: Option<String>,
    pub series: String,
}

/// An episode as a card shows it, with what is known of its series.
#[derive(Debug, Clone, PartialEq, Eq)]
pub struct EpisodeCard {
    pub episode: Episode,
    pub series: Option<String>,
    pub series_title: Option<String>,
    pub season_number: Option<u16>,
    pub season_title: Option<String>,
}

/// Movies that belong together, in their order.
#[derive(Debug, Clone, PartialEq, Eq)]
pub struct Collection {
    pub id: String,
    pub name: String,
    pub movies: Vec<String>,
}

pub fn copy_opt(o: &Option<String>) -> (r: Option<String>)
    ensures
        r == *o,
{
    match o {
        Some(s) => Some(s.clone()),
        None => None,
    }
}

impl Movie {
    pub fn copy(&self) -> (r: Movie)
        ensures
            r == *self,
    {
        Movie {
            id: self.id.clone(),
            title: self.title.clone(),
            sort_title: self.sort_title.clone(),
            year: self.year,
            overview: copy_opt(&self.overview),
            runtime_minutes: self.runtime_minutes,
            content_rating: copy_rating(&self.content_rating),
            manually_edited: self.manually_edited,
            added_at: self.added_at,
            updated_at: self.updated_at,
        }
    }
}

impl Series {
    pub fn copy(&self) -> (r: Series)
        ensures
            r == *self,
    {
        Series {
            id: self.id.clone(),
            title: self.title.clone(),
            sort_title: self.sort_title.clone(),
            year: self.year,
            overview: copy_opt(&self.overview),
            content_rating: copy_rating(&self.content_rating),
            manually_edited: self.manually_edited,
            added_at: self.added_at,
            updated_at: self.updated_at,
        }
    }
}

impl Episode {
    pub fn copy(&self) -> (r: Episode)
        ensures
            r == *self,
    {
        Episode {
            id: self.id.clone(),
            season: self.season.clone(),
            number: self.number,
            title: self.title.clone(),
            overview: copy_opt(&self.overview),
            runtime_minutes: self.runtime_minutes,
            air_date: self.air_date,
            manually_edited: self.manually_edited,
            added_at: self.added_at,
            updated_at: self.updated_at,
        }
    }
}

impl EpisodeCard {
    pub fn copy(&self) -> (r: EpisodeCard)
        ensures
            r == *self,
    {
        EpisodeCard {
            episode: self.episode.copy(),
            series: copy_opt(&self.series),
            series_title: copy_opt(&self.series_title),
            season_number: self.season_number,
            season_title: copy_opt(&self.season_title),
        }
    }
}

impl EpisodeContext {
    pub fn copy(&self) -> (r: EpisodeContext)
        ensures
            r == *self,
    {
        EpisodeContext {
            episode: self.episode.copy(),
            season: self.season.clone(),
            season_number: self.season_number,
            season_title: copy_opt(&self.season_title),
            series: self.series.clone(),
        }
    }
}


/// A season of a series.
#[derive(Debug, Clone, PartialEq, Eq)]
pub struct Season {
    pub id: String,
    pub series: String,
    pub number: u16,
    pub title: Option<String>,
    pub overview: Option<String>,
    pub added_at: Timestamp,
    pub updated_at: Timestamp,
}

/// A stored file of a title.
#[derive(Debug, Clone, PartialEq, Eq)]
pub struct Version {
    pub id: String,
    pub title: TitleId,
    pub library: String,
    pub quality: crate::parse::Quality,
    pub container: String,
    pub path: String,
    pub size_bytes: u64,
    pub duration_ms: u64,
    pub available: bool,
    pub added_at: Timestamp,
    pub updated_at: Timestamp,
}
} // verus!
