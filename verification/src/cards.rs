use vstd::prelude::*;

use crate::acl::{permits_spec, Viewer};
use crate::catalog::{Episode, EpisodeCard, Movie, Season, Series, TitleId, Version};
use crate::discovery::in_ids;
use crate::chars::str_eq;
use crate::enrichment::Credit;

verus! {

/// A row that a store finds by its id.
pub trait Keyed {
    spec fn key_view(&self) -> Seq<char>;

    fn key(&self) -> (r: &str)
        ensures
            r@ == self.key_view();
}

/// The index of the first row at or after `i` whose id is `id`.
pub open spec fn first_from<T: Keyed>(rows: Seq<T>, id: Seq<char>, i: int) -> Option<int>
    decreases rows.len() - i,
{
    if i < 0 || i >= rows.len() {
        None
    } else if rows[i].key_view() == id {
        Some(i)
    } else {
        first_from(rows, id, i + 1)
    }
}

/// The row a store gives for `id`: the first one with that id.
pub open spec fn lookup<T: Keyed>(rows: Seq<T>, id: Seq<char>) -> Option<T> {
    match first_from(rows, id, 0) {
        Some(i) => Some(rows[i]),
        None => None,
    }
}

fn find_from<T: Keyed>(rows: &[T], id: &str, i: usize) -> (r: Option<usize>)
    requires
        i <= rows.len(),
    ensures
        match r {
            Some(j) => first_from(rows@, id@, i as int) == Some(j as int) && j < rows.len(),
            None => first_from(rows@, id@, i as int) is None,
        },
    decreases rows.len() - i,
{
    if i == rows.len() {
        return None;
    }
    if str_eq(rows[i].key(), id) {
        Some(i)
    } else {
        find_from(rows, id, i + 1)
    }
}

/// The index of the row a store gives for `id`.
pub fn find_keyed<T: Keyed>(rows: &[T], id: &str) -> (r: Option<usize>)
    ensures
        match r {
            Some(j) => j < rows.len() && lookup(rows@, id@) == Some(rows@[j as int]),
            None => lookup(rows@, id@) is None,
        },
{
    find_from(rows, id, 0)
}

/// A title as a person's credit names it.
#[derive(Debug, Clone, PartialEq, Eq)]
pub enum TitleRef {
    Movie(String),
    Series(String),
}

impl TitleRef {
    pub open spec fn id_view(&self) -> Seq<char> {
        match self {
            TitleRef::Movie(id) => id@,
            TitleRef::Series(id) => id@,
        }
    }

    /// The id, whichever kind of title it is.
    pub fn id(&self) -> (r: &str)
        ensures
            r@ == self.id_view(),
    {
        match self {
            TitleRef::Movie(id) => id.as_str(),
            TitleRef::Series(id) => id.as_str(),
        }
    }
}

/// What a filmography shows of a credited title: its name, year, rating (as an age floor)
/// and artwork.
#[derive(Debug, Clone, PartialEq, Eq)]
pub struct TitleFacts<A> {
    pub id: String,
    pub title: String,
    pub year: Option<u16>,
    pub rating: Option<u8>,
    pub artwork: A,
}

impl<A> Keyed for TitleFacts<A> {
    open spec fn key_view(&self) -> Seq<char> {
        self.id@
    }

    fn key(&self) -> (r: &str) {
        self.id.as_str()
    }
}

/// A line of a person's filmography.
#[derive(Debug, Clone, PartialEq, Eq)]
pub struct FilmographyEntry<R, A> {
    pub title: TitleRef,
    pub display_title: String,
    pub year: Option<u16>,
    pub artwork: A,
    pub role: R,
    pub character: Option<String>,
}

/// The facts of the title a credit names, from the movies or the series loaded for it.
pub open spec fn credited_facts<R, A>(c: Credit<R>, movies: Seq<TitleFacts<A>>, series: Seq<TitleFacts<A>>) -> Option<TitleFacts<A>> {
    match c.title {
        TitleRef::Movie(id) => lookup(movies, id@),
        TitleRef::Series(id) => lookup(series, id@),
    }
}

/// A credit stays in the filmography when its title is known and its rating is within
/// the viewer's cap.
pub open spec fn shown<R, A>(c: Credit<R>, movies: Seq<TitleFacts<A>>, series: Seq<TitleFacts<A>>, cap: Option<u8>) -> bool {
    match credited_facts(c, movies, series) {
        Some(f) => permits_spec(cap, f.rating),
        None => false,
    }
}

/// The credits that the filmography shows, in their order.
pub open spec fn shown_credits<R, A>(
    credits: Seq<Credit<R>>,
    movies: Seq<TitleFacts<A>>,
    series: Seq<TitleFacts<A>>,
    cap: Option<u8>,
) -> Seq<Credit<R>>
    decreases credits.len(),
{
    if credits.len() == 0 {
        Seq::empty()
    } else {
        let rest = shown_credits(credits.drop_last(), movies, series, cap);
        if shown(credits.last(), movies, series, cap) {
            rest.push(credits.last())
        } else {
            rest
        }
    }
}

/// The line for a shown credit: the credit's title, role and character, with the name,
/// year and (a clone of the) artwork of its title.
pub open spec fn entry_for<R, A: Clone>(e: FilmographyEntry<R, A>, c: Credit<R>, movies: Seq<TitleFacts<A>>, series: Seq<TitleFacts<A>>) -> bool {
    match credited_facts(c, movies, series) {
        Some(f) => {
            &&& e.title == c.title
            &&& e.role == c.role
            &&& e.character == c.character
            &&& e.display_title@ == f.title@
            &&& e.year == f.year
            &&& cloned::<A>(f.artwork, e.artwork)
        },
        None => false,
    }
}

/// A person's filmography: each credit whose title was found and whose rating the viewer
/// is allowed to see, in the order of the credits, with its title's name, year and artwork.
pub fn filmography<R, A: Clone>(
    credits: Vec<Credit<R>>,
    movies: &[TitleFacts<A>],
    series: &[TitleFacts<A>],
    viewer: &Viewer,
) -> (r: Vec<FilmographyEntry<R, A>>)
    ensures
        r.len() == shown_credits(credits@, movies@, series@, viewer.cap_spec()).len(),
        forall|k: int| 0 <= k < r.len() ==> entry_for(
            #[trigger] r@[k],
            shown_credits(credits@, movies@, series@, viewer.cap_spec())[k],
            movies@,
            series@,
        ),
{
    let ghost all = credits@;
    let ghost cap = viewer.cap_spec();
    let mut rest = credits;
    let mut out: Vec<FilmographyEntry<R, A>> = Vec::new();
    let ghost mut done: Seq<Credit<R>> = Seq::empty();
    while rest.len() > 0
        invariant
            all == done + rest@,
            cap == viewer.cap_spec(),
            out.len() == shown_credits(done, movies@, series@, cap).len(),
            forall|k: int| 0 <= k < out.len() ==> entry_for(
                #[trigger] out@[k],
                shown_credits(done, movies@, series@, cap)[k],
                movies@,
                series@,
            ),
        decreases rest.len(),
    {
        let c = rest.remove(0);
        proof {
            assert(done.push(c).drop_last() =~= done);
            assert(all =~= done.push(c) + rest@);
        }
        let found = match &c.title {
            TitleRef::Movie(id) => match find_keyed(movies, id.as_str()) {
                Some(j) => Some(&movies[j]),
                None => None,
            },
            TitleRef::Series(id) => match find_keyed(series, id.as_str()) {
                Some(j) => Some(&series[j]),
                None => None,
            },
        };
        match found {
            Some(f) => {
                if viewer.permits(f.rating) {
                    let entry = FilmographyEntry {
                        title: c.title,
                        display_title: f.title.clone(),
                        year: f.year,
                        artwork: f.artwork.clone(),
                        role: c.role,
                        character: c.character,
                    };
                    out.push(entry);
                }
            },
            None => {},
        }
        proof {
            done = done.push(c);
        }
    }
    assert(done =~= all);
    out
}

/// A row together with its rating, as an age floor (nothing where it has none).
#[derive(Debug, Clone, PartialEq, Eq)]
pub struct Rated<T> {
    pub item: T,
    pub rating: Option<u8>,
}

impl Keyed for Rated<Movie> {
    open spec fn key_view(&self) -> Seq<char> {
        self.item.id@
    }

    fn key(&self) -> (r: &str) {
        self.item.id.as_str()
    }
}

impl Keyed for Rated<Series> {
    open spec fn key_view(&self) -> Seq<char> {
        self.item.id@
    }

    fn key(&self) -> (r: &str) {
        self.item.id.as_str()
    }
}

impl Keyed for Episode {
    open spec fn key_view(&self) -> Seq<char> {
        self.id@
    }

    fn key(&self) -> (r: &str) {
        self.id.as_str()
    }
}

impl Keyed for Season {
    open spec fn key_view(&self) -> Seq<char> {
        self.id@
    }

    fn key(&self) -> (r: &str) {
        self.id.as_str()
    }
}

/// A card of a playable title.
#[derive(Debug, Clone, PartialEq, Eq)]
pub enum TitleCard {
    Movie(Movie),
    Episode(EpisodeCard),
}

/// The rows that title cards are made from, as the catalog holds them.
pub struct CardSources {
    pub movies: Vec<Rated<Movie>>,
    pub episodes: Vec<Episode>,
    pub seasons: Vec<Season>,
    pub series: Vec<Rated<Series>>,
}

/// The card of an episode: its season's number and title and its show's id and title,
/// where the catalog still has them.
pub open spec fn episode_card_spec(e: Episode, season: Option<Season>, show: Option<Rated<Series>>) -> EpisodeCard {
    EpisodeCard {
        season_number: match season { Some(s) => Some(s.number), None => None },
        season_title: match season { Some(s) => s.title, None => None },
        series: match season { Some(s) => Some(s.series), None => None },
        series_title: match show { Some(r) => Some(r.item.title), None => None },
        episode: e,
    }
}

/// The card for `id`, if any: a movie or episode the catalog does not have drops out, and
/// so does one whose rating is above the viewer's cap; an episode is rated by its show,
/// and one whose show is unknown counts as unrated.
pub open spec fn card_spec(id: TitleId, src: CardSources, cap: Option<u8>) -> Option<TitleCard> {
    match id {
        TitleId::Movie(mid) => match lookup(src.movies@, mid@) {
            Some(m) => if permits_spec(cap, m.rating) {
                Some(TitleCard::Movie(m.item))
            } else {
                None
            },
            None => None,
        },
        TitleId::Episode(eid) => match lookup(src.episodes@, eid@) {
            Some(e) => {
                let season = lookup(src.seasons@, e.season@);
                let show = match season {
                    Some(s) => lookup(src.series@, s.series@),
                    None => None,
                };
                let rating = match show {
                    Some(r) => r.rating,
                    None => None,
                };
                if permits_spec(cap, rating) {
                    Some(TitleCard::Episode(episode_card_spec(e, season, show)))
                } else {
                    None
                }
            },
            None => None,
        },
    }
}

/// The cards for `ids`, in their order, each one that has a card.
pub open spec fn cards_spec(ids: Seq<TitleId>, src: CardSources, cap: Option<u8>) -> Seq<TitleCard>
    decreases ids.len(),
{
    if ids.len() == 0 {
        Seq::empty()
    } else {
        let rest = cards_spec(ids.drop_last(), src, cap);
        match card_spec(ids.last(), src, cap) {
            Some(c) => rest.push(c),
            None => rest,
        }
    }
}

/// The rating of an episode: its show's, where the show is known.
pub open spec fn show_rating(show: Option<Rated<Series>>) -> Option<u8> {
    match show {
        Some(r) => r.rating,
        None => None,
    }
}

/// The card of an episode with its season and show (where the catalog has them), or
/// nothing where the show is rated above the viewer's cap.
pub fn episode_card(viewer: &Viewer, e: &Episode, season: Option<&Season>, show: Option<&Rated<Series>>) -> (r: Option<EpisodeCard>)
    ensures
        ({
            let season = match season { Some(s) => Some(*s), None => None };
            let show = match show { Some(x) => Some(*x), None => None };
            r == if permits_spec(viewer.cap_spec(), show_rating(show)) {
                Some(episode_card_spec(*e, season, show))
            } else {
                None
            }
        }),
{
    let rating = match show {
        Some(r) => r.rating,
        None => None,
    };
    if viewer.permits(rating) {
        Some(EpisodeCard {
            season_number: match season { Some(s) => Some(s.number), None => None },
            season_title: match season { Some(s) => crate::catalog::copy_opt(&s.title), None => None },
            series: match season { Some(s) => Some(s.series.clone()), None => None },
            series_title: match show { Some(r) => Some(r.item.title.clone()), None => None },
            episode: e.copy(),
        })
    } else {
        None
    }
}

fn card_for(id: &TitleId, src: &CardSources, viewer: &Viewer) -> (r: Option<TitleCard>)
    ensures
        r == card_spec(*id, *src, viewer.cap_spec()),
{
    match id {
        TitleId::Movie(mid) => match find_keyed(&src.movies, mid.as_str()) {
            Some(j) => {
                let m = &src.movies[j];
                if viewer.permits(m.rating) {
                    Some(TitleCard::Movie(m.item.copy()))
                } else {
                    None
                }
            },
            None => None,
        },
        TitleId::Episode(eid) => match find_keyed(&src.episodes, eid.as_str()) {
            Some(j) => {
                let e = &src.episodes[j];
                let season: Option<&Season> = match find_keyed(&src.seasons, e.season.as_str()) {
                    Some(k) => Some(&src.seasons[k]),
                    None => None,
                };
                let show: Option<&Rated<Series>> = match season {
                    Some(s) => match find_keyed(&src.series, s.series.as_str()) {
                        Some(k) => Some(&src.series[k]),
                        None => None,
                    },
                    None => None,
                };
                match episode_card(viewer, e, season, show) {
                    Some(card) => Some(TitleCard::Episode(card)),
                    None => None,
                }
            },
            None => None,
        },
    }
}

/// The cards of `ids`, in order: a title the catalog does not have drops out, and so
/// does one rated above the viewer's cap (an episode by its show's rating).
pub fn title_cards(viewer: &Viewer, ids: &[TitleId], src: &CardSources) -> (r: Vec<TitleCard>)
    ensures
        r@ == cards_spec(ids@, *src, viewer.cap_spec()),
{
    let mut out: Vec<TitleCard> = Vec::new();
    let mut i: usize = 0;
    while i < ids.len()
        invariant
            i <= ids.len(),
            out@ == cards_spec(ids@.subrange(0, i as int), *src, viewer.cap_spec()),
        decreases ids.len() - i,
    {
        assert(ids@.subrange(0, i + 1).drop_last() =~= ids@.subrange(0, i as int));
        match card_for(&ids[i], src, viewer) {
            Some(c) => out.push(c),
            None => {},
        }
        i = i + 1;
    }
    assert(ids@.subrange(0, ids.len() as int) =~= ids@);
    out
}

/// A filmography never lists a title the viewer may not see, nor a credit whose title is
/// unknown: every credit it keeps has a known title rated within the cap.
pub proof fn law_filmography_stays_within_the_cap<R, A>(
    credits: Seq<Credit<R>>,
    movies: Seq<TitleFacts<A>>,
    series: Seq<TitleFacts<A>>,
    cap: Option<u8>,
)
    ensures
        shown_credits(credits, movies, series, cap).len() <= credits.len(),
        forall|k: int| 0 <= k < shown_credits(credits, movies, series, cap).len()
            ==> shown(#[trigger] shown_credits(credits, movies, series, cap)[k], movies, series, cap),
    decreases credits.len(),
{
    if credits.len() > 0 {
        law_filmography_stays_within_the_cap(credits.drop_last(), movies, series, cap);
    }
}

/// Title cards come one per asked title at most, and each card is the card of one of the
/// asked titles.
pub proof fn law_cards_come_from_the_asked_titles(ids: Seq<TitleId>, src: CardSources, cap: Option<u8>)
    ensures
        cards_spec(ids, src, cap).len() <= ids.len(),
        forall|k: int| 0 <= k < cards_spec(ids, src, cap).len() ==> exists|i: int|
            0 <= i < ids.len() && card_spec(#[trigger] ids[i], src, cap) == Some(#[trigger] cards_spec(ids, src, cap)[k]),
    decreases ids.len(),
{
    if ids.len() > 0 {
        let pre = ids.drop_last();
        law_cards_come_from_the_asked_titles(pre, src, cap);
        assert forall|k: int| 0 <= k < cards_spec(ids, src, cap).len() implies exists|i: int|
            0 <= i < ids.len() && card_spec(#[trigger] ids[i], src, cap) == Some(#[trigger] cards_spec(ids, src, cap)[k]) by {
            if k < cards_spec(pre, src, cap).len() {
                let i = choose|i: int| 0 <= i < pre.len() && card_spec(#[trigger] pre[i], src, cap) == Some(#[trigger] cards_spec(pre, src, cap)[k]);
                assert(ids[i] == pre[i]);
            } else {
                assert(ids[ids.len() - 1] == ids.last());
            }
        }
    }
}

/// Why a catalog read was refused.
#[derive(Debug, Clone, PartialEq, Eq)]
pub enum CatalogError {
    NotFound,
    Forbidden,
    Repository(String),
}

/// An episode by id, as a card: a missing episode, and one whose show is rated above the
/// viewer's cap, are both not found.
pub fn episode_lookup(viewer: &Viewer, episode: Option<&Episode>, season: Option<&Season>, show: Option<&Rated<Series>>) -> (r: Result<EpisodeCard, CatalogError>)
    ensures
        match episode {
            None => r == Err::<EpisodeCard, CatalogError>(CatalogError::NotFound),
            Some(e) => {
                let season = match season { Some(s) => Some(*s), None => None };
                let show = match show { Some(x) => Some(*x), None => None };
                r == if permits_spec(viewer.cap_spec(), show_rating(show)) {
                    Ok::<EpisodeCard, CatalogError>(episode_card_spec(*e, season, show))
                } else {
                    Err(CatalogError::NotFound)
                }
            },
        },
{
    match episode {
        None => Err(CatalogError::NotFound),
        Some(e) => match episode_card(viewer, e, season, show) {
            Some(card) => Ok(card),
            None => Err(CatalogError::NotFound),
        },
    }
}

/// A season as a card shows it, with its show's title where the catalog has the show.
#[derive(Debug, Clone, PartialEq, Eq)]
pub struct SeasonCard {
    pub season: Season,
    pub series_title: Option<String>,
}

/// A season by id, as a card: a missing season, and one whose show is rated above the
/// viewer's cap, are both not found.
pub fn season_lookup(viewer: &Viewer, season: Option<Season>, show: Option<&Rated<Series>>) -> (r: Result<SeasonCard, CatalogError>)
    ensures
        match season {
            None => r == Err::<SeasonCard, CatalogError>(CatalogError::NotFound),
            Some(s) => {
                let show = match show { Some(x) => Some(*x), None => None };
                r == if permits_spec(viewer.cap_spec(), show_rating(show)) {
                    Ok::<SeasonCard, CatalogError>(SeasonCard {
                        season: s,
                        series_title: match show { Some(x) => Some(x.item.title), None => None },
                    })
                } else {
                    Err(CatalogError::NotFound)
                }
            },
        },
{
    match season {
        None => Err(CatalogError::NotFound),
        Some(s) => {
            let rating = match show {
                Some(x) => x.rating,
                None => None,
            };
            if viewer.permits(rating) {
                Ok(SeasonCard {
                    season: s,
                    series_title: match show {
                        Some(x) => Some(x.item.title.clone()),
                        None => None,
                    },
                })
            } else {
                Err(CatalogError::NotFound)
            }
        },
    }
}

/// Whether the seasons or episodes of a show may be listed: always for an administrator,
/// else while the show (where the catalog has it) is rated within the viewer's cap.
pub fn listing_allowed(is_admin: bool, viewer: &Viewer, show: Option<&Rated<Series>>) -> (r: Result<(), CatalogError>)
    ensures
        r == if is_admin || permits_spec(viewer.cap_spec(), show_rating(match show { Some(x) => Some(*x), None => None })) {
            Ok::<(), CatalogError>(())
        } else {
            Err(CatalogError::NotFound)
        },
{
    if is_admin {
        return Ok(());
    }
    let rating = match show {
        Some(x) => x.rating,
        None => None,
    };
    if viewer.permits(rating) {
        Ok(())
    } else {
        Err(CatalogError::NotFound)
    }
}

/// A movie or show by id: missing, or rated above the viewer's cap, it is not found.
pub fn rated_lookup<T>(viewer: &Viewer, found: Option<Rated<T>>) -> (r: Result<T, CatalogError>)
    ensures
        match found {
            None => r == Err::<T, CatalogError>(CatalogError::NotFound),
            Some(x) => r == if permits_spec(viewer.cap_spec(), x.rating) {
                Ok::<T, CatalogError>(x.item)
            } else {
                Err(CatalogError::NotFound)
            },
        },
{
    match found {
        None => Err(CatalogError::NotFound),
        Some(x) => {
            if viewer.permits(x.rating) {
                Ok(x.item)
            } else {
                Err(CatalogError::NotFound)
            }
        },
    }
}

/// The versions of `versions` in libraries the viewer was granted, in order.
pub open spec fn granted_versions(versions: Seq<Version>, access: Seq<String>) -> Seq<Version>
    decreases versions.len(),
{
    if versions.len() == 0 {
        Seq::empty()
    } else {
        let rest = granted_versions(versions.drop_last(), access);
        if in_ids(access, versions.last().library@) {
            rest.push(versions.last())
        } else {
            rest
        }
    }
}

/// The versions of a title that a caller is shown: all of them to an administrator, else
/// those in libraries the viewer was granted.
pub fn visible_versions(is_admin: bool, viewer: &Viewer, versions: Vec<Version>) -> (r: Vec<Version>)
    ensures
        r@ == if is_admin { versions@ } else { granted_versions(versions@, viewer.access_spec()) },
{
    if is_admin {
        return versions;
    }
    let ghost all = versions@;
    let mut rest = versions;
    let mut out: Vec<Version> = Vec::new();
    let ghost mut done: Seq<Version> = Seq::empty();
    while rest.len() > 0
        invariant
            all == done + rest@,
            out@ == granted_versions(done, viewer.access_spec()),
        decreases rest.len(),
    {
        let v = rest.remove(0);
        proof {
            assert(done.push(v).drop_last() =~= done);
            assert(all =~= done.push(v) + rest@);
        }
        if viewer.sees_library(v.library.as_str()) {
            out.push(v);
        } else {
        }
        proof {
            done = done.push(v);
        }
    }
    assert(done =~= all);
    out
}

/// A version by id: missing, or in a library the viewer was not granted, it is not found.
pub fn version_lookup(viewer: &Viewer, found: Option<Version>) -> (r: Result<Version, CatalogError>)
    ensures
        match found {
            None => r == Err::<Version, CatalogError>(CatalogError::NotFound),
            Some(v) => r == if in_ids(viewer.access_spec(), v.library@) {
                Ok::<Version, CatalogError>(v)
            } else {
                Err(CatalogError::NotFound)
            },
        },
{
    match found {
        None => Err(CatalogError::NotFound),
        Some(v) => {
            if viewer.sees_library(v.library.as_str()) {
                Ok(v)
            } else {
                Err(CatalogError::NotFound)
            }
        },
    }
}

} // verus!
