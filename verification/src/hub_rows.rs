use vstd::prelude::*;

use crate::cards::{find_keyed, lookup, Keyed};
use crate::catalog::{EpisodeCard, EpisodeContext, Movie, Series, TitleId};
use crate::discovery::{ContinueWatchingItem, HubItem, WatchlistItem};

verus! {

impl Keyed for Series {
    open spec fn key_view(&self) -> Seq<char> {
        self.id@
    }

    fn key(&self) -> (r: &str) {
        self.id.as_str()
    }
}

impl Keyed for Movie {
    open spec fn key_view(&self) -> Seq<char> {
        self.id@
    }

    fn key(&self) -> (r: &str) {
        self.id.as_str()
    }
}

/// The card of an episode in its context, with its show's title where the catalog has
/// the show.
pub open spec fn context_card(c: EpisodeContext, show: Option<Series>) -> EpisodeCard {
    EpisodeCard {
        episode: c.episode,
        series: Some(c.series),
        series_title: match show { Some(s) => Some(s.title), None => None },
        season_number: Some(c.season_number),
        season_title: c.season_title,
    }
}

/// The cards of episodes in their contexts, in order; each show is looked up among the
/// shows the catalog gave.
pub fn cards_for(contexts: Vec<EpisodeContext>, shows: &[Series]) -> (r: Vec<EpisodeCard>)
    ensures
        r.len() == contexts.len(),
        forall|k: int| 0 <= k < r.len() ==> #[trigger] r@[k] == context_card(contexts@[k], lookup(shows@, contexts@[k].series@)),
{
    let ghost all = contexts@;
    let mut rest = contexts;
    let mut out: Vec<EpisodeCard> = Vec::new();
    let ghost mut done: int = 0;
    while rest.len() > 0
        invariant
            0 <= done <= all.len(),
            rest@ == all.subrange(done, all.len() as int),
            out.len() == done,
            forall|k: int| 0 <= k < done ==> #[trigger] out@[k] == context_card(all[k], lookup(shows@, all[k].series@)),
        decreases rest.len(),
    {
        let c = rest.remove(0);
        assert(c == all[done]);
        let title = match find_keyed(shows, c.series.as_str()) {
            Some(j) => Some(shows[j].title.clone()),
            None => None,
        };
        out.push(EpisodeCard {
            episode: c.episode,
            series: Some(c.series),
            series_title: title,
            season_number: Some(c.season_number),
            season_title: c.season_title,
        });
        proof {
            assert(all.subrange(done + 1, all.len() as int) =~= rest@);
            done = done + 1;
        }
    }
    out
}

/// The movie ids of a watchlist, in order.
pub open spec fn saved_movies(saved: Seq<WatchlistItem>) -> Seq<Seq<char>>
    decreases saved.len(),
{
    if saved.len() == 0 {
        Seq::empty()
    } else {
        let rest = saved_movies(saved.drop_last());
        match saved.last().title {
            TitleId::Movie(id) => rest.push(id@),
            TitleId::Episode(_) => rest,
        }
    }
}

/// The episode ids of a watchlist, in order.
pub open spec fn saved_episodes(saved: Seq<WatchlistItem>) -> Seq<Seq<char>>
    decreases saved.len(),
{
    if saved.len() == 0 {
        Seq::empty()
    } else {
        let rest = saved_episodes(saved.drop_last());
        match saved.last().title {
            TitleId::Episode(id) => rest.push(id@),
            TitleId::Movie(_) => rest,
        }
    }
}

pub open spec fn ids_of(v: Seq<String>) -> Seq<Seq<char>> {
    v.map_values(|s: String| s@)
}

/// The movie ids and the episode ids that a watchlist names, each in order.
pub fn split_watchlist(saved: &[WatchlistItem]) -> (r: (Vec<String>, Vec<String>))
    ensures
        ids_of(r.0@) == saved_movies(saved@),
        ids_of(r.1@) == saved_episodes(saved@),
{
    let mut movies: Vec<String> = Vec::new();
    let mut episodes: Vec<String> = Vec::new();
    let mut i: usize = 0;
    while i < saved.len()
        invariant
            i <= saved.len(),
            ids_of(movies@) == saved_movies(saved@.subrange(0, i as int)),
            ids_of(episodes@) == saved_episodes(saved@.subrange(0, i as int)),
        decreases saved.len() - i,
    {
        assert(saved@.subrange(0, i + 1).drop_last() =~= saved@.subrange(0, i as int));
        match &saved[i].title {
            TitleId::Movie(id) => {
                movies.push(id.clone());
                assert(ids_of(movies@) =~= saved_movies(saved@.subrange(0, i as int)).push(id@));
            },
            TitleId::Episode(id) => {
                episodes.push(id.clone());
                assert(ids_of(episodes@) =~= saved_episodes(saved@.subrange(0, i as int)).push(id@));
            },
        }
        i = i + 1;
    }
    assert(saved@.subrange(0, saved.len() as int) =~= saved@);
    (movies, episodes)
}

/// The movies being watched, in the order of the continue-watching items.
pub open spec fn started_spec(items: Seq<ContinueWatchingItem>) -> Seq<Seq<char>>
    decreases items.len(),
{
    if items.len() == 0 {
        Seq::empty()
    } else {
        let rest = started_spec(items.drop_last());
        match items.last().card.title {
            TitleId::Movie(id) => rest.push(id@),
            TitleId::Episode(_) => rest,
        }
    }
}

/// The movie ids among the titles being watched, in order.
pub fn started_movies(items: &[ContinueWatchingItem]) -> (r: Vec<String>)
    ensures
        ids_of(r@) == started_spec(items@),
{
    let mut out: Vec<String> = Vec::new();
    let mut i: usize = 0;
    while i < items.len()
        invariant
            i <= items.len(),
            ids_of(out@) == started_spec(items@.subrange(0, i as int)),
        decreases items.len() - i,
    {
        assert(items@.subrange(0, i + 1).drop_last() =~= items@.subrange(0, i as int));
        match &items[i].card.title {
            TitleId::Movie(id) => {
                out.push(id.clone());
                assert(ids_of(out@) =~= started_spec(items@.subrange(0, i as int)).push(id@));
            },
            TitleId::Episode(_) => {},
        }
        i = i + 1;
    }
    assert(items@.subrange(0, items.len() as int) =~= items@);
    out
}

/// The continue-watching row of the home screen: each started movie that the viewer may
/// see, in the order started, as the visible row gives it.
pub open spec fn continue_row_spec(started: Seq<String>, visible: Seq<Movie>) -> Seq<HubItem>
    decreases started.len(),
{
    if started.len() == 0 {
        Seq::empty()
    } else {
        let rest = continue_row_spec(started.drop_last(), visible);
        match lookup(visible, started.last()@) {
            Some(m) => rest.push(HubItem::Movie(m)),
            None => rest,
        }
    }
}

/// The home screen's row of movies being watched.
pub fn continue_row(started: &[String], visible: &[Movie]) -> (r: Vec<HubItem>)
    ensures
        r@ == continue_row_spec(started@, visible@),
{
    let mut out: Vec<HubItem> = Vec::new();
    let mut i: usize = 0;
    while i < started.len()
        invariant
            i <= started.len(),
            out@ == continue_row_spec(started@.subrange(0, i as int), visible@),
        decreases started.len() - i,
    {
        assert(started@.subrange(0, i + 1).drop_last() =~= started@.subrange(0, i as int));
        match find_keyed(visible, started[i].as_str()) {
            Some(j) => out.push(HubItem::Movie(visible[j].copy())),
            None => {},
        }
        i = i + 1;
    }
    assert(started@.subrange(0, started.len() as int) =~= started@);
    out
}

} // verus!
