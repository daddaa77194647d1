use vstd::prelude::*;

use crate::cards::TitleRef;
use crate::catalog::Timestamp;
use crate::chars::str_eq;
use crate::enrich::{derive_id, id_name, uuid_v5_url};
use crate::parse::ExternalId;

verus! {

/// A member of a title's cast or crew, as a metadata provider lists it.
#[derive(Debug, Clone, PartialEq, Eq)]
pub struct CastMember<R> {
    pub external_person_id: ExternalId,
    pub name: String,
    pub role: R,
    pub character: Option<String>,
    pub order: Option<u32>,
}

/// A person as the catalog keeps one.
#[derive(Debug, Clone, PartialEq, Eq)]
pub struct Person {
    pub id: String,
    pub name: String,
    pub external_id: Option<String>,
    pub biography: Option<String>,
    pub birthday: Option<String>,
    pub deathday: Option<String>,
    pub place_of_birth: Option<String>,
    pub also_known_as: Vec<String>,
}

/// A person's credit on a title.
#[derive(Debug, Clone, PartialEq, Eq)]
pub struct Credit<R> {
    pub person: String,
    pub title: TitleRef,
    pub role: R,
    pub character: Option<String>,
    pub order: Option<u32>,
}

/// A named tag of titles (a genre or a studio) with its derived id.
#[derive(Debug, Clone, PartialEq, Eq)]
pub struct Tag {
    pub id: String,
    pub name: String,
}

/// What an enrichment writes for one title: the people it names (as bare rows), their
/// credits, the genres and studios, and the people whose details are then to be fetched.
pub struct Enrichment<R> {
    pub people: Vec<Person>,
    pub credits: Vec<Credit<R>>,
    pub genres: Vec<Tag>,
    pub studios: Vec<Tag>,
    pub to_refresh: Vec<String>,
}

/// The id of a person with the provider id `value`.
pub open spec fn person_id_spec(value: Seq<char>) -> Seq<char> {
    uuid_v5_url(id_name("person"@, value))
}

/// The bare row of a cast member: a derived id, the name and the provider's id, nothing
/// more known yet.
pub open spec fn bare_person<R>(m: CastMember<R>, p: Person) -> bool {
    &&& p.id@ == person_id_spec(m.external_person_id.value@)
    &&& p.name == m.name
    &&& p.external_id == Some(m.external_person_id.value)
    &&& p.biography is None && p.birthday is None && p.deathday is None && p.place_of_birth is None
    &&& p.also_known_as@.len() == 0
}

/// The credit of a cast member on `owner`.
pub open spec fn credit_of<R>(m: CastMember<R>, owner: TitleRef, c: Credit<R>) -> bool {
    &&& c.person@ == person_id_spec(m.external_person_id.value@)
    &&& c.title == owner
    &&& c.role == m.role
    &&& c.character == m.character
    &&& c.order == m.order
}

/// The ids of the cast members whose provider is `tmdb`, in cast order: those whose
/// details can be fetched.
pub open spec fn refreshable<R>(cast: Seq<CastMember<R>>) -> Seq<Seq<char>>
    decreases cast.len(),
{
    if cast.len() == 0 {
        Seq::empty()
    } else {
        let rest = refreshable(cast.drop_last());
        if cast.last().external_person_id.source@ == "tmdb"@ {
            rest.push(person_id_spec(cast.last().external_person_id.value@))
        } else {
            rest
        }
    }
}

/// A tag of `kind` named `name`, with its derived id.
pub open spec fn tag_of(kind: Seq<char>, name: Seq<char>, t: Tag) -> bool {
    t.name@ == name && t.id@ == uuid_v5_url(id_name(kind, name))
}

fn tags(kind: &str, names: &[String]) -> (r: Vec<Tag>)
    ensures
        r.len() == names.len(),
        forall|k: int| 0 <= k < r.len() ==> tag_of(kind@, names@[k]@, #[trigger] r@[k]),
{
    let mut out: Vec<Tag> = Vec::new();
    let mut i: usize = 0;
    while i < names.len()
        invariant
            i <= names.len(),
            out.len() == i,
            forall|k: int| 0 <= k < i ==> tag_of(kind@, names@[k]@, #[trigger] out@[k]),
        decreases names.len() - i,
    {
        let t = Tag { id: derive_id(kind, names[i].as_str()), name: names[i].clone() };
        out.push(t);
        i = i + 1;
    }
    out
}

/// What enriching `owner` with a provider's cast, genres and studios writes: one bare
/// person row and one credit per cast member, in cast order; one tag per genre and per
/// studio, with ids derived from their names; and the people to fetch details of.
pub fn enrichment_of<R: Copy>(owner: &TitleRef, cast: &[CastMember<R>], genres: &[String], studios: &[String]) -> (r: Enrichment<R>)
    ensures
        r.people.len() == cast.len(),
        r.credits.len() == cast.len(),
        forall|k: int| 0 <= k < cast.len() ==> bare_person(cast@[k], #[trigger] r.people@[k]),
        forall|k: int| 0 <= k < cast.len() ==> credit_of(cast@[k], *owner, #[trigger] r.credits@[k]),
        r.to_refresh@.map_values(|s: String| s@) == refreshable(cast@),
        r.genres.len() == genres.len(),
        forall|k: int| 0 <= k < genres.len() ==> tag_of("genre"@, genres@[k]@, #[trigger] r.genres@[k]),
        r.studios.len() == studios.len(),
        forall|k: int| 0 <= k < studios.len() ==> tag_of("studio"@, studios@[k]@, #[trigger] r.studios@[k]),
{
    let mut people: Vec<Person> = Vec::new();
    let mut credits: Vec<Credit<R>> = Vec::new();
    let mut to_refresh: Vec<String> = Vec::new();
    let mut i: usize = 0;
    proof {
        reveal_strlit("person");
        reveal_strlit("tmdb");
    }
    while i < cast.len()
        invariant
            i <= cast.len(),
            people.len() == i,
            credits.len() == i,
            forall|k: int| 0 <= k < i ==> bare_person(cast@[k], #[trigger] people@[k]),
            forall|k: int| 0 <= k < i ==> credit_of(cast@[k], *owner, #[trigger] credits@[k]),
            to_refresh@.map_values(|s: String| s@) == refreshable(cast@.subrange(0, i as int)),
        decreases cast.len() - i,
    {
        let m = &cast[i];
        let id = derive_id("person", m.external_person_id.value.as_str());
        assert(cast@.subrange(0, i + 1).drop_last() =~= cast@.subrange(0, i as int));
        if str_eq(m.external_person_id.source.as_str(), "tmdb") {
            let ghost prev = to_refresh@.map_values(|s: String| s@);
            to_refresh.push(id.clone());
            assert(to_refresh@.map_values(|s: String| s@) =~= prev.push(id@));
        }
        people.push(Person {
            id: id.clone(),
            name: m.name.clone(),
            external_id: Some(m.external_person_id.value.clone()),
            biography: None,
            birthday: None,
            deathday: None,
            place_of_birth: None,
            also_known_as: Vec::new(),
        });
        credits.push(Credit {
            person: id,
            title: match owner {
                TitleRef::Movie(x) => TitleRef::Movie(x.clone()),
                TitleRef::Series(x) => TitleRef::Series(x.clone()),
            },
            role: m.role,
            character: crate::catalog::copy_opt(&m.character),
            order: m.order,
        });
        i = i + 1;
    }
    assert(cast@.subrange(0, cast.len() as int) =~= cast@);
    Enrichment {
        people,
        credits,
        genres: tags("genre", genres),
        studios: tags("studio", studios),
        to_refresh,
    }
}

/// What a provider says of a person.
#[derive(Debug, Clone, PartialEq, Eq)]
pub struct PersonMetadata {
    pub name: String,
    pub biography: Option<String>,
    pub birthday: Option<String>,
    pub deathday: Option<String>,
    pub place_of_birth: Option<String>,
    pub also_known_as: Vec<String>,
}

/// The provider id a person refresh fetches by: only with the provider id stored, and,
/// unless forced, only while the person has no biography yet.
pub fn person_refresh_id(person: &Person, force: bool) -> (r: Option<ExternalId>)
    ensures
        r == if !force && person.biography is Some {
            None
        } else {
            match person.external_id {
                Some(v) => Some(ExternalId { source: r->Some_0.source, value: v }),
                None => None,
            }
        },
        r matches Some(id) ==> id.source@ == "tmdb"@,
{
    if !force && person.biography.is_some() {
        return None;
    }
    match &person.external_id {
        Some(v) => {
            let id = ExternalId { source: "tmdb".to_owned(), value: v.clone() };
            proof {
                reveal_strlit("tmdb");
            }
            Some(id)
        },
        None => None,
    }
}

/// The provider's value where it gives one, else the stored one.
pub open spec fn given_or<T>(given: Option<T>, stored: Option<T>) -> Option<T> {
    match given {
        Some(v) => Some(v),
        None => stored,
    }
}

/// A person after a refresh: each detail the provider gives (a name that is not empty, a
/// list of other names that is not empty) replaces the stored one; the rest is kept.
pub fn refreshed_person(person: Person, meta: PersonMetadata) -> (r: Person)
    ensures
        r.id == person.id,
        r.external_id == person.external_id,
        r.name == if meta.name@.len() == 0 { person.name } else { meta.name },
        r.biography == given_or(meta.biography, person.biography),
        r.birthday == given_or(meta.birthday, person.birthday),
        r.deathday == given_or(meta.deathday, person.deathday),
        r.place_of_birth == given_or(meta.place_of_birth, person.place_of_birth),
        r.also_known_as == if meta.also_known_as@.len() == 0 { person.also_known_as } else { meta.also_known_as },
{
    let mut updated = person;
    if meta.name.unicode_len() != 0 {
        updated.name = meta.name;
    }
    if meta.biography.is_some() {
        updated.biography = meta.biography;
    }
    if meta.birthday.is_some() {
        updated.birthday = meta.birthday;
    }
    if meta.deathday.is_some() {
        updated.deathday = meta.deathday;
    }
    if meta.place_of_birth.is_some() {
        updated.place_of_birth = meta.place_of_birth;
    }
    if meta.also_known_as.len() != 0 {
        updated.also_known_as = meta.also_known_as;
    }
    updated
}

/// The collection id of a provider's collection.
pub open spec fn collection_id_spec(id: ExternalId) -> Seq<char> {
    uuid_v5_url(id_name("collection"@, id.source@ + ":"@ + id.value@))
}

/// The id of the catalog collection for a provider's collection.
pub fn collection_id_of(id: &ExternalId) -> (r: String)
    ensures
        r@ == collection_id_spec(*id),
{
    let mut key = crate::chars::chars_of(id.source.as_str());
    key.push(':');
    crate::fmt::extend(&mut key, &crate::chars::chars_of(id.value.as_str()));
    proof {
        reveal_strlit(":");
        reveal_strlit("collection");
    }
    assert(key@ =~= id.source@ + ":"@ + id.value@);
    let text = crate::chars::string_of(&key);
    derive_id("collection", text.as_str())
}

/// A collection row as an ingest keeps it.
#[derive(Debug, Clone, PartialEq, Eq)]
pub struct CollectionRow {
    pub id: String,
    pub name: String,
    pub overview: Option<String>,
    pub movies: Vec<String>,
    pub added_at: Timestamp,
    pub updated_at: Timestamp,
}

/// The collection after `movie` is attached at `now`: an existing collection gains the
/// movie at the end unless it holds it already and is marked updated; a new one is made
/// with the provider's name and just the movie.
pub fn with_member(existing: Option<CollectionRow>, id: String, name: &str, movie: &str, now: Timestamp) -> (r: CollectionRow)
    ensures
        match existing {
            Some(c) => r == (CollectionRow { movies: r.movies, updated_at: now, ..c })
                && r.movies@.map_values(|s: String| s@) == if crate::discovery::in_ids(c.movies@, movie@) {
                    c.movies@.map_values(|s: String| s@)
                } else {
                    c.movies@.map_values(|s: String| s@).push(movie@)
                },
            None => r.id == id && r.name@ == name@ && r.overview is None
                && r.movies@.map_values(|s: String| s@) == seq![movie@]
                && r.added_at == now && r.updated_at == now,
        },
{
    match existing {
        Some(c) => {
            let mut row = c;
            let ghost before = row.movies@.map_values(|s: String| s@);
            if !crate::discovery::contains_id(&row.movies, movie) {
                row.movies.push(movie.to_owned());
                assert(row.movies@.map_values(|s: String| s@) =~= before.push(movie@));
            }
            row.updated_at = now;
            row
        },
        None => {
            let mut movies: Vec<String> = Vec::new();
            movies.push(movie.to_owned());
            assert(movies@.map_values(|s: String| s@) =~= seq![movie@]);
            CollectionRow { id, name: name.to_owned(), overview: None, movies, added_at: now, updated_at: now }
        },
    }
}

/// What kind of title a metadata search asks for.
#[derive(Debug, Clone, Copy, PartialEq, Eq, Structural)]
pub enum MediaKind {
    Movie,
    Series,
}

/// A search hit of a metadata provider.
#[derive(Debug, Clone, PartialEq, Eq)]
pub struct MetadataMatch {
    pub external_id: ExternalId,
    pub title: String,
    pub year: Option<u16>,
    pub kind: MediaKind,
}

/// The hit a search settles on: with a year, the first hit of that year; without one,
/// the first hit.
pub open spec fn pick_spec(hits: Seq<MetadataMatch>, year: Option<u16>, i: int) -> Option<int>
    decreases hits.len() - i,
{
    if i < 0 || i >= hits.len() {
        None
    } else {
        match year {
            None => Some(i),
            Some(y) => if hits[i].year == Some(y) {
                Some(i)
            } else {
                pick_spec(hits, year, i + 1)
            },
        }
    }
}

fn pick_from(hits: &[MetadataMatch], year: Option<u16>, i: usize) -> (r: Option<usize>)
    requires
        i <= hits.len(),
    ensures
        match r {
            Some(j) => pick_spec(hits@, year, i as int) == Some(j as int) && j < hits.len(),
            None => pick_spec(hits@, year, i as int) is None,
        },
    decreases hits.len() - i,
{
    if i == hits.len() {
        return None;
    }
    match year {
        None => Some(i),
        Some(y) => {
            if hits[i].year == Some(y) {
                Some(i)
            } else {
                pick_from(hits, year, i + 1)
            }
        },
    }
}

/// Which search hit to fetch the metadata of, if any.
pub fn pick_candidate(hits: &[MetadataMatch], year: Option<u16>) -> (r: Option<usize>)
    ensures
        match r {
            Some(j) => pick_spec(hits@, year, 0) == Some(j as int) && j < hits.len(),
            None => pick_spec(hits@, year, 0) is None,
        },
{
    pick_from(hits, year, 0)
}

/// Where a refresh's metadata comes from.
#[derive(Debug, Clone, PartialEq, Eq)]
pub enum MetadataSource {
    /// Fetched by the provider id.
    ById(ExternalId),
    /// Searched by title and year.
    Search,
}

/// A refresh fetches by the id it was given, else by the stored provider id, else it
/// searches by title and year.
pub fn refresh_source(given: Option<&ExternalId>, stored: Option<ExternalId>) -> (r: MetadataSource)
    ensures
        r == match given {
            Some(id) => MetadataSource::ById(*id),
            None => match stored {
                Some(id) => MetadataSource::ById(id),
                None => MetadataSource::Search,
            },
        },
{
    match given {
        Some(id) => MetadataSource::ById(ExternalId { source: id.source.clone(), value: id.value.clone() }),
        None => match stored {
            Some(id) => MetadataSource::ById(id),
            None => MetadataSource::Search,
        },
    }
}

} // verus!
