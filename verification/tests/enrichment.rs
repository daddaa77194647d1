use services::cards::TitleRef;
use services::catalog::Timestamp;
use services::enrich::derive_id;
use services::enrichment::{
    collection_id_of, enrichment_of, person_refresh_id, refreshed_person, with_member, CastMember, CollectionRow, Person,
    PersonMetadata,
};
use services::parse::ExternalId;

#[derive(Debug, Clone, Copy, PartialEq, Eq)]
enum Role {
    Actor,
    Director,
}

fn id(source: &str, value: &str) -> ExternalId {
    ExternalId { source: source.into(), value: value.into() }
}

fn member(source: &str, value: &str, name: &str, role: Role) -> CastMember<Role> {
    CastMember { external_person_id: id(source, value), name: name.into(), role, character: None, order: Some(1) }
}

fn at(n: i128) -> Timestamp {
    Timestamp { nanosecond: n }
}

fn person(biography: Option<&str>, external: Option<&str>) -> Person {
    Person {
        id: "p1".into(),
        name: "Ada".into(),
        external_id: external.map(str::to_owned),
        biography: biography.map(str::to_owned),
        birthday: Some("1815-12-10".into()),
        deathday: None,
        place_of_birth: None,
        also_known_as: vec!["A. L.".into()],
    }
}

#[test]
fn an_enrichment_credits_every_cast_member_in_order() {
    let owner = TitleRef::Movie("m1".into());
    let cast = vec![
        CastMember { character: Some("Neo".into()), ..member("tmdb", "6384", "Keanu", Role::Actor) },
        member("imdb", "nm0905154", "Lana", Role::Director),
    ];
    let e = enrichment_of(&owner, &cast, &["Action".to_owned()], &["Warner".to_owned(), "Village".to_owned()]);
    assert_eq!(e.people.len(), 2);
    assert_eq!(e.people[0].id, derive_id("person", "6384"));
    assert_eq!(e.people[0].name, "Keanu");
    assert_eq!(e.people[0].external_id.as_deref(), Some("6384"));
    assert_eq!(e.people[1].id, derive_id("person", "nm0905154"));
    assert_eq!(e.credits[0].person, e.people[0].id);
    assert_eq!(e.credits[0].title, owner);
    assert_eq!(e.credits[0].character.as_deref(), Some("Neo"));
    assert_eq!(e.credits[1].role, Role::Director);
    assert_eq!(e.to_refresh, vec![derive_id("person", "6384")]);
    assert_eq!(e.genres[0].id, derive_id("genre", "Action"));
    assert_eq!(e.genres[0].name, "Action");
    assert_eq!(e.studios.iter().map(|s| s.name.as_str()).collect::<Vec<_>>(), ["Warner", "Village"]);
    assert_eq!(e.studios[1].id, derive_id("studio", "Village"));
}

#[test]
fn an_enrichment_without_cast_names_nobody() {
    let e = enrichment_of::<Role>(&TitleRef::Series("s1".into()), &[], &[], &[]);
    assert!(e.people.is_empty() && e.credits.is_empty() && e.to_refresh.is_empty());
    assert!(e.genres.is_empty() && e.studios.is_empty());
}

#[test]
fn a_person_with_a_biography_is_refreshed_only_when_forced() {
    assert_eq!(person_refresh_id(&person(Some("bio"), Some("1")), false), None);
    assert_eq!(person_refresh_id(&person(Some("bio"), Some("1")), true), Some(id("tmdb", "1")));
    assert_eq!(person_refresh_id(&person(None, Some("1")), false), Some(id("tmdb", "1")));
    assert_eq!(person_refresh_id(&person(None, None), true), None);
}

#[test]
fn a_refresh_replaces_only_what_the_provider_gives() {
    let meta = PersonMetadata {
        name: String::new(),
        biography: Some("Mathematician".into()),
        birthday: None,
        deathday: Some("1852-11-27".into()),
        place_of_birth: None,
        also_known_as: Vec::new(),
    };
    let p = refreshed_person(person(None, Some("1")), meta);
    assert_eq!(p.name, "Ada");
    assert_eq!(p.biography.as_deref(), Some("Mathematician"));
    assert_eq!(p.birthday.as_deref(), Some("1815-12-10"));
    assert_eq!(p.deathday.as_deref(), Some("1852-11-27"));
    assert_eq!(p.also_known_as, vec!["A. L.".to_owned()]);
    let renamed = PersonMetadata {
        name: "Augusta Ada King".into(),
        biography: None,
        birthday: None,
        deathday: None,
        place_of_birth: Some("London".into()),
        also_known_as: vec!["Countess of Lovelace".into()],
    };
    let p = refreshed_person(person(None, Some("1")), renamed);
    assert_eq!(p.name, "Augusta Ada King");
    assert_eq!(p.place_of_birth.as_deref(), Some("London"));
    assert_eq!(p.also_known_as, vec!["Countess of Lovelace".to_owned()]);
}

#[test]
fn a_collection_id_comes_from_the_provider_id() {
    assert_eq!(collection_id_of(&id("tmdb", "2344")), derive_id("collection", "tmdb:2344"));
    assert_ne!(collection_id_of(&id("tmdb", "2344")), collection_id_of(&id("tmdb", "2345")));
}

#[test]
fn attaching_a_movie_adds_it_once() {
    let new = with_member(None, "c1".into(), "The Matrix Collection", "m1", at(5));
    assert_eq!(new.movies, vec!["m1".to_owned()]);
    assert_eq!(new.name, "The Matrix Collection");
    assert_eq!((new.added_at, new.updated_at), (at(5), at(5)));
    let grown = with_member(Some(new.clone()), "ignored".into(), "ignored", "m2", at(7));
    assert_eq!(grown.movies, vec!["m1".to_owned(), "m2".to_owned()]);
    assert_eq!(grown.id, "c1");
    assert_eq!((grown.added_at, grown.updated_at), (at(5), at(7)));
    let same: CollectionRow = with_member(Some(grown.clone()), "c1".into(), "x", "m1", at(9));
    assert_eq!(same.movies, grown.movies);
    assert_eq!(same.updated_at, at(9));
}

use services::enrichment::{pick_candidate, refresh_source, MediaKind, MetadataMatch, MetadataSource};

fn hit(value: &str, year: Option<u16>) -> MetadataMatch {
    MetadataMatch { external_id: id("tmdb", value), title: "Dune".into(), year, kind: MediaKind::Movie }
}

#[test]
fn a_search_with_a_year_takes_the_first_hit_of_that_year() {
    let hits = [hit("1", Some(1984)), hit("2", Some(2021)), hit("3", Some(2021))];
    assert_eq!(pick_candidate(&hits, Some(2021)), Some(1));
    assert_eq!(pick_candidate(&hits, Some(1984)), Some(0));
    assert_eq!(pick_candidate(&hits, Some(2000)), None);
}

#[test]
fn a_search_without_a_year_takes_the_first_hit() {
    assert_eq!(pick_candidate(&[hit("1", None), hit("2", Some(1))], None), Some(0));
    assert_eq!(pick_candidate(&[], None), None);
    assert_eq!(pick_candidate(&[hit("1", None)], Some(1999)), None);
}

#[test]
fn a_refresh_prefers_the_given_id_then_the_stored_one() {
    let given = id("tmdb", "movie/1");
    assert_eq!(refresh_source(Some(&given), Some(id("tmdb", "movie/2"))), MetadataSource::ById(given.clone()));
    assert_eq!(refresh_source(None, Some(id("tmdb", "movie/2"))), MetadataSource::ById(id("tmdb", "movie/2")));
    assert_eq!(refresh_source(None, None), MetadataSource::Search);
}
