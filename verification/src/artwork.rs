use vstd::prelude::*;

verus! {

/// What a piece of artwork shows.
#[derive(Debug, Clone, Copy, PartialEq, Eq, Structural)]
pub enum ArtworkKind {
    Poster,
    Backdrop,
    Banner,
    Logo,
    ClearArt,
}

/// What a piece of artwork belongs to, by id.
#[derive(Debug, Clone, PartialEq, Eq)]
pub enum ArtworkOwner {
    Movie(String),
    Series(String),
    Season(String),
    Episode(String),
    Collection(String),
    Person(String),
}

/// A piece of artwork a metadata provider offers.
#[derive(Debug, Clone, PartialEq, Eq)]
pub struct Artwork {
    pub kind: ArtworkKind,
    pub url: String,
}

/// One image to download.
#[derive(Debug, Clone, PartialEq, Eq)]
pub struct ArtworkJobItem {
    pub id: String,
    pub kind: ArtworkKind,
    pub url: String,
}

/// A job that downloads the images of one owner.
#[derive(Debug, Clone, PartialEq, Eq)]
pub struct ArtworkJobPayload {
    pub owner: ArtworkOwner,
    pub items: Vec<ArtworkJobItem>,
}

/// Calls `uuid::Uuid::new_v4` and writes it out. Nothing is claimed of the id: it is
/// random.
#[verifier::external_body]
fn random_id() -> (r: String) {
    uuid::Uuid::new_v4().to_string()
}

/// Only posters and backdrops are downloaded.
pub open spec fn downloaded(kind: ArtworkKind) -> bool {
    kind == ArtworkKind::Poster || kind == ArtworkKind::Backdrop
}

/// The kind and address of each poster and backdrop of `artwork`, in order.
pub open spec fn kept_art(artwork: Seq<Artwork>) -> Seq<(ArtworkKind, Seq<char>)>
    decreases artwork.len(),
{
    if artwork.len() == 0 {
        Seq::empty()
    } else {
        let rest = kept_art(artwork.drop_last());
        if downloaded(artwork.last().kind) {
            rest.push((artwork.last().kind, artwork.last().url@))
        } else {
            rest
        }
    }
}

pub open spec fn item_view(i: ArtworkJobItem) -> (ArtworkKind, Seq<char>) {
    (i.kind, i.url@)
}

/// The download job for an owner's artwork: its posters and backdrops, in order, each
/// under a fresh random id; nothing when it has neither.
pub fn artwork_payload(owner: ArtworkOwner, artwork: Vec<Artwork>) -> (r: Option<ArtworkJobPayload>)
    ensures
        (r is None) == (kept_art(artwork@).len() == 0),
        r matches Some(p) ==> p.owner == owner
            && p.items@.map_values(|i: ArtworkJobItem| item_view(i)) == kept_art(artwork@),
{
    let ghost all = artwork@;
    let mut rest = artwork;
    let mut items: Vec<ArtworkJobItem> = Vec::new();
    let ghost mut done: Seq<Artwork> = Seq::empty();
    while rest.len() > 0
        invariant
            all == done + rest@,
            items@.map_values(|i: ArtworkJobItem| item_view(i)) == kept_art(done),
        decreases rest.len(),
    {
        let art = rest.remove(0);
        proof {
            assert(done.push(art).drop_last() =~= done);
            assert(all =~= done.push(art) + rest@);
        }
        if art.kind == ArtworkKind::Poster || art.kind == ArtworkKind::Backdrop {
            let ghost prev = items@.map_values(|i: ArtworkJobItem| item_view(i));
            let item = ArtworkJobItem { id: random_id(), kind: art.kind, url: art.url };
            items.push(item);
            assert(items@.map_values(|i: ArtworkJobItem| item_view(i)) =~= prev.push(item_view(item)));
        }
        proof {
            done = done.push(art);
        }
    }
    assert(done =~= all);
    if items.len() == 0 {
        None
    } else {
        Some(ArtworkJobPayload { owner, items })
    }
}

} // verus!
