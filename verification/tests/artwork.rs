use services::artwork::{artwork_payload, Artwork, ArtworkKind, ArtworkOwner};

fn art(kind: ArtworkKind, url: &str) -> Artwork {
    Artwork { kind, url: url.into() }
}

#[test]
fn only_posters_and_backdrops_are_downloaded() {
    let owner = ArtworkOwner::Movie("m1".into());
    let payload = artwork_payload(
        owner.clone(),
        vec![
            art(ArtworkKind::Logo, "/logo.png"),
            art(ArtworkKind::Poster, "/poster.jpg"),
            art(ArtworkKind::Banner, "/banner.jpg"),
            art(ArtworkKind::Backdrop, "/backdrop.jpg"),
            art(ArtworkKind::ClearArt, "/clear.png"),
        ],
    )
    .unwrap();
    assert_eq!(payload.owner, owner);
    let kept: Vec<(ArtworkKind, &str)> = payload.items.iter().map(|i| (i.kind, i.url.as_str())).collect();
    assert_eq!(kept, [(ArtworkKind::Poster, "/poster.jpg"), (ArtworkKind::Backdrop, "/backdrop.jpg")]);
    assert_ne!(payload.items[0].id, payload.items[1].id);
    assert_eq!(payload.items[0].id.len(), 36);
}

#[test]
fn nothing_to_download_queues_nothing() {
    assert_eq!(artwork_payload(ArtworkOwner::Person("p1".into()), vec![art(ArtworkKind::Logo, "/l.png")]), None);
    assert_eq!(artwork_payload(ArtworkOwner::Collection("c1".into()), Vec::new()), None);
}
