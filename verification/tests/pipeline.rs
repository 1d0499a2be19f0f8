use std::cell::Cell;

use mashup::codec::encode_artist;
use mashup::pipeline::query;
use mashup::pipeline::query_cover_art;
use mashup::AlbumReference;
use mashup::DecodeError;
use mashup::ErrorCause;
use mashup::QueryError;
use mashup::ResourceError;
use mashup::TypedIOError;

fn album(id: &str, title: &str) -> AlbumReference {
    AlbumReference {
        id: id.to_string(),
        title: title.to_string(),
        image: None,
        error: false,
    }
}

fn cover_payload(url: &str) -> String {
    format!("{{\"images\":[{{\"front\":true,\"image\":\"{}\"}}]}}", url)
}

fn status_error(resource: &str, code: u16) -> TypedIOError {
    TypedIOError {
        resource: resource.to_string(),
        cause: ErrorCause::Status(code),
    }
}

#[test]
fn test_enrich_preserves_length_and_order() {
    let albums = vec![album("B1", "T1"), album("B2", "T2"), album("B3", "T3")];

    let out = query_cover_art("A1", albums, |id: String| {
        if id == "B2" {
            Err(status_error("http://coverartarchive.org/release-group/B2", 404))
        } else {
            Ok(cover_payload(&format!("http://img/{}.jpg", id)))
        }
    })
    .unwrap();

    assert_eq!(3, out.len());
    assert_eq!("B1", out[0].id);
    assert_eq!("B2", out[1].id);
    assert_eq!("B3", out[2].id);
}

#[test]
fn test_enrich_all_success_attaches_every_image() {
    let albums = vec![album("B1", "T1"), album("B2", "T2")];

    let out = query_cover_art("A1", albums, |id: String| {
        Ok(cover_payload(&format!("http://img/{}.jpg", id)))
    })
    .unwrap();

    for entry in &out {
        assert!(!entry.error);
        assert!(entry.image.is_some());
        assert!(!entry.image.as_ref().unwrap().is_empty());
    }
    assert_eq!(Some("http://img/B1.jpg".to_string()), out[0].image);
    assert_eq!(Some("http://img/B2.jpg".to_string()), out[1].image);
}

#[test]
fn test_enrich_isolates_a_failed_lookup() {
    let albums = vec![album("B1", "T1"), album("B2", "T2")];

    let out = query_cover_art("A1", albums, |id: String| {
        if id == "B2" {
            Err(status_error("http://coverartarchive.org/release-group/B2", 500))
        } else {
            Ok(cover_payload("http://img/B1.jpg"))
        }
    })
    .unwrap();

    assert_eq!(Some("http://img/B1.jpg".to_string()), out[0].image);
    assert!(!out[0].error);
    assert_eq!("B2", out[1].id);
    assert_eq!("T2", out[1].title);
    assert!(out[1].image.is_none());
    assert!(out[1].error);
}

#[test]
fn test_enrich_empty_album_list() {
    let out = query_cover_art("A1", Vec::new(), |_: String| {
        Ok(cover_payload("http://img/unused.jpg"))
    })
    .unwrap();

    assert!(out.is_empty());
}

#[test]
fn test_enrich_aborts_on_undecodable_cover_art() {
    let albums = vec![album("B1", "T1")];

    let r = query_cover_art("A1", albums, |_: String| Ok("junk".to_string()));

    assert_eq!(Err(DecodeError::MalformedCoverArt), r.map(|_| ()));
}

#[test]
fn test_query_merges_artist_and_cover_art() {
    let artist_payload =
        "{\"name\":\"A1Name\",\"release-groups\":[{\"id\":\"B1\",\"title\":\"T1\"},{\"id\":\"B2\",\"title\":\"T2\"}]}";

    let result = query(
        "A1",
        |arg: String| {
            assert_eq!("A1", arg);
            Ok(artist_payload.to_string())
        },
        |id: String| {
            if id == "B1" {
                Ok(cover_payload("http://cover/B1.jpg"))
            } else {
                Err(status_error("http://coverartarchive.org/release-group/B2", 404))
            }
        },
    )
    .unwrap();

    assert_eq!("A1Name", result.name);
    assert_eq!(2, result.albums.len());
    assert_eq!(
        "{\"name\":\"A1Name\",\"albums\":[{\"id\":\"B1\",\"title\":\"T1\",\"image\":\"http://cover/B1.jpg\",\"error\":false},{\"id\":\"B2\",\"title\":\"T2\",\"image\":null,\"error\":true}]}",
        encode_artist(&result)
    );
}

#[test]
fn test_query_wraps_artist_fetch_failure_and_fetches_no_cover_art() {
    let cover_calls = Cell::new(0);

    let result = query(
        "A1",
        |arg: String| {
            Err(status_error(
                &format!("http://musicbrainz.org/ws/2/artist/{}", arg),
                503,
            ))
        },
        |_: String| {
            cover_calls.set(cover_calls.get() + 1);
            Ok(cover_payload("http://img/unused.jpg"))
        },
    );

    match result {
        Err(QueryError::Resource(ResourceError::ArtistError { artist_id, cause })) => {
            assert_eq!("A1", artist_id);
            assert_eq!(ErrorCause::Status(503), cause.cause);
            assert_eq!("http://musicbrainz.org/ws/2/artist/A1", cause.resource);
        }
        other => panic!("expected an artist-level error, got {:?}", other),
    }
    assert_eq!(0, cover_calls.get());
}

#[test]
fn test_query_reports_malformed_artist_payload() {
    let result = query(
        "A1",
        |_: String| Ok("nonsense".to_string()),
        |_: String| Ok(cover_payload("http://img/unused.jpg")),
    );

    match result {
        Err(QueryError::Decode(e)) => assert_eq!(DecodeError::MalformedArtist, e),
        other => panic!("expected a decode defect, got {:?}", other),
    }
}

#[test]
fn test_query_reports_cover_art_defect() {
    let artist_payload = "{\"name\":\"X\",\"release-groups\":[{\"id\":\"B1\",\"title\":\"T1\"}]}";

    let result = query(
        "A1",
        |_: String| Ok(artist_payload.to_string()),
        |_: String| Ok("{\"images\":[]}".to_string()),
    );

    match result {
        Err(QueryError::Decode(e)) => assert_eq!(DecodeError::NoFrontImage, e),
        other => panic!("expected a decode defect, got {:?}", other),
    }
}
