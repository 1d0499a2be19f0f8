use mashup::codec::decode_artist;
use mashup::codec::decode_cover_art;
use mashup::codec::encode_artist;
use mashup::codec::image_from_cover_art_response;
use mashup::AlbumReference;
use mashup::ArtistReference;
use mashup::DecodeError;
use mashup::ErrorCause;
use mashup::ResourceError;
use mashup::TypedIOError;

#[test]
fn test_image_from_cover_art_response() {
    let payload = "{\"images\":[{\"front\":true,\"image\":\"http://coverartarchive.org/release/a146429a-cedc-3ab0-9e41-1aaf5f6cdc2d/3012495605.jpg\"}]}";

    let response = image_from_cover_art_response(payload);

    assert_eq!(
        "http://coverartarchive.org/release/a146429a-cedc-3ab0-9e41-1aaf5f6cdc2d/3012495605.jpg",
        response.unwrap()
    );
}

#[test]
fn test_first_front_image_is_selected() {
    let payload = "{\"images\":[{\"front\":false,\"image\":\"U0\"},{\"front\":true,\"image\":\"U1\"},{\"front\":true,\"image\":\"U2\"}]}";

    assert_eq!("U1", image_from_cover_art_response(payload).unwrap());
}

#[test]
fn test_no_front_image_is_a_defect() {
    let payload = "{\"images\":[{\"front\":false,\"image\":\"U0\"}]}";

    assert_eq!(
        Err(DecodeError::NoFrontImage),
        image_from_cover_art_response(payload)
    );
}

#[test]
fn test_empty_image_list_has_no_front_image() {
    let payload = "{\"images\":[]}";

    assert!(decode_cover_art(payload).unwrap().images.is_empty());
    assert_eq!(
        Err(DecodeError::NoFrontImage),
        image_from_cover_art_response(payload)
    );
}

#[test]
fn test_malformed_cover_art_is_rejected() {
    assert_eq!(
        Err(DecodeError::MalformedCoverArt),
        image_from_cover_art_response("not a payload")
    );
    assert_eq!(
        Err(DecodeError::MalformedCoverArt),
        image_from_cover_art_response("{\"images\":[]}trailing")
    );
    assert_eq!(
        Err(DecodeError::MalformedCoverArt),
        image_from_cover_art_response("{\"images\":[{\"front\":maybe,\"image\":\"U\"}]}")
    );
    assert_eq!(
        Err(DecodeError::MalformedCoverArt),
        image_from_cover_art_response("{\"images\":[{\"front\":true,\"image\":\"U\"},]}")
    );
}

#[test]
fn test_decode_artist_keeps_release_group_order() {
    let payload =
        "{\"name\":\"Queen\",\"release-groups\":[{\"id\":\"B1\",\"title\":\"T1\"},{\"id\":\"B2\",\"title\":\"T2\"}]}";

    let artist = decode_artist(payload).unwrap();

    assert_eq!("Queen", artist.name);
    assert_eq!(2, artist.albums.len());
    assert_eq!("B1", artist.albums[0].id);
    assert_eq!("T1", artist.albums[0].title);
    assert!(artist.albums[0].image.is_none());
    assert!(!artist.albums[0].error);
    assert_eq!("B2", artist.albums[1].id);
    assert_eq!("T2", artist.albums[1].title);
    assert!(artist.albums[1].image.is_none());
    assert!(!artist.albums[1].error);
}

#[test]
fn test_decode_artist_empty_release_groups() {
    let payload = "{\"name\":\"X\",\"release-groups\":[]}";

    let artist = decode_artist(payload).unwrap();

    assert_eq!("X", artist.name);
    assert!(artist.albums.is_empty());
}

#[test]
fn test_malformed_artist_is_rejected() {
    assert_eq!(
        Err(DecodeError::MalformedArtist),
        decode_artist("").map(|a| a.name)
    );
    assert_eq!(
        Err(DecodeError::MalformedArtist),
        decode_artist("{\"name\":\"X\"}").map(|a| a.name)
    );
    assert_eq!(
        Err(DecodeError::MalformedArtist),
        decode_artist("{\"name\":\"X\",\"release-groups\":[]}trailing").map(|a| a.name)
    );
    assert_eq!(
        Err(DecodeError::MalformedArtist),
        decode_artist("{\"name\":\"X\",\"release-groups\":[{\"id\":\"B\",\"title\":\"T\"},]}")
            .map(|a| a.name)
    );
}

#[test]
fn test_encode_artist_with_and_without_image() {
    let artist = ArtistReference {
        name: "A1Name".to_string(),
        albums: vec![
            AlbumReference {
                id: "B1".to_string(),
                title: "T1".to_string(),
                image: Some("http://cover/B1.jpg".to_string()),
                error: false,
            },
            AlbumReference {
                id: "B2".to_string(),
                title: "T2".to_string(),
                image: None,
                error: true,
            },
        ],
    };

    assert_eq!(
        "{\"name\":\"A1Name\",\"albums\":[{\"id\":\"B1\",\"title\":\"T1\",\"image\":\"http://cover/B1.jpg\",\"error\":false},{\"id\":\"B2\",\"title\":\"T2\",\"image\":null,\"error\":true}]}",
        encode_artist(&artist)
    );
}

#[test]
fn test_encode_artist_empty_albums() {
    let artist = ArtistReference {
        name: "X".to_string(),
        albums: Vec::new(),
    };

    assert_eq!("{\"name\":\"X\",\"albums\":[]}", encode_artist(&artist));
}

#[test]
fn test_with_image_touches_only_the_image() {
    let mut album = AlbumReference {
        id: "B1".to_string(),
        title: "T1".to_string(),
        image: None,
        error: false,
    };

    album.with_image("http://cover/B1.jpg".to_string());

    assert_eq!("B1", album.id);
    assert_eq!("T1", album.title);
    assert_eq!(Some("http://cover/B1.jpg".to_string()), album.image);
    assert!(!album.error);
}

#[test]
fn test_placeholder_from_album_error() {
    let err = ResourceError::AlbumError {
        artist_id: "A1".to_string(),
        album_id: "B2".to_string(),
        album_title: Some("T2".to_string()),
        cause: TypedIOError {
            resource: "http://coverartarchive.org/release-group/B2".to_string(),
            cause: ErrorCause::Status(404),
        },
    };

    let placeholder = AlbumReference::from(err);

    assert_eq!("B2", placeholder.id);
    assert_eq!("T2", placeholder.title);
    assert!(placeholder.image.is_none());
    assert!(placeholder.error);
}

#[test]
fn test_narrowing_to_the_transport_error() {
    let cause = TypedIOError {
        resource: "http://musicbrainz.org/ws/2/artist/A1".to_string(),
        cause: ErrorCause::Status(503),
    };
    let err = ResourceError::ArtistError {
        artist_id: "A1".to_string(),
        cause: cause.clone(),
    };

    assert_eq!(cause, TypedIOError::from(err));
}
