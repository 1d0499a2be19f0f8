use mashup::resource::cover_art_url;
use mashup::resource::musicbrainz_url;
use mashup::resource::Provider;

#[test]
fn test_extract_id_from_url() {
    let mb: String = musicbrainz_url("1289836171-250");

    assert_eq!("1289836171-250", Provider::extract_id(&mb).unwrap());
}

#[test]
fn test_extract_id_from_cover_art_url() {
    let ca = cover_art_url("5b11f4ce-a62d-471e-81fc-a69a8278c7da");

    assert_eq!(
        "5b11f4ce-a62d-471e-81fc-a69a8278c7da",
        Provider::extract_id(&ca).unwrap()
    );
}

#[test]
fn test_extract_id_rejects_a_non_url() {
    assert_eq!(None, Provider::extract_id("not a url at all"));
}

#[test]
fn test_provider_urls() {
    assert_eq!(
        "http://musicbrainz.org/ws/2/artist/abc?&fmt=json&inc=url-rels+release-groups",
        musicbrainz_url("abc")
    );
    assert_eq!("http://coverartarchive.org/release-group/xyz", cover_art_url("xyz"));
}

#[test]
fn test_provider_file_names() {
    assert_eq!("ca_123.json", Provider::CoverArt.format_file_name("123"));
    assert_eq!("mb_123.json", Provider::Musicbrainz.format_file_name("123"));
}
