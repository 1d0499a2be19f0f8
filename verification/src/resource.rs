//! Resource naming for the two upstream providers: the URL an identifier
//! resolves to in network mode, the cache file name it resolves to in file
//! mode, and the way an identifier is read back out of a provider URL.

use vstd::prelude::*;
use vstd::string::*;

verus! {

/// The two upstream resource domains, each with its own URL and file-name
/// template.
#[derive(Debug, Clone, Copy, PartialEq, Eq)]
pub enum Provider {
    Musicbrainz,
    CoverArt,
}

/// The artist-metadata URL for an artist id.
pub fn musicbrainz_url(id: &str) -> (r: String)
    ensures
        r@ == "http://musicbrainz.org/ws/2/artist/"@ + id@
            + "?&fmt=json&inc=url-rels+release-groups"@,
{
    let mut s = String::new();
    s.append("http://musicbrainz.org/ws/2/artist/");
    s.append(id);
    s.append("?&fmt=json&inc=url-rels+release-groups");
    proof {
        assert(s@ =~= "http://musicbrainz.org/ws/2/artist/"@ + id@
            + "?&fmt=json&inc=url-rels+release-groups"@);
    }
    s
}

/// The cover-art URL for a release-group id.
pub fn cover_art_url(id: &str) -> (r: String)
    ensures
        r@ == "http://coverartarchive.org/release-group/"@ + id@,
{
    let mut s = String::new();
    s.append("http://coverartarchive.org/release-group/");
    s.append(id);
    s
}

/// The last segment of the path of `url`, if `url` parses as a URL whose
/// path has segments. What parses, and how a path splits into segments,
/// is the `url` crate's affair; the segment depends on the URL text
/// alone.
pub uninterp spec fn url_final_path_segment(url: Seq<char>) -> Option<Seq<char>>;

/// Relies on url::Url::parse and Url::path_segments: parses the URL and
/// takes the last of its path segments, split on `/` with the query and
/// fragment left out.
#[verifier::external_body]
fn final_path_segment(url: &str) -> (r: Option<String>)
    ensures
        r.deep_view() == url_final_path_segment(url@),
{
    match url::Url::parse(url) {
        Ok(parsed) => match parsed.path_segments() {
            Some(segments) => segments.last().map(|s| s.to_string()),
            None => None,
        },
        Err(_) => None,
    }
}

impl Provider {
    /// Reads the resource identifier back out of a provider URL: the last
    /// segment of its path, or nothing if the text does not parse as such
    /// a URL.
    pub fn extract_id(url: &str) -> (r: Option<String>)
        ensures
            r.deep_view() == url_final_path_segment(url@),
    {
        final_path_segment(url)
    }

    /// The cache file name for an identifier under this provider:
    /// `mb_<id>.json` for artist metadata, `ca_<id>.json` for cover art.
    pub fn format_file_name(&self, id: &str) -> (r: String)
        ensures
            (match self {
                Provider::Musicbrainz => r@ == "mb_"@ + id@ + ".json"@,
                Provider::CoverArt => r@ == "ca_"@ + id@ + ".json"@,
            }),
    {
        let mut s = String::new();
        match self {
            Provider::Musicbrainz => s.append("mb_"),
            Provider::CoverArt => s.append("ca_"),
        }
        s.append(id);
        s.append(".json");
        s
    }
}

} // verus!
