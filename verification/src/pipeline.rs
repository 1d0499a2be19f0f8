//! The enrichment pipeline: the cover-art fan-out engine and the artist
//! query orchestrator.
//!
//! Both are parameterized by fetch capabilities — plain functions from a
//! resource identifier to raw text or a transport failure — so the same
//! verified pipeline serves a network-backed and a file-backed accessor
//! alike, and never branches on which one is in effect.

use vstd::prelude::*;

use crate::codec::decode_artist;
use crate::codec::image_from_cover_art_response;
use crate::codec::spec_decode_artist;
use crate::codec::spec_decode_cover_art;
use crate::codec::spec_front_image;
use crate::codec::album_pairs;
use crate::codec::albums_fresh;
use crate::errors::DecodeError;
use crate::errors::QueryError;
use crate::errors::ResourceError;
use crate::errors::TypedIOError;
use crate::structs::AlbumReference;
use crate::structs::ArtistReference;

verus! {

/// Holds when `img` is the front-image URL carried by the cover-art
/// payload text `t`: the text decodes, has a front image, and `img` is
/// exactly its URL.
pub open spec fn front_attached(img: Option<String>, t: Seq<char>) -> bool {
    match spec_decode_cover_art(t) {
        Some(imgs) => match spec_front_image(imgs) {
            Some(u) => img matches Some(s) && s@ == u,
            None => false,
        },
        None => false,
    }
}

/// Holds when `o` is the input album `a` with the front-image URL of the
/// fetched text `t` attached and every other field kept.
pub open spec fn attaches(o: AlbumReference, a: AlbumReference, t: Seq<char>) -> bool {
    &&& o.id@ == a.id@
    &&& o.title@ == a.title@
    &&& o.error == a.error
    &&& front_attached(o.image, t)
}

/// Holds when `o` is the failure placeholder for the input album `a`:
/// same id and title, no image, error flagged.
pub open spec fn placeholder_for(o: AlbumReference, a: AlbumReference) -> bool {
    &&& o.id@ == a.id@
    &&& o.title@ == a.title@
    &&& o.image is None
    &&& o.error
}

/// Holds when the fetched cover-art text `t` is a decode defect of kind
/// `e`: malformed, or well-formed but without a front image.
pub open spec fn decode_defect(t: Seq<char>, e: DecodeError) -> bool {
    match spec_decode_cover_art(t) {
        Some(imgs) => spec_front_image(imgs) is None && e == DecodeError::NoFrontImage,
        None => e == DecodeError::MalformedCoverArt,
    }
}

/// Holds when `o` is what the fan-out engine may hand back for the input
/// album `a`: either `a` enriched from a successful fetch of `a`'s id, or
/// the placeholder for `a` after a failed fetch of `a`'s id.
pub open spec fn enriched_or_placeholder<F: Fn(String) -> Result<String, TypedIOError>>(
    cover_art: F,
    a: AlbumReference,
    o: AlbumReference,
) -> bool {
    ||| exists|arg: String, ret: Result<String, TypedIOError>|
        {
            &&& #[trigger] call_ensures(cover_art, (arg,), ret)
            &&& arg@ == a.id@
            &&& ret matches Ok(t) && attaches(o, a, t@)
        }
    ||| {
        &&& exists|arg: String, ret: Result<String, TypedIOError>|
            {
                &&& #[trigger] call_ensures(cover_art, (arg,), ret)
                &&& arg@ == a.id@
                &&& ret is Err
            }
        &&& placeholder_for(o, a)
    }
}

/// Everything the fan-out engine promises about its result `r` for the
/// input albums and the cover-art capability: on success, one output entry
/// per input album, in input order, each enriched or a placeholder; a
/// decode defect — and only a decode defect, in a successfully fetched
/// cover-art text for one of the album ids — aborts the enrichment with
/// that defect.
pub open spec fn enrich_post<F: Fn(String) -> Result<String, TypedIOError>>(
    cover_art: F,
    input: Seq<AlbumReference>,
    r: Result<Vec<AlbumReference>, DecodeError>,
) -> bool {
    match r {
        Ok(out) => {
            &&& out@.len() == input.len()
            &&& forall|i: int|
                0 <= i < input.len() ==> enriched_or_placeholder(
                    cover_art,
                    input[i],
                    #[trigger] out@[i],
                )
        },
        Err(e) => exists|arg: String, ret: Result<String, TypedIOError>|
            {
                &&& #[trigger] call_ensures(cover_art, (arg,), ret)
                &&& exists|i: int| 0 <= i < input.len() && arg@ == (#[trigger] input[i]).id@
                &&& ret matches Ok(t) && decode_defect(t@, e)
            },
    }
}

/// The cover-art fan-out engine: looks the cover art of every album up
/// through the capability, one lookup per album, and merges the outcomes
/// back into one list in input order. An album whose lookup fails becomes
/// a failure placeholder carrying this artist's and that album's identity,
/// and no other entry is affected; a cover-art text that does not decode
/// is a defect and aborts the whole enrichment loudly.
pub fn query_cover_art<F: Fn(String) -> Result<String, TypedIOError>>(
    artist_id: &str,
    list_of_references: Vec<AlbumReference>,
    cover_art: F,
) -> (r: Result<Vec<AlbumReference>, DecodeError>)
    requires
        forall|arg: String| #[trigger] call_requires(cover_art, (arg,)),
    ensures
        enrich_post(cover_art, list_of_references@, r),
{
    let mut updated: Vec<AlbumReference> = Vec::new();
    let mut i: usize = 0;
    while i < list_of_references.len()
        invariant
            i <= list_of_references@.len(),
            updated@.len() == i,
            forall|arg: String| #[trigger] call_requires(cover_art, (arg,)),
            forall|k: int|
                0 <= k < i ==> enriched_or_placeholder(
                    cover_art,
                    list_of_references@[k],
                    #[trigger] updated@[k],
                ),
        decreases list_of_references@.len() - i,
    {
        let album = &list_of_references[i];
        let arg = album.id.clone();
        let ghost arg_g = arg;
        let fetched = cover_art(arg);
        let ghost fetched_g = fetched;
        match fetched {
            Ok(text) => {
                match image_from_cover_art_response(text.as_str()) {
                    Ok(url) => {
                        let mut fresh = AlbumReference {
                            id: album.id.clone(),
                            title: album.title.clone(),
                            image: None,
                            error: album.error,
                        };
                        fresh.with_image(url);
                        updated.push(fresh);
                        proof {
                            assert(call_ensures(cover_art, (arg_g,), fetched_g));
                            assert(enriched_or_placeholder(
                                cover_art,
                                list_of_references@[i as int],
                                updated@[i as int],
                            ));
                        }
                    },
                    Err(e) => {
                        proof {
                            assert(call_ensures(cover_art, (arg_g,), fetched_g));
                        }
                        return Err(e);
                    },
                }
            },
            Err(cause) => {
                let err = ResourceError::AlbumError {
                    artist_id: artist_id.to_owned(),
                    album_id: album.id.clone(),
                    album_title: Some(album.title.clone()),
                    cause,
                };
                let ph = AlbumReference::from(err);
                updated.push(ph);
                proof {
                    assert(call_ensures(cover_art, (arg_g,), fetched_g));
                    assert(enriched_or_placeholder(
                        cover_art,
                        list_of_references@[i as int],
                        updated@[i as int],
                    ));
                }
            },
        }
        i += 1;
    }
    Ok(updated)
}

} // verus!

verus! {

/// Holds when `o` carries the release group `(rg_id, rg_title)` enriched
/// from the fetched cover-art text `t`: identity kept, no error, and the
/// payload's front-image URL attached.
pub open spec fn attaches_pair(
    o: AlbumReference,
    rg_id: Seq<char>,
    rg_title: Seq<char>,
    t: Seq<char>,
) -> bool {
    &&& o.id@ == rg_id
    &&& o.title@ == rg_title
    &&& !o.error
    &&& front_attached(o.image, t)
}

/// Holds when `o` is the failure placeholder for the release group
/// `(rg_id, rg_title)`.
pub open spec fn placeholder_pair(o: AlbumReference, rg_id: Seq<char>, rg_title: Seq<char>) -> bool {
    &&& o.id@ == rg_id
    &&& o.title@ == rg_title
    &&& o.image is None
    &&& o.error
}

/// Holds when `o` is what the whole query may hand back for the release
/// group `(rg_id, rg_title)` of the decoded artist: enriched from a
/// successful cover-art fetch of its id, or a placeholder after a failed
/// one.
pub open spec fn pair_resolved<G: Fn(String) -> Result<String, TypedIOError>>(
    cover_art: G,
    rg_id: Seq<char>,
    rg_title: Seq<char>,
    o: AlbumReference,
) -> bool {
    ||| exists|arg: String, ret: Result<String, TypedIOError>|
        {
            &&& #[trigger] call_ensures(cover_art, (arg,), ret)
            &&& arg@ == rg_id
            &&& ret matches Ok(t) && attaches_pair(o, rg_id, rg_title, t@)
        }
    ||| {
        &&& exists|arg: String, ret: Result<String, TypedIOError>|
            {
                &&& #[trigger] call_ensures(cover_art, (arg,), ret)
                &&& arg@ == rg_id
                &&& ret is Err
            }
        &&& placeholder_pair(o, rg_id, rg_title)
    }
}

/// Everything the orchestrator promises about its result `r` for the
/// artist `id` and the two fetch capabilities: a successful result decodes
/// from a possible artist fetch and resolves each release group in payload
/// order; an artist-level error wraps a possible artist-fetch failure for
/// exactly this id; a decode defect names a malformed artist payload, or a
/// cover-art defect reached only after a well-formed artist payload.
pub open spec fn query_post<
    F: Fn(String) -> Result<String, TypedIOError>,
    G: Fn(String) -> Result<String, TypedIOError>,
>(
    fetch_artist: F,
    cover_art: G,
    id: Seq<char>,
    r: Result<ArtistReference, QueryError>,
) -> bool {
    match r {
        Ok(a) => exists|arg: String, ret: Result<String, TypedIOError>|
            {
                &&& #[trigger] call_ensures(fetch_artist, (arg,), ret)
                &&& arg@ == id
                &&& ret matches Ok(t) && (match spec_decode_artist(t@) {
                    Some(p) => {
                        &&& a.name@ == p.0
                        &&& a.albums@.len() == p.1.len()
                        &&& forall|i: int|
                            0 <= i < p.1.len() ==> pair_resolved(
                                cover_art,
                                p.1[i].0,
                                p.1[i].1,
                                #[trigger] a.albums@[i],
                            )
                    },
                    None => false,
                })
            },
        Err(q) => match q {
            QueryError::Resource(re) => {
                &&& re matches ResourceError::ArtistError { artist_id, cause } && artist_id@ == id
                    && exists|arg: String|
                    {
                        &&& #[trigger] call_ensures(
                            fetch_artist,
                            (arg,),
                            Err::<String, TypedIOError>(cause),
                        )
                        &&& arg@ == id
                    }
            },
            QueryError::Decode(e) => {
                ||| exists|arg: String, ret: Result<String, TypedIOError>|
                    {
                        &&& #[trigger] call_ensures(fetch_artist, (arg,), ret)
                        &&& arg@ == id
                        &&& ret matches Ok(t) && spec_decode_artist(t@) is None
                        &&& e == DecodeError::MalformedArtist
                    }
                ||| {
                    &&& exists|arg: String, ret: Result<String, TypedIOError>|
                        {
                            &&& #[trigger] call_ensures(fetch_artist, (arg,), ret)
                            &&& arg@ == id
                            &&& ret matches Ok(t) && spec_decode_artist(t@) is Some
                        }
                    &&& exists|arg: String, ret: Result<String, TypedIOError>|
                        {
                            &&& #[trigger] call_ensures(cover_art, (arg,), ret)
                            &&& ret matches Ok(t) && decode_defect(t@, e)
                        }
                }
            },
        },
    }
}

/// The artist query orchestrator: fetches this artist's metadata, decodes
/// it, fans the cover-art lookups out over the albums, and returns the
/// enriched record. A failed metadata fetch is fatal and wrapped as an
/// artist-level error before any cover-art lookup; a failed cover-art
/// lookup never is, and surfaces only as a placeholder entry; a malformed
/// payload is a decode defect and reported as such.
pub fn query<F, G>(id: &str, fetch_artist: F, cover_art: G) -> (r: Result<
    ArtistReference,
    QueryError,
>) where
    F: Fn(String) -> Result<String, TypedIOError>,
    G: Fn(String) -> Result<String, TypedIOError>,

    requires
        forall|arg: String| #[trigger] call_requires(fetch_artist, (arg,)),
        forall|arg: String| #[trigger] call_requires(cover_art, (arg,)),
    ensures
        query_post(fetch_artist, cover_art, id@, r),
{
    let ghost cover_art_g = cover_art;
    let arg = id.to_owned();
    let ghost arg_g = arg;
    let fetched = fetch_artist(arg);
    let ghost fetched_g = fetched;
    match fetched {
        Err(cause) => {
            let err = ResourceError::ArtistError { artist_id: id.to_owned(), cause };
            Err(QueryError::Resource(err))
        },
        Ok(text) => {
            match decode_artist(text.as_str()) {
                Err(_) => Err(QueryError::Decode(DecodeError::MalformedArtist)),
                Ok(artist) => {
                    let ArtistReference { name, albums } = artist;
                    let ghost seeds = albums@;
                    let ghost pairs = album_pairs(seeds);
                    match query_cover_art(id, albums, cover_art) {
                        Err(e) => {
                            proof {
                                assert(call_ensures(fetch_artist, (arg_g,), fetched_g));
                            }
                            Err(QueryError::Decode(e))
                        },
                        Ok(list) => {
                            let out = ArtistReference { name, albums: list };
                            proof {
                                assert(call_ensures(fetch_artist, (arg_g,), fetched_g));
                                assert forall|i: int| 0 <= i < pairs.len() implies pair_resolved(
                                    cover_art_g,
                                    pairs[i].0,
                                    pairs[i].1,
                                    #[trigger] out.albums@[i],
                                ) by {
                                    assert(enriched_or_placeholder(
                                        cover_art_g,
                                        seeds[i],
                                        out.albums@[i],
                                    ));
                                    assert(seeds[i].id@ == pairs[i].0);
                                    assert(seeds[i].title@ == pairs[i].1);
                                    assert(!seeds[i].error);
                                }
                            }
                            Ok(out)
                        },
                    }
                },
            }
        },
    }
}

} // verus!

verus! {

/// For all inputs, an enrichment that returns a list returns exactly one
/// entry per input album, in input order — entry `i` keeps input album
/// `i`'s id and title — however many lookups failed and whatever the
/// order in which they completed.
pub proof fn lemma_enrich_preserves_shape<F: Fn(String) -> Result<String, TypedIOError>>(
    cover_art: F,
    input: Seq<AlbumReference>,
    r: Result<Vec<AlbumReference>, DecodeError>,
)
    requires
        enrich_post(cover_art, input, r),
        r is Ok,
    ensures
        r.unwrap()@.len() == input.len(),
        forall|i: int|
            0 <= i < input.len() ==> (#[trigger] r.unwrap()@[i]).id@ == input[i].id@
                && r.unwrap()@[i].title@ == input[i].title@,
{
    let out = r.unwrap();
    assert forall|i: int|
        0 <= i < input.len() implies (#[trigger] out@[i]).id@ == input[i].id@ && out@[i].title@
        == input[i].title@ by {
        assert(enriched_or_placeholder(cover_art, input[i], out@[i]));
    }
}

/// If every outcome the cover-art capability can produce is a successful
/// fetch whose text decodes and carries a front image with a non-empty
/// URL, enrichment of fresh albums succeeds, and every output album has
/// no error and a non-empty image attached.
pub proof fn lemma_enrich_all_success<F: Fn(String) -> Result<String, TypedIOError>>(
    cover_art: F,
    input: Seq<AlbumReference>,
    r: Result<Vec<AlbumReference>, DecodeError>,
)
    requires
        enrich_post(cover_art, input, r),
        albums_fresh(input),
        forall|arg: String, ret: Result<String, TypedIOError>|
            #[trigger] call_ensures(cover_art, (arg,), ret) ==> (ret matches Ok(t) && (
            match spec_decode_cover_art(t@) {
                Some(imgs) => (match spec_front_image(imgs) {
                    Some(u) => u.len() > 0,
                    None => false,
                }),
                None => false,
            })),
    ensures
        r is Ok,
        r.unwrap()@.len() == input.len(),
        forall|i: int|
            0 <= i < input.len() ==> !(#[trigger] r.unwrap()@[i]).error && (r.unwrap()@[i].image
                matches Some(u) && u@.len() > 0),
{
    let out = r.unwrap();
    assert forall|i: int|
        0 <= i < input.len() implies !(#[trigger] out@[i]).error && (out@[i].image matches Some(u)
        && u@.len() > 0) by {
        assert(enriched_or_placeholder(cover_art, input[i], out@[i]));
        assert((#[trigger] input[i]).image is None && !input[i].error);
    }
}

/// If every outcome the cover-art capability can produce for album `x`'s
/// id is a failed fetch, a successful enrichment carries the failure
/// placeholder for album `x` — id and title preserved, no image, error
/// set — while every other entry is still resolved by its own lookups
/// alone.
pub proof fn lemma_enrich_isolates_failure<F: Fn(String) -> Result<String, TypedIOError>>(
    cover_art: F,
    input: Seq<AlbumReference>,
    r: Result<Vec<AlbumReference>, DecodeError>,
    x: int,
)
    requires
        enrich_post(cover_art, input, r),
        r is Ok,
        0 <= x < input.len(),
        forall|arg: String, ret: Result<String, TypedIOError>|
            #[trigger] call_ensures(cover_art, (arg,), ret) && arg@ == input[x].id@ ==> ret is Err,
    ensures
        placeholder_for(r.unwrap()@[x], input[x]),
        forall|i: int|
            0 <= i < input.len() && i != x ==> enriched_or_placeholder(
                cover_art,
                input[i],
                #[trigger] r.unwrap()@[i],
            ),
{
    assert(enriched_or_placeholder(cover_art, input[x], r.unwrap()@[x]));
}

/// If every outcome the artist-metadata fetch can produce for this id is
/// a failure, the query returns an artist-level error naming exactly this
/// artist id — never a partial result, never an album-level error, and
/// never a decode defect.
pub proof fn lemma_query_artist_fetch_failure<F, G>(
    fetch_artist: F,
    cover_art: G,
    id: Seq<char>,
    r: Result<ArtistReference, QueryError>,
) where
    F: Fn(String) -> Result<String, TypedIOError>,
    G: Fn(String) -> Result<String, TypedIOError>,

    requires
        query_post(fetch_artist, cover_art, id, r),
        forall|arg: String, ret: Result<String, TypedIOError>|
            #[trigger] call_ensures(fetch_artist, (arg,), ret) && arg@ == id ==> ret is Err,
    ensures
        (r matches Err(QueryError::Resource(ResourceError::ArtistError { artist_id, .. }))
            && artist_id@ == id),
{
}

} // verus!
