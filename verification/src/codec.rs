//! Decoding of the two upstream payload shapes and encoding of the enriched
//! artist record.
//!
//! The payload grammars are fixed and small, so they are parsed here
//! directly, character by character, against a specification-level parser
//! that defines exactly which texts are accepted:
//!
//! - artist metadata: `{"name":NAME,"release-groups":[RG,...]}` with
//!   `RG = {"id":ID,"title":TITLE}`;
//! - cover art: `{"images":[IMG,...]}` with
//!   `IMG = {"front":BOOL,"image":URL}`.
//!
//! String values run to the next double quote; escape sequences are not
//! interpreted, so a string value never contains a double quote. Malformed
//! input is rejected with a `DecodeError`, never silently defaulted.

use vstd::prelude::*;
use vstd::string::*;

use crate::errors::DecodeError;
use crate::structs::AlbumReference;
use crate::structs::ArtistReference;
use crate::structs::CoverArtResponse;
use crate::structs::Image;

verus! {

/// Holds when `lit` occurs in `s` starting at position `i`.
pub open spec fn match_at(s: Seq<char>, i: int, lit: Seq<char>) -> bool {
    &&& 0 <= i
    &&& i + lit.len() <= s.len()
    &&& forall|k: int| 0 <= k < lit.len() ==> s[i + k] == lit[k]
}

/// The position of the first double quote in `s` at or after `i`, or
/// `s.len()` if there is none.
pub open spec fn find_quote(s: Seq<char>, i: int) -> int
    decreases s.len() - i,
{
    if i < 0 || i >= s.len() {
        s.len() as int
    } else if s[i] == '"' {
        i
    } else {
        find_quote(s, i + 1)
    }
}

/// Parses a quoted string at position `i`: the content between the opening
/// quote at `i` and the next quote, and the position just past the closing
/// quote.
pub open spec fn parse_string(s: Seq<char>, i: int) -> Option<(Seq<char>, int)> {
    if 0 <= i < s.len() && s[i] == '"' {
        let j = find_quote(s, i + 1);
        if j < s.len() {
            Some((s.subrange(i + 1, j), j + 1))
        } else {
            None
        }
    } else {
        None
    }
}

/// Parses a boolean literal at position `i`.
pub open spec fn parse_bool(s: Seq<char>, i: int) -> Option<(bool, int)> {
    if match_at(s, i, "true"@) {
        Some((true, i + "true"@.len()))
    } else if match_at(s, i, "false"@) {
        Some((false, i + "false"@.len()))
    } else {
        None
    }
}

proof fn lemma_find_quote_bounds(s: Seq<char>, i: int)
    requires
        0 <= i <= s.len(),
    ensures
        i <= find_quote(s, i) <= s.len(),
    decreases s.len() - i,
{
    if i < s.len() && s[i] != '"' {
        lemma_find_quote_bounds(s, i + 1);
    }
}

/// A successful string parse always moves the position strictly forward
/// and never past the end of the text.
proof fn lemma_parse_string_bounds(s: Seq<char>, i: int)
    requires
        parse_string(s, i) is Some,
    ensures
        i < parse_string(s, i).unwrap().1 <= s.len(),
{
    lemma_find_quote_bounds(s, i + 1);
}

/// Reports whether `lit` occurs in `s` starting at position `i`.
fn match_lit(s: &str, i: usize, lit: &str) -> (b: bool)
    ensures
        b == match_at(s@, i as int, lit@),
{
    let s_len = s.unicode_len();
    let n = lit.unicode_len();
    if i > s_len || n > s_len - i {
        return false;
    }
    let mut k: usize = 0;
    while k < n
        invariant
            k <= n,
            i + n <= s_len,
            s_len == s@.len(),
            n == lit@.len(),
            forall|m: int| 0 <= m < k ==> s@[i + m] == lit@[m],
        decreases n - k,
    {
        if s.get_char(i + k) != lit.get_char(k) {
            return false;
        }
        k += 1;
    }
    true
}

/// The position of the first double quote at or after `i`, or the length
/// of `s` if there is none.
fn scan_quote(s: &str, i: usize) -> (j: usize)
    requires
        i <= s@.len(),
    ensures
        j == find_quote(s@, i as int),
        i <= j <= s@.len(),
{
    let s_len = s.unicode_len();
    let mut j = i;
    while j < s_len
        invariant
            i <= j <= s_len,
            s_len == s@.len(),
            find_quote(s@, i as int) == find_quote(s@, j as int),
        decreases s_len - j,
    {
        if s.get_char(j) == '"' {
            return j;
        }
        j += 1;
    }
    j
}

/// Parses a quoted string at position `i` of `s`.
fn parse_string_at(s: &str, i: usize) -> (r: Option<(String, usize)>)
    requires
        i <= s@.len(),
    ensures
        (match parse_string(s@, i as int) {
            Some(p) => r matches Some(q) && q.0@ == p.0 && q.1 == p.1,
            None => r is None,
        }),
{
    let s_len = s.unicode_len();
    if i >= s_len || s.get_char(i) != '"' {
        return None;
    }
    let j = scan_quote(s, i + 1);
    if j >= s_len {
        return None;
    }
    let content = s.substring_char(i + 1, j).to_owned();
    Some((content, j + 1))
}

/// The opening of an image object, up to its `front` value.
pub open spec fn image_open() -> Seq<char> {
    "{\"front\":"@
}

/// The key between an image's `front` value and its URL.
pub open spec fn image_url_key() -> Seq<char> {
    ",\"image\":"@
}

/// The closing brace of an object.
pub open spec fn object_close() -> Seq<char> {
    "}"@
}

/// The opening of a cover-art payload, up to the first image object.
pub open spec fn cover_open() -> Seq<char> {
    "{\"images\":["@
}

/// Parses one image object `{"front":BOOL,"image":URL}` at position `i`:
/// the front flag with the URL, and the position just past the object.
pub open spec fn parse_image(s: Seq<char>, i: int) -> Option<((bool, Seq<char>), int)> {
    if match_at(s, i, image_open()) {
        match parse_bool(s, i + image_open().len()) {
            Some(front_next) => {
                if match_at(s, front_next.1, image_url_key()) {
                    match parse_string(s, front_next.1 + image_url_key().len()) {
                        Some(url_next) => {
                            if match_at(s, url_next.1, object_close()) {
                                Some(
                                    (
                                        (front_next.0, url_next.0),
                                        url_next.1 + object_close().len(),
                                    ),
                                )
                            } else {
                                None
                            }
                        },
                        None => None,
                    }
                } else {
                    None
                }
            },
            None => None,
        }
    } else {
        None
    }
}

/// A successful image parse always moves the position strictly forward
/// and never past the end of the text.
proof fn lemma_parse_image_bounds(s: Seq<char>, i: int)
    requires
        parse_image(s, i) is Some,
    ensures
        i < parse_image(s, i).unwrap().1 <= s.len(),
{
    reveal_strlit("true");
    reveal_strlit("false");
    let front_next = parse_bool(s, i + image_open().len()).unwrap();
    lemma_parse_string_bounds(s, front_next.1 + image_url_key().len());
}

/// Parses the image objects of a cover-art payload at position `i`,
/// separated by commas and closed by `]`: the images in payload order, and
/// the position just past the closing bracket.
pub open spec fn parse_image_list(s: Seq<char>, i: int) -> Option<(Seq<(bool, Seq<char>)>, int)>
    decreases s.len() - i,
{
    if 0 <= i < s.len() && s[i] == ']' {
        Some((Seq::empty(), i + 1))
    } else {
        match parse_image(s, i) {
            Some(img_next) => {
                if i < img_next.1 <= s.len() {
                    let j = img_next.1;
                    if j < s.len() && s[j] == ',' {
                        match parse_image_list(s, j + 1) {
                            Some(rest_next) => {
                                if rest_next.0.len() > 0 {
                                    Some((seq![img_next.0] + rest_next.0, rest_next.1))
                                } else {
                                    None
                                }
                            },
                            None => None,
                        }
                    } else if j < s.len() && s[j] == ']' {
                        Some((seq![img_next.0], j + 1))
                    } else {
                        None
                    }
                } else {
                    None
                }
            },
            None => None,
        }
    }
}

/// The cover-art payloads that decode successfully, and to what: `s` is
/// accepted exactly when it is `{"images":[IMG,...]}` in full, and the
/// result lists each image's front flag and URL in payload order.
pub open spec fn spec_decode_cover_art(s: Seq<char>) -> Option<Seq<(bool, Seq<char>)>> {
    if match_at(s, 0, cover_open()) {
        match parse_image_list(s, cover_open().len() as int) {
            Some(imgs_next) => {
                if match_at(s, imgs_next.1, object_close()) && imgs_next.1 + object_close().len()
                    == s.len() {
                    Some(imgs_next.0)
                } else {
                    None
                }
            },
            None => None,
        }
    } else {
        None
    }
}

/// The front flag and URL of each image, in order.
pub open spec fn images_view(v: Seq<Image>) -> Seq<(bool, Seq<char>)> {
    v.map_values(|im: Image| (im.front, im.image@))
}

/// Parses a boolean literal at position `i` of `s`.
fn parse_bool_at(s: &str, i: usize) -> (r: Option<(bool, usize)>)
    requires
        i <= s@.len(),
    ensures
        (match parse_bool(s@, i as int) {
            Some(p) => r matches Some(q) && q.0 == p.0 && q.1 == p.1,
            None => r is None,
        }),
{
    proof {
        reveal_strlit("true");
        reveal_strlit("false");
    }
    // pins the text length into usize range for the position arithmetic
    let _s_len = s.unicode_len();
    if match_lit(s, i, "true") {
        Some((true, i + 4))
    } else if match_lit(s, i, "false") {
        Some((false, i + 5))
    } else {
        None
    }
}

} // verus!

verus! {

/// Parses one image object at position `i` of `s`.
fn parse_image_at(s: &str, i: usize) -> (r: Option<(Image, usize)>)
    requires
        i <= s@.len(),
    ensures
        (match parse_image(s@, i as int) {
            Some(p) => r matches Some(q) && q.0.front == p.0.0 && q.0.image@ == p.0.1 && q.1
                == p.1,
            None => r is None,
        }),
{
    proof {
        reveal_strlit("{\"front\":");
        reveal_strlit(",\"image\":");
        reveal_strlit("}");
    }
    // pins the text length into usize range for the position arithmetic
    let _s_len = s.unicode_len();
    if !match_lit(s, i, "{\"front\":") {
        return None;
    }
    assert(image_open().len() == 9);
    let front_next = parse_bool_at(s, i + 9);
    match front_next {
        None => None,
        Some((front, i2)) => {
            proof {
                reveal_strlit("true");
                reveal_strlit("false");
            }
            if !match_lit(s, i2, ",\"image\":") {
                return None;
            }
            assert(i2 + 9 <= s@.len());
            let url_next = parse_string_at(s, i2 + 9);
            match url_next {
                None => None,
                Some((url, i3)) => {
                    if match_lit(s, i3, "}") {
                        Some((Image { front, image: url }, i3 + 1))
                    } else {
                        None
                    }
                },
            }
        },
    }
}

/// Parses the comma-separated, bracket-closed image objects at position
/// `i` of `s`.
fn parse_image_list_at(s: &str, i: usize) -> (r: Option<(Vec<Image>, usize)>)
    requires
        i <= s@.len(),
    ensures
        (match parse_image_list(s@, i as int) {
            Some(p) => r matches Some(q) && images_view(q.0@) == p.0 && q.1 == p.1,
            None => r is None,
        }),
    decreases s@.len() - i,
{
    let s_len = s.unicode_len();
    if i < s_len && s.get_char(i) == ']' {
        let empty: Vec<Image> = Vec::new();
        proof {
            assert(images_view(empty@) =~= Seq::<(bool, Seq<char>)>::empty());
        }
        return Some((empty, i + 1));
    }
    match parse_image_at(s, i) {
        None => None,
        Some((img, j)) => {
            proof {
                lemma_parse_image_bounds(s@, i as int);
            }
            if j < s_len && s.get_char(j) == ',' {
                match parse_image_list_at(s, j + 1) {
                    None => None,
                    Some((mut rest, k)) => {
                        if rest.is_empty() {
                            return None;
                        }
                        let ghost old_rest = rest@;
                        let ghost img_pair = (img.front, img.image@);
                        rest.insert(0, img);
                        proof {
                            assert(images_view(rest@) =~= seq![img_pair] + images_view(
                                old_rest,
                            ));
                        }
                        Some((rest, k))
                    },
                }
            } else if j < s_len && s.get_char(j) == ']' {
                let mut one: Vec<Image> = Vec::new();
                let ghost img_pair = (img.front, img.image@);
                one.push(img);
                proof {
                    assert(images_view(one@) =~= seq![img_pair]);
                }
                Some((one, j + 1))
            } else {
                None
            }
        },
    }
}

/// Decodes a cover-art payload `{"images":[{"front":BOOL,"image":URL},...]}`
/// into the image list, in payload order. Any other text is a malformed
/// cover-art payload.
pub fn decode_cover_art(payload: &str) -> (r: Result<CoverArtResponse, DecodeError>)
    ensures
        (match spec_decode_cover_art(payload@) {
            Some(imgs) => r matches Ok(c) && images_view(c.images@) == imgs,
            None => r matches Err(e) && e == DecodeError::MalformedCoverArt,
        }),
{
    proof {
        reveal_strlit("{\"images\":[");
        reveal_strlit("}");
    }
    let s_len = payload.unicode_len();
    if !match_lit(payload, 0, "{\"images\":[") {
        return Err(DecodeError::MalformedCoverArt);
    }
    assert(cover_open().len() == 11);
    match parse_image_list_at(payload, 11) {
        None => Err(DecodeError::MalformedCoverArt),
        Some((images, j)) => {
            if match_lit(payload, j, "}") && j + 1 == s_len {
                Ok(CoverArtResponse { images })
            } else {
                Err(DecodeError::MalformedCoverArt)
            }
        },
    }
}

} // verus!

verus! {

/// The opening of an artist payload, up to its name.
pub open spec fn artist_open() -> Seq<char> {
    "{\"name\":"@
}

/// The key between an artist's name and its release-group list.
pub open spec fn artist_albums_key() -> Seq<char> {
    ",\"release-groups\":["@
}

/// The opening of a release-group object, up to its id.
pub open spec fn rg_open() -> Seq<char> {
    "{\"id\":"@
}

/// The key between a release group's id and its title.
pub open spec fn rg_title_key() -> Seq<char> {
    ",\"title\":"@
}

/// Parses one release-group object `{"id":ID,"title":TITLE}` at position
/// `i`: the id with the title, and the position just past the object.
pub open spec fn parse_rg(s: Seq<char>, i: int) -> Option<((Seq<char>, Seq<char>), int)> {
    if match_at(s, i, rg_open()) {
        match parse_string(s, i + rg_open().len()) {
            Some(id_next) => {
                if match_at(s, id_next.1, rg_title_key()) {
                    match parse_string(s, id_next.1 + rg_title_key().len()) {
                        Some(title_next) => {
                            if match_at(s, title_next.1, object_close()) {
                                Some(
                                    (
                                        (id_next.0, title_next.0),
                                        title_next.1 + object_close().len(),
                                    ),
                                )
                            } else {
                                None
                            }
                        },
                        None => None,
                    }
                } else {
                    None
                }
            },
            None => None,
        }
    } else {
        None
    }
}

/// A successful release-group parse always moves the position strictly
/// forward and never past the end of the text.
proof fn lemma_parse_rg_bounds(s: Seq<char>, i: int)
    requires
        parse_rg(s, i) is Some,
    ensures
        i < parse_rg(s, i).unwrap().1 <= s.len(),
{
    let id_next = parse_string(s, i + rg_open().len()).unwrap();
    lemma_parse_string_bounds(s, i + rg_open().len());
    lemma_parse_string_bounds(s, id_next.1 + rg_title_key().len());
}

/// Parses the release-group objects of an artist payload at position `i`,
/// separated by commas and closed by `]`: the id/title pairs in payload
/// order, and the position just past the closing bracket.
pub open spec fn parse_rg_list(s: Seq<char>, i: int) -> Option<(Seq<(Seq<char>, Seq<char>)>, int)>
    decreases s.len() - i,
{
    if 0 <= i < s.len() && s[i] == ']' {
        Some((Seq::empty(), i + 1))
    } else {
        match parse_rg(s, i) {
            Some(rg_next) => {
                if i < rg_next.1 <= s.len() {
                    let j = rg_next.1;
                    if j < s.len() && s[j] == ',' {
                        match parse_rg_list(s, j + 1) {
                            Some(rest_next) => {
                                if rest_next.0.len() > 0 {
                                    Some((seq![rg_next.0] + rest_next.0, rest_next.1))
                                } else {
                                    None
                                }
                            },
                            None => None,
                        }
                    } else if j < s.len() && s[j] == ']' {
                        Some((seq![rg_next.0], j + 1))
                    } else {
                        None
                    }
                } else {
                    None
                }
            },
            None => None,
        }
    }
}

/// The artist payloads that decode successfully, and to what: `s` is
/// accepted exactly when it is `{"name":NAME,"release-groups":[RG,...]}`
/// in full, and the result is the name with the id/title pairs in payload
/// order.
pub open spec fn spec_decode_artist(s: Seq<char>) -> Option<
    (Seq<char>, Seq<(Seq<char>, Seq<char>)>),
> {
    if match_at(s, 0, artist_open()) {
        match parse_string(s, artist_open().len() as int) {
            Some(name_next) => {
                if match_at(s, name_next.1, artist_albums_key()) {
                    match parse_rg_list(s, name_next.1 + artist_albums_key().len()) {
                        Some(rgs_next) => {
                            if match_at(s, rgs_next.1, object_close()) && rgs_next.1
                                + object_close().len() == s.len() {
                                Some((name_next.0, rgs_next.0))
                            } else {
                                None
                            }
                        },
                        None => None,
                    }
                } else {
                    None
                }
            },
            None => None,
        }
    } else {
        None
    }
}

/// The id and title of each album, in order.
pub open spec fn album_pairs(v: Seq<crate::structs::AlbumReference>) -> Seq<
    (Seq<char>, Seq<char>),
> {
    v.map_values(|a: crate::structs::AlbumReference| (a.id@, a.title@))
}

/// Holds when every album in `v` is a fresh seed: no image attached yet
/// and no error recorded.
pub open spec fn albums_fresh(v: Seq<crate::structs::AlbumReference>) -> bool {
    forall|k: int| 0 <= k < v.len() ==> (#[trigger] v[k]).image is None && !v[k].error
}

} // verus!

verus! {

/// Parses one release-group object at position `i` of `s`, as a fresh
/// album seed.
fn parse_rg_at(s: &str, i: usize) -> (r: Option<(AlbumReference, usize)>)
    requires
        i <= s@.len(),
    ensures
        (match parse_rg(s@, i as int) {
            Some(p) => r matches Some(q) && q.0.id@ == p.0.0 && q.0.title@ == p.0.1
                && q.0.image is None && !q.0.error && q.1 == p.1,
            None => r is None,
        }),
{
    proof {
        reveal_strlit("{\"id\":");
        reveal_strlit(",\"title\":");
        reveal_strlit("}");
    }
    // pins the text length into usize range for the position arithmetic
    let _s_len = s.unicode_len();
    if !match_lit(s, i, "{\"id\":") {
        return None;
    }
    assert(rg_open().len() == 6);
    match parse_string_at(s, i + 6) {
        None => None,
        Some((id, i2)) => {
            proof {
                lemma_parse_string_bounds(s@, i as int + 6);
            }
            if !match_lit(s, i2, ",\"title\":") {
                return None;
            }
            assert(i2 + 9 <= s@.len());
            match parse_string_at(s, i2 + 9) {
                None => None,
                Some((title, i3)) => {
                    if match_lit(s, i3, "}") {
                        Some((AlbumReference { id, title, image: None, error: false }, i3 + 1))
                    } else {
                        None
                    }
                },
            }
        },
    }
}

/// Parses the comma-separated, bracket-closed release-group objects at
/// position `i` of `s`.
fn parse_rg_list_at(s: &str, i: usize) -> (r: Option<(Vec<AlbumReference>, usize)>)
    requires
        i <= s@.len(),
    ensures
        (match parse_rg_list(s@, i as int) {
            Some(p) => r matches Some(q) && album_pairs(q.0@) == p.0 && albums_fresh(q.0@) && q.1
                == p.1,
            None => r is None,
        }),
    decreases s@.len() - i,
{
    let s_len = s.unicode_len();
    if i < s_len && s.get_char(i) == ']' {
        let empty: Vec<AlbumReference> = Vec::new();
        proof {
            assert(album_pairs(empty@) =~= Seq::<(Seq<char>, Seq<char>)>::empty());
        }
        return Some((empty, i + 1));
    }
    match parse_rg_at(s, i) {
        None => None,
        Some((album, j)) => {
            proof {
                lemma_parse_rg_bounds(s@, i as int);
            }
            let ghost album_pair = (album.id@, album.title@);
            if j < s_len && s.get_char(j) == ',' {
                match parse_rg_list_at(s, j + 1) {
                    None => None,
                    Some((mut rest, k)) => {
                        if rest.is_empty() {
                            return None;
                        }
                        let ghost old_rest = rest@;
                        rest.insert(0, album);
                        proof {
                            assert(album_pairs(rest@) =~= seq![album_pair] + album_pairs(
                                old_rest,
                            ));
                        }
                        Some((rest, k))
                    },
                }
            } else if j < s_len && s.get_char(j) == ']' {
                let mut one: Vec<AlbumReference> = Vec::new();
                one.push(album);
                proof {
                    assert(album_pairs(one@) =~= seq![album_pair]);
                }
                Some((one, j + 1))
            } else {
                None
            }
        },
    }
}

/// Decodes an artist payload `{"name":NAME,"release-groups":[RG,...]}`
/// into an artist whose albums are the release groups in payload order,
/// each a fresh seed with no image attached and no error recorded. Any
/// other text is a malformed artist payload.
pub fn decode_artist(payload: &str) -> (r: Result<ArtistReference, DecodeError>)
    ensures
        (match spec_decode_artist(payload@) {
            Some(p) => r matches Ok(a) && a.name@ == p.0 && album_pairs(a.albums@) == p.1
                && albums_fresh(a.albums@),
            None => r matches Err(e) && e == DecodeError::MalformedArtist,
        }),
{
    proof {
        reveal_strlit("{\"name\":");
        reveal_strlit(",\"release-groups\":[");
        reveal_strlit("}");
    }
    let s_len = payload.unicode_len();
    if !match_lit(payload, 0, "{\"name\":") {
        return Err(DecodeError::MalformedArtist);
    }
    assert(artist_open().len() == 8);
    match parse_string_at(payload, 8) {
        None => Err(DecodeError::MalformedArtist),
        Some((name, i1)) => {
            proof {
                lemma_parse_string_bounds(payload@, 8);
            }
            if !match_lit(payload, i1, ",\"release-groups\":[") {
                return Err(DecodeError::MalformedArtist);
            }
            assert(artist_albums_key().len() == 19);
            assert(i1 + 19 <= payload@.len());
            match parse_rg_list_at(payload, i1 + 19) {
                None => Err(DecodeError::MalformedArtist),
                Some((albums, j)) => {
                    if match_lit(payload, j, "}") && j + 1 == s_len {
                        Ok(ArtistReference { name, albums })
                    } else {
                        Err(DecodeError::MalformedArtist)
                    }
                },
            }
        },
    }
}

} // verus!

verus! {

/// The URL of the first image flagged as the front cover, if any.
pub open spec fn spec_front_image(imgs: Seq<(bool, Seq<char>)>) -> Option<Seq<char>>
    decreases imgs.len(),
{
    if imgs.len() == 0 {
        None
    } else if imgs[0].0 {
        Some(imgs[0].1)
    } else {
        spec_front_image(imgs.drop_first())
    }
}

impl CoverArtResponse {
    /// The URL of the first image flagged as the front cover, if any.
    pub fn front_image(&self) -> (r: Option<String>)
        ensures
            (match spec_front_image(images_view(self.images@)) {
                Some(u) => r matches Some(t) && t@ == u,
                None => r is None,
            }),
    {
        let ghost all = images_view(self.images@);
        proof {
            assert(all.skip(0) =~= all);
        }
        let mut k: usize = 0;
        while k < self.images.len()
            invariant
                k <= self.images@.len(),
                all == images_view(self.images@),
                spec_front_image(all) == spec_front_image(images_view(self.images@).skip(k as int)),
            decreases self.images@.len() - k,
        {
            let ghost rest = images_view(self.images@).skip(k as int);
            if self.images[k].front {
                proof {
                    assert(rest[0] == images_view(self.images@)[k as int]);
                }
                return Some(self.images[k].image.clone());
            }
            proof {
                assert(rest[0] == images_view(self.images@)[k as int]);
                assert(rest.drop_first() =~= images_view(self.images@).skip(k as int + 1));
            }
            k += 1;
        }
        proof {
            assert(images_view(self.images@).skip(k as int) =~= Seq::<(bool, Seq<char>)>::empty());
        }
        None
    }
}

/// Decodes a cover-art payload and selects the URL of its first front
/// image. A payload with no front image is a decode defect of its own
/// kind, reported as such rather than defaulted.
pub fn image_from_cover_art_response(payload: &str) -> (r: Result<String, DecodeError>)
    ensures
        (match spec_decode_cover_art(payload@) {
            Some(imgs) => (match spec_front_image(imgs) {
                Some(u) => r matches Ok(t) && t@ == u,
                None => r matches Err(e) && e == DecodeError::NoFrontImage,
            }),
            None => r matches Err(e) && e == DecodeError::MalformedCoverArt,
        }),
{
    match decode_cover_art(payload) {
        Err(e) => Err(e),
        Ok(response) => match response.front_image() {
            Some(url) => Ok(url),
            None => Err(DecodeError::NoFrontImage),
        },
    }
}

} // verus!

verus! {

/// `t` wrapped in double quotes.
pub open spec fn quoted(t: Seq<char>) -> Seq<char> {
    "\""@ + t + "\""@
}

/// The serialized form of one album in the enriched record:
/// `{"id":ID,"title":TITLE,"image":URL-or-null,"error":BOOL}`.
pub open spec fn album_json(a: AlbumReference) -> Seq<char> {
    "{\"id\":"@ + quoted(a.id@) + ",\"title\":"@ + quoted(a.title@) + ",\"image\":"@ + (match a
        .image {
        Some(u) => quoted(u@),
        None => "null"@,
    }) + ",\"error\":"@ + (if a.error {
        "true"@
    } else {
        "false"@
    }) + "}"@
}

/// The serialized forms of the albums, joined by commas.
pub open spec fn albums_json(v: Seq<AlbumReference>) -> Seq<char>
    decreases v.len(),
{
    if v.len() == 0 {
        Seq::empty()
    } else if v.len() == 1 {
        album_json(v[0])
    } else {
        albums_json(v.drop_last()) + ","@ + album_json(v.last())
    }
}

/// The serialized form of the enriched record:
/// `{"name":NAME,"albums":[ALBUM,...]}`, album order preserved.
pub open spec fn artist_json(a: ArtistReference) -> Seq<char> {
    "{\"name\":"@ + quoted(a.name@) + ",\"albums\":["@ + albums_json(a.albums@) + "]}"@
}

/// Appends `t` wrapped in double quotes.
fn append_quoted(out: &mut String, t: &str)
    ensures
        final(out)@ == old(out)@ + quoted(t@),
{
    out.append("\"");
    out.append(t);
    out.append("\"");
    proof {
        assert(out@ =~= old(out)@ + quoted(t@));
    }
}

/// Appends the serialized form of one album.
fn append_album(out: &mut String, a: &AlbumReference)
    ensures
        final(out)@ == old(out)@ + album_json(*a),
{
    out.append("{\"id\":");
    append_quoted(out, a.id.as_str());
    out.append(",\"title\":");
    append_quoted(out, a.title.as_str());
    out.append(",\"image\":");
    match &a.image {
        Some(u) => append_quoted(out, u.as_str()),
        None => out.append("null"),
    }
    out.append(",\"error\":");
    if a.error {
        out.append("true");
    } else {
        out.append("false");
    }
    out.append("}");
    proof {
        assert(out@ =~= old(out)@ + album_json(*a));
    }
}

/// Serializes the enriched record as `{"name":NAME,"albums":[ALBUM,...]}`,
/// album order preserved. String values are emitted verbatim between
/// double quotes, as they came out of the upstream payloads.
pub fn encode_artist(a: &ArtistReference) -> (r: String)
    ensures
        r@ == artist_json(*a),
{
    let mut out = String::new();
    out.append("{\"name\":");
    append_quoted(&mut out, a.name.as_str());
    out.append(",\"albums\":[");
    let ghost prefix = out@;
    proof {
        assert(a.albums@.subrange(0, 0) =~= Seq::<AlbumReference>::empty());
        assert(prefix + albums_json(a.albums@.subrange(0, 0)) =~= prefix);
    }
    let mut k: usize = 0;
    while k < a.albums.len()
        invariant
            k <= a.albums@.len(),
            out@ == prefix + albums_json(a.albums@.subrange(0, k as int)),
        decreases a.albums@.len() - k,
    {
        let ghost done = a.albums@.subrange(0, k as int);
        if k > 0 {
            out.append(",");
        }
        append_album(&mut out, &a.albums[k]);
        proof {
            let next = a.albums@.subrange(0, k as int + 1);
            assert(next.drop_last() =~= done);
            assert(next.last() == a.albums@[k as int]);
            if k == 0 {
                assert(next[0] == a.albums@[0]);
                assert(albums_json(next) == album_json(a.albums@[0]));
            }
            assert(out@ =~= prefix + albums_json(next));
        }
        k += 1;
    }
    proof {
        assert(a.albums@.subrange(0, a.albums@.len() as int) =~= a.albums@);
    }
    out.append("]}");
    proof {
        assert(out@ =~= artist_json(*a));
    }
    out
}

} // verus!

verus! {

/// Holds when `t` contains no double quote, so that quoting it yields a
/// string value that decodes back to exactly `t`.
pub open spec fn plain(t: Seq<char>) -> bool {
    forall|k: int| 0 <= k < t.len() ==> t[k] != '"'
}

/// Holds when every id and title in `rgs` is plain.
pub open spec fn all_plain_rgs(rgs: Seq<(Seq<char>, Seq<char>)>) -> bool {
    forall|k: int|
        0 <= k < rgs.len() ==> plain((#[trigger] rgs[k]).0) && plain(rgs[k].1)
}

/// The canonical payload of one release group.
pub open spec fn rg_payload(id: Seq<char>, title: Seq<char>) -> Seq<char> {
    rg_open() + quoted(id) + rg_title_key() + quoted(title) + object_close()
}

/// The canonical payloads of the release groups, joined by commas.
pub open spec fn rg_list_payload(rgs: Seq<(Seq<char>, Seq<char>)>) -> Seq<char>
    decreases rgs.len(),
{
    if rgs.len() == 0 {
        Seq::empty()
    } else if rgs.len() == 1 {
        rg_payload(rgs[0].0, rgs[0].1)
    } else {
        rg_payload(rgs[0].0, rgs[0].1) + ","@ + rg_list_payload(rgs.drop_first())
    }
}

/// The canonical artist payload carrying `name` and the release groups
/// `rgs`, in that order.
pub open spec fn artist_payload(name: Seq<char>, rgs: Seq<(Seq<char>, Seq<char>)>) -> Seq<char> {
    artist_open() + quoted(name) + artist_albums_key() + rg_list_payload(rgs) + "]"@
        + object_close()
}

proof fn lemma_match_at_split(s: Seq<char>, i: int, a: Seq<char>, b: Seq<char>)
    requires
        match_at(s, i, a + b),
    ensures
        match_at(s, i, a),
        match_at(s, i + a.len(), b),
{
    assert forall|k: int| 0 <= k < a.len() implies s[i + k] == a[k] by {
        assert(s[i + k] == (a + b)[k]);
    }
    assert forall|k: int| 0 <= k < b.len() implies s[i + a.len() + k] == b[k] by {
        assert(s[i + a.len() + k] == (a + b)[a.len() + k]);
    }
}

proof fn lemma_match_at_char(s: Seq<char>, i: int, lit: Seq<char>, k: int)
    requires
        match_at(s, i, lit),
        0 <= k < lit.len(),
    ensures
        s[i + k] == lit[k],
{
}

proof fn lemma_find_quote_at(s: Seq<char>, i: int, j: int)
    requires
        0 <= i <= j < s.len(),
        s[j] == '"',
        forall|k: int| i <= k < j ==> s[k] != '"',
    ensures
        find_quote(s, i) == j,
    decreases j - i,
{
    if i < j {
        lemma_find_quote_at(s, i + 1, j);
    }
}

proof fn lemma_parse_quoted(s: Seq<char>, i: int, t: Seq<char>)
    requires
        plain(t),
        match_at(s, i, quoted(t)),
        i + quoted(t).len() <= s.len(),
    ensures
        parse_string(s, i) == Some((t, i + quoted(t).len())),
{
    reveal_strlit("\"");
    assert(quoted(t).len() == t.len() + 2);
    assert(s[i] == quoted(t)[0]);
    assert(quoted(t)[0] == '"');
    let close = i + t.len() + 1;
    assert(s[close] == quoted(t)[t.len() as int + 1]);
    assert(quoted(t)[t.len() as int + 1] == '"');
    assert forall|k: int| i + 1 <= k < close implies s[k] != '"' by {
        lemma_match_at_char(s, i, quoted(t), k - i);
        assert(quoted(t)[k - i] == t[k - i - 1]);
    }
    lemma_find_quote_at(s, i + 1, close);
    assert forall|k: int| 0 <= k < t.len() implies s.subrange(i + 1, close)[k] == t[k] by {
        lemma_match_at_char(s, i, quoted(t), k + 1);
        assert(quoted(t)[k + 1] == t[k]);
    }
    assert(s.subrange(i + 1, close) =~= t);
}

proof fn lemma_parse_rg_payload(s: Seq<char>, i: int, id: Seq<char>, title: Seq<char>)
    requires
        plain(id),
        plain(title),
        match_at(s, i, rg_payload(id, title)),
    ensures
        parse_rg(s, i) == Some(((id, title), i + rg_payload(id, title).len())),
{
    let a1 = rg_open();
    let a2 = a1 + quoted(id);
    let a3 = a2 + rg_title_key();
    let a4 = a3 + quoted(title);
    lemma_match_at_split(s, i, a4, object_close());
    lemma_match_at_split(s, i, a3, quoted(title));
    lemma_match_at_split(s, i, a2, rg_title_key());
    lemma_match_at_split(s, i, a1, quoted(id));
    lemma_parse_quoted(s, i + a1.len(), id);
    lemma_parse_quoted(s, i + a3.len(), title);
}

proof fn lemma_parse_rg_list_payload(s: Seq<char>, i: int, rgs: Seq<(Seq<char>, Seq<char>)>)
    requires
        all_plain_rgs(rgs),
        match_at(s, i, rg_list_payload(rgs) + "]"@),
    ensures
        parse_rg_list(s, i) == Some((rgs, i + rg_list_payload(rgs).len() + "]"@.len())),
    decreases rgs.len(),
{
    reveal_strlit("]");
    reveal_strlit(",");
    reveal_strlit("{\"id\":");
    if rgs.len() == 0 {
        assert(rg_list_payload(rgs) + "]"@ =~= "]"@);
        assert(s[i] == (rg_list_payload(rgs) + "]"@)[0]);
        assert(rgs =~= Seq::<(Seq<char>, Seq<char>)>::empty());
    } else {
        let head = rg_payload(rgs[0].0, rgs[0].1);
        assert(plain(rgs[0].0) && plain(rgs[0].1));
        if rgs.len() == 1 {
            lemma_match_at_split(s, i, head, "]"@);
            lemma_parse_rg_payload(s, i, rgs[0].0, rgs[0].1);
            let j = i + head.len();
            lemma_match_at_char(s, j, "]"@, 0);
            assert(s[j] == ']');
            assert(s[i] == head[0]);
            assert(head[0] == rg_open()[0]);
            assert(rg_open()[0] == '{');
            assert(seq![rgs[0]] =~= rgs);
        } else {
            let rest = rgs.drop_first();
            assert(rg_list_payload(rgs) + "]"@ =~= head + ","@ + (rg_list_payload(rest) + "]"@));
            lemma_match_at_split(s, i, head + ","@, rg_list_payload(rest) + "]"@);
            lemma_match_at_split(s, i, head, ","@);
            lemma_parse_rg_payload(s, i, rgs[0].0, rgs[0].1);
            let j = i + head.len();
            lemma_match_at_char(s, j, ","@, 0);
            assert(s[j] == ',');
            assert(s[i] == head[0]);
            assert(head[0] == rg_open()[0]);
            assert(rg_open()[0] == '{');
            assert(all_plain_rgs(rest));
            lemma_parse_rg_list_payload(s, j + 1, rest);
            assert(seq![rgs[0]] + rest =~= rgs);
        }
    }
}

/// Round trip through the artist decoder: the canonical artist payload
/// carrying `name` and the release groups `rgs` — all of them free of
/// double quotes — decodes to exactly `name` and `rgs`, with the
/// release groups in payload order.
pub proof fn lemma_decode_artist_payload(name: Seq<char>, rgs: Seq<(Seq<char>, Seq<char>)>)
    requires
        plain(name),
        all_plain_rgs(rgs),
    ensures
        spec_decode_artist(artist_payload(name, rgs)) == Some((name, rgs)),
{
    reveal_strlit("]");
    let s = artist_payload(name, rgs);
    let a1 = artist_open();
    let a2 = a1 + quoted(name);
    let a3 = a2 + artist_albums_key();
    let a4 = a3 + rg_list_payload(rgs);
    let a5 = a4 + "]"@;
    assert(match_at(s, 0, s)) by {
        assert forall|k: int| 0 <= k < s.len() implies s[0 + k] == #[trigger] s[k] by {
            assert(0 + k == k);
        }
    }
    assert(s =~= a5 + object_close());
    lemma_match_at_split(s, 0, a5, object_close());
    lemma_match_at_split(s, 0, a4, "]"@);
    lemma_match_at_split(s, 0, a3, rg_list_payload(rgs));
    lemma_match_at_split(s, 0, a2, artist_albums_key());
    lemma_match_at_split(s, 0, a1, quoted(name));
    lemma_parse_quoted(s, a1.len() as int, name);
    assert(match_at(s, a3.len() as int, rg_list_payload(rgs) + "]"@)) by {
        assert forall|k: int| 0 <= k < (rg_list_payload(rgs) + "]"@).len() implies s[a3.len() + k]
            == (rg_list_payload(rgs) + "]"@)[k] by {
            if k < rg_list_payload(rgs).len() {
                assert(s[a3.len() + k] == rg_list_payload(rgs)[k]);
            } else {
                assert(s[a4.len() + (k - rg_list_payload(rgs).len())] == "]"@[k
                    - rg_list_payload(rgs).len()]);
            }
        }
    }
    lemma_parse_rg_list_payload(s, a3.len() as int, rgs);
}

} // verus!

verus! {

/// Holds when every image URL in `imgs` is plain.
pub open spec fn all_plain_images(imgs: Seq<(bool, Seq<char>)>) -> bool {
    forall|k: int| 0 <= k < imgs.len() ==> plain((#[trigger] imgs[k]).1)
}

/// The canonical payload of one image.
pub open spec fn image_payload(front: bool, url: Seq<char>) -> Seq<char> {
    image_open() + (if front {
        "true"@
    } else {
        "false"@
    }) + image_url_key() + quoted(url) + object_close()
}

/// The canonical payloads of the images, joined by commas.
pub open spec fn image_list_payload(imgs: Seq<(bool, Seq<char>)>) -> Seq<char>
    decreases imgs.len(),
{
    if imgs.len() == 0 {
        Seq::empty()
    } else if imgs.len() == 1 {
        image_payload(imgs[0].0, imgs[0].1)
    } else {
        image_payload(imgs[0].0, imgs[0].1) + ","@ + image_list_payload(imgs.drop_first())
    }
}

/// The canonical cover-art payload carrying the images `imgs`, in that
/// order.
pub open spec fn cover_payload(imgs: Seq<(bool, Seq<char>)>) -> Seq<char> {
    cover_open() + image_list_payload(imgs) + "]"@ + object_close()
}

proof fn lemma_parse_bool_payload(s: Seq<char>, i: int, front: bool)
    requires
        match_at(
            s,
            i,
            (if front {
                "true"@
            } else {
                "false"@
            }),
        ),
    ensures
        parse_bool(s, i) == Some(
            (
                front,
                i + (if front {
                    "true"@
                } else {
                    "false"@
                }).len(),
            ),
        ),
{
    reveal_strlit("true");
    reveal_strlit("false");
    if !front {
        if match_at(s, i, "true"@) {
            lemma_match_at_char(s, i, "true"@, 0);
            lemma_match_at_char(s, i, "false"@, 0);
            assert(false);
        }
    }
}

proof fn lemma_parse_image_payload(s: Seq<char>, i: int, front: bool, url: Seq<char>)
    requires
        plain(url),
        match_at(s, i, image_payload(front, url)),
    ensures
        parse_image(s, i) == Some(((front, url), i + image_payload(front, url).len())),
{
    let b = if front {
        "true"@
    } else {
        "false"@
    };
    let a1 = image_open();
    let a2 = a1 + b;
    let a3 = a2 + image_url_key();
    let a4 = a3 + quoted(url);
    lemma_match_at_split(s, i, a4, object_close());
    lemma_match_at_split(s, i, a3, quoted(url));
    lemma_match_at_split(s, i, a2, image_url_key());
    lemma_match_at_split(s, i, a1, b);
    lemma_parse_bool_payload(s, i + a1.len(), front);
    lemma_parse_quoted(s, i + a3.len(), url);
}

proof fn lemma_parse_image_list_payload(s: Seq<char>, i: int, imgs: Seq<(bool, Seq<char>)>)
    requires
        all_plain_images(imgs),
        match_at(s, i, image_list_payload(imgs) + "]"@),
    ensures
        parse_image_list(s, i) == Some((imgs, i + image_list_payload(imgs).len() + "]"@.len())),
    decreases imgs.len(),
{
    reveal_strlit("]");
    reveal_strlit(",");
    reveal_strlit("{\"front\":");
    if imgs.len() == 0 {
        assert(image_list_payload(imgs) + "]"@ =~= "]"@);
        lemma_match_at_char(s, i, image_list_payload(imgs) + "]"@, 0);
        assert(imgs =~= Seq::<(bool, Seq<char>)>::empty());
    } else {
        let head = image_payload(imgs[0].0, imgs[0].1);
        assert(plain(imgs[0].1));
        if imgs.len() == 1 {
            lemma_match_at_split(s, i, head, "]"@);
            lemma_parse_image_payload(s, i, imgs[0].0, imgs[0].1);
            let j = i + head.len();
            lemma_match_at_char(s, j, "]"@, 0);
            assert(s[j] == ']');
            assert(s[i] == head[0]);
            assert(head[0] == image_open()[0]);
            assert(image_open()[0] == '{');
            assert(seq![imgs[0]] =~= imgs);
        } else {
            let rest = imgs.drop_first();
            assert(image_list_payload(imgs) + "]"@ =~= head + ","@ + (image_list_payload(rest)
                + "]"@));
            lemma_match_at_split(s, i, head + ","@, image_list_payload(rest) + "]"@);
            lemma_match_at_split(s, i, head, ","@);
            lemma_parse_image_payload(s, i, imgs[0].0, imgs[0].1);
            let j = i + head.len();
            lemma_match_at_char(s, j, ","@, 0);
            assert(s[j] == ',');
            assert(s[i] == head[0]);
            assert(head[0] == image_open()[0]);
            assert(image_open()[0] == '{');
            assert(all_plain_images(rest));
            lemma_parse_image_list_payload(s, j + 1, rest);
            assert(seq![imgs[0]] + rest =~= imgs);
        }
    }
}

/// Round trip through the cover-art decoder: the canonical cover-art
/// payload carrying the images `imgs` — their URLs free of double
/// quotes — decodes to exactly `imgs`, in payload order.
pub proof fn lemma_decode_cover_payload(imgs: Seq<(bool, Seq<char>)>)
    requires
        all_plain_images(imgs),
    ensures
        spec_decode_cover_art(cover_payload(imgs)) == Some(imgs),
{
    reveal_strlit("]");
    let s = cover_payload(imgs);
    let a1 = cover_open();
    let a2 = a1 + image_list_payload(imgs);
    let a3 = a2 + "]"@;
    assert(match_at(s, 0, s)) by {
        assert forall|k: int| 0 <= k < s.len() implies s[0 + k] == #[trigger] s[k] by {
            assert(0 + k == k);
        }
    }
    assert(s =~= a3 + object_close());
    lemma_match_at_split(s, 0, a3, object_close());
    lemma_match_at_split(s, 0, a2, "]"@);
    lemma_match_at_split(s, 0, a1, image_list_payload(imgs));
    assert(match_at(s, a1.len() as int, image_list_payload(imgs) + "]"@)) by {
        assert forall|k: int| 0 <= k < (image_list_payload(imgs) + "]"@).len() implies s[a1.len()
            + k] == (image_list_payload(imgs) + "]"@)[k] by {
            if k < image_list_payload(imgs).len() {
                assert(s[a1.len() + k] == image_list_payload(imgs)[k]);
            } else {
                assert(s[a2.len() + (k - image_list_payload(imgs).len())] == "]"@[k
                    - image_list_payload(imgs).len()]);
            }
        }
    }
    lemma_parse_image_list_payload(s, a1.len() as int, imgs);
}

} // verus!

verus! {

proof fn lemma_match_at_join(s: Seq<char>, i: int, a: Seq<char>, b: Seq<char>)
    requires
        match_at(s, i, a),
        match_at(s, i + a.len(), b),
    ensures
        match_at(s, i, a + b),
{
    assert forall|k: int| 0 <= k < (a + b).len() implies s[i + k] == (a + b)[k] by {
        if k < a.len() {
            lemma_match_at_char(s, i, a, k);
        } else {
            lemma_match_at_char(s, i + a.len(), b, k - a.len());
        }
    }
}

proof fn lemma_find_quote_props(s: Seq<char>, i: int)
    requires
        0 <= i <= s.len(),
    ensures
        i <= find_quote(s, i) <= s.len(),
        find_quote(s, i) < s.len() ==> s[find_quote(s, i)] == '"',
        forall|k: int| i <= k < find_quote(s, i) ==> s[k] != '"',
    decreases s.len() - i,
{
    if i < s.len() && s[i] != '"' {
        lemma_find_quote_props(s, i + 1);
    }
}

proof fn lemma_parse_string_sound(s: Seq<char>, i: int)
    requires
        parse_string(s, i) is Some,
    ensures
        plain(parse_string(s, i).unwrap().0),
        parse_string(s, i).unwrap().1 == i + quoted(parse_string(s, i).unwrap().0).len(),
        match_at(s, i, quoted(parse_string(s, i).unwrap().0)),
{
    reveal_strlit("\"");
    lemma_find_quote_props(s, i + 1);
    let t = parse_string(s, i).unwrap().0;
    let j = find_quote(s, i + 1);
    assert(quoted(t).len() == t.len() + 2);
    assert forall|k: int| 0 <= k < quoted(t).len() implies s[i + k] == quoted(t)[k] by {
        if k == 0 {
            assert(quoted(t)[0] == '"');
        } else if k == quoted(t).len() - 1 {
            assert(quoted(t)[k] == '"');
            assert(s[j] == '"');
        } else {
            assert(quoted(t)[k] == t[k - 1]);
            assert(t[k - 1] == s[i + 1 + (k - 1)]);
        }
    }
}

proof fn lemma_parse_rg_sound(s: Seq<char>, i: int)
    requires
        parse_rg(s, i) is Some,
    ensures
        plain(parse_rg(s, i).unwrap().0.0),
        plain(parse_rg(s, i).unwrap().0.1),
        match_at(s, i, rg_payload(parse_rg(s, i).unwrap().0.0, parse_rg(s, i).unwrap().0.1)),
        parse_rg(s, i).unwrap().1 == i + rg_payload(
            parse_rg(s, i).unwrap().0.0,
            parse_rg(s, i).unwrap().0.1,
        ).len(),
{
    let id_next = parse_string(s, i + rg_open().len()).unwrap();
    let title_next = parse_string(s, id_next.1 + rg_title_key().len()).unwrap();
    lemma_parse_string_sound(s, i + rg_open().len());
    lemma_parse_string_sound(s, id_next.1 + rg_title_key().len());
    let a1 = rg_open();
    let a2 = a1 + quoted(id_next.0);
    let a3 = a2 + rg_title_key();
    let a4 = a3 + quoted(title_next.0);
    lemma_match_at_join(s, i, a1, quoted(id_next.0));
    lemma_match_at_join(s, i, a2, rg_title_key());
    lemma_match_at_join(s, i, a3, quoted(title_next.0));
    lemma_match_at_join(s, i, a4, object_close());
}

proof fn lemma_parse_rg_list_sound(s: Seq<char>, i: int)
    requires
        parse_rg_list(s, i) is Some,
    ensures
        all_plain_rgs(parse_rg_list(s, i).unwrap().0),
        match_at(s, i, rg_list_payload(parse_rg_list(s, i).unwrap().0) + "]"@),
        parse_rg_list(s, i).unwrap().1 == i + rg_list_payload(parse_rg_list(s, i).unwrap().0).len()
            + "]"@.len(),
    decreases s.len() - i,
{
    reveal_strlit("]");
    reveal_strlit(",");
    let rgs = parse_rg_list(s, i).unwrap().0;
    if 0 <= i < s.len() && s[i] == ']' {
        assert(rg_list_payload(rgs) + "]"@ =~= "]"@);
        assert forall|k: int| 0 <= k < 1 implies s[i + k] == "]"@[k] by {
            assert(s[i + 0] == ']');
        }
    } else {
        let rg_next = parse_rg(s, i).unwrap();
        let head_pair = rg_next.0;
        let j = rg_next.1;
        lemma_parse_rg_sound(s, i);
        let head = rg_payload(head_pair.0, head_pair.1);
        if s[j] == ',' {
            let rest = parse_rg_list(s, j + 1).unwrap().0;
            lemma_parse_rg_list_sound(s, j + 1);
            assert(match_at(s, j, ","@)) by {
                assert forall|k: int| 0 <= k < 1 implies s[j + k] == ","@[k] by {
                    assert(s[j + 0] == ',');
                }
            }
            lemma_match_at_join(s, i, head, ","@);
            lemma_match_at_join(s, i, head + ","@, rg_list_payload(rest) + "]"@);
            assert(rgs =~= seq![head_pair] + rest);
            assert(rgs[0] == head_pair);
            assert(rgs.drop_first() =~= rest);
            assert(rg_list_payload(rgs) + "]"@ =~= (head + ","@) + (rg_list_payload(rest)
                + "]"@));
            assert(all_plain_rgs(rgs)) by {
                assert forall|k: int| 0 <= k < rgs.len() implies plain((#[trigger] rgs[k]).0)
                    && plain(rgs[k].1) by {
                    if k > 0 {
                        assert(rgs[k] == rest[k - 1]);
                    }
                }
            }
        } else {
            assert(s[j] == ']');
            assert(match_at(s, j, "]"@)) by {
                assert forall|k: int| 0 <= k < 1 implies s[j + k] == "]"@[k] by {
                    assert(s[j + 0] == ']');
                }
            }
            lemma_match_at_join(s, i, head, "]"@);
            assert(rgs =~= seq![head_pair]);
            assert(rg_list_payload(rgs) + "]"@ =~= head + "]"@);
        }
    }
}

/// The artist decoder accepts nothing but canonical payloads: a text that
/// decodes to `name` and `rgs` is exactly the canonical artist payload
/// carrying them, all of them free of double quotes. Together with the
/// round trip above, the accepted texts are exactly the canonical
/// payloads.
pub proof fn lemma_decode_artist_sound(s: Seq<char>)
    requires
        spec_decode_artist(s) is Some,
    ensures
        plain(spec_decode_artist(s).unwrap().0),
        all_plain_rgs(spec_decode_artist(s).unwrap().1),
        s == artist_payload(spec_decode_artist(s).unwrap().0, spec_decode_artist(s).unwrap().1),
{
    reveal_strlit("]");
    let name_next = parse_string(s, artist_open().len() as int).unwrap();
    let name = name_next.0;
    lemma_parse_string_sound(s, artist_open().len() as int);
    let rgs_next = parse_rg_list(s, name_next.1 + artist_albums_key().len()).unwrap();
    let rgs = rgs_next.0;
    lemma_parse_rg_list_sound(s, name_next.1 + artist_albums_key().len());
    let a1 = artist_open();
    let a2 = a1 + quoted(name);
    let a3 = a2 + artist_albums_key();
    lemma_match_at_join(s, 0, a1, quoted(name));
    lemma_match_at_join(s, 0, a2, artist_albums_key());
    lemma_match_at_join(s, 0, a3, rg_list_payload(rgs) + "]"@);
    lemma_match_at_join(s, 0, a3 + (rg_list_payload(rgs) + "]"@), object_close());
    let whole = a3 + (rg_list_payload(rgs) + "]"@) + object_close();
    assert(artist_payload(name, rgs) =~= whole);
    assert(whole.len() == s.len());
    assert forall|k: int| 0 <= k < s.len() implies s[k] == whole[k] by {
        lemma_match_at_char(s, 0, whole, k);
    }
    assert(s =~= artist_payload(name, rgs));
}

} // verus!

verus! {

proof fn lemma_parse_bool_sound(s: Seq<char>, i: int)
    requires
        parse_bool(s, i) is Some,
    ensures
        match_at(
            s,
            i,
            (if parse_bool(s, i).unwrap().0 {
                "true"@
            } else {
                "false"@
            }),
        ),
        parse_bool(s, i).unwrap().1 == i + (if parse_bool(s, i).unwrap().0 {
            "true"@
        } else {
            "false"@
        }).len(),
{
}

proof fn lemma_parse_image_sound(s: Seq<char>, i: int)
    requires
        parse_image(s, i) is Some,
    ensures
        plain(parse_image(s, i).unwrap().0.1),
        match_at(
            s,
            i,
            image_payload(parse_image(s, i).unwrap().0.0, parse_image(s, i).unwrap().0.1),
        ),
        parse_image(s, i).unwrap().1 == i + image_payload(
            parse_image(s, i).unwrap().0.0,
            parse_image(s, i).unwrap().0.1,
        ).len(),
{
    let front_next = parse_bool(s, i + image_open().len()).unwrap();
    let url_next = parse_string(s, front_next.1 + image_url_key().len()).unwrap();
    lemma_parse_bool_sound(s, i + image_open().len());
    lemma_parse_string_sound(s, front_next.1 + image_url_key().len());
    let b = if front_next.0 {
        "true"@
    } else {
        "false"@
    };
    let a1 = image_open();
    let a2 = a1 + b;
    let a3 = a2 + image_url_key();
    let a4 = a3 + quoted(url_next.0);
    lemma_match_at_join(s, i, a1, b);
    lemma_match_at_join(s, i, a2, image_url_key());
    lemma_match_at_join(s, i, a3, quoted(url_next.0));
    lemma_match_at_join(s, i, a4, object_close());
}

proof fn lemma_parse_image_list_sound(s: Seq<char>, i: int)
    requires
        parse_image_list(s, i) is Some,
    ensures
        all_plain_images(parse_image_list(s, i).unwrap().0),
        match_at(s, i, image_list_payload(parse_image_list(s, i).unwrap().0) + "]"@),
        parse_image_list(s, i).unwrap().1 == i + image_list_payload(
            parse_image_list(s, i).unwrap().0,
        ).len() + "]"@.len(),
    decreases s.len() - i,
{
    reveal_strlit("]");
    reveal_strlit(",");
    let imgs = parse_image_list(s, i).unwrap().0;
    if 0 <= i < s.len() && s[i] == ']' {
        assert(image_list_payload(imgs) + "]"@ =~= "]"@);
        assert forall|k: int| 0 <= k < 1 implies s[i + k] == "]"@[k] by {
            assert(s[i + 0] == ']');
        }
    } else {
        let img_next = parse_image(s, i).unwrap();
        let head_pair = img_next.0;
        let j = img_next.1;
        lemma_parse_image_sound(s, i);
        let head = image_payload(head_pair.0, head_pair.1);
        if s[j] == ',' {
            let rest = parse_image_list(s, j + 1).unwrap().0;
            lemma_parse_image_list_sound(s, j + 1);
            assert(match_at(s, j, ","@)) by {
                assert forall|k: int| 0 <= k < 1 implies s[j + k] == ","@[k] by {
                    assert(s[j + 0] == ',');
                }
            }
            lemma_match_at_join(s, i, head, ","@);
            lemma_match_at_join(s, i, head + ","@, image_list_payload(rest) + "]"@);
            assert(imgs =~= seq![head_pair] + rest);
            assert(imgs[0] == head_pair);
            assert(imgs.drop_first() =~= rest);
            assert(image_list_payload(imgs) + "]"@ =~= (head + ","@) + (image_list_payload(rest)
                + "]"@));
            assert(all_plain_images(imgs)) by {
                assert forall|k: int| 0 <= k < imgs.len() implies plain(
                    (#[trigger] imgs[k]).1,
                ) by {
                    if k > 0 {
                        assert(imgs[k] == rest[k - 1]);
                    }
                }
            }
        } else {
            assert(s[j] == ']');
            assert(match_at(s, j, "]"@)) by {
                assert forall|k: int| 0 <= k < 1 implies s[j + k] == "]"@[k] by {
                    assert(s[j + 0] == ']');
                }
            }
            lemma_match_at_join(s, i, head, "]"@);
            assert(imgs =~= seq![head_pair]);
            assert(image_list_payload(imgs) + "]"@ =~= head + "]"@);
        }
    }
}

/// The cover-art decoder accepts nothing but canonical payloads: a text
/// that decodes to the images `imgs` is exactly the canonical cover-art
/// payload carrying them, their URLs free of double quotes. Together with
/// the round trip above, the accepted texts are exactly the canonical
/// payloads.
pub proof fn lemma_decode_cover_sound(s: Seq<char>)
    requires
        spec_decode_cover_art(s) is Some,
    ensures
        all_plain_images(spec_decode_cover_art(s).unwrap()),
        s == cover_payload(spec_decode_cover_art(s).unwrap()),
{
    reveal_strlit("]");
    let imgs_next = parse_image_list(s, cover_open().len() as int).unwrap();
    let imgs = imgs_next.0;
    lemma_parse_image_list_sound(s, cover_open().len() as int);
    let a1 = cover_open();
    lemma_match_at_join(s, 0, a1, image_list_payload(imgs) + "]"@);
    lemma_match_at_join(s, 0, a1 + (image_list_payload(imgs) + "]"@), object_close());
    let whole = a1 + (image_list_payload(imgs) + "]"@) + object_close();
    assert(cover_payload(imgs) =~= whole);
    assert(whole.len() == s.len());
    assert forall|k: int| 0 <= k < s.len() implies s[k] == whole[k] by {
        lemma_match_at_char(s, 0, whole, k);
    }
    assert(s =~= cover_payload(imgs));
}

} // verus!
