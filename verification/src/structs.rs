//! The domain records: an artist with its ordered album list, and the
//! transient shape of a decoded cover-art payload.

use vstd::prelude::*;

use crate::errors::ResourceError;

verus! {

/// One album of an artist. `image` is absent until the cover-art lookup for
/// this album succeeds; `error` marks a placeholder substituted when that
/// lookup failed, and in that state `image` is always absent.
#[derive(Debug, Clone, PartialEq, Eq)]
pub struct AlbumReference {
    pub id: String,
    pub title: String,
    pub image: Option<String>,
    pub error: bool,
}

/// An artist with its ordered album list.
#[derive(Debug, Clone, PartialEq, Eq)]
pub struct ArtistReference {
    pub name: String,
    pub albums: Vec<AlbumReference>,
}

/// One entry of a cover-art payload: an image URL, flagged as the front
/// cover or not.
#[derive(Debug, Clone, PartialEq, Eq)]
pub struct Image {
    pub front: bool,
    pub image: String,
}

/// A decoded cover-art payload: the list of images, in payload order.
#[derive(Debug, Clone, PartialEq, Eq)]
pub struct CoverArtResponse {
    pub images: Vec<Image>,
}

impl AlbumReference {
    /// Attaches a cover-art image URL to this album; every other field is
    /// left as it was.
    pub fn with_image(&mut self, image: String) -> (r: &AlbumReference)
        ensures
            final(self).image == Some(image),
            final(self).id == old(self).id,
            final(self).title == old(self).title,
            final(self).error == old(self).error,
            *r == *final(self),
    {
        self.image = Some(image);

        self
    }

    /// Builds the failure placeholder for the one album whose cover-art
    /// lookup failed: same id, the title if it was known at failure time,
    /// no image, and the error flag set.
    pub fn from(err: ResourceError) -> (r: AlbumReference)
        requires
            err is AlbumError,
        ensures
            (match err {
                ResourceError::AlbumError { album_id, album_title, .. } => {
                    &&& r.id == album_id
                    &&& (match album_title {
                        Some(t) => r.title == t,
                        None => r.title@ == Seq::<char>::empty(),
                    })
                    &&& r.image is None
                    &&& r.error
                },
                _ => true,
            }),
    {
        match err {
            ResourceError::AlbumError { album_id, album_title, .. } => AlbumReference {
                id: album_id,
                title: (match album_title {
                    Some(t) => t,
                    None => String::new(),
                }),
                image: None,
                error: true,
            },
            ResourceError::ArtistError { .. } => AlbumReference {
                id: String::new(),
                title: String::new(),
                image: None,
                error: true,
            },
        }
    }
}

} // verus!
