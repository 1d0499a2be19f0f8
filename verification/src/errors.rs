//! The failure taxonomy of the pipeline: transport failures with the
//! resource they touched, their artist- or album-level wrappers, and the
//! distinct decode-defect kind for malformed upstream payloads.

use vstd::prelude::*;

verus! {

/// What a transport failure came from: a non-success status answered by
/// the upstream service, or a lower-level I/O or network failure kept as
/// its human-readable message.
#[derive(Debug, Clone, PartialEq, Eq)]
pub enum ErrorCause {
    Status(u16),
    Io(String),
}

/// A transport-level failure: the resource (URL or path) that was being
/// accessed and the underlying cause. Never constructed from a decode
/// failure.
#[derive(Debug, Clone, PartialEq, Eq)]
pub struct TypedIOError {
    pub resource: String,
    pub cause: ErrorCause,
}

/// A failure of the enrichment pipeline. An `ArtistError` means the whole
/// query failed at the metadata-fetch stage and never carries album
/// context; an `AlbumError` means one album's cover-art fetch failed and
/// carries enough identity to rebuild a placeholder for that one album.
#[derive(Debug, Clone, PartialEq, Eq)]
pub enum ResourceError {
    AlbumError {
        artist_id: String,
        album_id: String,
        album_title: Option<String>,
        cause: TypedIOError,
    },
    ArtistError { artist_id: String, cause: TypedIOError },
}

/// A malformed upstream payload: a defect, reported distinctly from the
/// transport failures above and never substituted by a placeholder.
#[derive(Debug, Clone, PartialEq, Eq)]
pub enum DecodeError {
    MalformedArtist,
    MalformedCoverArt,
    NoFrontImage,
}

/// What a whole query can fail with: a transport failure while fetching
/// the artist metadata, or a decode defect in an upstream payload.
#[derive(Debug, Clone, PartialEq, Eq)]
pub enum QueryError {
    Resource(ResourceError),
    Decode(DecodeError),
}

/// Accepts the body of an upstream response exactly when the service
/// answered with the success status, and otherwise wraps the status code
/// as the transport failure for `resource`.
pub fn response_for_status(resource: &str, status: u16, body: String) -> (r: Result<
    String,
    TypedIOError,
>)
    ensures
        (match r {
            Ok(b) => status == 200 && b == body,
            Err(e) => {
                &&& status != 200
                &&& e.resource@ == resource@
                &&& e.cause == ErrorCause::Status(status)
            },
        }),
{
    if status == 200 {
        Ok(body)
    } else {
        Err(TypedIOError { resource: resource.to_owned(), cause: ErrorCause::Status(status) })
    }
}

/// The transport failure inside either variant of a `ResourceError`.
pub open spec fn cause_of(err: ResourceError) -> TypedIOError {
    match err {
        ResourceError::AlbumError { cause, .. } => cause,
        ResourceError::ArtistError { cause, .. } => cause,
    }
}

/// Narrows a pipeline failure down to the transport failure it wraps.
impl core::convert::From<ResourceError> for TypedIOError {
    fn from(err: ResourceError) -> (r: TypedIOError) {
        match err {
            ResourceError::AlbumError { cause, .. } => cause,
            ResourceError::ArtistError { cause, .. } => cause,
        }
    }
}

impl vstd::std_specs::convert::FromSpecImpl<ResourceError> for TypedIOError {
    open spec fn obeys_from_spec() -> bool {
        true
    }

    open spec fn from_spec(err: ResourceError) -> TypedIOError {
        cause_of(err)
    }
}

} // verus!
