//! Resolves a music artist identifier into an enriched record: the artist's
//! name plus its albums, each annotated with a cover-art image URL when the
//! cover-art lookup for that album succeeds.
//!
//! The pipeline draws on two upstream resources (artist metadata and
//! cover art by release group), reached through caller-supplied fetch
//! capabilities, and tolerates per-album failures without discarding the
//! whole result.

pub mod codec;
pub mod errors;
pub mod pipeline;
pub mod resource;
pub mod structs;

pub use errors::DecodeError;
pub use errors::ErrorCause;
pub use errors::QueryError;
pub use errors::ResourceError;
pub use errors::TypedIOError;
pub use structs::AlbumReference;
pub use structs::ArtistReference;
pub use structs::CoverArtResponse;
pub use structs::Image;
