//! The error taxonomy of the pipeline. Every error aborts its whole
//! operation; the pipeline never recovers locally or emits a partial atlas.

use vstd::prelude::*;

verus! {

/// Why packing found no valid placement.
#[derive(Clone, Copy, PartialEq, Eq, Structural, Debug)]
pub enum PackingError {
    /// The source list was empty; an empty input is always an error,
    /// never a zero-size atlas.
    EmptyInput,
    /// A source image had a zero width or height.
    InvalidDimension,
    /// The packed canvas would exceed the pixel coordinate range.
    SizeLimitExceeded,
}

/// Errors of the direct-load stage.
#[derive(Debug)]
pub enum LoaderError {
    /// The atlas resource could not be read.
    Io(String),
    /// The nested raw-image resolution failed, e.g. a format mismatch
    /// or an undecodable image.
    LoadDirect(String),
}

/// Errors of the build stage.
#[derive(Debug)]
pub enum BuildLoaderError {
    /// The descriptor resource could not be read.
    Io(String),
    /// The descriptor text was malformed.
    ConfigParse,
    /// A referenced source image failed to resolve.
    LoadDirect(String),
    /// Packing found no valid placement.
    TextureAtlasBuilder(PackingError),
}

/// Errors of the persist stage.
#[derive(Debug)]
pub enum SaverError {
    /// The encoded stream could not be written.
    Io(String),
    /// The pixel buffer could not be converted for encoding.
    IntoDynamicImage(String),
    /// The requested encoding is not supported.
    InvalidImageFormat(crate::format::ImageFormat),
    /// The encoder failed.
    Image(String),
    /// The layout sub-component was absent at save time.
    MissingLayout,
    /// The texture sub-component was absent at save time.
    MissingTexture,
}

} // verus!
