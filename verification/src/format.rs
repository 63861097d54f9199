//! The closed set of image encodings the pipeline can read and write.

use vstd::prelude::*;

verus! {

/// An image encoding. When no format is given, loading falls back to
/// auto-detection by the image-codec collaborator.
#[derive(Clone, Copy, PartialEq, Eq, Structural, Debug)]
pub enum ImageFormat {
    Png,
    Jpeg,
    Bmp,
}

impl ImageFormat {
    /// The conventional file extension of this encoding.
    pub open spec fn spec_extension(self) -> Seq<char> {
        match self {
            ImageFormat::Png => "png"@,
            ImageFormat::Jpeg => "jpg"@,
            ImageFormat::Bmp => "bmp"@,
        }
    }

    /// The conventional file extension of this encoding.
    pub fn extension(self) -> (r: &'static str)
        ensures
            r@ == self.spec_extension(),
    {
        match self {
            ImageFormat::Png => "png",
            ImageFormat::Jpeg => "jpg",
            ImageFormat::Bmp => "bmp",
        }
    }
}

} // verus!
