use vstd::prelude::*;

verus! {

/// Raster formats that a composite can be encoded to.
#[derive(Debug, Clone, Copy, PartialEq, Eq, Structural)]
pub enum EncodeFormat {
    Png,
    Jpeg,
    Gif,
    WebP,
}

impl EncodeFormat {
    /// The media type of the format.
    pub fn content_type(&self) -> (r: &'static str)
        ensures
            *self == EncodeFormat::Png ==> r@ == "image/png"@,
            *self == EncodeFormat::Jpeg ==> r@ == "image/jpeg"@,
            *self == EncodeFormat::Gif ==> r@ == "image/gif"@,
            *self == EncodeFormat::WebP ==> r@ == "image/webp"@,
    {
        match self {
            EncodeFormat::Png => "image/png",
            EncodeFormat::Jpeg => "image/jpeg",
            EncodeFormat::Gif => "image/gif",
            EncodeFormat::WebP => "image/webp",
        }
    }

    /// The usual file extension of the format, without the dot.
    pub fn file_extension(&self) -> (r: &'static str)
        ensures
            *self == EncodeFormat::Png ==> r@ == "png"@,
            *self == EncodeFormat::Jpeg ==> r@ == "jpeg"@,
            *self == EncodeFormat::Gif ==> r@ == "gif"@,
            *self == EncodeFormat::WebP ==> r@ == "webp"@,
    {
        match self {
            EncodeFormat::Png => "png",
            EncodeFormat::Jpeg => "jpeg",
            EncodeFormat::Gif => "gif",
            EncodeFormat::WebP => "webp",
        }
    }
}

} // verus!
