//! Content-type classification of files by their leading bytes.
//!
//! A file is viewable only when its content carries the signature of a
//! supported image format.  Classification never looks at the file name or
//! extension, so a renamed image is still accepted and a text file named
//! like an image is rejected.

use vstd::prelude::*;

verus! {

/// The supported image formats.
#[derive(Clone, Copy, Debug, PartialEq, Eq, Structural)]
pub enum ImageKind {
    Ico,
    Gif,
    Png,
    Jpeg,
    Webp,
}

/// What classification reports for one file: a supported image, readable
/// content of some other type, or content that could not be read at all.
#[derive(Clone, Copy, Debug, PartialEq, Eq, Structural)]
pub enum Classification {
    Image(ImageKind),
    Unsupported,
    Unreadable,
}

/// ICO signature: reserved word 0, type word 1, little-endian.
pub open spec fn is_ico(data: Seq<u8>) -> bool {
    data.len() >= 4 && data[0] == 0x00u8 && data[1] == 0x00u8 && data[2] == 0x01u8 && data[3]
        == 0x00u8
}

/// GIF signature: "GIF87a" or "GIF89a".
pub open spec fn is_gif(data: Seq<u8>) -> bool {
    data.len() >= 6 && data[0] == 0x47u8 && data[1] == 0x49u8 && data[2] == 0x46u8 && data[3]
        == 0x38u8 && (data[4] == 0x37u8 || data[4] == 0x39u8) && data[5] == 0x61u8
}

/// PNG signature: the fixed eight-byte header.
pub open spec fn is_png(data: Seq<u8>) -> bool {
    data.len() >= 8 && data[0] == 0x89u8 && data[1] == 0x50u8 && data[2] == 0x4Eu8 && data[3]
        == 0x47u8 && data[4] == 0x0Du8 && data[5] == 0x0Au8 && data[6] == 0x1Au8 && data[7]
        == 0x0Au8
}

/// JPEG signature: SOI marker followed by a marker byte.
pub open spec fn is_jpeg(data: Seq<u8>) -> bool {
    data.len() >= 3 && data[0] == 0xFFu8 && data[1] == 0xD8u8 && data[2] == 0xFFu8
}

/// WEBP signature: a RIFF container whose form type is "WEBP".
pub open spec fn is_webp(data: Seq<u8>) -> bool {
    data.len() >= 12 && data[0] == 0x52u8 && data[1] == 0x49u8 && data[2] == 0x46u8 && data[3]
        == 0x46u8 && data[8] == 0x57u8 && data[9] == 0x45u8 && data[10] == 0x42u8 && data[11]
        == 0x50u8
}

/// The supported image format carried by readable content, if any.  The
/// signatures differ in their first byte, so at most one can match.
pub open spec fn image_kind_of(data: Seq<u8>) -> Option<ImageKind> {
    if is_ico(data) {
        Some(ImageKind::Ico)
    } else if is_gif(data) {
        Some(ImageKind::Gif)
    } else if is_png(data) {
        Some(ImageKind::Png)
    } else if is_jpeg(data) {
        Some(ImageKind::Jpeg)
    } else if is_webp(data) {
        Some(ImageKind::Webp)
    } else {
        None
    }
}

/// The classification of a file whose read attempt yielded `content`:
/// `None` stands for a failed read.
pub open spec fn classification_of(content: Option<Seq<u8>>) -> Classification {
    match content {
        Option::None => Classification::Unreadable,
        Option::Some(data) => match image_kind_of(data) {
            Option::Some(kind) => Classification::Image(kind),
            Option::None => Classification::Unsupported,
        },
    }
}

/// Reports the supported image format whose signature the leading bytes
/// carry, by content alone.
pub fn image_kind(data: &Vec<u8>) -> (r: Option<ImageKind>)
    ensures
        r == image_kind_of(data@),
{
    let n = data.len();
    if n >= 4 && data[0] == 0x00u8 && data[1] == 0x00u8 && data[2] == 0x01u8 && data[3] == 0x00u8 {
        Some(ImageKind::Ico)
    } else if n >= 6 && data[0] == 0x47u8 && data[1] == 0x49u8 && data[2] == 0x46u8 && data[3]
        == 0x38u8 && (data[4] == 0x37u8 || data[4] == 0x39u8) && data[5] == 0x61u8 {
        Some(ImageKind::Gif)
    } else if n >= 8 && data[0] == 0x89u8 && data[1] == 0x50u8 && data[2] == 0x4Eu8 && data[3]
        == 0x47u8 && data[4] == 0x0Du8 && data[5] == 0x0Au8 && data[6] == 0x1Au8 && data[7]
        == 0x0Au8 {
        Some(ImageKind::Png)
    } else if n >= 3 && data[0] == 0xFFu8 && data[1] == 0xD8u8 && data[2] == 0xFFu8 {
        Some(ImageKind::Jpeg)
    } else if n >= 12 && data[0] == 0x52u8 && data[1] == 0x49u8 && data[2] == 0x46u8 && data[3]
        == 0x46u8 && data[8] == 0x57u8 && data[9] == 0x45u8 && data[10] == 0x42u8 && data[11]
        == 0x50u8 {
        Some(ImageKind::Webp)
    } else {
        None
    }
}

/// Classifies a file from the outcome of reading its content: a failed
/// read is `Unreadable`, readable content without a supported image
/// signature is `Unsupported`, and otherwise the image format is reported.
pub fn check_mime(content: &Option<Vec<u8>>) -> (r: Classification)
    ensures
        r == classification_of(match content {
            Option::None => Option::<Seq<u8>>::None,
            Option::Some(data) => Option::Some(data@),
        }),
{
    match content {
        None => Classification::Unreadable,
        Some(data) => match image_kind(data) {
            Some(kind) => Classification::Image(kind),
            None => Classification::Unsupported,
        },
    }
}

} // verus!
