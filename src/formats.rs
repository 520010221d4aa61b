//! Image container formats: detection from content and the file extension
//! each one is stored under.

use vstd::prelude::*;

verus! {

/// The formats that get an extension of their own; every other format is
/// stored under the fallback extension.
#[derive(PartialEq, Eq, Structural, Clone, Copy, Debug)]
pub enum ImgFormat {
    Png,
    Jpeg,
    Gif,
    WebP,
    Pnm,
    Tiff,
    Tga,
    Dds,
    Bmp,
    Ico,
    Hdr,
    Other,
}

/// The format whose variant name in the image library is `n`.
pub open spec fn format_named(n: Seq<char>) -> ImgFormat {
    if n == "Png"@ {
        ImgFormat::Png
    } else if n == "Jpeg"@ {
        ImgFormat::Jpeg
    } else if n == "Gif"@ {
        ImgFormat::Gif
    } else if n == "WebP"@ {
        ImgFormat::WebP
    } else if n == "Pnm"@ {
        ImgFormat::Pnm
    } else if n == "Tiff"@ {
        ImgFormat::Tiff
    } else if n == "Tga"@ {
        ImgFormat::Tga
    } else if n == "Dds"@ {
        ImgFormat::Dds
    } else if n == "Bmp"@ {
        ImgFormat::Bmp
    } else if n == "Ico"@ {
        ImgFormat::Ico
    } else if n == "Hdr"@ {
        ImgFormat::Hdr
    } else {
        ImgFormat::Other
    }
}

/// The extension a format is stored under.
pub open spec fn extension_of(f: ImgFormat) -> Seq<char> {
    match f {
        ImgFormat::Png => "png"@,
        ImgFormat::Jpeg => "jpeg"@,
        ImgFormat::Gif => "gif"@,
        ImgFormat::WebP => "webp"@,
        ImgFormat::Pnm => "pnm"@,
        ImgFormat::Tiff => "tiff"@,
        ImgFormat::Tga => "tga"@,
        ImgFormat::Dds => "dds"@,
        ImgFormat::Bmp => "bmp"@,
        ImgFormat::Ico => "ico"@,
        ImgFormat::Hdr => "hdr"@,
        ImgFormat::Other => "jpg"@,
    }
}

/// The name of the format that the image library detects from the leading
/// bytes of `bytes`, or none when it recognises no format.
pub uninterp spec fn guessed_format_name(bytes: Seq<u8>) -> Option<Seq<char>>;

/// Relies on `image::guess_format`, which matches the leading magic bytes;
/// the detected format is handed back as its variant name.
#[verifier::external_body]
fn guess_format_name(bytes: &[u8]) -> (r: Option<String>)
    ensures
        guessed_format_name(bytes@) == (match r {
            Some(s) => Some(s@),
            None => None::<Seq<char>>,
        }),
{
    match image::guess_format(bytes) {
        Ok(f) => Some(format!("{:?}", f)),
        Err(_) => None,
    }
}

impl ImgFormat {
    /// The format with the given variant name.
    pub fn from_name(name: &str) -> (r: ImgFormat)
        ensures
            r == format_named(name@),
    {
        let n = name.to_owned();
        if n == "Png".to_owned() {
            ImgFormat::Png
        } else if n == "Jpeg".to_owned() {
            ImgFormat::Jpeg
        } else if n == "Gif".to_owned() {
            ImgFormat::Gif
        } else if n == "WebP".to_owned() {
            ImgFormat::WebP
        } else if n == "Pnm".to_owned() {
            ImgFormat::Pnm
        } else if n == "Tiff".to_owned() {
            ImgFormat::Tiff
        } else if n == "Tga".to_owned() {
            ImgFormat::Tga
        } else if n == "Dds".to_owned() {
            ImgFormat::Dds
        } else if n == "Bmp".to_owned() {
            ImgFormat::Bmp
        } else if n == "Ico".to_owned() {
            ImgFormat::Ico
        } else if n == "Hdr".to_owned() {
            ImgFormat::Hdr
        } else {
            ImgFormat::Other
        }
    }
}

/// The format detected from the content of `bytes`, if any.
pub fn detect_format(bytes: &[u8]) -> (r: Option<ImgFormat>)
    ensures
        r == (match guessed_format_name(bytes@) {
            Some(n) => Some(format_named(n)),
            None => None::<ImgFormat>,
        }),
{
    match guess_format_name(bytes) {
        Some(n) => Some(ImgFormat::from_name(n.as_str())),
        None => None,
    }
}

/// The extension a format is stored under.
pub fn get_img_extension(format: &ImgFormat) -> (r: &'static str)
    ensures
        r@ == extension_of(*format),
{
    match format {
        ImgFormat::Png => "png",
        ImgFormat::Jpeg => "jpeg",
        ImgFormat::Gif => "gif",
        ImgFormat::WebP => "webp",
        ImgFormat::Pnm => "pnm",
        ImgFormat::Tiff => "tiff",
        ImgFormat::Tga => "tga",
        ImgFormat::Dds => "dds",
        ImgFormat::Bmp => "bmp",
        ImgFormat::Ico => "ico",
        ImgFormat::Hdr => "hdr",
        ImgFormat::Other => "jpg",
    }
}

} // verus!
