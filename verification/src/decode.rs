//! Decoding files to the luma grid the hash kernels consume: header
//! validation, format detection, a streamed JPEG fast path and a
//! generic fallback. The host reads the file bytes; decoding itself
//! is pure computation on them.

use vstd::prelude::*;

use crate::error::HashError;
use crate::grid::LumaGrid;
use crate::text::eq_ignore_ascii_case;
use crate::scanner::{file_name_part, extension_part};
use crate::text::spec_eq_lower;

verus! {

/// Whether the bytes begin with one of the known image signatures:
/// JPEG, PNG, GIF, RIFF/WEBP, an `ftyp` box with a HEIC brand, BMP,
/// or TIFF in either byte order.
pub open spec fn spec_valid_header(b: Seq<u8>) -> bool {
    b.len() >= 8 && {
        ||| (b[0] == 0xFF && b[1] == 0xD8 && b[2] == 0xFF)
        ||| (b[0] == 0x89 && b[1] == 0x50 && b[2] == 0x4E && b[3] == 0x47 && b[4] == 0x0D && b[5]
            == 0x0A && b[6] == 0x1A && b[7] == 0x0A)
        ||| (b[0] == 0x47 && b[1] == 0x49 && b[2] == 0x46 && b[3] == 0x38)
        ||| (b.len() >= 12 && b[0] == 0x52 && b[1] == 0x49 && b[2] == 0x46 && b[3] == 0x46 && b[8]
            == 0x57 && b[9] == 0x45 && b[10] == 0x42 && b[11] == 0x50)
        ||| (b.len() >= 12 && b[4] == 0x66 && b[5] == 0x74 && b[6] == 0x79 && b[7] == 0x70 && ((b[8]
            == 0x68 && b[9] == 0x65 && b[10] == 0x69 && b[11] == 0x63) || (b[8] == 0x68 && b[9]
            == 0x65 && b[10] == 0x69 && b[11] == 0x78) || (b[8] == 0x6D && b[9] == 0x69 && b[10]
            == 0x66 && b[11] == 0x31) || (b[8] == 0x68 && b[9] == 0x65 && b[10] == 0x76 && b[11]
            == 0x63)))
        ||| (b[0] == 0x42 && b[1] == 0x4D)
        ||| (b[0] == 0x49 && b[1] == 0x49 && b[2] == 0x2A && b[3] == 0x00)
        ||| (b[0] == 0x4D && b[1] == 0x4D && b[2] == 0x00 && b[3] == 0x2A)
    }
}

/// Validate magic bytes to reject non-images before decoding.
pub fn validate_image_header(bytes: &[u8]) -> (r: bool)
    ensures
        r == spec_valid_header(bytes@),
{
    if bytes.len() < 8 {
        return false;
    }
    if bytes[0] == 0xFF && bytes[1] == 0xD8 && bytes[2] == 0xFF {
        return true;
    }
    if bytes[0] == 0x89 && bytes[1] == 0x50 && bytes[2] == 0x4E && bytes[3] == 0x47 && bytes[4]
        == 0x0D && bytes[5] == 0x0A && bytes[6] == 0x1A && bytes[7] == 0x0A {
        return true;
    }
    if bytes[0] == 0x47 && bytes[1] == 0x49 && bytes[2] == 0x46 && bytes[3] == 0x38 {
        return true;
    }
    if bytes.len() >= 12 && bytes[0] == 0x52 && bytes[1] == 0x49 && bytes[2] == 0x46 && bytes[3]
        == 0x46 {
        if bytes[8] == 0x57 && bytes[9] == 0x45 && bytes[10] == 0x42 && bytes[11] == 0x50 {
            return true;
        }
    }
    if bytes.len() >= 12 && bytes[4] == 0x66 && bytes[5] == 0x74 && bytes[6] == 0x79 && bytes[7]
        == 0x70 {
        let b8 = bytes[8];
        let b9 = bytes[9];
        let b10 = bytes[10];
        let b11 = bytes[11];
        if (b8 == 0x68 && b9 == 0x65 && b10 == 0x69 && b11 == 0x63) || (b8 == 0x68 && b9 == 0x65
            && b10 == 0x69 && b11 == 0x78) || (b8 == 0x6D && b9 == 0x69 && b10 == 0x66 && b11
            == 0x31) || (b8 == 0x68 && b9 == 0x65 && b10 == 0x76 && b11 == 0x63) {
            return true;
        }
    }
    if bytes[0] == 0x42 && bytes[1] == 0x4D {
        return true;
    }
    if bytes[0] == 0x49 && bytes[1] == 0x49 && bytes[2] == 0x2A && bytes[3] == 0x00 {
        return true;
    }
    if bytes[0] == 0x4D && bytes[1] == 0x4D && bytes[2] == 0x00 && bytes[3] == 0x2A {
        return true;
    }
    false
}

/// Formats with a dedicated decode path.
#[derive(Debug, Clone, Copy, PartialEq, Eq, Structural)]
pub enum ImageFormat {
    Jpeg,
    Png,
    WebP,
    Heic,
    Other,
}

/// The decode path an extension selects, case-insensitively.
pub open spec fn spec_decode_format_of(e: Seq<char>) -> ImageFormat {
    if spec_eq_lower(e, "jpg"@) || spec_eq_lower(e, "jpeg"@) {
        ImageFormat::Jpeg
    } else if spec_eq_lower(e, "png"@) {
        ImageFormat::Png
    } else if spec_eq_lower(e, "webp"@) {
        ImageFormat::WebP
    } else if spec_eq_lower(e, "heic"@) || spec_eq_lower(e, "heif"@) {
        ImageFormat::Heic
    } else {
        ImageFormat::Other
    }
}

/// The decode path a path selects, by its extension.
pub open spec fn spec_path_format(path: Seq<char>) -> ImageFormat {
    let name = crate::scanner::spec_file_name(path);
    let k = crate::scanner::spec_last_dot(name);
    if k >= 1 {
        spec_decode_format_of(name.skip(k + 1))
    } else {
        ImageFormat::Other
    }
}

impl ImageFormat {
    /// Detect the decode path from a path's extension.
    pub fn from_path(path: &str) -> (r: ImageFormat)
        ensures
            r == spec_path_format(path@),
    {
        let name = file_name_part(path);
        match extension_part(name.as_str()) {
            Some(ext) => {
                proof {
                    reveal_strlit("jpg");
                    reveal_strlit("jpeg");
                    reveal_strlit("png");
                    reveal_strlit("webp");
                    reveal_strlit("heic");
                    reveal_strlit("heif");
                }
                let e = ext.as_str();
                if eq_ignore_ascii_case(e, "jpg") || eq_ignore_ascii_case(e, "jpeg") {
                    ImageFormat::Jpeg
                } else if eq_ignore_ascii_case(e, "png") {
                    ImageFormat::Png
                } else if eq_ignore_ascii_case(e, "webp") {
                    ImageFormat::WebP
                } else if eq_ignore_ascii_case(e, "heic") || eq_ignore_ascii_case(e, "heif") {
                    ImageFormat::Heic
                } else {
                    ImageFormat::Other
                }
            },
            None => ImageFormat::Other,
        }
    }
}

/// What the streamed JPEG decoder yields on the bytes of a file:
/// the luma pixels with their dimensions, or nothing when the bytes
/// do not decode. The result depends on the bytes alone.
pub uninterp spec fn zune_jpeg_luma(bytes: Seq<u8>) -> Option<(u32, u32, Seq<u8>)>;

/// What the generic decoder yields on the bytes of a file, after the
/// luma conversion: the luma pixels with their dimensions, or nothing
/// when no format decodes them. The result depends on the bytes alone.
pub uninterp spec fn image_luma(bytes: Seq<u8>) -> Option<(u32, u32, Seq<u8>)>;

/// Fast image decoder: a streamed JPEG path with a generic fallback.
pub struct FastDecoder {}

/// Relies on zune_jpeg's JpegDecoder configured for luma output:
/// `decode` parses the JPEG bytes into one byte per pixel and `info`
/// carries the dimensions; both are functions of the bytes alone.
#[verifier::external_body]
fn decode_jpeg_bytes(bytes: &Vec<u8>) -> (r: Option<(u32, u32, Vec<u8>)>)
    ensures
        match r {
            Some((w, h, px)) => zune_jpeg_luma(bytes@) == Some((w, h, px@)),
            None => zune_jpeg_luma(bytes@) is None,
        },
{
    let opts = zune_core::options::DecoderOptions::new_fast().jpeg_set_out_colorspace(
        zune_core::colorspace::ColorSpace::Luma,
    );
    let cur = zune_core::bytestream::ZCursor::new(bytes.as_slice());
    let mut dec = zune_jpeg::JpegDecoder::new_with_options(cur, opts);
    let px = dec.decode().ok()?;
    let info = dec.info()?;
    Some((info.width as u32, info.height as u32, px))
}

/// Relies on image's load_from_memory and DynamicImage::to_luma8:
/// the decoded image converted to one luma byte per pixel; both are
/// functions of the bytes alone.
#[verifier::external_body]
fn decode_fallback_bytes(bytes: &Vec<u8>) -> (r: Option<(u32, u32, Vec<u8>)>)
    ensures
        match r {
            Some((w, h, px)) => image_luma(bytes@) == Some((w, h, px@)),
            None => image_luma(bytes@) is None,
        },
{
    let img = image::load_from_memory(bytes.as_slice()).ok()?;
    let gray = img.to_luma8();
    let (w, h) = (gray.width(), gray.height());
    Some((w, h, gray.into_raw()))
}

/// Whether a decoded grid is what one of the decoders yields on the
/// bytes.
pub open spec fn spec_decoded(bytes: Seq<u8>, g: LumaGrid) -> bool {
    ||| zune_jpeg_luma(bytes) == Some((g.width, g.height, g.pixels@))
    ||| image_luma(bytes) == Some((g.width, g.height, g.pixels@))
}

/// Whether the streamed JPEG decoder yields a well-formed grid on
/// the bytes: it decodes, with one byte per pixel.
pub open spec fn spec_jpeg_ok(bytes: Seq<u8>) -> bool {
    match zune_jpeg_luma(bytes) {
        Some((w, h, px)) => px.len() == w as int * h as int,
        None => false,
    }
}

/// Whether the generic decoder yields a well-formed grid on the
/// bytes.
pub open spec fn spec_image_ok(bytes: Seq<u8>) -> bool {
    match image_luma(bytes) {
        Some((w, h, px)) => px.len() == w as int * h as int,
        None => false,
    }
}

/// The decode the pipeline uses on these bytes under this format:
/// the streamed JPEG result when the format selects it and it yields
/// a well-formed grid, else the generic decoder's result, else
/// nothing.
pub open spec fn spec_chosen_decode(bytes: Seq<u8>, format: ImageFormat) -> Option<(
    u32,
    u32,
    Seq<u8>,
)> {
    if format == ImageFormat::Jpeg && spec_jpeg_ok(bytes) {
        zune_jpeg_luma(bytes)
    } else if spec_image_ok(bytes) {
        image_luma(bytes)
    } else {
        None
    }
}

impl FastDecoder {
    /// Decode file bytes to a luma grid: JPEG bytes go through the
    /// streamed decoder first, everything else (and any JPEG the fast
    /// path rejects) through the generic decoder. It succeeds exactly
    /// when one of the two decoders accepts the bytes; bytes neither
    /// accepts are a decode error naming the path.
    pub fn decode(bytes: &Vec<u8>, format: ImageFormat, path: &String) -> (r: Result<
        LumaGrid,
        HashError,
    >)
        ensures
            r is Ok <==> ((format == ImageFormat::Jpeg && spec_jpeg_ok(bytes@)) || spec_image_ok(
                bytes@,
            )),
            match r {
                Ok(g) => {
                    &&& g.wf()
                    &&& spec_decoded(bytes@, g)
                    &&& (format == ImageFormat::Jpeg && spec_jpeg_ok(bytes@))
                        ==> zune_jpeg_luma(bytes@) == Some((g.width, g.height, g.pixels@))
                    &&& !(format == ImageFormat::Jpeg && spec_jpeg_ok(bytes@)) ==> image_luma(
                        bytes@,
                    ) == Some((g.width, g.height, g.pixels@))
                },
                Err(e) => e is DecodeError,
            },
    {
        if format == ImageFormat::Jpeg {
            if let Some((w, h, px)) = decode_jpeg_bytes(bytes) {
                if let Some(g) = LumaGrid::new(w, h, px) {
                    return Ok(g);
                }
            }
        }
        if let Some((w, h, px)) = decode_fallback_bytes(bytes) {
            if let Some(g) = LumaGrid::new(w, h, px) {
                return Ok(g);
            }
        }
        Err(
            HashError::DecodeError {
                path: path.clone(),
                reason: String::from_str("no decoder accepted the file"),
            },
        )
    }
}

} // verus!
