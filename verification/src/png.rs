//! The boundary to the image library: reading a PNG byte stream's
//! dimensions, decoding it into an RGBA pixel grid, and serializing a grid
//! back to PNG bytes. Only these three calls are trusted; everything the
//! codec does with the pixels is verified.

use vstd::prelude::*;

verus! {

/// The dimensions that the image library reads from a PNG byte stream's
/// metadata, `None` where the stream is not a readable PNG. A pure function
/// of the bytes.
pub uninterp spec fn png_dims_of(bytes: Seq<u8>) -> Option<(u32, u32)>;

/// The RGBA pixel grid that the image library decodes a PNG byte stream to:
/// width, height, and the row-major four-bytes-per-pixel samples. `None`
/// where the stream is not a decodable PNG. A pure function of the bytes.
pub uninterp spec fn png_rgba_of(bytes: Seq<u8>) -> Option<(u32, u32, Seq<u8>)>;

/// The PNG byte stream that the image library serializes an RGBA pixel grid
/// to, `None` where the grid cannot be written. A pure function of the grid.
pub uninterp spec fn png_bytes_of(width: u32, height: u32, data: Seq<u8>) -> Option<Seq<u8>>;

/// Relies on image's `ImageReader::into_dimensions`: reads width and height
/// from the PNG metadata alone, without decoding pixel data. The error is
/// reported as a flag for whether it was an I/O error, and its message.
#[verifier::external_body]
pub(crate) fn read_dimensions(bytes: &Vec<u8>) -> (r: Result<(u32, u32), (bool, String)>)
    ensures
        match r {
            Ok(d) => png_dims_of(bytes@) == Some(d),
            Err(e) => png_dims_of(bytes@) is None,
        },
{
    let reader = image::ImageReader::with_format(
        std::io::Cursor::new(bytes),
        image::ImageFormat::Png,
    );
    match reader.into_dimensions() {
        Ok(d) => Ok(d),
        Err(image::ImageError::IoError(e)) => Err((true, e.to_string())),
        Err(e) => Err((false, e.to_string())),
    }
}

/// Relies on image's `load_from_memory_with_format` and
/// `DynamicImage::to_rgba8`: decodes the PNG and hands out its pixels as a
/// row-major RGBA sample buffer, whose container holds exactly
/// `width * height * 4` bytes.
#[verifier::external_body]
pub(crate) fn decode_rgba(bytes: &Vec<u8>) -> (r: Result<(u32, u32, Vec<u8>), (bool, String)>)
    ensures
        match r {
            Ok(t) => png_rgba_of(bytes@) == Some((t.0, t.1, t.2@)) && t.2@.len() == t.0 * t.1 * 4,
            Err(e) => png_rgba_of(bytes@) is None,
        },
{
    match image::load_from_memory_with_format(bytes, image::ImageFormat::Png) {
        Ok(img) => {
            let rgba = img.to_rgba8();
            let (w, h) = (rgba.width(), rgba.height());
            Ok((w, h, rgba.into_raw()))
        },
        Err(image::ImageError::IoError(e)) => Err((true, e.to_string())),
        Err(e) => Err((false, e.to_string())),
    }
}

/// Relies on image's `RgbaImage::from_raw` and `DynamicImage::write_to`:
/// serializes a row-major RGBA sample buffer as a PNG byte stream.
#[verifier::external_body]
pub(crate) fn encode_rgba(width: u32, height: u32, data: &Vec<u8>) -> (r: Result<
    Vec<u8>,
    (bool, String),
>)
    requires
        data@.len() == width * height * 4,
    ensures
        match r {
            Ok(v) => png_bytes_of(width, height, data@) == Some(v@),
            Err(e) => png_bytes_of(width, height, data@) is None,
        },
{
    let img = image::RgbaImage::from_raw(width, height, data.clone()).unwrap();
    let dynimg = image::DynamicImage::ImageRgba8(img);
    let mut cursor = std::io::Cursor::new(Vec::new());
    match dynimg.write_to(&mut cursor, image::ImageFormat::Png) {
        Ok(()) => Ok(cursor.into_inner()),
        Err(image::ImageError::IoError(e)) => Err((true, e.to_string())),
        Err(e) => Err((false, e.to_string())),
    }
}

} // verus!
