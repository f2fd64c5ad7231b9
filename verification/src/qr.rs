//! QR codes as PNG images.

use vstd::prelude::*;
use vstd::utf8::*;

use image::{GrayImage, ImageFormat, Luma};
use qrcode::QrCode;

verus! {

/// Pixels that an image measures at least in either direction.
pub const MIN_SIDE: u32 = 250;

/// The QR code of data with the medium error correction, as an image: its
/// width, its height and the brightness of its pixels row by row; `None` where
/// the data are too much for one. The flag tells whether it has a quiet zone,
/// and the two numbers are the width and the height that it has at least.
pub uninterp spec fn qr_image(data: Seq<u8>, quiet_zone: bool, width: u32, height: u32) -> Option<
    (u32, u32, Seq<u8>),
>;

/// The PNG file of an image of the given width and height with the given
/// brightness of its pixels row by row; `None` where there is none.
pub uninterp spec fn png_file(width: u32, height: u32, pixels: Seq<u8>) -> Option<Seq<u8>>;

/// Calls `QrCode::new` and renders the code into an image of the `image` crate.
/// The image is a function of the data, the flag and the smallest width and
/// height; it is at least that large, with one byte for each pixel. What the
/// image shows is not stated.
#[verifier::external_body]
fn render_code(data: &[u8], quiet_zone: bool, width: u32, height: u32) -> (r: Option<
    (u32, u32, Vec<u8>),
>)
    requires
        width <= 1000,
        height <= 1000,
    ensures
        match r {
            Some(i) => {
                &&& qr_image(data@, quiet_zone, width, height) == Some((i.0, i.1, i.2@))
                &&& i.0 >= width
                &&& i.1 >= height
                &&& i.2@.len() == i.0 * i.1
            },
            None => qr_image(data@, quiet_zone, width, height) is None,
        },
{
    let code = QrCode::new(data).ok()?;
    let img = code.render::<Luma<u8>>().quiet_zone(quiet_zone).min_dimensions(width, height).build();
    Some((img.width(), img.height(), img.into_raw()))
}

/// Calls `ImageBuffer::write_to` with the PNG format on an image with the given
/// pixels. The file is a function of the width, the height and the pixels. What
/// stands in it is not stated.
#[verifier::external_body]
fn write_png(width: u32, height: u32, pixels: Vec<u8>) -> (r: Option<Vec<u8>>)
    ensures
        match r {
            Some(b) => png_file(width, height, pixels@) == Some(b@),
            None => png_file(width, height, pixels@) is None,
        },
{
    let img = GrayImage::from_raw(width, height, pixels)?;
    let mut buf = std::io::Cursor::new(Vec::new());
    img.write_to(&mut buf, ImageFormat::Png).ok()?;
    Some(buf.into_inner())
}

/// The PNG file of the QR code of a text, with its quiet zone.
pub open spec fn qr_file(data: Seq<char>) -> Option<Seq<u8>> {
    match qr_image(encode_utf8(data), true, MIN_SIDE, MIN_SIDE) {
        Some(i) => png_file(i.0, i.1, i.2),
        None => None,
    }
}

/// The PNG file of the QR code of a text, or nothing where the text is too long
/// for one.
pub fn generate_qr_png(data: &str) -> (r: Option<Vec<u8>>)
    ensures
        match r {
            Some(b) => qr_file(data@) == Some(b@),
            None => qr_file(data@) is None,
        },
{
    match render_code(data.as_bytes(), true, MIN_SIDE, MIN_SIDE) {
        Some((w, h, pixels)) => write_png(w, h, pixels),
        None => None,
    }
}

/// A QR code is drawn with its quiet zone, 250 points wide and high at least,
/// and written as a file; a text that is too long for one has no file.
pub proof fn code_is_drawn_and_written(data: Seq<char>)
    ensures
        match qr_image(encode_utf8(data), true, 250, 250) {
            Some(i) => qr_file(data) == png_file(i.0, i.1, i.2),
            None => qr_file(data) is None,
        },
{
}

} // verus!
