//! Rendering a frame's text into an optical code image and PNG bytes, done by
//! the `qrcode` and `image` crates.

use vstd::prelude::*;

verus! {

/// Error-correction level of a rendered code.
#[derive(Clone, Copy, Debug, PartialEq, Eq, Structural)]
pub enum EcLevel {
    /// About 7% of the code may be damaged.
    L,
    /// About 15% of the code may be damaged.
    M,
    /// About 25% of the code may be damaged.
    Q,
    /// About 30% of the code may be damaged.
    H,
}

#[verifier::external_type_specification]
#[verifier::external_body]
pub struct ExDynamicImage(image::DynamicImage);

#[verifier::external_type_specification]
#[verifier::external_body]
pub struct ExImageError(image::ImageError);

#[verifier::external_type_specification]
#[verifier::external_body]
pub struct ExQrCode(qrcode::QrCode);

#[verifier::external_type_specification]
#[verifier::external_body]
pub struct ExQrError(qrcode::types::QrError);

/// The largest target size the renderer is given; beyond it the renderer's
/// own size arithmetic would overflow.
pub const MAX_QR_SIZE: u32 = 0xFFFF_FF00;

/// The code that encodes a text at a level, or `None` when the text fits no
/// code at that level.
pub uninterp spec fn qr_symbol(text: Seq<char>, level: EcLevel) -> Option<qrcode::QrCode>;

/// The grayscale raster of a code at a target size.
pub uninterp spec fn raster_of(code: qrcode::QrCode, size: u32) -> image::DynamicImage;

/// The PNG encoding of an image, or `None` when the encoder fails.
pub uninterp spec fn png_of(image: image::DynamicImage) -> Option<Seq<u8>>;

/// Relies on `qrcode::QrCode::with_error_correction_level`: the code for the
/// text at the level, or an error when the text does not fit any code; both
/// are decided by the text and the level alone.
#[verifier::external_body]
pub(crate) fn qr_code_for(text: &str, level: EcLevel) -> (r: Result<qrcode::QrCode, qrcode::types::QrError>)
    ensures
        r is Ok <==> qr_symbol(text@, level) is Some,
        r is Ok ==> r->Ok_0 == qr_symbol(text@, level)->0,
{
    let level = match level {
        EcLevel::L => qrcode::EcLevel::L,
        EcLevel::M => qrcode::EcLevel::M,
        EcLevel::Q => qrcode::EcLevel::Q,
        EcLevel::H => qrcode::EcLevel::H,
    };
    qrcode::QrCode::with_error_correction_level(text, level)
}

/// Relies on `qrcode::render::Renderer` (`min_dimensions`, `build`): a
/// grayscale raster of the code at least `size` pixels wide and high. Its
/// width arithmetic overflows for sizes near `u32::MAX`.
#[verifier::external_body]
pub(crate) fn render_gray(code: &qrcode::QrCode, size: u32) -> (r: image::DynamicImage)
    requires
        size <= MAX_QR_SIZE,
    ensures
        r == raster_of(*code, size),
{
    image::DynamicImage::ImageLuma8(code.render::<image::Luma<u8>>().min_dimensions(size, size).build())
}

/// Relies on `image::DynamicImage::write_to` with `ImageFormat::Png`: the PNG
/// encoding of the image, written into memory; what is written depends on
/// the image alone.
#[verifier::external_body]
pub(crate) fn png_encoding(image: &image::DynamicImage) -> (r: Result<Vec<u8>, image::ImageError>)
    ensures
        r is Ok <==> png_of(*image) is Some,
        r is Ok ==> r->Ok_0@ == png_of(*image)->0,
{
    let mut bytes: Vec<u8> = Vec::new();
    match image.write_to(&mut std::io::Cursor::new(&mut bytes), image::ImageFormat::Png) {
        Ok(()) => Ok(bytes),
        Err(e) => Err(e),
    }
}

/// Relies on the `Display` of `qrcode::types::QrError`: its message.
#[verifier::external_body]
pub(crate) fn qr_error_text(e: &qrcode::types::QrError) -> String {
    e.to_string()
}

/// Relies on the `Display` of `image::ImageError`: its message.
#[verifier::external_body]
pub(crate) fn image_error_text(e: &image::ImageError) -> String {
    e.to_string()
}

} // verus!
