use vstd::prelude::*;
use base64::Engine;

verus! {

#[verifier::external_type_specification]
#[verifier::external_body]
pub struct ExImageError(image::ImageError);

#[verifier::external_type_specification]
#[verifier::external_body]
pub struct ExDecodeError(base64::DecodeError);

/// What base-64 decoding with the standard alphabet and no padding makes of a
/// text: the bytes, or `None` where the text is not such an encoding.
pub uninterp spec fn base64_no_pad(text: Seq<char>) -> Option<Seq<u8>>;

/// What PNG decoding makes of a byte string, converted to 8-bit RGBA: the
/// width, the height and the pixel bytes row by row, or `None` where the
/// bytes are not a PNG image that the decoder accepts.
pub uninterp spec fn png_rgba(bytes: Seq<u8>) -> Option<(u32, u32, Seq<u8>)>;

/// Relies on base64's `STANDARD_NO_PAD` engine and `Engine::decode`: the
/// outcome depends on the text alone, and the empty text decodes to no bytes.
#[verifier::external_body]
fn decode_base64(text: &str) -> (r: Result<Vec<u8>, base64::DecodeError>)
    ensures
        match r {
            Ok(bytes) => base64_no_pad(text@) == Some(bytes@),
            Err(_) => base64_no_pad(text@) is None,
        },
        text@.len() == 0 ==> r is Ok && r->Ok_0@.len() == 0,
{
    base64::engine::general_purpose::STANDARD_NO_PAD.decode(text)
}

/// Relies on `image::load_from_memory_with_format` with the PNG format,
/// followed by `DynamicImage::into_rgba8`: the outcome depends on the bytes
/// alone.
#[verifier::external_body]
fn load_png(bytes: &[u8]) -> (r: Result<Bitmap, image::ImageError>)
    ensures
        match r {
            Ok(b) => png_rgba(bytes@) == Some(b@),
            Err(_) => png_rgba(bytes@) is None,
        },
{
    let img = image::load_from_memory_with_format(bytes, image::ImageFormat::Png)?.into_rgba8();
    Ok(Bitmap { width: img.width(), height: img.height(), rgba: img.into_raw() })
}

/// A decoded bitmap in the one pixel format of this library: 8-bit RGBA,
/// rows top to bottom.
pub struct Bitmap {
    pub width: u32,
    pub height: u32,
    pub rgba: Vec<u8>,
}

impl Bitmap {
    pub open spec fn view(&self) -> (u32, u32, Seq<u8>) {
        (self.width, self.height, self.rgba@)
    }
}

/// Why an encoded asset could not be turned into a bitmap.
#[derive(Clone, Copy, Debug, PartialEq, Eq, Structural)]
pub enum SplatterError {
    /// The text is not unpadded standard base-64.
    BadText,
    /// The decoded bytes are not a PNG image.
    BadImage,
}

/// Whether an encoded asset decodes to a bitmap.
pub open spec fn decodes(text: Seq<char>) -> bool {
    &&& base64_no_pad(text) is Some
    &&& png_rgba(base64_no_pad(text)->0) is Some
}

/// The bitmap that an encoded asset decodes to, where it decodes.
pub open spec fn decoded(text: Seq<char>) -> (u32, u32, Seq<u8>) {
    png_rgba(base64_no_pad(text)->0)->0
}

/// The outcome of decoding an asset, with the bitmap itself left out.
pub open spec fn decode_outcome(text: Seq<char>) -> Result<(), SplatterError> {
    if base64_no_pad(text) is None {
        Err(SplatterError::BadText)
    } else if png_rgba(base64_no_pad(text)->0) is None {
        Err(SplatterError::BadImage)
    } else {
        Ok(())
    }
}

/// Decodes one encoded asset, unpadded base-64 text of a PNG image, and
/// tells which step failed where it does not decode.
pub fn try_image_from_str(text: &str) -> (r: Result<Bitmap, SplatterError>)
    ensures
        r is Ok <==> decodes(text@),
        r matches Ok(b) ==> b@ == decoded(text@),
        r matches Err(e) ==> e == decode_outcome(text@)->Err_0,
{
    match decode_base64(text) {
        Err(_) => Err(SplatterError::BadText),
        Ok(bytes) => match load_png(bytes.as_slice()) {
            Err(_) => Err(SplatterError::BadImage),
            Ok(img) => Ok(img),
        },
    }
}

/// Decodes one asset of the fixed asset set, whose soundness is a
/// precondition of the program.
pub fn image_from_str(text: &str) -> (r: Bitmap)
    requires
        decodes(text@),
    ensures
        r@ == decoded(text@),
{
    try_image_from_str(text).unwrap()
}

} // verus!
