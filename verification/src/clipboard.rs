//! What a paste delivers: the clipboard's image (as PNG) when there is one,
//! else its text when it is not empty, else nothing.
use vstd::prelude::*;

verus! {

/// The content of the local clipboard, as a paste uses it.
#[derive(PartialEq, Eq, Debug, Clone)]
pub enum Content {
    /// An image, encoded as PNG.
    Image(Vec<u8>),
    /// Non-empty text.
    Text(String),
    /// Nothing usable.
    Empty,
}

/// An image as the clipboard hands it out: `width * height` pixels, row
/// by row, four bytes (red, green, blue, alpha) per pixel.
#[derive(PartialEq, Eq, Debug, Clone)]
pub struct ClipboardImage {
    pub width: usize,
    pub height: usize,
    pub bytes: Vec<u8>,
}

/// The PNG file that `image`'s PNG encoder writes for RGBA8 pixels
/// `rgba` of the given size, or `None` where it reports an error.
pub uninterp spec fn png_encoding(rgba: Seq<u8>, width: u32, height: u32) -> Option<Seq<u8>>;

/// Encodes RGBA8 pixels as PNG with `image::codecs::png::PngEncoder`
/// (default compression and filter) through `ImageEncoder::write_image`.
/// The contract claims that the result is `png_encoding` of the arguments:
/// the bytes written when the encoder reports success, `None` when it
/// reports an error. `write_image` asserts that the buffer holds exactly
/// `4 * width * height` bytes; the `requires` keeps the other inputs out.
/// Nothing is stated of the PNG bytes themselves.
#[verifier::external_body]
fn encode_png(rgba: &[u8], width: u32, height: u32) -> (png: Option<Vec<u8>>)
    requires
        rgba@.len() == 4 * width * height,
    ensures
        png is Some <==> png_encoding(rgba@, width, height) is Some,
        png matches Some(p) ==> png_encoding(rgba@, width, height) == Some(p@),
{
    let mut out: Vec<u8> = Vec::new();
    let encoder = image::codecs::png::PngEncoder::new(&mut out);
    match image::ImageEncoder::write_image(encoder, rgba, width, height, image::ExtendedColorType::Rgba8) {
        Ok(()) => Some(out),
        Err(_) => None,
    }
}

/// The size of an image as the encoder receives it: each side converted
/// to `u32` (truncating), as the clipboard reader passes it on.
pub open spec fn encoder_width(image: ClipboardImage) -> u32 {
    image.width as u32
}

pub open spec fn encoder_height(image: ClipboardImage) -> u32 {
    image.height as u32
}

/// The encoder accepts the pixel buffer: four bytes per pixel of the size
/// that it receives.
pub open spec fn is_encodable(image: ClipboardImage) -> bool {
    image.bytes@.len() == 4 * encoder_width(image) * encoder_height(image)
}

/// The PNG encoding of a clipboard image, `None` where encoding fails.
pub open spec fn image_png(image: ClipboardImage) -> Option<Seq<u8>> {
    png_encoding(image.bytes@, encoder_width(image), encoder_height(image))
}

/// What a paste delivers of a clipboard text: the text when it is not
/// empty, nothing otherwise (including when no text could be read).
pub open spec fn text_delivers(text: Option<String>, content: Content) -> bool {
    match text {
        Some(t) => if t@.len() > 0 {
            content matches Content::Text(u) && u@ == t@
        } else {
            content is Empty
        },
        None => content is Empty,
    }
}

/// Encodes a clipboard image as PNG; `None` when the encoder fails.
pub fn encode_image(image: &ClipboardImage) -> (png: Option<Vec<u8>>)
    requires
        is_encodable(*image),
    ensures
        png is Some <==> image_png(*image) is Some,
        png matches Some(p) ==> image_png(*image) == Some(p@),
{
    let width = image.width as u32;
    let height = image.height as u32;
    encode_png(image.bytes.as_slice(), width, height)
}

/// Chooses the clipboard content for a paste, preferring an image over
/// text.
///
/// `image` is the clipboard's image, if it could be read. When it encodes
/// as PNG the paste delivers that PNG and `text` is never called.
/// Otherwise `text` is called once to read the clipboard's text, and the
/// paste delivers it when it is not empty, else nothing.
pub fn read<F: FnOnce() -> Option<String>>(image: Option<ClipboardImage>, text: F) -> (content: Content)
    requires
        image matches Some(img) ==> is_encodable(img),
        text.requires(()),
    ensures
        match image {
            Some(img) if image_png(img) is Some => content matches Content::Image(p) && Some(p@) == image_png(img),
            _ => exists|t: Option<String>| text.ensures((), t) && text_delivers(t, content),
        },
{
    match image {
        Some(img) => {
            match encode_image(&img) {
                Some(png) => {
                    return Content::Image(png);
                },
                None => {},
            }
        },
        None => {},
    }
    let t = text();
    let ghost read_text = t;
    let content = match t {
        Some(s) => {
            if !s.as_str().is_empty() {
                Content::Text(s)
            } else {
                Content::Empty
            }
        },
        None => Content::Empty,
    };
    assert(text_delivers(read_text, content));
    content
}

/// The encoder receives the clipboard image's own pixels and size: its
/// width as the width and its height as the height (each converted to
/// `u32`), so an image and its encoding have the same shape.
pub proof fn lemma_encoder_gets_image_size(image: ClipboardImage)
    ensures
        encoder_width(image) == image.width as u32,
        encoder_height(image) == image.height as u32,
        image_png(image) == png_encoding(image.bytes@, image.width as u32, image.height as u32),
        is_encodable(image) <==> image.bytes@.len() == 4 * (image.width as u32) * (image.height as u32),
{
}

} // verus!
