//! The raster path: a zeroed RGB pixel buffer that is drawn on elsewhere, then
//! encoded as a PNG image inside a `data:` URI.
use vstd::prelude::*;
use crate::text::push_str;

verus! {

#[verifier::external_type_specification]
#[verifier::external_body]
pub struct ExImageError(image::ImageError);

/// The PNG file that the `image` crate writes for 8-bit RGB pixels of the given
/// dimensions, or `None` where it refuses them.
pub uninterp spec fn png_rgb8(pixels: Seq<u8>, width: u32, height: u32) -> Option<Seq<u8>>;

/// Standard base64 (RFC 4648 alphabet, with `=` padding) of the bytes.
pub uninterp spec fn base64_standard(bytes: Seq<u8>) -> Seq<char>;

/// Relies on `image::codecs::png::PngEncoder::write_image` with `ColorType::Rgb8`,
/// writing into a vector: the file depends on the pixels and dimensions alone, a
/// zero width or height is refused, and a buffer of another length than three
/// bytes per pixel panics.
#[verifier::external_body]
fn encode_png_rgb8(pixels: &[u8], width: u32, height: u32) -> (r: Result<Vec<u8>, image::ImageError>)
    requires
        pixels@.len() == width as int * height as int * 3,
    ensures
        r is Ok <==> png_rgb8(pixels@, width, height) is Some,
        r is Ok ==> png_rgb8(pixels@, width, height) == Some(r->Ok_0@),
        width == 0 || height == 0 ==> r is Err,
{
    let mut data: Vec<u8> = Vec::new();
    let encoder = image::codecs::png::PngEncoder::new(std::io::Cursor::new(&mut data));
    match image::ImageEncoder::write_image(encoder, pixels, width, height, image::ColorType::Rgb8) {
        Ok(()) => Ok(data),
        Err(e) => Err(e),
    }
}

/// Relies on base64's `Engine::encode` on `BASE64_STANDARD`, which panics only
/// where the length of the output overflows `usize`.
#[verifier::external_body]
fn encode_base64(bytes: &[u8]) -> (r: String)
    requires
        base64_fits(bytes@.len()),
    ensures
        r@ == base64_standard(bytes@),
{
    base64::Engine::encode(&base64::engine::general_purpose::STANDARD, bytes)
}

/// Why a raster image could not be encoded.
#[derive(Clone, Copy, Debug, PartialEq, Eq, Structural)]
pub enum EncodeError {
    /// The pixel buffer does not hold three bytes for each pixel.
    BufferSize,
    /// The PNG encoder refused the image (for one, a zero width or height).
    Png,
}

/// The error of the PNG encoder, as this library reports it.
fn png_error(e: image::ImageError) -> (r: EncodeError)
    ensures
        r == EncodeError::Png,
{
    EncodeError::Png
}

pub open spec fn data_uri_prefix() -> Seq<char> {
    "data:image/png;base64,"@
}

/// Whether the base64 text of `n` bytes has a length that fits in `usize`.
pub open spec fn base64_fits(n: nat) -> bool {
    n / 3 * 4 + 4 <= usize::MAX
}

/// The `data:` URI of a PNG file.
pub fn png_data_uri(png: &Vec<u8>) -> (r: String)
    requires
        base64_fits(png@.len()),
    ensures
        r@ == data_uri_prefix() + base64_standard(png@),
{
    let mut r = String::new();
    push_str(&mut r, "data:image/png;base64,");
    let b64 = encode_base64(png.as_slice());
    push_str(&mut r, b64.as_str());
    r
}

/// An RGB image held as three bytes per pixel, row by row.
pub struct RasterImage {
    pub width: u32,
    pub height: u32,
    pub pixels: Vec<u8>,
}

/// The number of bytes of an RGB image of `size` (width, height).
pub open spec fn rgb_len(size: (u32, u32)) -> int {
    size.0 as int * size.1 as int * 3
}

impl RasterImage {
    /// A black image of `size` (width, height); `None` where its byte count does
    /// not fit in `usize`.
    pub fn new(size: (u32, u32)) -> (r: Option<RasterImage>)
        ensures
            r is Some <==> rgb_len(size) <= usize::MAX,
            r matches Some(img) ==> img.width == size.0 && img.height == size.1
                && img.pixels@.len() == rgb_len(size)
                && forall|i: int| 0 <= i < img.pixels@.len() ==> img.pixels@[i] == 0u8,
    {
        let len = match (size.0 as usize).checked_mul(size.1 as usize) {
            Some(n) => n.checked_mul(3),
            None => None,
        };
        let len: usize = match len {
            Some(n) => n,
            None => {
                proof {
                    if size.0 as int * size.1 as int <= usize::MAX {
                        assert(rgb_len(size) > usize::MAX);
                    } else {
                        assert(size.0 as int * size.1 as int * 3 > usize::MAX) by (nonlinear_arith)
                            requires size.0 as int * size.1 as int > usize::MAX;
                    }
                }
                return None;
            },
        };
        let mut pixels: Vec<u8> = Vec::with_capacity(len);
        let mut i: usize = 0;
        while i < len
            invariant
                i <= len,
                pixels@.len() == i,
                forall|j: int| 0 <= j < i ==> pixels@[j] == 0u8,
            decreases len - i,
        {
            pixels.push(0u8);
            i = i + 1;
        }
        Some(RasterImage { width: size.0, height: size.1, pixels })
    }

    /// An image of `size` (width, height) made of `pixels`; `None` where the
    /// buffer does not hold three bytes for each pixel.
    pub fn from_pixels(size: (u32, u32), pixels: Vec<u8>) -> (r: Option<RasterImage>)
        ensures
            r is Some <==> pixels@.len() == rgb_len(size),
            r matches Some(img) ==> img.width == size.0 && img.height == size.1 && img.pixels@ == pixels@,
    {
        if Self::holds_rgb(size, pixels.len()) {
            Some(RasterImage { width: size.0, height: size.1, pixels })
        } else {
            None
        }
    }

    /// Whether `len` bytes are three for each pixel of an image of `size`.
    fn holds_rgb(size: (u32, u32), len: usize) -> (r: bool)
        ensures
            r == (len as int == rgb_len(size)),
    {
        match (size.0 as usize).checked_mul(size.1 as usize) {
            Some(n) => match n.checked_mul(3) {
                Some(m) => m == len,
                None => false,
            },
            None => {
                proof {
                    assert(size.0 as int * size.1 as int * 3 > usize::MAX) by (nonlinear_arith)
                        requires size.0 as int * size.1 as int > usize::MAX;
                }
                false
            },
        }
    }

    pub fn get_size(&self) -> (r: (u32, u32))
        ensures
            r == (self.width, self.height),
    {
        (self.width, self.height)
    }

    /// The image as a PNG file in a `data:` URI.
    pub fn to_data_uri(&self) -> (r: Result<String, EncodeError>)
        ensures
            self.pixels@.len() != rgb_len((self.width, self.height)) ==> r == Err::<String, EncodeError>(EncodeError::BufferSize),
            self.pixels@.len() == rgb_len((self.width, self.height)) ==> match png_rgb8(self.pixels@, self.width, self.height) {
                Some(png) => if base64_fits(png.len()) {
                    r matches Ok(uri) && uri@ == data_uri_prefix() + base64_standard(png)
                } else {
                    r == Err::<String, EncodeError>(EncodeError::Png)
                },
                None => r == Err::<String, EncodeError>(EncodeError::Png),
            },
            self.width == 0 || self.height == 0 ==> r is Err,
    {
        if !Self::holds_rgb((self.width, self.height), self.pixels.len()) {
            return Err(EncodeError::BufferSize);
        }
        match encode_png_rgb8(self.pixels.as_slice(), self.width, self.height) {
            Ok(png) => {
                if png.len() / 3 > (usize::MAX - 4) / 4 {
                    return Err(EncodeError::Png);
                }
                Ok(png_data_uri(&png))
            },
            Err(e) => Err(png_error(e)),
        }
    }
}

} // verus!
