//! Image bytes: channel order of captured pixels, PNG data URLs, and the
//! device-independent bitmap put on the clipboard.
use vstd::prelude::*;
use base64::Engine;
use image::ImageEncoder;
use crate::text::{chars_starts_with, concat_str, is_prefix, str_chars, string_from_chars};

verus! {

broadcast use vstd::string::group_string_axioms;

// ---------------------------------------------------------------------------
// Results of the outside encoders and decoders
// ---------------------------------------------------------------------------

/// Standard (padded, RFC 4648) base64 text of some bytes.
pub uninterp spec fn base64_standard(bytes: Seq<u8>) -> Seq<char>;

/// The bytes a standard base64 text decodes to, if it is valid.
pub uninterp spec fn base64_standard_decoded(text: Seq<char>) -> Option<Seq<u8>>;

/// The PNG file the `image` crate writes for an 8-bit RGBA image, if it can.
pub uninterp spec fn png_rgba8(width: u32, height: u32, pixels: Seq<u8>) -> Option<Seq<u8>>;

/// Width, height and RGBA bytes of the image the `image` crate decodes
/// from a file's bytes, if it can.
pub uninterp spec fn decoded_rgba8(bytes: Seq<u8>) -> Option<(u32, u32, Seq<u8>)>;

pub open spec fn opt_bytes(o: Option<Vec<u8>>) -> Option<Seq<u8>> {
    match o {
        Some(v) => Some(v@),
        None => None,
    }
}

/// base64 `STANDARD.encode`: the padded standard encoding, which the same
/// engine decodes back to the input.
#[verifier::external_body]
fn base64_encode(bytes: &[u8]) -> (r: String)
    ensures
        r@ == base64_standard(bytes@),
        base64_standard_decoded(r@) == Some(bytes@),
{
    base64::engine::general_purpose::STANDARD.encode(bytes)
}

/// base64 `STANDARD.decode`, with its error mapped to `None`.
#[verifier::external_body]
fn base64_decode(text: &str) -> (r: Option<Vec<u8>>)
    ensures
        opt_bytes(r) == base64_standard_decoded(text@),
{
    base64::engine::general_purpose::STANDARD.decode(text).ok()
}

/// image `PngEncoder::write_image` for an RGBA8 buffer of exactly
/// `width * height * 4` bytes (it asserts that length), collecting the PNG
/// file in memory; an encoding error gives `None`.
#[verifier::external_body]
fn write_png_rgba8(width: u32, height: u32, pixels: &[u8]) -> (r: Option<Vec<u8>>)
    requires
        pixels@.len() == width as int * height as int * 4,
    ensures
        opt_bytes(r) == png_rgba8(width, height, pixels@),
{
    let mut buf = std::io::Cursor::new(Vec::new());
    let encoder = image::codecs::png::PngEncoder::new(&mut buf);
    encoder.write_image(pixels, width, height, image::ExtendedColorType::Rgba8).ok()?;
    Some(buf.into_inner())
}

/// image `load_from_memory`, then `to_rgba8`: the decoded image as width,
/// height and raw RGBA bytes (exactly four per pixel: the decoder fills a
/// buffer of `width * height` pixels); a decoding error gives `None`.
#[verifier::external_body]
fn decode_rgba8(bytes: &[u8]) -> (r: Option<(u32, u32, Vec<u8>)>)
    ensures
        match r {
            Some((w, h, px)) => decoded_rgba8(bytes@) == Some((w, h, px@)) && px@.len() == (w as int)
                * (h as int) * 4,
            None => decoded_rgba8(bytes@) is None,
        },
{
    let img = image::load_from_memory(bytes).ok()?;
    let rgba = img.to_rgba8();
    Some((rgba.width(), rgba.height(), rgba.into_raw()))
}

// ---------------------------------------------------------------------------
// Channel order
// ---------------------------------------------------------------------------

/// Exchanges the first and third byte of every 4-byte pixel (BGRA and
/// RGBA into each other); a trailing 3-byte group is exchanged too.
pub open spec fn swap_red_blue(s: Seq<u8>) -> Seq<u8> {
    Seq::new(
        s.len(),
        |i: int|
            if i % 4 == 0 && i + 2 < s.len() {
                s[i + 2]
            } else if i % 4 == 2 {
                s[i - 2]
            } else {
                s[i]
            },
    )
}

/// Turns captured BGRA pixels into RGBA in place.
pub fn bgra_to_rgba(pixels: &mut Vec<u8>)
    requires
        old(pixels)@.len() % 4 != 1,
        old(pixels)@.len() % 4 != 2,
    ensures
        final(pixels)@ == swap_red_blue(old(pixels)@),
{
    let ghost orig = pixels@;
    let n = pixels.len();
    let mut i: usize = 0;
    while i < n && n - i > 2
        invariant
            n == orig.len(),
            n % 4 != 1 && n % 4 != 2,
            pixels@.len() == n,
            i % 4 == 0 || i == n,
            i <= n,
            forall|j: int| 0 <= j < i ==> #[trigger] pixels@[j] == swap_red_blue(orig)[j],
            forall|j: int| i <= j < n ==> #[trigger] pixels@[j] == orig[j],
        decreases n - i,
    {
        assert(i % 4 == 0);
        let b = pixels[i];
        let r = pixels[i + 2];
        pixels.set(i, r);
        pixels.set(i + 2, b);
        proof {
            assert forall|j: int| 0 <= j < i + 4 && j < n implies #[trigger] pixels@[j]
                == swap_red_blue(orig)[j] by {
                if j >= i {
                    assert(j == i || j == i + 1 || j == i + 2 || j == i + 3);
                }
            }
        }
        i = if n - i >= 4 {
            i + 4
        } else {
            n
        };
    }
    proof {
        assert forall|j: int| i <= j < n implies #[trigger] pixels@[j] == swap_red_blue(orig)[j] by {
            assert(j % 4 != 0 || j + 2 >= n);
            assert(j % 4 != 2);
        }
        assert(pixels@ =~= swap_red_blue(orig));
    }
}


/// Exchanging red and blue twice gives the pixels back.
pub proof fn law_swap_red_blue_twice(s: Seq<u8>)
    ensures
        swap_red_blue(swap_red_blue(s)) == s,
{
    assert(swap_red_blue(swap_red_blue(s)) =~= s);
}

// ---------------------------------------------------------------------------
// PNG data URLs
// ---------------------------------------------------------------------------

/// `image::RgbaImage::from_raw` accepts a buffer when `4 * width` and
/// then `4 * width * height` fit in `usize` and the buffer is at least that
/// long.
pub open spec fn rgba_fits(width: u32, height: u32, len: nat) -> bool {
    &&& 4 * (width as int) <= usize::MAX
    &&& 4 * (width as int) * (height as int) <= usize::MAX
    &&& 4 * (width as int) * (height as int) <= len
}

/// The PNG file of a captured BGRA image (a screen shot or an icon), if the
/// pixel buffer holds the whole image and the encoder accepts it.
pub fn png_from_bgra(width: u32, height: u32, bgra: Vec<u8>) -> (r: Option<Vec<u8>>)
    requires
        bgra@.len() % 4 != 1,
        bgra@.len() % 4 != 2,
        rgba_fits(width, height, bgra@.len()) ==> bgra@.len() == 4 * (width as int) * (
        height as int),
    ensures
        opt_bytes(r) == if rgba_fits(width, height, bgra@.len()) {
            png_rgba8(width, height, swap_red_blue(bgra@))
        } else {
            None
        },
{
    let mut pixels = bgra;
    bgra_to_rgba(&mut pixels);
    let w4 = match 4usize.checked_mul(width as usize) {
        Some(a) => a,
        None => {
            return None;
        },
    };
    let needed = match w4.checked_mul(height as usize) {
        Some(n) => n,
        None => {
            return None;
        },
    };
    proof {
        assert(4 * (width as int) * (height as int) == width as int * height as int * 4)
            by (nonlinear_arith);
    }
    if needed <= pixels.len() {
        write_png_rgba8(width, height, pixels.as_slice())
    } else {
        None
    }
}

/// `data:image/png;base64,` followed by the base64 text of a PNG file.
/// The URL gives back the same PNG file when its payload is read.
pub fn png_data_url(png: &[u8]) -> (r: String)
    ensures
        r@ == "data:image/png;base64,"@ + base64_standard(png@),
        payload_of(r@) == Ok::<Seq<u8>, ClipboardImageError>(png@),
{
    let b64 = base64_encode(png);
    let r = concat_str("data:image/png;base64,", b64.as_str());
    proof {
        let prefix = "data:image/png;base64,"@;
        assert(r@.take(prefix.len() as int) =~= prefix);
        assert(r@.skip(prefix.len() as int) =~= b64@);
    }
    r
}

/// Why a data URL could not be put on the clipboard as an image.
#[derive(Debug, PartialEq, Eq, Structural)]
pub enum ClipboardImageError {
    /// It does not start with `data:image/png;base64,`.
    NotPngDataUrl,
    /// The text after the prefix is not valid standard base64.
    InvalidBase64,
    /// The bytes are not an image the decoder reads.
    UndecodablePng,
    /// The image has no pixels.
    EmptyImage,
    /// The bitmap would not fit the 32-bit sizes of its header.
    TooLarge,
}

/// The bytes a PNG data URL carries.
pub open spec fn payload_of(url: Seq<char>) -> Result<Seq<u8>, ClipboardImageError> {
    let prefix = "data:image/png;base64,"@;
    if !is_prefix(prefix, url) {
        Err(ClipboardImageError::NotPngDataUrl)
    } else {
        match base64_standard_decoded(url.skip(prefix.len() as int)) {
            Some(b) => Ok(b),
            None => Err(ClipboardImageError::InvalidBase64),
        }
    }
}

pub open spec fn result_bytes<E>(r: Result<Vec<u8>, E>) -> Result<Seq<u8>, E> {
    match r {
        Ok(v) => Ok(v@),
        Err(e) => Err(e),
    }
}

/// The PNG file inside a `data:image/png;base64,` URL.
pub fn png_payload(data_url: &str) -> (r: Result<Vec<u8>, ClipboardImageError>)
    ensures
        result_bytes(r) == payload_of(data_url@),
{
    let prefix = str_chars("data:image/png;base64,");
    let url = str_chars(data_url);
    if !chars_starts_with(url.as_slice(), prefix.as_slice()) {
        return Err(ClipboardImageError::NotPngDataUrl);
    }
    let mut rest: Vec<char> = Vec::new();
    let mut i: usize = prefix.len();
    while i < url.len()
        invariant
            prefix@.len() <= i <= url@.len(),
            rest@ == url@.subrange(prefix@.len() as int, i as int),
        decreases url@.len() - i,
    {
        rest.push(url[i]);
        assert(url@.subrange(prefix@.len() as int, i + 1) == url@.subrange(
            prefix@.len() as int,
            i as int,
        ).push(url@[i as int]));
        i += 1;
    }
    assert(rest@ == url@.skip(prefix@.len() as int));
    let text = string_from_chars(rest.as_slice());
    match base64_decode(text.as_str()) {
        Some(b) => Ok(b),
        None => Err(ClipboardImageError::InvalidBase64),
    }
}


// ---------------------------------------------------------------------------
// Clipboard bitmap
// ---------------------------------------------------------------------------

/// Little-endian bytes of a 32-bit field.
pub open spec fn le32(v: int) -> Seq<u8> {
    seq![(v % 256) as u8, ((v / 256) % 256) as u8, ((v / 65536) % 256) as u8, ((v / 16777216) % 256) as u8]
}

/// Little-endian bytes of a 16-bit field.
pub open spec fn le16(v: int) -> Seq<u8> {
    seq![(v % 256) as u8, ((v / 256) % 256) as u8]
}

/// The 40-byte `BITMAPINFOHEADER` of a bottom-up 32 bpp `BI_RGB` bitmap at
/// about 72 DPI.
pub open spec fn dib_header(w: int, h: int) -> Seq<u8> {
    le32(40) + le32(w) + le32(h) + le16(1) + le16(32) + le32(0) + le32(w * h * 4) + le32(2835)
        + le32(2835) + le32(0) + le32(0)
}

/// Row `y` of an RGBA image as bitmap pixels: blue, green, red, opaque.
pub open spec fn dib_row(w: int, px: Seq<u8>, y: int) -> Seq<u8> {
    Seq::new(
        (4 * w) as nat,
        |k: int|
            {
                let b = (y * w + k / 4) * 4;
                if k % 4 == 0 {
                    px[b + 2]
                } else if k % 4 == 1 {
                    px[b + 1]
                } else if k % 4 == 2 {
                    px[b]
                } else {
                    255u8
                }
            },
    )
}

/// The bottom `k` rows written so far: rows `h - 1` down to `h - k`.
pub open spec fn dib_rows(w: int, h: int, px: Seq<u8>, k: int) -> Seq<u8>
    decreases k,
{
    if k <= 0 {
        Seq::empty()
    } else {
        dib_rows(w, h, px, k - 1) + dib_row(w, px, h - k)
    }
}

/// The clipboard bitmap (`CF_DIB`) of an RGBA image: header, then the rows
/// from the bottom one up.
pub open spec fn dib_image(w: int, h: int, px: Seq<u8>) -> Seq<u8> {
    dib_header(w, h) + dib_rows(w, h, px, h)
}

fn push_le32(out: &mut Vec<u8>, v: u32)
    ensures
        final(out)@ == old(out)@ + le32(v as int),
{
    out.push((v % 256) as u8);
    out.push((v / 256 % 256) as u8);
    out.push((v / 65536 % 256) as u8);
    out.push((v / 16777216 % 256) as u8);
    assert(final(out)@ =~= old(out)@ + le32(v as int));
}

fn push_le16(out: &mut Vec<u8>, v: u16)
    ensures
        final(out)@ == old(out)@ + le16(v as int),
{
    out.push((v % 256) as u8);
    out.push((v / 256 % 256) as u8);
    assert(final(out)@ =~= old(out)@ + le16(v as int));
}

/// Writes one image row as bitmap pixels.
fn push_dib_row(out: &mut Vec<u8>, w: usize, px: &[u8], y: usize, Ghost(h): Ghost<int>)
    requires
        y < h,
        h * (w as int) * 4 <= px@.len(),
        h * (w as int) * 4 <= i32::MAX,
    ensures
        final(out)@ == old(out)@ + dib_row(w as int, px@, y as int),
{
    proof {
        assert((y as int + 1) * (w as int) <= h * (w as int)) by (nonlinear_arith)
            requires
                y + 1 <= h,
                w >= 0,
        ;
        assert((y as int) * (w as int) * 4 + (w as int) * 4 == (y as int + 1) * (w as int) * 4)
            by (nonlinear_arith);
    }
    let row_start = y * w * 4;
    let n = px.len();
    let ghost base = old(out)@;
    let ghost row = dib_row(w as int, px@, y as int);
    let mut x: usize = 0;
    while x < w
        invariant
            x <= w,
            row_start == (y as int) * (w as int) * 4,
            row_start + (w as int) * 4 <= px@.len(),
            n == px@.len(),
            row == dib_row(w as int, px@, y as int),
            out@ == base + row.take(4 * x),
        decreases w - x,
    {
        let b = row_start + x * 4;
        out.push(px[b + 2]);
        out.push(px[b + 1]);
        out.push(px[b]);
        out.push(255);
        proof {
            assert(((y as int) * (w as int) + x) * 4 == row_start + x * 4) by (nonlinear_arith)
                requires
                    row_start == (y as int) * (w as int) * 4,
            ;
            let k = 4 * x;
            assert(k / 4 == x && (k + 1) / 4 == x && (k + 2) / 4 == x && (k + 3) / 4 == x);
            assert(row.take(4 * x + 4) =~= row.take(4 * x) + seq![
                row[k],
                row[k + 1],
                row[k + 2],
                row[k + 3],
            ]);
            assert(out@ =~= base + row.take(4 * x + 4));
        }
        x += 1;
    }
    proof {
        assert(row.take(4 * w) =~= row);
    }
}

/// The clipboard bitmap of a non-empty RGBA image whose byte size fits the
/// header's 32-bit fields.
pub fn dib_from_rgba(width: u32, height: u32, rgba: &[u8]) -> (dib: Vec<u8>)
    requires
        width > 0,
        height > 0,
        (width as int) * (height as int) * 4 <= i32::MAX,
        (width as int) * (height as int) * 4 <= rgba@.len(),
    ensures
        dib@ == dib_image(width as int, height as int, rgba@),
{
    proof {
        assert((width as int) * (height as int) * 4 >= (width as int) * 4) by (nonlinear_arith)
            requires
                height >= 1,
                width >= 0,
        ;
        assert((width as int) * (height as int) * 4 >= (height as int) * 4) by (nonlinear_arith)
            requires
                width >= 1,
                height >= 0,
        ;
    }
    let w = width as usize;
    let h = height as usize;
    let size = width * height * 4;
    let mut dib: Vec<u8> = Vec::new();
    push_le32(&mut dib, 40);
    push_le32(&mut dib, width);
    push_le32(&mut dib, height);
    push_le16(&mut dib, 1);
    push_le16(&mut dib, 32);
    push_le32(&mut dib, 0);
    push_le32(&mut dib, size);
    push_le32(&mut dib, 2835);
    push_le32(&mut dib, 2835);
    push_le32(&mut dib, 0);
    push_le32(&mut dib, 0);
    let ghost header = dib_header(width as int, height as int);
    assert(dib@ =~= header + dib_rows(width as int, height as int, rgba@, 0));
    let mut k: usize = 0;
    while k < h
        invariant
            k <= h,
            h == height,
            w == width,
            (width as int) * (height as int) * 4 <= i32::MAX,
            (width as int) * (height as int) * 4 <= rgba@.len(),
            header == dib_header(width as int, height as int),
            dib@ == header + dib_rows(width as int, height as int, rgba@, k as int),
        decreases h - k,
    {
        let y = h - 1 - k;
        proof {
            assert((h as int) * (w as int) * 4 == (width as int) * (height as int) * 4)
                by (nonlinear_arith)
                requires
                    h == height,
                    w == width,
            ;
        }
        push_dib_row(&mut dib, w, rgba, y, Ghost(h as int));
        proof {
            assert(dib_rows(width as int, height as int, rgba@, k + 1) == dib_rows(
                width as int,
                height as int,
                rgba@,
                k as int,
            ) + dib_row(width as int, rgba@, y as int));
            assert(dib@ =~= header + dib_rows(width as int, height as int, rgba@, k + 1));
        }
        k += 1;
    }
    dib
}


/// An image ready for the clipboard: its bitmap and its PNG file.
pub struct ClipboardImage {
    pub width: u32,
    pub height: u32,
    pub dib: Vec<u8>,
    pub png: Vec<u8>,
}

/// What a decoded image puts on the clipboard: width, height, bitmap and
/// PNG file, or why nothing.
pub open spec fn clipboard_image_from(w: u32, h: u32, px: Seq<u8>, png: Seq<u8>) -> Result<(u32, u32, Seq<u8>, Seq<u8>), ClipboardImageError> {
    if w == 0 || h == 0 {
        Err(ClipboardImageError::EmptyImage)
    } else if (w as int) * (h as int) * 4 > i32::MAX {
        Err(ClipboardImageError::TooLarge)
    } else {
        Ok((w, h, dib_image(w as int, h as int, px), png))
    }
}

/// What a PNG data URL puts on the clipboard.
pub open spec fn clipboard_image_of(url: Seq<char>) -> Result<(u32, u32, Seq<u8>, Seq<u8>), ClipboardImageError> {
    match payload_of(url) {
        Err(e) => Err(e),
        Ok(png) => match decoded_rgba8(png) {
            None => Err(ClipboardImageError::UndecodablePng),
            Some((w, h, px)) => clipboard_image_from(w, h, px, png),
        },
    }
}

pub open spec fn clipboard_view(r: Result<ClipboardImage, ClipboardImageError>) -> Result<(u32, u32, Seq<u8>, Seq<u8>), ClipboardImageError> {
    match r {
        Ok(c) => Ok((c.width, c.height, c.dib@, c.png@)),
        Err(e) => Err(e),
    }
}

/// The clipboard image of a decoded `width`×`height` RGBA image and the PNG
/// file it came from: the bitmap, unless the image is empty or its bitmap
/// would not fit the 32-bit sizes of the header.
pub fn clipboard_image_from_decoded(width: u32, height: u32, rgba: Vec<u8>, png: Vec<u8>) -> (r: Result<ClipboardImage, ClipboardImageError>)
    requires
        width > 0 && height > 0 && (width as int) * (height as int) * 4 <= i32::MAX ==> (width as int)
            * (height as int) * 4 <= rgba@.len(),
    ensures
        clipboard_view(r) == clipboard_image_from(width, height, rgba@, png@),
{
    if width == 0 || height == 0 {
        return Err(ClipboardImageError::EmptyImage);
    }
    proof {
        assert((width as int) * (height as int) <= 0xffff_ffff * 0xffff_ffff) by (nonlinear_arith)
            requires
                width <= 0xffff_ffff,
                height <= 0xffff_ffff,
        ;
    }
    let pixels: u64 = (width as u64) * (height as u64);
    if pixels > 536870911 {
        return Err(ClipboardImageError::TooLarge);
    }
    let dib = dib_from_rgba(width, height, rgba.as_slice());
    Ok(ClipboardImage { width, height, dib, png })
}

/// Decodes a PNG data URL into the bitmap and PNG file that the clipboard
/// receives.
pub fn prepare_clipboard_image(data_url: &str) -> (r: Result<ClipboardImage, ClipboardImageError>)
    ensures
        clipboard_view(r) == clipboard_image_of(data_url@),
{
    let png = match png_payload(data_url) {
        Ok(p) => p,
        Err(e) => {
            return Err(e);
        },
    };
    let (w, h, px) = match decode_rgba8(png.as_slice()) {
        Some(d) => d,
        None => {
            return Err(ClipboardImageError::UndecodablePng);
        },
    };
    clipboard_image_from_decoded(w, h, px, png)
}

}
