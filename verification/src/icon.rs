//! Session icons: pixel-order conversion and encoding.
//!
//! The platform rasterizes a process's icon into a fixed 32x32 surface and
//! the bytes come back four per pixel, blue before red. The verified swap
//! turns them into canonical red-first order; the PNG and base64 encoders
//! then produce the blob a session carries. A failure anywhere yields "no
//! icon", never an error.

use vstd::prelude::*;

verus! {

/// Side length of the icon bitmap, in pixels.
pub const ICON_SIDE: u32 = 32;

/// Byte length of the raw 32x32 bitmap at four bytes per pixel.
pub const ICON_BYTES: usize = 4096;

/// The bytes after the per-pixel swap: the first and third byte of every
/// four-byte pixel change places, the rest stay.
pub open spec fn spec_swapped(s: Seq<u8>) -> Seq<u8> {
    Seq::new(
        s.len(),
        |i: int|
            if i % 4 == 0 && i + 2 < s.len() {
                s[i + 2]
            } else if i % 4 == 2 {
                s[i - 2]
            } else {
                s[i]
            },
    )
}

/// Swap each pixel's first and third byte, turning the surface's
/// blue-first byte order into canonical red-first order.
pub fn swap_red_blue(pixels: Vec<u8>) -> (out: Vec<u8>)
    requires
        pixels@.len() % 4 == 0,
    ensures
        out@ == spec_swapped(pixels@),
{
    let mut v = pixels;
    let ghost orig: Seq<u8> = v@;
    let mut i: usize = 0;
    while i < v.len()
        invariant
            v@.len() == orig.len(),
            orig.len() % 4 == 0,
            i % 4 == 0,
            i <= orig.len(),
            forall|k: int| 0 <= k < i ==> v@[k] == spec_swapped(orig)[k],
            forall|k: int| i <= k < orig.len() ==> v@[k] == orig[k],
        decreases orig.len() - i,
    {
        proof {
            assert(orig.len() - i >= 4) by {
                assert((orig.len() - i) % 4 == 0);
            }
        }
        let b = v[i];
        let r = v[i + 2];
        v.set(i, r);
        v.set(i + 2, b);
        i = i + 4;
    }
    proof {
        assert(v@ =~= spec_swapped(orig));
    }
    v
}

/// What base64's standard engine produces for a byte string.
pub uninterp spec fn base64_of(bytes: Seq<u8>) -> Seq<char>;

/// Relies on base64::Engine::encode with the general-purpose STANDARD
/// engine: standard alphabet with padding, the output a function of the
/// input bytes alone; encoding to a fresh string never fails.
#[verifier::external_body]
fn base64_encode(bytes: &Vec<u8>) -> (r: String)
    ensures
        r@ == base64_of(bytes@),
{
    base64::Engine::encode(&base64::engine::general_purpose::STANDARD, bytes)
}

/// What image's PNG encoder produces for a 32x32 RGBA bitmap.
pub uninterp spec fn png_of(rgba: Seq<u8>) -> Seq<u8>;

/// Relies on image::RgbaImage::from_raw and ImageBuffer::write_to with
/// the PNG format: 32x32 RGBA pixels in, PNG bytes out, the output a
/// function of the pixels alone. On a buffer of the required length the
/// encode cannot fail: the size check passes and the write goes to an
/// in-memory cursor, which has no failing path.
#[verifier::external_body]
fn encode_png(rgba: Vec<u8>) -> (r: Option<Vec<u8>>)
    requires
        rgba@.len() == ICON_BYTES as int,
    ensures
        r is Some,
        r.unwrap()@ == png_of(rgba@),
{
    let img = match image::RgbaImage::from_raw(ICON_SIDE, ICON_SIDE, rgba) {
        Some(i) => i,
        None => {
            return None;
        },
    };
    let mut png: Vec<u8> = Vec::new();
    let mut cur = std::io::Cursor::new(&mut png);
    match img.write_to(&mut cur, image::ImageFormat::Png) {
        Ok(()) => Some(png),
        Err(_) => None,
    }
}

/// Encode a 32x32 bitmap, as read back from the platform surface in
/// blue-first byte order, into the blob a session carries: swap to
/// red-first, encode as PNG, then as base64 text. Encoding an in-memory
/// bitmap of the required size always succeeds; an icon goes absent only
/// when the platform could not rasterize one at all.
pub fn encode_icon(pixels: Vec<u8>) -> (r: Option<String>)
    requires
        pixels@.len() == ICON_BYTES as int,
    ensures
        r is Some,
        r.unwrap()@ == base64_of(png_of(spec_swapped(pixels@))),
{
    proof {
        assert(pixels@.len() % 4 == 0);
    }
    let swapped = swap_red_blue(pixels);
    match encode_png(swapped) {
        Some(png) => Some(base64_encode(&png)),
        None => None,
    }
}

} // verus!
