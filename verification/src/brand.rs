//! Application icon decoding.

use vstd::prelude::*;

verus! {

/// An RGBA bitmap: `rgba` holds `width * height` pixels of four bytes.
#[derive(Debug, Clone)]
pub struct RgbaIcon {
    pub rgba: Vec<u8>,
    pub width: u32,
    pub height: u32,
}

/// What the `image` crate decodes an ICO file into: RGBA bytes, width and
/// height, or `None` when the bytes are not a readable icon.
pub uninterp spec fn ico_decoded(bytes: Seq<u8>) -> Option<(Seq<u8>, u32, u32)>;

/// `image::load_from_memory_with_format(bytes, ImageFormat::Ico)` followed by
/// `to_rgba8`: a pure function of the bytes, named `ico_decoded` here. The
/// decoded buffer holds four bytes per pixel: `image` allocates exactly the
/// decoder's `total_bytes` (width times height times bytes per pixel), and
/// a conversion builds a buffer of that size too.
#[verifier::external_body]
fn decode_ico_rgba(bytes: &[u8]) -> (r: Option<(Vec<u8>, u32, u32)>)
    ensures
        match r {
            Some((px, w, h)) => ico_decoded(bytes@) == Some((px@, w, h)) && px@.len() == 4 * w * h,
            None => ico_decoded(bytes@) is None,
        },
{
    match image::load_from_memory_with_format(bytes, image::ImageFormat::Ico) {
        Ok(img) => {
            let rgba = img.to_rgba8();
            let (w, h) = rgba.dimensions();
            Some((rgba.into_raw(), w, h))
        },
        Err(_) => None,
    }
}

/// `r` is what decoding `bytes` gives: the bitmap `image` decodes, four
/// bytes per pixel, or nothing when the bytes are not a readable icon.
pub open spec fn icon_of(bytes: Seq<u8>, r: Option<RgbaIcon>) -> bool {
    match r {
        Some(ic) => ico_decoded(bytes) == Some((ic.rgba@, ic.width, ic.height))
            && ic.rgba@.len() == 4 * ic.width * ic.height,
        None => ico_decoded(bytes) is None,
    }
}

/// The application icon: the embedded ICO decoded into an RGBA bitmap.
pub fn app_icon(bytes: &[u8]) -> (r: Option<RgbaIcon>)
    ensures
        icon_of(bytes@, r),
{
    match decode_ico_rgba(bytes) {
        Some((rgba, width, height)) => Some(RgbaIcon { rgba, width, height }),
        None => None,
    }
}

/// Decoding the same bytes twice gives the same bitmap, or fails both times.
pub proof fn lemma_icon_stable(bytes: Seq<u8>, a: Option<RgbaIcon>, b: Option<RgbaIcon>)
    requires
        icon_of(bytes, a),
        icon_of(bytes, b),
    ensures
        a is Some <==> b is Some,
        a matches Some(x) ==> (b matches Some(y) && x.rgba@ == y.rgba@ && x.width == y.width
            && x.height == y.height),
{
}

} // verus!
