//! Declarations of the rasterizer's color types and the calls into it.
use vstd::prelude::*;

verus! {

#[verifier::external_type_specification]
#[verifier::external_body]
pub struct ExPremultipliedColorU8(tiny_skia::PremultipliedColorU8);

/// The premultiplied color that `tiny_skia` builds from these channels.
pub uninterp spec fn premultiplied_color(r: u8, g: u8, b: u8, a: u8) -> tiny_skia::PremultipliedColorU8;

/// `tiny_skia::PremultipliedColorU8::from_rgba`: the color when no color
/// channel exceeds the alpha, `None` otherwise.
#[verifier::external_body]
pub(crate) fn premultiplied_from_rgba(r: u8, g: u8, b: u8, a: u8) -> (res: Option<
    tiny_skia::PremultipliedColorU8,
>)
    ensures
        (r <= a && g <= a && b <= a) ==> res == Some(premultiplied_color(r, g, b, a)),
        !(r <= a && g <= a && b <= a) ==> res is None,
{
    tiny_skia::PremultipliedColorU8::from_rgba(r, g, b, a)
}

/// `tiny_skia::PremultipliedColorU8::TRANSPARENT`, all channels zero.
#[verifier::external_body]
pub(crate) fn premultiplied_transparent() -> (res: tiny_skia::PremultipliedColorU8)
    ensures
        res == premultiplied_color(0, 0, 0, 0),
{
    tiny_skia::PremultipliedColorU8::TRANSPARENT
}

} // verus!
