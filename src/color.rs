//! Composition of 8-bit coverage masks with a color into `0xAARRGGBB` pixels.
use vstd::prelude::*;

verus! {

/// A color with 8 bits per channel, not premultiplied.
#[derive(Clone, Copy, Debug, PartialEq, Eq, Structural)]
pub struct Rgba8 {
    pub r: u8,
    pub g: u8,
    pub b: u8,
    pub a: u8,
}

/// A channel scaled by a coverage value, rounded down: `channel * cov / 255`.
pub open spec fn modulate(channel: u8, cov: u8) -> u32 {
    ((channel as int * cov as int) / 255) as u32
}

/// Four channels packed as `0xAARRGGBB`.
pub open spec fn pack_argb(a: u32, r: u32, g: u32, b: u32) -> u32 {
    (a << 24u32) | (r << 16u32) | (g << 8u32) | b
}

/// The pixel for one coverage value: coverage modulates all four channels.
pub open spec fn coverage_pixel(color: Rgba8, cov: u8) -> u32 {
    pack_argb(
        modulate(color.a, cov),
        modulate(color.r, cov),
        modulate(color.g, cov),
        modulate(color.b, cov),
    )
}

/// `a * b / 255` rounded to the nearest integer, as the rasterizer computes it.
pub open spec fn muldiv255(a: int, b: int) -> int {
    let t = a * b + 128;
    (t + t / 256) / 256
}

/// The color with each color channel multiplied by its alpha: the form the
/// rasterizer takes solid colors in.
pub open spec fn premultiplied(c: Rgba8) -> Rgba8 {
    Rgba8 {
        r: muldiv255(c.a as int, c.r as int) as u8,
        g: muldiv255(c.a as int, c.g as int) as u8,
        b: muldiv255(c.a as int, c.b as int) as u8,
        a: c.a,
    }
}

/// Relies on raqote::SolidSource::from_unpremultiplied_argb: it keeps alpha and
/// multiplies each color channel by alpha with sw_composite::muldiv255.
#[verifier::external_body]
pub(crate) fn solid_source(c: Rgba8) -> (r: Rgba8)
    ensures
        r == premultiplied(c),
{
    let s = raqote::SolidSource::from_unpremultiplied_argb(c.a, c.r, c.g, c.b);
    Rgba8 { r: s.r, g: s.g, b: s.b, a: s.a }
}

/// The alpha channel of a packed pixel.
pub open spec fn alpha_of(p: u32) -> u32 {
    (p >> 24u32) & 0xffu32
}

/// The red channel of a packed pixel.
pub open spec fn red_of(p: u32) -> u32 {
    (p >> 16u32) & 0xffu32
}

/// The green channel of a packed pixel.
pub open spec fn green_of(p: u32) -> u32 {
    (p >> 8u32) & 0xffu32
}

/// The blue channel of a packed pixel.
pub open spec fn blue_of(p: u32) -> u32 {
    p & 0xffu32
}

proof fn lemma_modulate_bound(channel: u8, cov: u8)
    ensures
        (channel as int * cov as int) / 255 <= 255,
        0 <= (channel as int * cov as int) / 255,
{
    assert(channel as int * cov as int <= 255 * 255) by (nonlinear_arith)
        requires
            channel <= 255,
            cov <= 255,
            channel >= 0,
            cov >= 0,
    ;
    assert(0 <= channel as int * cov as int) by (nonlinear_arith)
        requires
            channel >= 0,
            cov >= 0,
    ;
}

/// Scales one channel by a coverage value, rounding down.
pub fn modulate_channel(channel: u8, cov: u8) -> (r: u32)
    ensures
        r == modulate(channel, cov),
        r <= 255,
{
    proof {
        lemma_modulate_bound(channel, cov);
    }
    let prod: u32 = (channel as u32) * (cov as u32);
    prod / 255
}

/// Packs four channels, each below 256, into `0xAARRGGBB`.
pub fn pack_pixel(a: u32, r: u32, g: u32, b: u32) -> (p: u32)
    requires
        a <= 255,
        r <= 255,
        g <= 255,
        b <= 255,
    ensures
        p == pack_argb(a, r, g, b),
        alpha_of(p) == a,
        red_of(p) == r,
        green_of(p) == g,
        blue_of(p) == b,
{
    proof {
        lemma_unpack(a, r, g, b);
    }
    (a << 24u32) | (r << 16u32) | (g << 8u32) | b
}

/// Each channel of a packed pixel reads back the value that was packed.
pub proof fn lemma_unpack(a: u32, r: u32, g: u32, b: u32)
    requires
        a <= 255,
        r <= 255,
        g <= 255,
        b <= 255,
    ensures
        alpha_of(pack_argb(a, r, g, b)) == a,
        red_of(pack_argb(a, r, g, b)) == r,
        green_of(pack_argb(a, r, g, b)) == g,
        blue_of(pack_argb(a, r, g, b)) == b,
{
    assert(((((a << 24u32) | (r << 16u32) | (g << 8u32) | b) >> 24u32) & 0xffu32) == a)
        by (bit_vector)
        requires
            a <= 255,
            r <= 255,
            g <= 255,
            b <= 255,
    ;
    assert(((((a << 24u32) | (r << 16u32) | (g << 8u32) | b) >> 16u32) & 0xffu32) == r)
        by (bit_vector)
        requires
            a <= 255,
            r <= 255,
            g <= 255,
            b <= 255,
    ;
    assert(((((a << 24u32) | (r << 16u32) | (g << 8u32) | b) >> 8u32) & 0xffu32) == g)
        by (bit_vector)
        requires
            a <= 255,
            r <= 255,
            g <= 255,
            b <= 255,
    ;
    assert((((a << 24u32) | (r << 16u32) | (g << 8u32) | b) & 0xffu32) == b) by (bit_vector)
        requires
            a <= 255,
            r <= 255,
            g <= 255,
            b <= 255,
    ;
}

/// The pixel that one coverage value gives for `color`.
pub fn coverage_to_pixel(color: Rgba8, cov: u8) -> (p: u32)
    ensures
        p == coverage_pixel(color, cov),
{
    let a = modulate_channel(color.a, cov);
    let r = modulate_channel(color.r, cov);
    let g = modulate_channel(color.g, cov);
    let b = modulate_channel(color.b, cov);
    pack_pixel(a, r, g, b)
}

/// Tints a whole coverage mask: one pixel per coverage byte, in order.
pub fn tint_coverage(color: Rgba8, coverage: &Vec<u8>) -> (pixels: Vec<u32>)
    ensures
        pixels@.len() == coverage@.len(),
        forall|i: int|
            0 <= i < coverage@.len() ==> pixels@[i] == coverage_pixel(color, #[trigger] coverage@[i]),
{
    let mut pixels: Vec<u32> = Vec::with_capacity(coverage.len());
    let mut i: usize = 0;
    while i < coverage.len()
        invariant
            i <= coverage@.len(),
            pixels@.len() == i,
            forall|j: int| 0 <= j < i ==> pixels@[j] == coverage_pixel(color, #[trigger] coverage@[j]),
        decreases coverage@.len() - i,
    {
        pixels.push(coverage_to_pixel(color, coverage[i]));
        i = i + 1;
    }
    pixels
}

/// With an opaque color, the alpha of a tinted pixel is the coverage itself and
/// each color channel is `channel * cov / 255` rounded down.
pub proof fn lemma_opaque_coverage(r: u8, g: u8, b: u8, cov: u8)
    ensures
        alpha_of(coverage_pixel(Rgba8 { r, g, b, a: 255 }, cov)) == cov,
        red_of(coverage_pixel(Rgba8 { r, g, b, a: 255 }, cov)) == (r as int * cov as int) / 255,
        green_of(coverage_pixel(Rgba8 { r, g, b, a: 255 }, cov)) == (g as int * cov as int) / 255,
        blue_of(coverage_pixel(Rgba8 { r, g, b, a: 255 }, cov)) == (b as int * cov as int) / 255,
{
    lemma_modulate_bound(r, cov);
    lemma_modulate_bound(g, cov);
    lemma_modulate_bound(b, cov);
    lemma_modulate_bound(255, cov);
    assert((255 * cov as int) / 255 == cov as int) by (nonlinear_arith);
    lemma_unpack(modulate(255, cov), modulate(r, cov), modulate(g, cov), modulate(b, cov));
}

} // verus!
