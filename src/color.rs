//! 32-bit `0xAARRGGBB` colours and the integer alpha-blending rule.

use vstd::prelude::*;

verus! {

/// Solid background colour of every frame.
pub const COLOR_BASE: u32 = 0xFF0B0F18;
/// Translucent fill of the login box.
pub const COLOR_MANTLE: u32 = 0xE6080C14;
/// Accent lines and caret.
pub const COLOR_TEAL: u32 = 0xFF0FB5B3;
/// Date line and password mask.
pub const COLOR_ICE: u32 = 0xFFA8E6F1;
/// Clock and user label.
pub const COLOR_TEXT: u32 = 0xFFF7F9FB;
/// Neutral status text and placeholder.
pub const COLOR_SUBTEXT: u32 = 0xFFAAB5BF;
/// Status colour after a refused password.
pub const COLOR_ERROR: u32 = 0xFFE27878;
/// Colour of the humour line.
pub const COLOR_WARNING: u32 = 0xFFE2A478;

/// The 8-bit channel of `c` that starts at bit `shift`.
pub open spec fn channel(c: u32, shift: u32) -> u32 {
    (c >> shift) & 0xFF
}

pub open spec fn alpha_of(c: u32) -> u32 {
    channel(c, 24)
}

pub open spec fn red_of(c: u32) -> u32 {
    channel(c, 16)
}

pub open spec fn green_of(c: u32) -> u32 {
    channel(c, 8)
}

pub open spec fn blue_of(c: u32) -> u32 {
    channel(c, 0)
}

/// Linear interpolation of one channel, truncated toward zero.
pub open spec fn blend_channel(src: int, dst: int, alpha: int) -> int {
    (src * alpha + dst * (255 - alpha)) / 255
}

/// An opaque pixel built from three channels.
pub open spec fn opaque_rgb(r: u32, g: u32, b: u32) -> u32 {
    0xFF000000u32 | (r << 16u32) | (g << 8u32) | b
}

/// `color` laid over `dst` with weight `alpha`, the result forced opaque.
pub open spec fn blend_pixel(color: u32, dst: u32, alpha: u32) -> u32 {
    opaque_rgb(
        blend_channel(red_of(color) as int, red_of(dst) as int, alpha as int) as u32,
        blend_channel(green_of(color) as int, green_of(dst) as int, alpha as int) as u32,
        blend_channel(blue_of(color) as int, blue_of(dst) as int, alpha as int) as u32,
    )
}

/// What a rectangle fill leaves in a pixel that held `dst`: an opaque
/// colour overwrites, any other is blended with its own alpha.
pub open spec fn compose(color: u32, dst: u32) -> u32 {
    if alpha_of(color) == 255 {
        color
    } else {
        blend_pixel(color, dst, alpha_of(color))
    }
}

/// Reading a channel back out of `opaque_rgb` gives what went in.
pub proof fn lemma_opaque_rgb_channels(r: u32, g: u32, b: u32)
    requires
        r <= 255,
        g <= 255,
        b <= 255,
    ensures
        alpha_of(opaque_rgb(r, g, b)) == 255,
        red_of(opaque_rgb(r, g, b)) == r,
        green_of(opaque_rgb(r, g, b)) == g,
        blue_of(opaque_rgb(r, g, b)) == b,
{
    assert(((0xFF000000u32 | (r << 16u32) | (g << 8u32) | b) >> 24u32) & 0xFF == 255) by (bit_vector)
        requires r <= 255, g <= 255, b <= 255;
    assert(((0xFF000000u32 | (r << 16u32) | (g << 8u32) | b) >> 16u32) & 0xFF == r) by (bit_vector)
        requires r <= 255, g <= 255, b <= 255;
    assert(((0xFF000000u32 | (r << 16u32) | (g << 8u32) | b) >> 8u32) & 0xFF == g) by (bit_vector)
        requires r <= 255, g <= 255, b <= 255;
    assert(((0xFF000000u32 | (r << 16u32) | (g << 8u32) | b) >> 0u32) & 0xFF == b) by (bit_vector)
        requires r <= 255, g <= 255, b <= 255;
}

/// The channels of a blended pixel are the blended channels.
pub proof fn lemma_blend_pixel_channels(color: u32, dst: u32, alpha: u32)
    requires
        alpha <= 255,
    ensures
        alpha_of(blend_pixel(color, dst, alpha)) == 255,
        red_of(blend_pixel(color, dst, alpha)) == blend_channel(red_of(color) as int, red_of(dst) as int, alpha as int),
        green_of(blend_pixel(color, dst, alpha)) == blend_channel(green_of(color) as int, green_of(dst) as int, alpha as int),
        blue_of(blend_pixel(color, dst, alpha)) == blend_channel(blue_of(color) as int, blue_of(dst) as int, alpha as int),
{
    lemma_channel_bound(color, 16);
    lemma_channel_bound(color, 8);
    lemma_channel_bound(color, 0);
    lemma_channel_bound(dst, 16);
    lemma_channel_bound(dst, 8);
    lemma_channel_bound(dst, 0);
    lemma_blend_channel_bound(red_of(color) as int, red_of(dst) as int, alpha as int);
    lemma_blend_channel_bound(green_of(color) as int, green_of(dst) as int, alpha as int);
    lemma_blend_channel_bound(blue_of(color) as int, blue_of(dst) as int, alpha as int);
    lemma_opaque_rgb_channels(
        blend_channel(red_of(color) as int, red_of(dst) as int, alpha as int) as u32,
        blend_channel(green_of(color) as int, green_of(dst) as int, alpha as int) as u32,
        blend_channel(blue_of(color) as int, blue_of(dst) as int, alpha as int) as u32,
    );
}

proof fn lemma_channel_bound(c: u32, shift: u32)
    ensures
        channel(c, shift) <= 255,
{
    assert((c >> shift) & 0xFF <= 255) by (bit_vector);
}

proof fn lemma_blend_channel_bound(src: int, dst: int, alpha: int)
    requires
        0 <= src <= 255,
        0 <= dst <= 255,
        0 <= alpha <= 255,
    ensures
        0 <= blend_channel(src, dst, alpha) <= 255,
{
    assert(0 <= src * alpha <= 255 * alpha) by (nonlinear_arith)
        requires 0 <= src <= 255, 0 <= alpha;
    assert(0 <= dst * (255 - alpha) <= 255 * (255 - alpha)) by (nonlinear_arith)
        requires 0 <= dst <= 255, 0 <= 255 - alpha;
}

/// One channel of `src` over `dst` with weight `alpha`.
fn mix(src: u32, dst: u32, alpha: u32) -> (r: u32)
    requires
        src <= 255,
        dst <= 255,
        alpha <= 255,
    ensures
        r == blend_channel(src as int, dst as int, alpha as int),
        r <= 255,
{
    proof {
        lemma_blend_channel_bound(src as int, dst as int, alpha as int);
        assert(src * alpha <= 255 * 255) by (nonlinear_arith)
            requires src <= 255, alpha <= 255;
        assert(dst * (255 - alpha) <= 255 * 255) by (nonlinear_arith)
            requires dst <= 255, alpha <= 255;
    }
    (src * alpha + dst * (255 - alpha)) / 255
}

/// Lays `color` over `dst` with weight `alpha` (0 keeps `dst`, 255 takes
/// `color`); the result is opaque.
pub fn blend(color: u32, dst: u32, alpha: u32) -> (r: u32)
    requires
        alpha <= 255,
    ensures
        r == blend_pixel(color, dst, alpha),
        alpha_of(r) == 255,
        red_of(r) == blend_channel(red_of(color) as int, red_of(dst) as int, alpha as int),
        green_of(r) == blend_channel(green_of(color) as int, green_of(dst) as int, alpha as int),
        blue_of(r) == blend_channel(blue_of(color) as int, blue_of(dst) as int, alpha as int),
{
    proof {
        lemma_channel_bound(color, 16);
        lemma_channel_bound(color, 8);
        lemma_channel_bound(color, 0);
        lemma_channel_bound(dst, 16);
        lemma_channel_bound(dst, 8);
        lemma_channel_bound(dst, 0);
        assert(color & 0xFF == (color >> 0u32) & 0xFF) by (bit_vector);
        assert(dst & 0xFF == (dst >> 0u32) & 0xFF) by (bit_vector);
    }
    let r = mix((color >> 16) & 0xFF, (dst >> 16) & 0xFF, alpha);
    let g = mix((color >> 8) & 0xFF, (dst >> 8) & 0xFF, alpha);
    let b = mix(color & 0xFF, dst & 0xFF, alpha);
    proof {
        lemma_opaque_rgb_channels(r, g, b);
    }
    0xFF000000 | (r << 16) | (g << 8) | b
}

/// The pixel a rectangle fill of `color` leaves over `dst`.
pub fn compose_pixel(color: u32, dst: u32) -> (r: u32)
    ensures
        r == compose(color, dst),
{
    let alpha = (color >> 24) & 0xFF;
    if alpha == 255 {
        color
    } else {
        proof {
            lemma_channel_bound(color, 24);
        }
        blend(color, dst, alpha)
    }
}

/// A background sample given as red, green, blue and alpha bytes, in the
/// surface's `0xAARRGGBB` layout.
pub fn argb_from_rgba(r: u8, g: u8, b: u8, a: u8) -> (c: u32)
    ensures
        alpha_of(c) == a,
        red_of(c) == r,
        green_of(c) == g,
        blue_of(c) == b,
{
    let c = ((a as u32) << 24) | ((r as u32) << 16) | ((g as u32) << 8) | (b as u32);
    proof {
        let (a32, r32, g32, b32) = (a as u32, r as u32, g as u32, b as u32);
        assert(((((a32 << 24u32) | (r32 << 16u32) | (g32 << 8u32) | b32) >> 24u32) & 0xFF) == a32)
            by (bit_vector) requires a32 <= 255, r32 <= 255, g32 <= 255, b32 <= 255;
        assert(((((a32 << 24u32) | (r32 << 16u32) | (g32 << 8u32) | b32) >> 16u32) & 0xFF) == r32)
            by (bit_vector) requires a32 <= 255, r32 <= 255, g32 <= 255, b32 <= 255;
        assert(((((a32 << 24u32) | (r32 << 16u32) | (g32 << 8u32) | b32) >> 8u32) & 0xFF) == g32)
            by (bit_vector) requires a32 <= 255, r32 <= 255, g32 <= 255, b32 <= 255;
        assert(((((a32 << 24u32) | (r32 << 16u32) | (g32 << 8u32) | b32) >> 0u32) & 0xFF) == b32)
            by (bit_vector) requires a32 <= 255, r32 <= 255, g32 <= 255, b32 <= 255;
    }
    c
}

} // verus!
