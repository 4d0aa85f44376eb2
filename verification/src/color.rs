//! Packed 8-bit RGB colours, alpha-over blending and linear interpolation.

use vstd::prelude::*;

verus! {

/// Packs three channel values into `0x00RRGGBB`.
pub open spec fn rgb_spec(r: int, g: int, b: int) -> int {
    r * 65536 + g * 256 + b
}

/// The red channel of a packed value.
pub open spec fn red_of(v: int) -> int {
    (v / 65536) % 256
}

/// The green channel of a packed value.
pub open spec fn green_of(v: int) -> int {
    (v / 256) % 256
}

/// The blue channel of a packed value.
pub open spec fn blue_of(v: int) -> int {
    v % 256
}

/// Alpha-over compositing of one channel, rounded to nearest:
/// `round((fg * alpha + bg * (255 - alpha)) / 255)`.
pub open spec fn blend_spec(fg: int, alpha: int, bg: int) -> int {
    (fg * alpha + bg * (255 - alpha) + 127) / 255
}

/// Blends all three channels of `fg` over the packed pixel `bg`.
pub open spec fn blend_pixel_spec(fg: int, alpha: int, bg: int) -> int {
    rgb_spec(
        blend_spec(red_of(fg), alpha, red_of(bg)),
        blend_spec(green_of(fg), alpha, green_of(bg)),
        blend_spec(blue_of(fg), alpha, blue_of(bg)),
    )
}

/// One channel interpolated from `a` (at `num == 0`) towards `b` (at
/// `num == den`), rounded down.
pub open spec fn lerp_channel_spec(a: int, b: int, num: int, den: int) -> int {
    (a * (den - num) + b * num) / den
}

/// A packed colour interpolated channel by channel.
pub open spec fn lerp_spec(c1: int, c2: int, num: int, den: int) -> int {
    rgb_spec(
        lerp_channel_spec(red_of(c1), red_of(c2), num, den),
        lerp_channel_spec(green_of(c1), green_of(c2), num, den),
        lerp_channel_spec(blue_of(c1), blue_of(c2), num, den),
    )
}

/// The size of one step of a gradient that runs from `a` to `b` over `den`
/// columns, rounded up.
pub open spec fn blend_unit(a: int, b: int, den: int) -> int {
    let d = if a <= b { b - a } else { a - b };
    (d + den - 1) / den
}

/// A colour packed as `0x00RRGGBB`.
#[derive(Clone, Copy, Debug, PartialEq, Eq, Structural)]
pub struct Color(pub u32);

impl View for Color {
    type V = int;

    open spec fn view(&self) -> int {
        self.0 as int
    }
}

pub proof fn lemma_blend_bounds(fg: int, alpha: int, bg: int)
    requires
        0 <= fg <= 255,
        0 <= alpha <= 255,
        0 <= bg <= 255,
    ensures
        0 <= fg * alpha + bg * (255 - alpha) <= 65025,
        0 <= blend_spec(fg, alpha, bg) <= 255,
{
    assert(0 <= fg * alpha + bg * (255 - alpha) <= 65025) by (nonlinear_arith)
        requires
            0 <= fg <= 255,
            0 <= alpha <= 255,
            0 <= bg <= 255,
    ;
}

pub proof fn lemma_lerp_bounds(a: int, b: int, num: int, den: int)
    requires
        0 <= a <= 255,
        0 <= b <= 255,
        0 <= num <= den,
        0 < den,
    ensures
        0 <= a * (den - num) + b * num <= 255 * den,
        0 <= lerp_channel_spec(a, b, num, den) <= 255,
{
    assert(0 <= a * (den - num) + b * num <= 255 * den) by (nonlinear_arith)
        requires
            0 <= a <= 255,
            0 <= b <= 255,
            0 <= num <= den,
    ;
    let n = a * (den - num) + b * num;
    assert(0 <= n / den <= 255) by (nonlinear_arith)
        requires
            0 <= n <= 255 * den,
            0 < den,
    ;
}

pub proof fn lemma_rgb_channels(r: int, g: int, b: int)
    requires
        0 <= r <= 255,
        0 <= g <= 255,
        0 <= b <= 255,
    ensures
        0 <= rgb_spec(r, g, b) <= 0xFF_FFFF,
        red_of(rgb_spec(r, g, b)) == r,
        green_of(rgb_spec(r, g, b)) == g,
        blue_of(rgb_spec(r, g, b)) == b,
{
}

/// Packs three channels into a pixel value.
pub fn rgb(r: u8, g: u8, b: u8) -> (c: u32)
    ensures
        c == rgb_spec(r as int, g as int, b as int),
        c <= 0xFF_FFFF,
{
    let c: u32 = ((r as u32) << 16) | ((g as u32) << 8) | (b as u32);
    assert(((r as u32) << 16) | ((g as u32) << 8) | (b as u32) == (r as u32) * 65536 + (g as u32)
        * 256 + (b as u32)) by (bit_vector);
    c
}

/// Composites one foreground channel over one background channel with the
/// coverage `alpha`.
pub fn blend(fg: u8, alpha: u8, bg: u8) -> (out: u8)
    ensures
        out == blend_spec(fg as int, alpha as int, bg as int),
{
    proof {
        lemma_blend_bounds(fg as int, alpha as int, bg as int);
    }
    let n: u32 = (fg as u32) * (alpha as u32) + (bg as u32) * (255 - alpha as u32);
    ((n + 127) / 255) as u8
}

impl Color {
    pub fn white() -> (c: Color)
        ensures
            c == Color(0xFF_FFFF),
    {
        Color(0xFF_FFFF)
    }

    pub fn black() -> (c: Color)
        ensures
            c == Color(0x00_0000),
    {
        Color(0x00_0000)
    }

    pub fn red() -> (c: Color)
        ensures
            c == Color(0xFF_0000),
    {
        Color(0xFF_0000)
    }

    pub fn green() -> (c: Color)
        ensures
            c == Color(0x00_FF00),
    {
        Color(0x00_FF00)
    }

    pub fn blue() -> (c: Color)
        ensures
            c == Color(0x00_00FF),
    {
        Color(0x00_00FF)
    }

    /// Wraps a packed pixel value.
    pub fn new(value: u32) -> (c: Color)
        ensures
            c == Color(value),
    {
        Color(value)
    }

    /// Builds a colour from its three channels.
    pub fn from_rgb(r: u8, g: u8, b: u8) -> (c: Color)
        ensures
            c@ == rgb_spec(r as int, g as int, b as int),
    {
        Color(rgb(r, g, b))
    }

    /// The packed pixel value.
    pub fn as_u32(&self) -> (v: u32)
        ensures
            v == self.0,
    {
        self.0
    }

    /// The red channel.
    pub fn r(&self) -> (v: u8)
        ensures
            v == red_of(self@),
    {
        let x: u32 = self.0;
        assert((x >> 16) & 0xFF == (x / 65536) % 256) by (bit_vector);
        ((self.0 >> 16) & 0xFF) as u8
    }

    /// The green channel.
    pub fn g(&self) -> (v: u8)
        ensures
            v == green_of(self@),
    {
        let x: u32 = self.0;
        assert((x >> 8) & 0xFF == (x / 256) % 256) by (bit_vector);
        ((self.0 >> 8) & 0xFF) as u8
    }

    /// The blue channel.
    pub fn b(&self) -> (v: u8)
        ensures
            v == blue_of(self@),
    {
        let x: u32 = self.0;
        assert(x & 0xFF == x % 256) by (bit_vector);
        (self.0 & 0xFF) as u8
    }

    /// This colour composited over the pixel `bg` with coverage `alpha`.
    pub fn blend_over(&self, alpha: u8, bg: u32) -> (out: u32)
        ensures
            out == blend_pixel_spec(self@, alpha as int, bg as int),
    {
        let under = Color(bg);
        let r = blend(self.r(), alpha, under.r());
        let g = blend(self.g(), alpha, under.g());
        let b = blend(self.b(), alpha, under.b());
        rgb(r, g, b)
    }

    /// The colour `num / den` of the way from `self` to `other`.
    pub fn lerp(&self, other: Color, num: usize, den: usize) -> (out: Color)
        requires
            0 < den,
            num <= den,
        ensures
            out@ == lerp_spec(self@, other@, num as int, den as int),
    {
        let r = lerp_channel(self.r(), other.r(), num, den);
        let g = lerp_channel(self.g(), other.g(), num, den);
        let b = lerp_channel(self.b(), other.b(), num, den);
        Color(rgb(r, g, b))
    }
}

/// One channel `num / den` of the way from `a` to `b`.
pub fn lerp_channel(a: u8, b: u8, num: usize, den: usize) -> (out: u8)
    requires
        0 < den,
        num <= den,
    ensures
        out == lerp_channel_spec(a as int, b as int, num as int, den as int),
{
    proof {
        lemma_lerp_bounds(a as int, b as int, num as int, den as int);
        assert(0 <= (a as int) * (den - num) <= 255 * den) by (nonlinear_arith)
            requires
                0 <= a <= 255,
                0 <= num <= den,
        ;
        assert(0 <= (b as int) * num <= 255 * den) by (nonlinear_arith)
            requires
                0 <= b <= 255,
                0 <= num <= den,
        ;
    }
    let n: u128 = (a as u128) * ((den - num) as u128) + (b as u128) * (num as u128);
    (n / (den as u128)) as u8
}

/// A fully covering glyph pixel replaces the background: with alpha 255
/// the blend of a channel is the foreground value, whatever the
/// background. With alpha 0 it is the background value, whatever the
/// foreground.
pub proof fn lemma_blend_endpoints(fg: int, bg: int)
    requires
        0 <= fg <= 255,
        0 <= bg <= 255,
    ensures
        blend_spec(fg, 255, bg) == fg,
        blend_spec(fg, 0, bg) == bg,
{
}

/// A packed colour below `0x1000000` is put together again from its three
/// channels.
pub proof fn lemma_rgb_repacks(v: int)
    requires
        0 <= v <= 0xFF_FFFF,
    ensures
        rgb_spec(red_of(v), green_of(v), blue_of(v)) == v,
        0 <= red_of(v) <= 255,
        0 <= green_of(v) <= 255,
        0 <= blue_of(v) <= 255,
{
}

/// Compositing a colour with alpha 255 over any pixel gives exactly that
/// colour, and compositing with alpha 0 gives back the pixel. Colours and
/// pixels are packed values below `0x1000000`; of a pixel above that, the
/// blend keeps the three channels.
pub proof fn lemma_blend_pixel_endpoints(fg: int, bg: int)
    requires
        0 <= fg <= 0xFF_FFFF,
        0 <= bg <= 0xFFFF_FFFF,
    ensures
        blend_pixel_spec(fg, 255, bg) == fg,
        bg <= 0xFF_FFFF ==> blend_pixel_spec(fg, 0, bg) == bg,
        blend_pixel_spec(fg, 0, bg) == rgb_spec(red_of(bg), green_of(bg), blue_of(bg)),
{
    lemma_rgb_repacks(fg);
    lemma_blend_endpoints(red_of(fg), red_of(bg));
    lemma_blend_endpoints(green_of(fg), green_of(bg));
    lemma_blend_endpoints(blue_of(fg), blue_of(bg));
    if bg <= 0xFF_FFFF {
        lemma_rgb_repacks(bg);
    }
}

/// The ends of a gradient. At the first of `den` columns a channel has
/// its starting value `a` exactly. At the last column it is within one
/// gradient step of the end value `b`, on the side of `a`.
pub proof fn lemma_lerp_endpoints(a: int, b: int, den: int)
    requires
        0 <= a <= 255,
        0 <= b <= 255,
        0 < den,
    ensures
        lerp_channel_spec(a, b, 0, den) == a,
        a <= b ==> b - blend_unit(a, b, den) <= lerp_channel_spec(a, b, den - 1, den) <= b,
        a >= b ==> b <= lerp_channel_spec(a, b, den - 1, den) <= b + blend_unit(a, b, den),
{
    assert(lerp_channel_spec(a, b, 0, den) == a) by {
        assert(a * (den - 0) + b * 0 == a * den) by (nonlinear_arith);
        vstd::arithmetic::div_mod::lemma_div_by_multiple(a, den);
        assert(a * den == den * a) by (nonlinear_arith);
    }
    let n = a * 1 + b * (den - 1);
    assert(a * (den - (den - 1)) + b * (den - 1) == n && n == a + b * (den - 1))
        by (nonlinear_arith)
        requires
            n == a * 1 + b * (den - 1),
    ;
    let v = n / den;
    assert(v == lerp_channel_spec(a, b, den - 1, den));
    vstd::arithmetic::div_mod::lemma_fundamental_div_mod(n, den);
    vstd::arithmetic::div_mod::lemma_mod_bound(n, den);
    let m = n % den;
    assert(n == den * v + m);
    if a <= b {
        let d = b - a;
        let u = (d + den - 1) / den;
        vstd::arithmetic::div_mod::lemma_fundamental_div_mod(d + den - 1, den);
        vstd::arithmetic::div_mod::lemma_mod_bound(d + den - 1, den);
        let mu = (d + den - 1) % den;
        assert(d + den - 1 == den * u + mu);
        // n == b * den - d, so den * (b - v) == d + m.
        assert(den * (b - v) == d + m) by (nonlinear_arith)
            requires
                n == den * v + m,
                n == a + b * (den - 1),
                d == b - a,
        ;
        assert(b - v <= u && b - v >= 0) by (nonlinear_arith)
            requires
                den * (b - v) == d + m,
                d + den - 1 == den * u + mu,
                0 <= m < den,
                0 <= mu < den,
                0 <= d,
                0 < den,
        ;
    }
    if a >= b {
        let d = a - b;
        let u = (d + den - 1) / den;
        vstd::arithmetic::div_mod::lemma_fundamental_div_mod(d + den - 1, den);
        vstd::arithmetic::div_mod::lemma_mod_bound(d + den - 1, den);
        let mu = (d + den - 1) % den;
        assert(d + den - 1 == den * u + mu);
        // n == b * den + d, so den * (v - b) == d - m.
        assert(den * (v - b) == d - m) by (nonlinear_arith)
            requires
                n == den * v + m,
                n == a + b * (den - 1),
                d == a - b,
        ;
        assert(v - b <= u && v - b >= 0) by (nonlinear_arith)
            requires
                den * (v - b) == d - m,
                d + den - 1 == den * u + mu,
                0 <= m < den,
                0 <= mu < den,
                0 <= d,
                0 < den,
        ;
    }
}

} // verus!
