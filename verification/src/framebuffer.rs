//! Colors and the hardware framebuffer description.
//!
//! `Color` carries one 8-bit channel per primary; its blending arithmetic is
//! exact and saturating. `Framebuffer` describes the linear pixel buffer that
//! firmware hands over: the buffer itself is raw device memory that only the
//! unverified edge of the kernel touches, so it is carried here as its base
//! address together with the geometry that pixel indexing needs.

use vstd::prelude::*;

verus! {

/// Saturating sum of two 8-bit channels.
pub open spec fn sat_add_channel(a: u8, b: u8) -> u8 {
    if a + b > 255 {
        255u8
    } else {
        (a + b) as u8
    }
}

/// Product of two 8-bit channels, rescaled back into the channel range.
pub open spec fn mul_channel(a: u8, b: u8) -> u8 {
    ((a * b) / 255) as u8
}

/// Channel-wise linear interpolation from `a` (at `t == 0`) towards `b`
/// (at `t == 255`).
pub open spec fn lerp_spec(a: Color, b: Color, t: u8) -> Color {
    Color {
        r: sat_add_channel(mul_channel(a.r, (255 - t) as u8), mul_channel(b.r, t)),
        g: sat_add_channel(mul_channel(a.g, (255 - t) as u8), mul_channel(b.g, t)),
        b: sat_add_channel(mul_channel(a.b, (255 - t) as u8), mul_channel(b.b, t)),
    }
}

#[derive(Debug, Clone, Copy, PartialEq, Eq, Structural)]
pub struct Color {
    pub r: u8,
    pub g: u8,
    pub b: u8,
}

impl Color {
    /// Channel-wise saturating addition.
    pub fn add(self, other: Self) -> (result: Self)
        ensures
            result.r == sat_add_channel(self.r, other.r),
            result.g == sat_add_channel(self.g, other.g),
            result.b == sat_add_channel(self.b, other.b),
    {
        Self {
            r: self.r.saturating_add(other.r),
            g: self.g.saturating_add(other.g),
            b: self.b.saturating_add(other.b),
        }
    }

    /// Channel-wise multiplication, treating 255 as unit intensity.
    pub fn multiply(self, other: Self) -> (result: Self)
        ensures
            result.r == mul_channel(self.r, other.r),
            result.g == mul_channel(self.g, other.g),
            result.b == mul_channel(self.b, other.b),
    {
        proof {
            lemma_channel_product_fits(self.r, other.r);
            lemma_channel_product_fits(self.g, other.g);
            lemma_channel_product_fits(self.b, other.b);
        }
        Self {
            r: ((self.r as u16 * other.r as u16) / u8::MAX as u16) as u8,
            g: ((self.g as u16 * other.g as u16) / u8::MAX as u16) as u8,
            b: ((self.b as u16 * other.b as u16) / u8::MAX as u16) as u8,
        }
    }

    /// Uniform scaling of all three channels by `brightness / 255`.
    pub fn scale(self, brightness: u8) -> (result: Self)
        ensures
            result.r == mul_channel(self.r, brightness),
            result.g == mul_channel(self.g, brightness),
            result.b == mul_channel(self.b, brightness),
    {
        self.multiply(Color { r: brightness, g: brightness, b: brightness })
    }

    /// Linear interpolation from `self` (at `t == 0`) towards `other`
    /// (at `t == 255`), channel by channel.
    pub fn lerp(self, other: Self, t: u8) -> (result: Self)
        ensures
            result == lerp_spec(self, other, t),
    {
        self.scale(u8::MAX - t).add(other.scale(t))
    }
}

/// Channel order of the pixel words that the framebuffer expects.
#[derive(Debug, Clone, Copy, PartialEq, Eq, Structural)]
pub enum FrameBufferFormat {
    Rgb,
    Bgr,
}

/// One pixel as the 32-bit word the framebuffer stores: the first three
/// bytes are the color channels in the framebuffer's own order, the fourth
/// is zero.
#[derive(Debug, Clone, Copy, PartialEq, Eq, Structural)]
pub struct FramebufferColor(pub u32);

/// The 32-bit pixel word for `color` under `format`, little-endian:
/// byte 0 of the word is the lowest 8 bits.
pub open spec fn pixel_word(format: FrameBufferFormat, color: Color) -> u32 {
    match format {
        FrameBufferFormat::Rgb => (color.r + color.g * 0x100 + color.b * 0x1_0000) as u32,
        FrameBufferFormat::Bgr => (color.b + color.g * 0x100 + color.r * 0x1_0000) as u32,
    }
}

impl FramebufferColor {
    /// Packs a color in RGB order; the format-aware packing lives on
    /// `Framebuffer::color`.
    pub fn new(color: Color) -> (result: Self)
        ensures
            result.0 == pixel_word(FrameBufferFormat::Rgb, color),
    {
        let r: u32 = color.r as u32;
        let g: u32 = color.g as u32;
        let b: u32 = color.b as u32;
        proof {
            lemma_pack_channels(r, g, b);
        }
        FramebufferColor(r | (g << 8) | (b << 16))
    }

    /// Recovers the color of a pixel word packed in RGB order.
    pub fn color(self) -> (result: Color)
        ensures
            result.r == self.0 % 0x100,
            result.g == (self.0 / 0x100) % 0x100,
            result.b == (self.0 / 0x1_0000) % 0x100,
    {
        let word: u32 = self.0;
        let r: u8 = (word & 0xFF) as u8;
        let g: u8 = ((word >> 8) & 0xFF) as u8;
        let b: u8 = ((word >> 16) & 0xFF) as u8;
        proof {
            assert(word & 0xFF == word % 0x100 && (word >> 8) & 0xFF == (word / 0x100) % 0x100
                && (word >> 16) & 0xFF == (word / 0x1_0000) % 0x100) by (bit_vector);
        }
        Color { r, g, b }
    }
}

/// The product of two channel bytes stays within a 16-bit word.
proof fn lemma_channel_product_fits(a: u8, b: u8)
    ensures
        a as int * b as int <= 255 * 255,
{
    assert(a as int * b as int <= 255 * 255) by (nonlinear_arith)
        requires
            a <= 255,
            b <= 255,
    ;
}

/// Packing three channel bytes into one little-endian word by shifts agrees
/// with the arithmetic statement used in `pixel_word`.
proof fn lemma_pack_channels(a: u32, b: u32, c: u32)
    requires
        a < 0x100,
        b < 0x100,
        c < 0x100,
    ensures
        (a | (b << 8) | (c << 16)) == a + b * 0x100 + c * 0x1_0000,
{
    assert((a | (b << 8) | (c << 16)) == a + b * 0x100 + c * 0x1_0000) by (bit_vector)
        requires
            a < 0x100,
            b < 0x100,
            c < 0x100,
    ;
}

/// Geometry and pixel format of the linear framebuffer. The pixel storage is
/// device memory outside the verified library; `pixels_base` records where it
/// starts.
pub struct Framebuffer {
    pub format: FrameBufferFormat,
    pub pixels_base: usize,
    pub pixels_width: usize,
    pub pixels_height: usize,
    pub pixels_per_scanline: usize,
}

impl Framebuffer {
    /// Packs a color into the pixel word this framebuffer's format expects.
    pub fn color(&self, color: Color) -> (result: FramebufferColor)
        ensures
            result.0 == pixel_word(self.format, color),
    {
        match self.format {
            FrameBufferFormat::Rgb => {
                let r: u32 = color.r as u32;
                let g: u32 = color.g as u32;
                let b: u32 = color.b as u32;
                proof {
                    lemma_pack_channels(r, g, b);
                }
                FramebufferColor(r | (g << 8) | (b << 16))
            },
            FrameBufferFormat::Bgr => {
                let r: u32 = color.r as u32;
                let g: u32 = color.g as u32;
                let b: u32 = color.b as u32;
                proof {
                    lemma_pack_channels(b, g, r);
                }
                FramebufferColor(b | (g << 8) | (r << 16))
            },
        }
    }

    /// Base address of the pixel storage.
    pub fn base(&self) -> (result: usize)
        ensures
            result == self.pixels_base,
    {
        self.pixels_base
    }

    /// Number of pixel words the buffer holds, scanline padding included.
    pub fn size(&self) -> (result: usize)
        requires
            self.pixels_height * self.pixels_per_scanline <= usize::MAX,
        ensures
            result == self.pixels_height * self.pixels_per_scanline,
    {
        self.pixels_height * self.pixels_per_scanline
    }

    pub fn width(&self) -> (result: usize)
        ensures
            result == self.pixels_width,
    {
        self.pixels_width
    }

    pub fn height(&self) -> (result: usize)
        ensures
            result == self.pixels_height,
    {
        self.pixels_height
    }
}

} // verus!
