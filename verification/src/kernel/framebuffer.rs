//! The first-generation kernel's framebuffer description: geometry, pixel
//! layout, and the pixel word and index arithmetic its drawing uses. The
//! pixel stores themselves go to device memory at the unverified edge.

use vstd::prelude::*;

verus! {

/// Channel order of a pixel word.
#[derive(Debug, Clone, Copy, PartialEq, Eq, Structural)]
pub enum PixelFormat {
    Rgb,
    Bgr,
}

/// The linear framebuffer: base address of the device pixel memory and its
/// geometry.
#[derive(Debug, Clone, Copy, PartialEq, Eq, Structural)]
pub struct Framebuffer {
    pub pixels: usize,
    pub width: usize,
    pub height: usize,
    pub pixels_per_scanline: usize,
    pub pixel_format: PixelFormat,
}

/// The 32-bit word a color triple becomes under `format`, little-endian.
pub open spec fn pixel_word_of(format: PixelFormat, color: (u8, u8, u8)) -> u32 {
    match format {
        PixelFormat::Rgb => (color.0 + color.1 * 0x100 + color.2 * 0x1_0000) as u32,
        PixelFormat::Bgr => (color.2 + color.1 * 0x100 + color.0 * 0x1_0000) as u32,
    }
}

impl Framebuffer {
    pub fn new(
        pixels: usize,
        width: usize,
        height: usize,
        pixels_per_scanline: usize,
        pixel_format: PixelFormat,
    ) -> (result: Framebuffer)
        ensures
            result == (Framebuffer { pixels, width, height, pixels_per_scanline, pixel_format }),
    {
        Framebuffer { pixels, width, height, pixels_per_scanline, pixel_format }
    }

    pub fn width(&self) -> (result: usize)
        ensures
            result == self.width,
    {
        self.width
    }

    pub fn height(&self) -> (result: usize)
        ensures
            result == self.height,
    {
        self.height
    }

    /// The pixel word drawing stores for a color triple, honoring the
    /// buffer's channel order.
    pub fn pixel_value(&self, color: (u8, u8, u8)) -> (result: u32)
        ensures
            result == pixel_word_of(self.pixel_format, color),
    {
        let (r, g, b) = color;
        match self.pixel_format {
            PixelFormat::Rgb => r as u32 + g as u32 * 0x100 + b as u32 * 0x1_0000,
            PixelFormat::Bgr => b as u32 + g as u32 * 0x100 + r as u32 * 0x1_0000,
        }
    }

    /// The word index of pixel `(x, y)` in the linear buffer; `None` when
    /// the point lies outside the screen, which drawing skips.
    pub fn pixel_offset(&self, x: usize, y: usize) -> (result: Option<usize>)
        requires
            self.height * self.pixels_per_scanline <= usize::MAX,
            self.pixels_per_scanline >= self.width,
        ensures
            result == if x < self.width && y < self.height {
                Some((x + y * self.pixels_per_scanline) as usize)
            } else {
                None::<usize>
            },
    {
        if x >= self.width || y >= self.height {
            return None;
        }
        proof {
            assert(x + y * self.pixels_per_scanline < self.height * self.pixels_per_scanline
                || y * self.pixels_per_scanline <= (self.height - 1) * self.pixels_per_scanline)
                by (nonlinear_arith)
                requires
                    y < self.height,
                    x < self.width,
                    self.pixels_per_scanline >= self.width,
            ;
            assert((self.height - 1) * self.pixels_per_scanline + self.pixels_per_scanline
                == self.height * self.pixels_per_scanline) by (nonlinear_arith);
            assert(y * self.pixels_per_scanline <= (self.height - 1) * self.pixels_per_scanline)
                by (nonlinear_arith)
                requires
                    0 <= y <= self.height - 1,
                    self.pixels_per_scanline >= 0,
            ;
        }
        Some(x + y * self.pixels_per_scanline)
    }
}

} // verus!
