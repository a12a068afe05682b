//! In-memory screens.
//!
//! A `Screen` is a bounded two-dimensional surface of colored pixels.
//! `Pixels` stores colors directly; `FramebufferColorPixels` stores packed
//! pixel words as the hardware framebuffer does. Out-of-bounds writes are
//! ignored, and the blit operations clamp their rectangles to the surface.

use crate::framebuffer::{Color, FramebufferColor};
use vstd::prelude::*;

verus! {

/// The smaller of two values.
pub open spec fn min2(a: int, b: int) -> int {
    if a < b {
        a
    } else {
        b
    }
}

/// Whether `(px, py)` lies in the rectangle that a fill of
/// `(left, top, width, height)` touches on a `w` by `h` surface, after
/// clamping.
pub open spec fn fill_covers(
    w: int,
    h: int,
    left: int,
    top: int,
    width: int,
    height: int,
    px: int,
    py: int,
) -> bool {
    let t = min2(top, h);
    let b = min2(t + height, h);
    let l = min2(left, w);
    let r = min2(l + width, w);
    l <= px < r && t <= py < b
}

/// A bounded surface of colored pixels.
pub trait Screen: Sized {
    /// Internal consistency of the surface.
    spec fn wf(&self) -> bool;

    spec fn width_spec(&self) -> int;

    spec fn height_spec(&self) -> int;

    /// The color stored at `(x, y)`.
    spec fn pixel_at(&self, x: int, y: int) -> Color;

    fn width(&self) -> (result: usize)
        requires
            self.wf(),
        ensures
            result == self.width_spec(),
    ;

    fn height(&self) -> (result: usize)
        requires
            self.wf(),
        ensures
            result == self.height_spec(),
    ;

    /// Writes one pixel; writes outside the surface are ignored.
    fn set_pixel(&mut self, x: usize, y: usize, color: Color)
        requires
            old(self).wf(),
        ensures
            final(self).wf(),
            final(self).width_spec() == old(self).width_spec(),
            final(self).height_spec() == old(self).height_spec(),
            forall|px: int, py: int|
                0 <= px < old(self).width_spec() && 0 <= py < old(self).height_spec()
                    ==> #[trigger] final(self).pixel_at(px, py) == if px == x && py == y {
                    color
                } else {
                    old(self).pixel_at(px, py)
                },
    ;

    /// Reads one pixel; `None` outside the surface.
    fn get_pixel(&self, x: usize, y: usize) -> (result: Option<Color>)
        requires
            self.wf(),
        ensures
            result == if x < self.width_spec() && y < self.height_spec() {
                Some(self.pixel_at(x as int, y as int))
            } else {
                None::<Color>
            },
    ;

    /// Fills a rectangle, clamped to the surface.
    fn fill(&mut self, left: usize, top: usize, width: usize, height: usize, color: Color)
        requires
            old(self).wf(),
        ensures
            final(self).wf(),
            final(self).width_spec() == old(self).width_spec(),
            final(self).height_spec() == old(self).height_spec(),
            forall|px: int, py: int|
                0 <= px < old(self).width_spec() && 0 <= py < old(self).height_spec()
                    ==> #[trigger] final(self).pixel_at(px, py) == if fill_covers(
                    old(self).width_spec(),
                    old(self).height_spec(),
                    left as int,
                    top as int,
                    width as int,
                    height as int,
                    px,
                    py,
                ) {
                    color
                } else {
                    old(self).pixel_at(px, py)
                },
    {
        let pixels_width = self.width();
        let pixels_height = self.height();

        let top = if top < pixels_height {
            top
        } else {
            pixels_height
        };
        let bottom_unclamped = top.saturating_add(height);
        let bottom = if bottom_unclamped < pixels_height {
            bottom_unclamped
        } else {
            pixels_height
        };
        let left = if left < pixels_width {
            left
        } else {
            pixels_width
        };
        let right_unclamped = left.saturating_add(width);
        let right = if right_unclamped < pixels_width {
            right_unclamped
        } else {
            pixels_width
        };

        let mut y = top;
        while y < bottom
            invariant
                self.wf(),
                self.width_spec() == old(self).width_spec(),
                self.height_spec() == old(self).height_spec(),
                top <= y <= bottom,
                left <= right <= old(self).width_spec(),
                top <= bottom <= old(self).height_spec(),
                forall|px: int, py: int|
                    0 <= px < old(self).width_spec() && 0 <= py < old(self).height_spec()
                        ==> #[trigger] self.pixel_at(px, py) == if left <= px < right && top <= py
                        < y {
                        color
                    } else {
                        old(self).pixel_at(px, py)
                    },
            decreases bottom - y,
        {
            let mut x = left;
            while x < right
                invariant
                    self.wf(),
                    self.width_spec() == old(self).width_spec(),
                    self.height_spec() == old(self).height_spec(),
                    top <= y < bottom,
                    left <= x <= right,
                    left <= right <= old(self).width_spec(),
                    top <= bottom <= old(self).height_spec(),
                    forall|px: int, py: int|
                        0 <= px < old(self).width_spec() && 0 <= py < old(self).height_spec()
                            ==> #[trigger] self.pixel_at(px, py) == if (left <= px < right && top
                            <= py < y) || (left <= px < x && py == y) {
                            color
                        } else {
                            old(self).pixel_at(px, py)
                        },
                decreases right - x,
            {
                self.set_pixel(x, y, color);
                x = x + 1;
            }
            y = y + 1;
        }
    }

}

/// Copies `screen` onto `target` at `(left, top)`, clamped to the target
/// surface; source pixels are read relative to the rectangle's corner.
pub fn copy_screen<S1: Screen, S2: Screen>(target: &mut S1, screen: &S2, left: usize, top: usize)
        requires
            old(target).wf(),
            screen.wf(),
        ensures
            final(target).wf(),
            final(target).width_spec() == old(target).width_spec(),
            final(target).height_spec() == old(target).height_spec(),
            forall|px: int, py: int|
                0 <= px < old(target).width_spec() && 0 <= py < old(target).height_spec()
                    ==> #[trigger] final(target).pixel_at(px, py) == if fill_covers(
                    old(target).width_spec(),
                    old(target).height_spec(),
                    left as int,
                    top as int,
                    screen.width_spec(),
                    screen.height_spec(),
                    px,
                    py,
                ) {
                    screen.pixel_at(px - min2(left as int, old(target).width_spec()), py - min2(
                        top as int,
                        old(target).height_spec(),
                    ))
                } else {
                    old(target).pixel_at(px, py)
                },
    {
        let width = target.width();
        let height = target.height();
        let screen_width = screen.width();
        let screen_height = screen.height();

        let top = if top < height {
            top
        } else {
            height
        };
        let bottom_unclamped = top.saturating_add(screen_height);
        let bottom = if bottom_unclamped < height {
            bottom_unclamped
        } else {
            height
        };
        let left = if left < width {
            left
        } else {
            width
        };
        let right_unclamped = left.saturating_add(screen_width);
        let right = if right_unclamped < width {
            right_unclamped
        } else {
            width
        };

        let mut y = top;
        while y < bottom
            invariant
                target.wf(),
                screen.wf(),
                target.width_spec() == old(target).width_spec(),
                target.height_spec() == old(target).height_spec(),
                top <= y <= bottom,
                left <= right <= old(target).width_spec(),
                top <= bottom <= old(target).height_spec(),
                right - left <= screen.width_spec(),
                bottom - top <= screen.height_spec(),
                forall|px: int, py: int|
                    0 <= px < old(target).width_spec() && 0 <= py < old(target).height_spec()
                        ==> #[trigger] target.pixel_at(px, py) == if left <= px < right && top <= py
                        < y {
                        screen.pixel_at(px - left, py - top)
                    } else {
                        old(target).pixel_at(px, py)
                    },
            decreases bottom - y,
        {
            let mut x = left;
            while x < right
                invariant
                    target.wf(),
                    screen.wf(),
                    target.width_spec() == old(target).width_spec(),
                    target.height_spec() == old(target).height_spec(),
                    top <= y < bottom,
                    left <= x <= right,
                    left <= right <= old(target).width_spec(),
                    top <= bottom <= old(target).height_spec(),
                    right - left <= screen.width_spec(),
                    bottom - top <= screen.height_spec(),
                    forall|px: int, py: int|
                        0 <= px < old(target).width_spec() && 0 <= py < old(target).height_spec()
                            ==> #[trigger] target.pixel_at(px, py) == if (left <= px < right && top
                            <= py < y) || (left <= px < x && py == y) {
                            screen.pixel_at(px - left, py - top)
                        } else {
                            old(target).pixel_at(px, py)
                        },
                decreases right - x,
            {
                let source = match screen.get_pixel(x - left, y - top) {
                    Some(color) => color,
                    None => Color { r: 0, g: 0, b: 0 },
                };
                target.set_pixel(x, y, source);
                x = x + 1;
            }
            y = y + 1;
        }
    }

/// A screen owning one `Color` per pixel, row by row.
pub struct Pixels {
    pub pixels: Vec<Color>,
    pub width: usize,
    pub height: usize,
}

/// Pixel `(x, y)` of a `w`-wide surface sits at index `x + y * w`.
pub proof fn lemma_pixel_index(w: int, h: int, x: int, y: int)
    requires
        0 <= x < w,
        0 <= y < h,
    ensures
        0 <= x + y * w < w * h,
{
    assert(0 <= x + y * w < w * h) by (nonlinear_arith)
        requires
            0 <= x < w,
            0 <= y < h,
    ;
}

/// Distinct in-bounds pixels occupy distinct indices.
proof fn lemma_pixel_index_injective(w: int, x: int, y: int, x2: int, y2: int)
    requires
        0 <= x < w,
        0 <= x2 < w,
        x2 + y2 * w == x + y * w,
    ensures
        x2 == x && y2 == y,
{
    assert(x2 == x && y2 == y) by (nonlinear_arith)
        requires
            0 <= x < w,
            0 <= x2 < w,
            x2 + y2 * w == x + y * w,
    ;
}

impl Pixels {
    /// The empty surface that global initializers start from.
    pub fn zero_size() -> (result: Self)
        ensures
            result.wf(),
            result.width_spec() == 0,
            result.height_spec() == 0,
    {
        Pixels { pixels: Vec::new(), width: 0, height: 0 }
    }

    /// A `width` by `height` surface filled with `color`.
    pub fn new(color: Color, width: usize, height: usize) -> (result: Self)
        requires
            width * height <= usize::MAX,
        ensures
            result.wf(),
            result.width_spec() == width,
            result.height_spec() == height,
            forall|x: int, y: int|
                0 <= x < width && 0 <= y < height ==> #[trigger] result.pixel_at(x, y) == color,
    {
        let result = Pixels { pixels: vec![color; width * height], width, height };
        proof {
            assert forall|x: int, y: int| 0 <= x < width && 0 <= y < height implies
                #[trigger] result.pixel_at(x, y) == color by {
                lemma_pixel_index(width as int, height as int, x, y);
            }
        }
        result
    }
}

impl Screen for Pixels {
    open spec fn wf(&self) -> bool {
        &&& self.pixels@.len() == self.width * self.height
        &&& self.width * self.height <= usize::MAX
    }

    open spec fn width_spec(&self) -> int {
        self.width as int
    }

    open spec fn height_spec(&self) -> int {
        self.height as int
    }

    open spec fn pixel_at(&self, x: int, y: int) -> Color {
        self.pixels@[x + y * self.width]
    }

    fn width(&self) -> (result: usize) {
        self.width
    }

    fn height(&self) -> (result: usize) {
        self.height
    }

    fn set_pixel(&mut self, x: usize, y: usize, color: Color) {
        if x < self.width && y < self.height {
            proof {
                lemma_pixel_index(self.width as int, self.height as int, x as int, y as int);
            }
            let index = x + y * self.width;
            self.pixels.set(index, color);
            proof {
                assert forall|px: int, py: int|
                    0 <= px < old(self).width_spec() && 0 <= py < old(self).height_spec() implies
                    #[trigger] self.pixel_at(px, py) == if px == x && py == y {
                    color
                } else {
                    old(self).pixel_at(px, py)
                } by {
                    lemma_pixel_index(self.width as int, self.height as int, px, py);
                    if px + py * self.width == x + y * self.width {
                        lemma_pixel_index_injective(self.width as int, x as int, y as int, px, py);
                    }
                }
            }
        }
    }

    fn get_pixel(&self, x: usize, y: usize) -> (result: Option<Color>) {
        if x < self.width && y < self.height {
            proof {
                lemma_pixel_index(self.width as int, self.height as int, x as int, y as int);
            }
            Some(self.pixels[x + y * self.width])
        } else {
            None
        }
    }
}

/// A screen storing packed framebuffer pixel words, as the hardware's own
/// buffer does; colors convert on the way in and out.
pub struct FramebufferColorPixels {
    pub pixels: Vec<FramebufferColor>,
    pub width: usize,
    pub height: usize,
}

/// The color a packed pixel word stores.
pub open spec fn word_color(word: u32) -> Color {
    Color {
        r: (word % 0x100) as u8,
        g: ((word / 0x100) % 0x100) as u8,
        b: ((word / 0x1_0000) % 0x100) as u8,
    }
}

/// Packing a color into an RGB pixel word and reading it back is the
/// identity.
proof fn lemma_word_color_roundtrip(color: Color, word: u32)
    requires
        word == color.r + color.g * 0x100 + color.b * 0x1_0000,
    ensures
        word_color(word) == color,
{
    vstd::arithmetic::div_mod::lemma_fundamental_div_mod(word as int, 0x100);
    vstd::arithmetic::div_mod::lemma_fundamental_div_mod(word as int, 0x1_0000);
    assert(word % 0x100 == color.r && (word / 0x100) % 0x100 == color.g && (word / 0x1_0000)
        % 0x100 == color.b) by (nonlinear_arith)
        requires
            word == color.r + color.g * 0x100 + color.b * 0x1_0000,
            color.r < 0x100,
            color.g < 0x100,
            color.b < 0x100,
    ;
}

impl FramebufferColorPixels {
    /// The empty surface that global initializers start from.
    pub fn zero_size() -> (result: Self)
        ensures
            result.wf(),
            result.width_spec() == 0,
            result.height_spec() == 0,
    {
        FramebufferColorPixels { pixels: Vec::new(), width: 0, height: 0 }
    }

    /// A `width` by `height` surface filled with the packed word `color`.
    pub fn new(color: FramebufferColor, width: usize, height: usize) -> (result: Self)
        requires
            width * height <= usize::MAX,
        ensures
            result.wf(),
            result.width_spec() == width,
            result.height_spec() == height,
            forall|x: int, y: int|
                0 <= x < width && 0 <= y < height ==> #[trigger] result.pixel_at(x, y)
                    == word_color(color.0),
    {
        let result = FramebufferColorPixels { pixels: vec![color; width * height], width, height };
        proof {
            assert forall|x: int, y: int| 0 <= x < width && 0 <= y < height implies
                #[trigger] result.pixel_at(x, y) == word_color(color.0) by {
                lemma_pixel_index(width as int, height as int, x, y);
            }
        }
        result
    }
}

impl Screen for FramebufferColorPixels {
    open spec fn wf(&self) -> bool {
        &&& self.pixels@.len() == self.width * self.height
        &&& self.width * self.height <= usize::MAX
    }

    open spec fn width_spec(&self) -> int {
        self.width as int
    }

    open spec fn height_spec(&self) -> int {
        self.height as int
    }

    open spec fn pixel_at(&self, x: int, y: int) -> Color {
        word_color(self.pixels@[x + y * self.width].0)
    }

    fn width(&self) -> (result: usize) {
        self.width
    }

    fn height(&self) -> (result: usize) {
        self.height
    }

    fn set_pixel(&mut self, x: usize, y: usize, color: Color) {
        if x < self.width && y < self.height {
            proof {
                lemma_pixel_index(self.width as int, self.height as int, x as int, y as int);
            }
            let index = x + y * self.width;
            let word = FramebufferColor::new(color);
            self.pixels.set(index, word);
            proof {
                lemma_word_color_roundtrip(color, word.0);
                assert forall|px: int, py: int|
                    0 <= px < old(self).width_spec() && 0 <= py < old(self).height_spec() implies
                    #[trigger] self.pixel_at(px, py) == if px == x && py == y {
                    color
                } else {
                    old(self).pixel_at(px, py)
                } by {
                    lemma_pixel_index(self.width as int, self.height as int, px, py);
                    if px + py * self.width == x + y * self.width {
                        lemma_pixel_index_injective(self.width as int, x as int, y as int, px, py);
                    }
                }
            }
        }
    }

    fn get_pixel(&self, x: usize, y: usize) -> (result: Option<Color>) {
        if x < self.width && y < self.height {
            proof {
                lemma_pixel_index(self.width as int, self.height as int, x as int, y as int);
            }
            Some(self.pixels[x + y * self.width].color())
        } else {
            None
        }
    }
}

} // verus!
