//! Text rendering into a screen.
//!
//! A `TextWriter` carries a cursor and the two colors of the text; drawing a
//! character looks its glyph up in the font's sorted table, blends each
//! glyph pixel between the background and the text color by its brightness,
//! writes the blend into the screen, and advances the cursor. A newline
//! returns the cursor to the left margin one line further down.

use crate::font::{chars_sorted_by_id, find_char, Char, Font, Page};
use crate::framebuffer::{lerp_spec, Color};
use crate::screen::{lemma_pixel_index, Screen};
use vstd::prelude::*;

verus! {

/// Internal consistency of a font: the glyph table is sorted for lookup,
/// every glyph points at an existing page and lies inside it, and every
/// page holds one brightness byte per pixel.
pub open spec fn font_wf(font: &Font) -> bool {
    &&& chars_sorted_by_id(font.chars@)
    &&& forall|i: int, j: int|
        0 <= i < j < font.chars@.len() ==> (#[trigger] font.chars@[i]).id != (
        #[trigger] font.chars@[j]).id
    &&& forall|i: int|
        0 <= i < font.chars@.len() ==> {
            let ch = #[trigger] font.chars@[i];
            &&& (ch.page as int) < font.pages@.len()
            &&& ch.x + ch.width <= font.pages@[ch.page as int].width
            &&& ch.y + ch.height <= font.pages@[ch.page as int].height
        }
    &&& forall|p: int|
        0 <= p < font.pages@.len() ==> {
            let pg = #[trigger] font.pages@[p];
            pg.brightnesses@.len() == pg.width * pg.height
        }
}

/// Whether `(px, py)` falls inside the box that glyph `ch` drawn at cursor
/// `(base_x, base_y)` covers.
pub open spec fn glyph_box(ch: Char, base_x: int, base_y: int, px: int, py: int) -> bool {
    &&& base_x + ch.xoffset <= px < base_x + ch.xoffset + ch.width
    &&& base_y + ch.yoffset <= py < base_y + ch.yoffset + ch.height
}

/// The color that glyph pixel `(px, py)` of glyph `ch` takes: the glyph's
/// brightness at that position blends the background towards the text
/// color.
pub open spec fn glyph_color(
    font: &Font,
    ch: Char,
    background: Color,
    text_color: Color,
    base_x: int,
    base_y: int,
    px: int,
    py: int,
) -> Color {
    let pg = font.pages@[ch.page as int];
    let xoff = px - (base_x + ch.xoffset);
    let yoff = py - (base_y + ch.yoffset);
    let brightness = pg.brightnesses@[(ch.x + xoff) + (ch.y + yoff) * pg.width];
    lerp_spec(background, text_color, brightness)
}

/// A text cursor with its colors and left margin.
pub struct TextWriter {
    pub x: usize,
    pub y: usize,
    pub left_margin: usize,
    pub text_color: Color,
    pub background: Color,
}

impl TextWriter {
    /// Draws one character at the cursor and advances it. A character
    /// without a glyph draws nothing; a newline additionally returns the
    /// cursor to the left margin one line down.
    pub fn write_char<S: Screen>(&mut self, font: &Font, screen: &mut S, c: char)
        requires
            old(screen).wf(),
            font_wf(font),
            old(self).x + 0x2_0000 <= usize::MAX,
            old(self).y + 0x2_0000 <= usize::MAX,
        ensures
            final(screen).wf(),
            final(screen).width_spec() == old(screen).width_spec(),
            final(screen).height_spec() == old(screen).height_spec(),
            final(self).left_margin == old(self).left_margin,
            final(self).text_color == old(self).text_color,
            final(self).background == old(self).background,
            match glyph_index(font, c) {
                Some(ci) => {
                    let ch = font.chars@[ci];
                    &&& forall|px: int, py: int|
                        0 <= px < old(screen).width_spec() && 0 <= py < old(screen).height_spec()
                            ==> #[trigger] final(screen).pixel_at(px, py) == if glyph_box(
                            ch,
                            old(self).x as int,
                            old(self).y as int,
                            px,
                            py,
                        ) {
                            glyph_color(
                                font,
                                ch,
                                old(self).background,
                                old(self).text_color,
                                old(self).x as int,
                                old(self).y as int,
                                px,
                                py,
                            )
                        } else {
                            old(screen).pixel_at(px, py)
                        }
                    &&& final(self).x == if c == '\n' {
                        old(self).left_margin as int
                    } else {
                        old(self).x + ch.xadvance
                    }
                    &&& final(self).y == if c == '\n' {
                        old(self).y + font.common.line_height
                    } else {
                        old(self).y as int
                    }
                },
                None => {
                    &&& forall|px: int, py: int|
                        0 <= px < old(screen).width_spec() && 0 <= py < old(screen).height_spec()
                            ==> #[trigger] final(screen).pixel_at(px, py) == old(screen).pixel_at(
                            px,
                            py,
                        )
                    &&& final(self).x == if c == '\n' {
                        old(self).left_margin as int
                    } else {
                        old(self).x as int
                    }
                    &&& final(self).y == if c == '\n' {
                        old(self).y + font.common.line_height
                    } else {
                        old(self).y as int
                    }
                },
            },
    {
        let code = c as u32;
        let found = find_char(&font.chars, code);
        proof {
            lemma_glyph_index(font, c, found);
        }
        match found {
            Some(char_index) => {
                let ch = font.chars[char_index];
                let page: &Page = &font.pages[ch.page as usize];
                let base_x = self.x;
                let base_y = self.y;
                let mut yoffset: usize = 0;
                while yoffset < ch.height as usize
                    invariant
                        screen.wf(),
                        screen.width_spec() == old(screen).width_spec(),
                        screen.height_spec() == old(screen).height_spec(),
                        font_wf(font),
                        glyph_index(font, c) == Some(char_index as int),
                        ch == font.chars@[char_index as int],
                        page.width == font.pages@[ch.page as int].width,
                        page.height == font.pages@[ch.page as int].height,
                        page.brightnesses@ == font.pages@[ch.page as int].brightnesses@,
                        base_x + 0x2_0000 <= usize::MAX,
                        base_y + 0x2_0000 <= usize::MAX,
                        0 <= yoffset <= ch.height,
                        forall|px: int, py: int|
                            0 <= px < old(screen).width_spec() && 0 <= py < old(
                                screen,
                            ).height_spec() ==> #[trigger] screen.pixel_at(px, py) == if glyph_box(
                                ch,
                                base_x as int,
                                base_y as int,
                                px,
                                py,
                            ) && py < base_y + ch.yoffset + yoffset {
                                glyph_color(
                                    font,
                                    ch,
                                    old(self).background,
                                    old(self).text_color,
                                    base_x as int,
                                    base_y as int,
                                    px,
                                    py,
                                )
                            } else {
                                old(screen).pixel_at(px, py)
                            },
                    decreases ch.height - yoffset,
                {
                    let mut xoffset: usize = 0;
                    while xoffset < ch.width as usize
                        invariant
                            screen.wf(),
                            screen.width_spec() == old(screen).width_spec(),
                            screen.height_spec() == old(screen).height_spec(),
                            font_wf(font),
                            glyph_index(font, c) == Some(char_index as int),
                            ch == font.chars@[char_index as int],
                            page.width == font.pages@[ch.page as int].width,
                            page.height == font.pages@[ch.page as int].height,
                            page.brightnesses@ == font.pages@[ch.page as int].brightnesses@,
                            base_x + 0x2_0000 <= usize::MAX,
                            base_y + 0x2_0000 <= usize::MAX,
                            0 <= yoffset < ch.height,
                            0 <= xoffset <= ch.width,
                            forall|px: int, py: int|
                                0 <= px < old(screen).width_spec() && 0 <= py < old(
                                    screen,
                                ).height_spec() ==> #[trigger] screen.pixel_at(px, py)
                                    == if glyph_box(ch, base_x as int, base_y as int, px, py) && (
                                py < base_y + ch.yoffset + yoffset || (py == base_y + ch.yoffset
                                    + yoffset && px < base_x + ch.xoffset + xoffset)) {
                                    glyph_color(
                                        font,
                                        ch,
                                        old(self).background,
                                        old(self).text_color,
                                        base_x as int,
                                        base_y as int,
                                        px,
                                        py,
                                    )
                                } else {
                                    old(screen).pixel_at(px, py)
                                },
                        decreases ch.width - xoffset,
                    {
                        proof {
                            assert(font.pages@[ch.page as int].brightnesses@.len()
                                == font.pages@[ch.page as int].width * font.pages@[ch.page
                                as int].height);
                            lemma_pixel_index(
                                page.width as int,
                                page.height as int,
                                ch.x + xoffset,
                                ch.y + yoffset,
                            );
                            assert((ch.y + yoffset) * page.width <= 0xFFFF * 0xFFFF)
                                by (nonlinear_arith)
                                requires
                                    0 <= ch.y + yoffset <= 0xFFFF,
                                    page.width <= 0xFFFF,
                            ;
                        }
                        let brightness = page.brightnesses[(ch.x as usize + xoffset) + (ch.y
                            as usize + yoffset) * page.width as usize];
                        let color = self.background.lerp(self.text_color, brightness);
                        screen.set_pixel(
                            base_x + xoffset + ch.xoffset as usize,
                            base_y + yoffset + ch.yoffset as usize,
                            color,
                        );
                        xoffset = xoffset + 1;
                    }
                    yoffset = yoffset + 1;
                }
                self.x = self.x + ch.xadvance as usize;
            },
            None => {},
        }
        if c == '\n' {
            self.x = self.left_margin;
            self.y = self.y + font.common.line_height as usize;
        }
    }
}

/// The glyph the font's table yields for character `c`: some index whose id
/// matches, or none when the font lacks the character. When ids repeat, any
/// matching index describes the same drawing because lookups agree on the
/// id; the first one found is used.
pub open spec fn glyph_index(font: &Font, c: char) -> Option<int> {
    if exists|i: int| 0 <= i < font.chars@.len() && (#[trigger] font.chars@[i]).id == c as u32 {
        Some(choose|i: int| 0 <= i < font.chars@.len() && (#[trigger] font.chars@[i]).id == c as u32)
    } else {
        None
    }
}

/// Connects the executable binary search with `glyph_index`: under a
/// well-formed font the ids are unique, so the found index is the glyph.
proof fn lemma_glyph_index(font: &Font, c: char, found: Option<usize>)
    requires
        font_wf(font),
        match found {
            Some(index) => index < font.chars@.len() && font.chars@[index as int].id == c as u32,
            None => forall|i: int|
                0 <= i < font.chars@.len() ==> (#[trigger] font.chars@[i]).id != c as u32,
        },
    ensures
        match found {
            Some(index) => glyph_index(font, c) == Some(index as int),
            None => glyph_index(font, c) is None,
        },
{
    match found {
        Some(index) => {
            let i = choose|i: int|
                0 <= i < font.chars@.len() && (#[trigger] font.chars@[i]).id == c as u32;
            assert(i == index as int);
        },
        None => {},
    }
}

} // verus!
