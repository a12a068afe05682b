//! Color arithmetic, pixel packing, screens and text rendering.

use bootmem::font::{Char, Common, Font, Page};
use bootmem::framebuffer::{Color, FrameBufferFormat, Framebuffer, FramebufferColor};
use bootmem::screen::{copy_screen, FramebufferColorPixels, Pixels, Screen};
use bootmem::text_writer::TextWriter;

#[test]
fn color_add_saturates() {
    let a = Color { r: 200, g: 100, b: 0 };
    let b = Color { r: 100, g: 50, b: 7 };
    let c = a.add(b);
    assert_eq!(c, Color { r: 255, g: 150, b: 7 });
}

#[test]
fn color_multiply_exact() {
    let a = Color { r: 255, g: 128, b: 0 };
    let b = Color { r: 255, g: 255, b: 37 };
    let c = a.multiply(b);
    // 255*255/255 = 255, 128*255/255 = 128, 0*37/255 = 0
    assert_eq!(c, Color { r: 255, g: 128, b: 0 });
    let d = Color { r: 100, g: 100, b: 100 }.multiply(Color { r: 128, g: 64, b: 255 });
    // 100*128/255 = 50, 100*64/255 = 25, 100*255/255 = 100
    assert_eq!(d, Color { r: 50, g: 25, b: 100 });
}

#[test]
fn color_scale_and_lerp() {
    let c = Color { r: 200, g: 100, b: 50 }.scale(128);
    // 200*128/255 = 100, 100*128/255 = 50, 50*128/255 = 25
    assert_eq!(c, Color { r: 100, g: 50, b: 25 });
    let black = Color { r: 0, g: 0, b: 0 };
    let white = Color { r: 255, g: 255, b: 255 };
    assert_eq!(black.lerp(white, 0), black);
    assert_eq!(black.lerp(white, 255), white);
    // halfway: 255*127/255 + 255*128/255 = 127 + 128
    assert_eq!(black.lerp(white, 128), Color { r: 128, g: 128, b: 128 });
}

#[test]
fn framebuffer_color_packs_rgb_and_back() {
    let c = Color { r: 0x12, g: 0x34, b: 0x56 };
    let word = FramebufferColor::new(c);
    assert_eq!(word.0, 0x0056_3412);
    assert_eq!(word.color(), c);
}

#[test]
fn framebuffer_packs_by_format() {
    let c = Color { r: 0x12, g: 0x34, b: 0x56 };
    let rgb = Framebuffer {
        format: FrameBufferFormat::Rgb,
        pixels_base: 0xA000_0000,
        pixels_width: 1920,
        pixels_height: 1080,
        pixels_per_scanline: 2048,
    };
    assert_eq!(rgb.color(c).0, 0x0056_3412);
    let bgr = Framebuffer { format: FrameBufferFormat::Bgr, ..rgb };
    assert_eq!(bgr.color(c).0, 0x0012_3456);
    assert_eq!(rgb.base(), 0xA000_0000);
    assert_eq!(rgb.width(), 1920);
    assert_eq!(rgb.height(), 1080);
    assert_eq!(rgb.size(), 1080 * 2048);
}

#[test]
fn pixels_fill_clamps_to_surface() {
    let mut screen = Pixels::new(Color { r: 0, g: 0, b: 0 }, 4, 4);
    let red = Color { r: 255, g: 0, b: 0 };
    screen.fill(2, 2, 10, 10, red);
    assert_eq!(screen.get_pixel(1, 1), Some(Color { r: 0, g: 0, b: 0 }));
    assert_eq!(screen.get_pixel(2, 2), Some(red));
    assert_eq!(screen.get_pixel(3, 3), Some(red));
    assert_eq!(screen.get_pixel(4, 4), None);
}

#[test]
fn pixels_set_and_get() {
    let mut screen = Pixels::new(Color { r: 9, g: 9, b: 9 }, 3, 2);
    let blue = Color { r: 0, g: 0, b: 255 };
    screen.set_pixel(2, 1, blue);
    assert_eq!(screen.get_pixel(2, 1), Some(blue));
    assert_eq!(screen.get_pixel(0, 0), Some(Color { r: 9, g: 9, b: 9 }));
    // out-of-bounds writes are ignored
    screen.set_pixel(5, 5, blue);
    assert_eq!(screen.get_pixel(5, 5), None);
}

#[test]
fn copy_screen_places_source_at_corner() {
    let mut target = Pixels::new(Color { r: 0, g: 0, b: 0 }, 4, 4);
    let green = Color { r: 0, g: 255, b: 0 };
    let source = Pixels::new(green, 2, 2);
    copy_screen(&mut target, &source, 1, 2);
    assert_eq!(target.get_pixel(0, 0), Some(Color { r: 0, g: 0, b: 0 }));
    assert_eq!(target.get_pixel(1, 2), Some(green));
    assert_eq!(target.get_pixel(2, 3), Some(green));
    assert_eq!(target.get_pixel(3, 3), Some(Color { r: 0, g: 0, b: 0 }));
}

#[test]
fn framebuffer_color_pixels_round_trip() {
    let word = FramebufferColor::new(Color { r: 1, g: 2, b: 3 });
    let mut screen = FramebufferColorPixels::new(word, 2, 2);
    assert_eq!(screen.get_pixel(0, 0), Some(Color { r: 1, g: 2, b: 3 }));
    let c = Color { r: 250, g: 150, b: 50 };
    screen.set_pixel(1, 1, c);
    assert_eq!(screen.get_pixel(1, 1), Some(c));
}

/// A one-glyph font: character `A` as a 2 by 2 full-brightness square on a
/// 4 by 4 page.
fn tiny_font() -> Font {
    Font {
        common: Common {
            line_height: 8,
            base: 6,
            scale_w: 4,
            scale_h: 4,
            pages: 1,
            packed: false,
            alpha_channel: 0,
            red_channel: 0,
            green_channel: 0,
            blue_channel: 0,
        },
        chars: vec![Char {
            id: 'A' as u32,
            x: 1,
            y: 1,
            width: 2,
            height: 2,
            xoffset: 0,
            yoffset: 0,
            xadvance: 3,
            page: 0,
            chnl: 0,
        }],
        pages: vec![Page {
            width: 4,
            height: 4,
            brightnesses: vec![
                0, 0, 0, 0,
                0, 255, 255, 0,
                0, 255, 255, 0,
                0, 0, 0, 0,
            ],
        }],
    }
}

#[test]
fn text_writer_draws_glyph_and_advances() {
    let font = tiny_font();
    let black = Color { r: 0, g: 0, b: 0 };
    let white = Color { r: 255, g: 255, b: 255 };
    let mut screen = Pixels::new(black, 8, 8);
    let mut writer = TextWriter { x: 1, y: 1, left_margin: 0, text_color: white, background: black };
    writer.write_char(&font, &mut screen, 'A');
    // the 2x2 glyph square lands at the cursor, fully bright
    assert_eq!(screen.get_pixel(1, 1), Some(white));
    assert_eq!(screen.get_pixel(2, 2), Some(white));
    assert_eq!(screen.get_pixel(3, 3), Some(black));
    assert_eq!(screen.get_pixel(0, 0), Some(black));
    // the cursor advanced by the glyph's advance width
    assert_eq!(writer.x, 4);
    assert_eq!(writer.y, 1);
}

#[test]
fn text_writer_unknown_char_draws_nothing() {
    let font = tiny_font();
    let black = Color { r: 0, g: 0, b: 0 };
    let white = Color { r: 255, g: 255, b: 255 };
    let mut screen = Pixels::new(black, 8, 8);
    let mut writer = TextWriter { x: 1, y: 1, left_margin: 0, text_color: white, background: black };
    writer.write_char(&font, &mut screen, 'Z');
    assert_eq!(screen.get_pixel(1, 1), Some(black));
    assert_eq!(writer.x, 1);
}

#[test]
fn text_writer_newline_returns_to_margin() {
    let font = tiny_font();
    let black = Color { r: 0, g: 0, b: 0 };
    let white = Color { r: 255, g: 255, b: 255 };
    let mut screen = Pixels::new(black, 8, 8);
    let mut writer = TextWriter { x: 5, y: 2, left_margin: 1, text_color: white, background: black };
    writer.write_char(&font, &mut screen, '\n');
    assert_eq!(writer.x, 1);
    assert_eq!(writer.y, 2 + 8);
}
