//! Bitmap font data.
//!
//! A font arrives as two byte streams: a binary descriptor made of tagged
//! blocks (magic `BMF`, version 3) holding the layout tables, and an
//! uncompressed grayscale image holding the glyph brightness values. The
//! parsers here walk those bytes exactly as the boot image expects them,
//! and the glyph table is sorted by character id so rendering can binary
//! search it.

use vstd::prelude::*;

verus! {

/// A 16-bit little-endian value.
pub open spec fn le16(b0: u8, b1: u8) -> u16 {
    (b0 + b1 * 0x100) as u16
}

/// A 32-bit little-endian value.
pub open spec fn le32(b0: u8, b1: u8, b2: u8, b3: u8) -> u32 {
    (b0 + b1 * 0x100 + b2 * 0x1_0000 + b3 * 0x100_0000) as u32
}

/// Global metrics of a font.
#[derive(Debug, Clone, Copy, PartialEq, Eq, Structural)]
pub struct Common {
    pub line_height: u16,
    pub base: u16,
    pub scale_w: u16,
    pub scale_h: u16,
    pub pages: u16,
    pub packed: bool,
    pub alpha_channel: u8,
    pub red_channel: u8,
    pub green_channel: u8,
    pub blue_channel: u8,
}

/// Placement and metrics of one glyph.
#[derive(Debug, Clone, Copy, PartialEq, Eq, Structural)]
pub struct Char {
    pub id: u32,
    pub x: u16,
    pub y: u16,
    pub width: u16,
    pub height: u16,
    pub xoffset: u16,
    pub yoffset: u16,
    pub xadvance: u16,
    pub page: u8,
    pub chnl: u8,
}

/// One page of glyph brightness values, row by row.
#[derive(Debug, Clone, PartialEq, Eq)]
pub struct Page {
    pub width: u16,
    pub height: u16,
    pub brightnesses: Vec<u8>,
}

/// A parsed font: metrics, the glyph table sorted by id, and the brightness
/// pages the glyphs point into.
pub struct Font {
    pub common: Common,
    pub chars: Vec<Char>,
    pub pages: Vec<Page>,
}

/// The descriptor starts with the magic `BMF` and format version 3.
pub open spec fn font_header_ok(bytes: Seq<u8>) -> bool {
    &&& bytes.len() >= 4
    &&& bytes[0] == 0x42u8
    &&& bytes[1] == 0x4Du8
    &&& bytes[2] == 0x46u8
    &&& bytes[3] == 3u8
}

/// Walks the tagged blocks from `index`: each block is one id byte, a
/// 32-bit length, and that many payload bytes. Yields the payload start and
/// the walk position after it for the first block tagged `id`; `None` when
/// the walk runs out of bytes, would overflow the machine word, or never
/// finds the tag.
pub open spec fn find_block_spec(bytes: Seq<u8>, id: u8, index: int) -> Option<(int, int)>
    decreases bytes.len() - index,
{
    if index < 0 || index + 5 > bytes.len() {
        None
    } else {
        let length = le32(bytes[index + 1], bytes[index + 2], bytes[index + 3], bytes[index + 4]);
        let start = index + 5;
        let end = start + length;
        if end > usize::MAX {
            None
        } else if bytes[index] == id {
            Some((start, end))
        } else if end > bytes.len() {
            None
        } else {
            find_block_spec(bytes, id, end)
        }
    }
}

/// The bytes `find_block` hands out for the block tagged `id`: the suffix
/// from the payload start, truncated at the walk position when it reaches
/// that far — so the handed-out slice can run past the payload's own
/// length, and block consumers measure against it.
pub open spec fn block_of(bytes: Seq<u8>, id: u8) -> Seq<u8> {
    match find_block_spec(bytes, id, 4) {
        Some((start, end)) => if bytes.len() - start >= end {
            bytes.subrange(start, start + end)
        } else {
            bytes.subrange(start, bytes.len() as int)
        },
        None => Seq::empty(),
    }
}

/// Finds the block tagged `id` in a font descriptor.
pub fn find_block(bytes: &[u8], id: u8) -> (block: &[u8])
    requires
        font_header_ok(bytes@),
        find_block_spec(bytes@, id, 4) is Some,
    ensures
        block@ == block_of(bytes@, id),
{
    let n = bytes.len();
    let mut index: usize = 4;
    loop
        invariant
            4 <= index <= n,
            n == bytes@.len(),
            find_block_spec(bytes@, id, 4) == find_block_spec(bytes@, id, index as int),
            find_block_spec(bytes@, id, index as int) is Some,
        decreases n - index,
    {
        proof {
            assert(index + 5 <= n);
        }
        let found_id = bytes[index];
        let b0 = bytes[index + 1];
        let b1 = bytes[index + 2];
        let b2 = bytes[index + 3];
        let b3 = bytes[index + 4];
        let length: usize = b0 as usize + b1 as usize * 0x100 + b2 as usize * 0x1_0000
            + b3 as usize * 0x100_0000;
        let start = index + 5;
        proof {
            assert(start + length <= usize::MAX);
        }
        let end = start + length;
        if found_id == id {
            if n - start >= end {
                return &bytes[start..start + end];
            } else {
                return &bytes[start..n];
            }
        }
        proof {
            assert(end >= index + 5);
            assert(find_block_spec(bytes@, id, end as int) is Some);
        }
        index = end;
    }
}

/// The metrics block, read field by field.
pub open spec fn common_of(block: Seq<u8>) -> Common {
    Common {
        line_height: le16(block[0], block[1]),
        base: le16(block[2], block[3]),
        scale_w: le16(block[4], block[5]),
        scale_h: le16(block[6], block[7]),
        pages: le16(block[8], block[9]),
        packed: block[10] & (1u8 << 7u8) != 0,
        alpha_channel: block[11],
        red_channel: block[12],
        green_channel: block[13],
        blue_channel: block[14],
    }
}

/// Parses the global metrics from the block tagged 2.
pub fn parse_common(bytes: &[u8]) -> (result: Common)
    requires
        font_header_ok(bytes@),
        find_block_spec(bytes@, 2, 4) is Some,
        block_of(bytes@, 2).len() >= 15,
    ensures
        result == common_of(block_of(bytes@, 2)),
{
    let block = find_block(bytes, 2);
    Common {
        line_height: block[0] as u16 + block[1] as u16 * 0x100,
        base: block[2] as u16 + block[3] as u16 * 0x100,
        scale_w: block[4] as u16 + block[5] as u16 * 0x100,
        scale_h: block[6] as u16 + block[7] as u16 * 0x100,
        pages: block[8] as u16 + block[9] as u16 * 0x100,
        packed: block[10] & (1u8 << 7u8) != 0,
        alpha_channel: block[11],
        red_channel: block[12],
        green_channel: block[13],
        blue_channel: block[14],
    }
}

/// Number of glyph records in the block tagged 4, twenty bytes each.
pub fn chars_count(bytes: &[u8]) -> (result: usize)
    requires
        font_header_ok(bytes@),
        find_block_spec(bytes@, 4, 4) is Some,
    ensures
        result == block_of(bytes@, 4).len() / 20,
{
    let block = find_block(bytes, 4);
    block.len() / 20
}

/// Glyph record `i` of the glyph block. The page and channel bytes are read
/// from the block's own first record, not the record at hand — every glyph
/// of a single-page font shares them anyway.
pub open spec fn char_of(block: Seq<u8>, i: int) -> Char {
    let base = i * 20;
    Char {
        id: le32(block[base], block[base + 1], block[base + 2], block[base + 3]),
        x: le16(block[base + 4], block[base + 5]),
        y: le16(block[base + 6], block[base + 7]),
        width: le16(block[base + 8], block[base + 9]),
        height: le16(block[base + 10], block[base + 11]),
        xoffset: le16(block[base + 12], block[base + 13]),
        yoffset: le16(block[base + 14], block[base + 15]),
        xadvance: le16(block[base + 16], block[base + 17]),
        page: block[18],
        chnl: block[19],
    }
}

/// Glyphs ordered by ascending id.
pub open spec fn chars_sorted_by_id(chars: Seq<Char>) -> bool {
    forall|i: int, j: int| 0 <= i < j < chars.len() ==> (#[trigger] chars[i]).id <= (#[trigger] chars[j]).id
}

/// Parses the glyph table from the block tagged 4 and sorts it by id, so
/// rendering can binary search it.
pub fn parse_chars(bytes: &[u8]) -> (result: Vec<Char>)
    requires
        font_header_ok(bytes@),
        find_block_spec(bytes@, 4, 4) is Some,
    ensures
        chars_sorted_by_id(result@),
        result@.to_multiset() == Seq::new(
            (block_of(bytes@, 4).len() / 20) as nat,
            |i: int| char_of(block_of(bytes@, 4), i),
        ).to_multiset(),
        result@.len() == block_of(bytes@, 4).len() / 20,
{
    let block = find_block(bytes, 4);
    let count = block.len() / 20;
    let ghost records = Seq::new(
        (block_of(bytes@, 4).len() / 20) as nat,
        |i: int| char_of(block_of(bytes@, 4), i),
    );
    let mut chars: Vec<Char> = Vec::new();
    let mut i: usize = 0;
    proof {
        assert(records.take(0) =~= Seq::<Char>::empty());
        assert(chars@.to_multiset() =~= records.take(0).to_multiset());
    }
    while i < count
        invariant
            block@ == block_of(bytes@, 4),
            count == block@.len() / 20,
            block@.len() <= usize::MAX,
            records == Seq::new(
                (block_of(bytes@, 4).len() / 20) as nat,
                |i: int| char_of(block_of(bytes@, 4), i),
            ),
            0 <= i <= count,
            chars@.len() == i,
            chars_sorted_by_id(chars@),
            chars@.to_multiset() == records.take(i as int).to_multiset(),
        decreases count - i,
    {
        proof {
            vstd::arithmetic::div_mod::lemma_fundamental_div_mod(block@.len() as int, 20);
        }
        let base = i * 20;
        let rec = Char {
            id: block[base] as u32 + block[base + 1] as u32 * 0x100 + block[base + 2] as u32
                * 0x1_0000 + block[base + 3] as u32 * 0x100_0000,
            x: block[base + 4] as u16 + block[base + 5] as u16 * 0x100,
            y: block[base + 6] as u16 + block[base + 7] as u16 * 0x100,
            width: block[base + 8] as u16 + block[base + 9] as u16 * 0x100,
            height: block[base + 10] as u16 + block[base + 11] as u16 * 0x100,
            xoffset: block[base + 12] as u16 + block[base + 13] as u16 * 0x100,
            yoffset: block[base + 14] as u16 + block[base + 15] as u16 * 0x100,
            xadvance: block[base + 16] as u16 + block[base + 17] as u16 * 0x100,
            page: block[18],
            chnl: block[19],
        };
        proof {
            assert(rec == records[i as int]);
        }
        let mut j: usize = chars.len();
        while j > 0 && chars[j - 1].id > rec.id
            invariant
                0 <= j <= chars@.len(),
                forall|k: int| j <= k < chars@.len() ==> (#[trigger] chars@[k]).id > rec.id,
            decreases j,
        {
            j = j - 1;
        }
        let ghost pre = chars@;
        chars.insert(j, rec);
        proof {
            pre.insert_ensures(j as int, rec);
            vstd::seq_lib::to_multiset_insert(pre, j as int, rec);
            vstd::seq_lib::to_multiset_build(records.take(i as int), rec);
            assert(records.take(i + 1) =~= records.take(i as int).push(records[i as int]));
            assert forall|a: int, b: int| 0 <= a < b < chars@.len() implies (
            #[trigger] chars@[a]).id <= (#[trigger] chars@[b]).id by {
                if a < j && b < j {
                    assert(chars@[a] == pre[a] && chars@[b] == pre[b]);
                } else if a < j && b == j {
                    assert(chars@[a] == pre[a]);
                } else if a < j && b > j {
                    assert(chars@[a] == pre[a] && chars@[b] == pre[b - 1]);
                } else if a == j {
                    assert(chars@[b] == pre[b - 1]);
                } else {
                    assert(chars@[a] == pre[a - 1] && chars@[b] == pre[b - 1]);
                }
            }
        }
        i = i + 1;
    }
    proof {
        assert(records.take(count as int) =~= records);
    }
    chars
}

/// A glyph page image: a bare uncompressed grayscale picture whose header
/// pins the layout (no id field, no color map, image type 3), followed by
/// one brightness byte per pixel.
pub fn parse_page(bytes: &[u8]) -> (result: Page)
    requires
        bytes@.len() >= 17,
        bytes@[0] == 0,
        bytes@[1] == 0,
        bytes@[2] == 3,
        bytes@[5] == 0,
        bytes@[6] == 0,
        17 + le16(bytes@[11], bytes@[12]) * le16(bytes@[13], bytes@[14]) <= bytes@.len(),
    ensures
        result.width == le16(bytes@[11], bytes@[12]),
        result.height == le16(bytes@[13], bytes@[14]),
        result.brightnesses@ == bytes@.subrange(
            17,
            17 + result.width * result.height,
        ),
{
    let width: u16 = bytes[11] as u16 + bytes[12] as u16 * 0x100;
    let height: u16 = bytes[13] as u16 + bytes[14] as u16 * 0x100;
    proof {
        assert(width as int * height as int <= 0xFFFF * 0xFFFF) by (nonlinear_arith)
            requires
                width <= 0xFFFF,
                height <= 0xFFFF,
        ;
    }
    let pixel_count: usize = width as usize * height as usize;
    let n = bytes.len();
    let mut brightnesses: Vec<u8> = Vec::new();
    let mut k: usize = 0;
    while k < pixel_count
        invariant
            n == bytes@.len(),
            17 + pixel_count <= n,
            0 <= k <= pixel_count,
            brightnesses@ == bytes@.subrange(17, 17 + k as int),
        decreases pixel_count - k,
    {
        brightnesses.push(bytes[17 + k]);
        proof {
            assert(brightnesses@ =~= bytes@.subrange(17, 17 + (k + 1)));
        }
        k = k + 1;
    }
    Page { width, height, brightnesses }
}

/// Binary search of a glyph table sorted by id, as rendering performs for
/// every character drawn.
pub fn find_char(chars: &Vec<Char>, id: u32) -> (result: Option<usize>)
    requires
        chars_sorted_by_id(chars@),
    ensures
        match result {
            Some(index) => index < chars@.len() && chars@[index as int].id == id,
            None => forall|i: int| 0 <= i < chars@.len() ==> (#[trigger] chars@[i]).id != id,
        },
{
    let mut low: usize = 0;
    let mut high: usize = chars.len();
    while low < high
        invariant
            0 <= low <= high <= chars@.len(),
            chars_sorted_by_id(chars@),
            forall|i: int| 0 <= i < low ==> (#[trigger] chars@[i]).id < id,
            forall|i: int| high <= i < chars@.len() ==> (#[trigger] chars@[i]).id > id,
        decreases high - low,
    {
        let mid = low + (high - low) / 2;
        if chars[mid].id == id {
            return Some(mid);
        } else if chars[mid].id < id {
            low = mid + 1;
        } else {
            high = mid;
        }
    }
    None
}

} // verus!
