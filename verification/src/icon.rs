//! ICO icon decoding (pure byte logic).
//!
//! Supported entries: 32 bpp uncompressed DIBs (BITMAPINFOHEADER followed by
//! bottom-up BGRA rows). PNG-encoded entries are skipped.
use vstd::prelude::*;

verus! {

/// A decoded icon bitmap: RGBA8, rows top-down, `rgba.len() == width * height * 4`.
#[derive(Debug, Clone, PartialEq)]
pub struct IconImage {
    pub width: u32,
    pub height: u32,
    pub rgba: Vec<u8>,
}

pub const ICONDIR_SIZE: usize = 6;

pub const ICONDIRENTRY_SIZE: usize = 16;

/// Little-endian 16-bit value at `off`.
pub open spec fn le_u16(d: Seq<u8>, off: int) -> int {
    d[off] as int + d[off + 1] as int * 256
}

/// Little-endian 32-bit value at `off`.
pub open spec fn le_u32(d: Seq<u8>, off: int) -> int {
    d[off] as int + d[off + 1] as int * 256 + d[off + 2] as int * 65536 + d[off + 3] as int
        * 16777216
}

pub fn read_u16(d: &[u8], off: usize) -> (r: Option<u16>)
    ensures
        r matches Some(v) ==> off + 2 <= d@.len() && v as int == le_u16(d@, off as int),
        r is None ==> off + 2 > d@.len(),
{
    if off > d.len() || d.len() - off < 2 {
        return None;
    }
    Some((d[off] as u16) + (d[off + 1] as u16) * 256)
}

pub fn read_u32(d: &[u8], off: usize) -> (r: Option<u32>)
    ensures
        r matches Some(v) ==> off + 4 <= d@.len() && v as int == le_u32(d@, off as int),
        r is None ==> off + 4 > d@.len(),
{
    if off > d.len() || d.len() - off < 4 {
        return None;
    }
    Some((d[off] as u32) + (d[off + 1] as u32) * 256 + (d[off + 2] as u32) * 65536 + (d[off
        + 3] as u32) * 16777216)
}

/// Little-endian two's complement 32-bit value at `off`.
pub fn read_i32(d: &[u8], off: usize) -> (r: Option<i32>)
    ensures
        r matches Some(v) ==> off + 4 <= d@.len() && (v as int == if le_u32(d@, off as int)
            < 0x8000_0000 {
            le_u32(d@, off as int)
        } else {
            le_u32(d@, off as int) - 0x1_0000_0000
        }),
        r is None ==> off + 4 > d@.len(),
{
    match read_u32(d, off) {
        Some(v) => {
            let r: i32 = if v < 0x8000_0000 {
                v as i32
            } else {
                (v - 0x8000_0000) as i32 - 0x7FFF_FFFF - 1
            };
            Some(r)
        },
        None => None,
    }
}

/// Source index of pixel `(x, y)` (top-down) in a bottom-up DIB.
pub open spec fn src_index(hs: int, stride: int, h: int, y: int, x: int) -> int {
    hs + (h - 1 - y) * stride + x * 4
}

/// Destination index of pixel `(x, y)` in the top-down RGBA buffer.
pub open spec fn dst_index(stride: int, y: int, x: int) -> int {
    y * stride + x * 4
}

/// `rgba` is the top-down RGBA rendering of the bottom-up BGRA rows of `blob`.
pub open spec fn is_rgba_of(rgba: Seq<u8>, blob: Seq<u8>, hs: int, w: int, h: int) -> bool {
    let stride = w * 4;
    &&& rgba.len() == stride * h
    &&& forall|y: int, x: int|
        0 <= y < h && 0 <= x < w ==> {
            let s = #[trigger] src_index(hs, stride, h, y, x);
            let d = dst_index(stride, y, x);
            &&& rgba[d] == blob[s + 2]
            &&& rgba[d + 1] == blob[s + 1]
            &&& rgba[d + 2] == blob[s]
            &&& rgba[d + 3] == blob[s + 3]
        }
}

/// A 32 bpp uncompressed DIB entry of the expected square size decodes.
pub open spec fn dib_ok(blob: Seq<u8>, expected: int) -> bool {
    &&& blob.len() >= 40
    &&& le_u32(blob, 0) >= 40
    &&& blob.len() >= le_u32(blob, 0)
    &&& le_u16(blob, 14) == 32
    &&& le_u32(blob, 16) == 0
    &&& 0 < le_u32(blob, 4) < 0x8000_0000
    &&& 0 < le_u32(blob, 8) < 0x8000_0000
    &&& le_u32(blob, 8) / 2 != 0
    &&& le_u32(blob, 4) == expected
    &&& le_u32(blob, 8) / 2 == expected
    &&& blob.len() >= le_u32(blob, 0) + expected * 4 * expected
}

/// The image decoded from a DIB entry, when [`dib_ok`] holds.
pub open spec fn dib_image_ok(img: IconImage, blob: Seq<u8>, expected: int) -> bool {
    &&& img.width == expected
    &&& img.height == expected
    &&& is_rgba_of(img.rgba@, blob, le_u32(blob, 0), expected, expected)
}

proof fn lemma_pixel_bounds(hs: int, w: int, h: int, y: int, x: int)
    requires
        0 <= y < h,
        0 <= x < w,
        0 <= hs,
    ensures
        hs <= src_index(hs, w * 4, h, y, x),
        src_index(hs, w * 4, h, y, x) + 3 < hs + w * 4 * h,
        0 <= dst_index(w * 4, y, x),
        dst_index(w * 4, y, x) + 3 < w * 4 * h,
        dst_index(w * 4, y, x) + 4 == y * (w * 4) + (x + 1) * 4,
{
    assert(0 <= (h - 1 - y) * (w * 4)) by (nonlinear_arith)
        requires
            0 <= y < h,
            0 <= x < w,
    ;
    assert((h - 1 - y) * (w * 4) + x * 4 + 3 < w * 4 * h) by (nonlinear_arith)
        requires
            0 <= y < h,
            0 <= x < w,
    ;
    assert(0 <= y * (w * 4)) by (nonlinear_arith)
        requires
            0 <= y < h,
            0 <= x < w,
    ;
    assert(y * (w * 4) + x * 4 + 3 < w * 4 * h) by (nonlinear_arith)
        requires
            0 <= y < h,
            0 <= x < w,
    ;
}

/// Decodes one 32 bpp uncompressed DIB entry (starting at its BITMAPINFOHEADER).
///
/// Returns `None` for anything else (PNG entries, other bit depths, compressed
/// data, a size other than `expected_size`, truncated pixel data).
pub fn parse_dib_entry(blob: &[u8], expected_size: u32) -> (r: Option<IconImage>)
    requires
        expected_size <= 256,
    ensures
        r is Some <==> dib_ok(blob@, expected_size as int),
        r matches Some(img) ==> dib_image_ok(img, blob@, expected_size as int),
{
    let header_size = match read_u32(blob, 0) {
        Some(v) => v as usize,
        None => return None,
    };
    if header_size < 40 || blob.len() < header_size {
        return None;
    }
    let width = match read_i32(blob, 4) {
        Some(v) => v,
        None => return None,
    };
    let height2 = match read_i32(blob, 8) {
        Some(v) => v,
        None => return None,
    };
    let bit_count = match read_u16(blob, 14) {
        Some(v) => v,
        None => return None,
    };
    let compression = match read_u32(blob, 16) {
        Some(v) => v,
        None => return None,
    };
    if bit_count != 32 || compression != 0 || width <= 0 || height2 <= 0 {
        return None;
    }
    let w = width as u32;
    let h = (height2 as u32) / 2;
    if h == 0 || w != expected_size || h != expected_size {
        return None;
    }
    let stride = (w * 4) as usize;
    let hu = h as usize;
    let wu = w as usize;
    assert(stride * hu <= 1024 * 256) by (nonlinear_arith)
        requires
            stride <= 1024,
            hu <= 256,
    ;
    if blob.len() - header_size < stride * hu {
        return None;
    }
    let ghost hs = header_size as int;
    let mut rgba: Vec<u8> = Vec::new();
    let mut y: usize = 0;
    while y < hu
        invariant
            hu == wu,
            wu <= 256,
            stride == wu * 4,
            hs == header_size,
            header_size + stride * hu <= blob.len(),
            y <= hu,
            rgba@.len() == y * stride,
            forall|yy: int, xx: int|
                0 <= yy < y && 0 <= xx < wu ==> {
                    let s = #[trigger] src_index(hs, stride as int, hu as int, yy, xx);
                    let d = dst_index(stride as int, yy, xx);
                    &&& rgba@[d] == blob@[s + 2]
                    &&& rgba@[d + 1] == blob@[s + 1]
                    &&& rgba@[d + 2] == blob@[s]
                    &&& rgba@[d + 3] == blob@[s + 3]
                },
        decreases hu - y,
    {
        proof {
            assert((hu - 1 - y) * stride <= stride * hu) by (nonlinear_arith)
                requires
                    y < hu,
            ;
        }
        let src = header_size + (hu - 1 - y) * stride;
        let mut x: usize = 0;
        while x < wu
            invariant
                hu == wu,
                wu <= 256,
                stride == wu * 4,
                hs == header_size,
                header_size + stride * hu <= blob.len(),
                y < hu,
                x <= wu,
                src == hs + (hu - 1 - y) * stride,
                rgba@.len() == y * stride + x * 4,
                forall|yy: int, xx: int|
                    (0 <= yy < y && 0 <= xx < wu) || (yy == y && 0 <= xx < x) ==> {
                        let s = #[trigger] src_index(hs, stride as int, hu as int, yy, xx);
                        let d = dst_index(stride as int, yy, xx);
                        &&& rgba@[d] == blob@[s + 2]
                        &&& rgba@[d + 1] == blob@[s + 1]
                        &&& rgba@[d + 2] == blob@[s]
                        &&& rgba@[d + 3] == blob@[s + 3]
                    },
            decreases wu - x,
        {
            proof {
                lemma_pixel_bounds(hs, wu as int, hu as int, y as int, x as int);
            }
            let s = src + x * 4;
            let ghost before = rgba@;
            rgba.push(blob[s + 2]);
            rgba.push(blob[s + 1]);
            rgba.push(blob[s]);
            rgba.push(blob[s + 3]);
            proof {
                assert forall|yy: int, xx: int|
                    (0 <= yy < y && 0 <= xx < wu) || (yy == y && 0 <= xx < x + 1) implies {
                        let s = #[trigger] src_index(hs, stride as int, hu as int, yy, xx);
                        let d = dst_index(stride as int, yy, xx);
                        &&& rgba@[d] == blob@[s + 2]
                        &&& rgba@[d + 1] == blob@[s + 1]
                        &&& rgba@[d + 2] == blob@[s]
                        &&& rgba@[d + 3] == blob@[s + 3]
                    } by {
                    lemma_pixel_bounds(hs, wu as int, hu as int, yy, xx);
                    if yy < y {
                        assert(dst_index(stride as int, yy, xx) + 3 < y * stride) by (
                        nonlinear_arith)
                            requires
                                0 <= yy < y,
                                0 <= xx < wu,
                                stride == wu * 4,
                        ;
                    }
                }
            }
            x = x + 1;
        }
        proof {
            assert(y * stride + wu * 4 == (y + 1) * stride) by (nonlinear_arith)
                requires
                    stride == wu * 4,
            ;
        }
        y = y + 1;
    }
    proof {
        assert(hu * stride == stride * hu) by (nonlinear_arith);
    }
    Some(IconImage { width: w, height: h, rgba })
}

/// Ranking of an entry of size `size` for a request of `preferred`:
/// exact match first, then the smallest larger entry, then the largest smaller one.
pub open spec fn rank(size: int, preferred: int) -> (int, int) {
    if size == preferred {
        (0, 0)
    } else if size > preferred {
        (1, size)
    } else {
        (2, 0xFFFF_FFFF - size)
    }
}

pub open spec fn rank_le(a: (int, int), b: (int, int)) -> bool {
    a.0 < b.0 || (a.0 == b.0 && a.1 <= b.1)
}

/// Size byte of a directory entry (`0` stands for 256).
pub open spec fn entry_size(b: u8) -> int {
    if b == 0 {
        256
    } else {
        b as int
    }
}

pub open spec fn entry_base(i: int) -> int {
    6 + i * 16
}

/// Width of entry `i`.
pub open spec fn entry_w(data: Seq<u8>, i: int) -> int {
    entry_size(data[entry_base(i)])
}

/// Height of entry `i`.
pub open spec fn entry_h(data: Seq<u8>, i: int) -> int {
    entry_size(data[entry_base(i) + 1])
}

pub open spec fn entry_bytes(data: Seq<u8>, i: int) -> int {
    le_u32(data, entry_base(i) + 8)
}

pub open spec fn entry_offset(data: Seq<u8>, i: int) -> int {
    le_u32(data, entry_base(i) + 12)
}

/// Entry `i` is square and its image data lies inside `data`.
pub open spec fn entry_in_range(data: Seq<u8>, i: int) -> bool {
    entry_w(data, i) == entry_h(data, i) && entry_offset(data, i) + entry_bytes(data, i)
        <= data.len()
}

pub open spec fn entry_blob(data: Seq<u8>, i: int) -> Seq<u8> {
    data.subrange(entry_offset(data, i), entry_offset(data, i) + entry_bytes(data, i))
}

/// Entry `i` is a candidate that decodes.
pub open spec fn entry_decodes(data: Seq<u8>, i: int) -> bool {
    entry_in_range(data, i) && dib_ok(entry_blob(data, i), entry_w(data, i))
}

/// Best decodable entry among `i..count` (ties go to the earlier entry), if any.
pub open spec fn best_from(data: Seq<u8>, preferred: int, i: int, count: int) -> Option<int>
    decreases count - i,
{
    if i >= count {
        None
    } else {
        let rest = best_from(data, preferred, i + 1, count);
        if !entry_decodes(data, i) {
            rest
        } else {
            match rest {
                None => Some(i),
                Some(j) => if rank_le(
                    rank(entry_w(data, i), preferred),
                    rank(entry_w(data, j), preferred),
                ) {
                    Some(i)
                } else {
                    Some(j)
                },
            }
        }
    }
}

/// The entry chosen among `lo..count` decodes, and no decodable entry there
/// ranks before it.
proof fn lemma_best_from_ranks_first(data: Seq<u8>, preferred: int, lo: int, count: int)
    requires
        0 <= lo,
    ensures
        match best_from(data, preferred, lo, count) {
            None => forall|j: int| lo <= j < count ==> !#[trigger] entry_decodes(data, j),
            Some(b) => lo <= b < count && entry_decodes(data, b) && forall|j: int|
                lo <= j < count && #[trigger] entry_decodes(data, j) ==> rank_le(
                    rank(entry_w(data, b), preferred),
                    rank(entry_w(data, j), preferred),
                ),
        },
    decreases count - lo,
{
    if lo < count {
        lemma_best_from_ranks_first(data, preferred, lo + 1, count);
    }
}

/// The icon picks the entry closest to the requested size, among the entries
/// that decode: one of exactly that size when there is one; otherwise the
/// smallest of those larger, when there is one; otherwise the largest. There
/// is no pick only when no entry decodes.
pub proof fn lemma_icon_picks_closest_size(data: Seq<u8>, preferred: int, count: int)
    ensures
        best_from(data, preferred, 0, count) is None <==> forall|j: int| 0 <= j < count ==> !#[trigger] entry_decodes(data, j),
        best_from(data, preferred, 0, count) matches Some(b) ==> {
            &&& 0 <= b < count
            &&& entry_decodes(data, b)
            &&& (exists|j: int| 0 <= j < count && #[trigger] entry_decodes(data, j) && entry_w(data, j) == preferred)
                ==> entry_w(data, b) == preferred
            &&& (!(exists|j: int| 0 <= j < count && #[trigger] entry_decodes(data, j) && entry_w(data, j) == preferred)
                && (exists|j: int| 0 <= j < count && #[trigger] entry_decodes(data, j) && entry_w(data, j) > preferred))
                ==> entry_w(data, b) > preferred && forall|j: int|
                0 <= j < count && #[trigger] entry_decodes(data, j) && entry_w(data, j) > preferred ==> entry_w(data, b)
                <= entry_w(data, j)
            &&& (forall|j: int| 0 <= j < count && #[trigger] entry_decodes(data, j) ==> entry_w(data, j) < preferred)
                ==> forall|j: int| 0 <= j < count && #[trigger] entry_decodes(data, j) ==> entry_w(data, j)
                <= entry_w(data, b)
        },
{
    lemma_best_from_ranks_first(data, preferred, 0, count);
    if best_from(data, preferred, 0, count) is None {
        return;
    }
    let b = best_from(data, preferred, 0, count)->0;
    if exists|j: int| 0 <= j < count && #[trigger] entry_decodes(data, j) && entry_w(data, j) == preferred {
        let j = choose|j: int| 0 <= j < count && #[trigger] entry_decodes(data, j) && entry_w(data, j) == preferred;
        assert(rank_le(rank(entry_w(data, b), preferred), rank(entry_w(data, j), preferred)));
    }
    if !(exists|j: int| 0 <= j < count && #[trigger] entry_decodes(data, j) && entry_w(data, j) == preferred)
        && (exists|j: int| 0 <= j < count && #[trigger] entry_decodes(data, j) && entry_w(data, j) > preferred) {
        let j = choose|j: int| 0 <= j < count && #[trigger] entry_decodes(data, j) && entry_w(data, j) > preferred;
        assert(rank_le(rank(entry_w(data, b), preferred), rank(entry_w(data, j), preferred)));
        assert(entry_w(data, b) != preferred);
    }
}

/// Number of directory entries, when the directory is present and complete.
pub open spec fn dir_count(data: Seq<u8>) -> int {
    le_u16(data, 4)
}

pub open spec fn dir_ok(data: Seq<u8>) -> bool {
    data.len() >= 6 && dir_count(data) != 0 && data.len() >= 6 + dir_count(data) * 16
}

/// Some square entry's `offset + bytes` overflows the address space.
pub open spec fn offset_overflows(data: Seq<u8>) -> bool {
    exists|i: int|
        0 <= i < dir_count(data) && entry_w(data, i) == entry_h(data, i) && entry_offset(data, i)
            + entry_bytes(data, i) > usize::MAX
}

/// Decodes an ICO file, choosing the entry closest to `preferred` pixels.
///
/// Entries are tried in this order: exactly `preferred`, then the smallest
/// larger one, then the largest smaller one (equal sizes keep file order);
/// the first that decodes is returned.
pub fn parse_ico(data: &[u8], preferred: u32) -> (r: Option<IconImage>)
    ensures
        !dir_ok(data@) ==> r is None,
        dir_ok(data@) && offset_overflows(data@) ==> r is None,
        dir_ok(data@) && !offset_overflows(data@) ==> match best_from(
            data@,
            preferred as int,
            0,
            dir_count(data@),
        ) {
            None => r is None,
            Some(i) => r matches Some(img) && dib_image_ok(
                img,
                entry_blob(data@, i),
                entry_w(data@, i),
            ),
        },
{
    let count = match read_u16(data, 4) {
        Some(v) => v as usize,
        None => return None,
    };
    if count == 0 || data.len() < ICONDIR_SIZE + count * ICONDIRENTRY_SIZE {
        return None;
    }
    // First pass: the overflow check that aborts the whole decode.
    let mut i: usize = 0;
    while i < count
        invariant
            count == dir_count(data@),
            dir_ok(data@),
            i <= count,
            forall|k: int|
                0 <= k < i && entry_w(data@, k) == entry_h(data@, k) ==> entry_offset(data@, k)
                    + entry_bytes(data@, k) <= usize::MAX,
        decreases count - i,
    {
        let base = ICONDIR_SIZE + i * ICONDIRENTRY_SIZE;
        let w: u32 = if data[base] == 0 {
            256
        } else {
            data[base] as u32
        };
        let h: u32 = if data[base + 1] == 0 {
            256
        } else {
            data[base + 1] as u32
        };
        let bytes = read_u32(data, base + 8).unwrap() as usize;
        let offset = read_u32(data, base + 12).unwrap() as usize;
        assert(entry_w(data@, i as int) == w as int);
        assert(entry_h(data@, i as int) == h as int);
        assert(entry_bytes(data@, i as int) == bytes as int);
        assert(entry_offset(data@, i as int) == offset as int);
        if w == h && offset.checked_add(bytes).is_none() {
            assert(offset_overflows(data@));
            return None;
        }
        i = i + 1;
    }
    // Second pass: the best decodable entry, scanning from the last one down.
    let mut best: Option<(usize, IconImage)> = None;
    let mut k: usize = count;
    while k > 0
        invariant
            count == dir_count(data@),
            dir_ok(data@),
            !offset_overflows(data@),
            k <= count,
            best matches Some((j, _)) ==> k <= j < count,
            match best {
                None => best_from(data@, preferred as int, k as int, count as int) is None,
                Some((j, img)) => best_from(data@, preferred as int, k as int, count as int)
                    == Some(j as int) && dib_image_ok(
                    img,
                    entry_blob(data@, j as int),
                    entry_w(data@, j as int),
                ),
            },
        decreases k,
    {
        let idx = k - 1;
        let base = ICONDIR_SIZE + idx * ICONDIRENTRY_SIZE;
        let w: u32 = if data[base] == 0 {
            256
        } else {
            data[base] as u32
        };
        let h: u32 = if data[base + 1] == 0 {
            256
        } else {
            data[base + 1] as u32
        };
        let bytes = read_u32(data, base + 8).unwrap() as usize;
        let offset = read_u32(data, base + 12).unwrap() as usize;
        assert(entry_w(data@, idx as int) == w as int);
        assert(entry_h(data@, idx as int) == h as int);
        assert(entry_bytes(data@, idx as int) == bytes as int);
        assert(entry_offset(data@, idx as int) == offset as int);
        if w == h && offset <= data.len() && bytes <= data.len() - offset {
            let blob = &data[offset..offset + bytes];
            assert(blob@ == entry_blob(data@, idx as int));
            match parse_dib_entry(blob, w) {
                Some(img) => {
                    let take = match &best {
                        None => true,
                        Some((j, bimg)) => {
                            let jb = ICONDIR_SIZE + *j * ICONDIRENTRY_SIZE;
                            let jw: u32 = if data[jb] == 0 {
                                256
                            } else {
                                data[jb] as u32
                            };
                            rank_le_exec(w, jw, preferred)
                        },
                    };
                    if take {
                        best = Some((idx, img));
                    }
                },
                None => {},
            }
        }
        k = idx;
    }
    match best {
        Some((_, img)) => Some(img),
        None => None,
    }
}

fn rank_exec(size: u32, preferred: u32) -> (r: (u8, u32))
    ensures
        r.0 as int == rank(size as int, preferred as int).0,
        r.1 as int == rank(size as int, preferred as int).1,
{
    if size == preferred {
        (0, 0)
    } else if size > preferred {
        (1, size)
    } else {
        (2, u32::MAX - size)
    }
}

fn rank_le_exec(a: u32, b: u32, preferred: u32) -> (r: bool)
    ensures
        r == rank_le(rank(a as int, preferred as int), rank(b as int, preferred as int)),
{
    let ra = rank_exec(a, preferred);
    let rb = rank_exec(b, preferred);
    ra.0 < rb.0 || (ra.0 == rb.0 && ra.1 <= rb.1)
}

} // verus!
