//! The byte layouts that sprite-sheet compilation writes: the 7-bit size
//! prefix and header of a CIP LZMA sheet, the split of sprites into sheets
//! and their catalog entries, and the companion sprite file of an `.aec`
//! bundle.
use image::{DynamicImage, ImageBuffer, ImageFormat, Rgba};
use std::io::Cursor;
use crate::lua::{decimal, push_decimal};
use crate::spr_reader::{spr_error_text, DecodedSprite, LegacySprReader};
use crate::text::{byte_chars, string_from_bytes};
use vstd::prelude::*;

verus! {

/// Columns of a sheet.
pub const DEFAULT_COLS: u32 = 12;
/// Rows of a full sheet.
pub const DEFAULT_ROWS_PER_SHEET: u32 = 32;
/// Tiles of a full sheet (12 x 32).
pub const MAX_TILES_PER_SHEET: usize = 384;
/// Version byte of the `.aec` companion sprite file.
pub const AEC_SPRITE_VERSION: u8 = 1;

/// `n` as a little-endian base-128 varint: 7 bits per byte, the high bit set
/// on every byte but the last.
pub open spec fn varint(n: nat) -> Seq<u8>
    decreases n,
{
    if n < 128 {
        seq![n as u8]
    } else {
        seq![(n % 128 + 128) as u8] + varint(n / 128)
    }
}

/// The number a varint encodes.
pub open spec fn varint_value(s: Seq<u8>) -> nat
    decreases s.len(),
{
    if s.len() == 0 {
        0
    } else {
        (s[0] % 128) as nat + 128 * varint_value(s.drop_first())
    }
}

/// Decoding a varint gives back the number, and only its last byte lacks the
/// continuation bit.
pub proof fn lemma_varint_roundtrip(n: nat)
    ensures
        varint_value(varint(n)) == n,
        varint(n).len() >= 1,
        varint(n).last() < 128,
        forall|i: int| 0 <= i < varint(n).len() - 1 ==> #[trigger] varint(n)[i] >= 128,
    decreases n,
{
    if n < 128 {
        let s = varint(n);
        assert(s.drop_first() =~= Seq::<u8>::empty());
        assert(varint_value(s.drop_first()) == 0);
        assert(s[0] == n as u8);
        assert(varint_value(s) == (s[0] % 128) as nat + 128 * varint_value(s.drop_first()));
    } else {
        lemma_varint_roundtrip(n / 128);
        assert(n == (n % 128) + 128 * (n / 128)) by (nonlinear_arith);
        let s = varint(n);
        assert(s.drop_first() =~= varint(n / 128));
        let b = s[0];
        assert(b == n % 128 + 128);
        assert(b % 128 == n % 128);
        assert(varint_value(s) == (b % 128) as nat + 128 * varint_value(s.drop_first()));
        assert(varint_value(s.drop_first()) == n / 128);
        assert(varint_value(s) == n);
        assert forall|i: int| 0 <= i < s.len() - 1 implies #[trigger] s[i] >= 128 by {
            if i > 0 {
                assert(s[i] == varint(n / 128)[i - 1]);
            }
        }
    }
}

/// Encode `n` as a 7-bit varint (the size prefix of a CIP sheet).
pub fn encode_7bit(n: u64) -> (r: Vec<u8>)
    ensures
        r@ == varint(n as nat),
{
    let mut out: Vec<u8> = Vec::new();
    let mut m = n;
    proof {
        assert(out@ + varint(m as nat) =~= varint(n as nat));
    }
    loop
        invariant
            out@ + varint(m as nat) == varint(n as nat),
        decreases m,
    {
        if m < 128 {
            out.push(m as u8);
            proof {
                assert(out@ =~= varint(n as nat));
            }
            return out;
        }
        let b = (m % 128 + 128) as u8;
        proof {
            assert(varint(m as nat) =~= seq![b] + varint((m / 128) as nat));
        }
        out.push(b);
        proof {
            assert(out@ + varint((m / 128) as nat) =~= varint(n as nat));
        }
        m = m / 128;
    }
}

/// The header of a CIP LZMA sheet.
pub open spec fn cip_header() -> Seq<u8> {
    seq![0x70u8, 0x0Au8, 0xFAu8, 0x80u8, 0x24u8]
}

/// Wrap plain LZMA bytes with the CIP header: the 5 header bytes, the
/// length as a varint, then the data.
pub fn wrap_cip_lzma(lzma: &[u8]) -> (r: Vec<u8>)
    ensures
        r@ == cip_header() + varint(lzma@.len() as nat) + lzma@,
{
    let mut out: Vec<u8> = Vec::new();
    out.push(0x70);
    out.push(0x0A);
    out.push(0xFA);
    out.push(0x80);
    out.push(0x24);
    let mut size = encode_7bit(lzma.len() as u64);
    out.append(&mut size);
    let mut i: usize = 0;
    let ghost head = out@;
    while i < lzma.len()
        invariant
            i <= lzma@.len(),
            out@ == head + lzma@.take(i as int),
        decreases lzma@.len() - i,
    {
        out.push(lzma[i]);
        proof {
            assert(lzma@.take(i + 1) =~= lzma@.take(i as int).push(lzma@[i as int]));
        }
        i = i + 1;
    }
    proof {
        assert(lzma@.take(i as int) =~= lzma@);
        assert(head =~= cip_header() + varint(lzma@.len() as nat));
    }
    out
}

/// The little-endian bytes of a `u32`.
pub open spec fn le_bytes(x: u32) -> Seq<u8> {
    seq![(x % 256) as u8, ((x / 256) % 256) as u8, ((x / 65536) % 256) as u8, (x / 16777216) as u8]
}

fn push_le(out: &mut Vec<u8>, x: u32)
    ensures
        final(out)@ == old(out)@ + le_bytes(x),
{
    out.push((x % 256) as u8);
    out.push(((x / 256) % 256) as u8);
    out.push(((x / 65536) % 256) as u8);
    out.push((x / 16777216) as u8);
    proof {
        assert(final(out)@ =~= old(out)@ + le_bytes(x));
    }
}

/// The framed entries of a companion sprite file: each PNG as its length
/// (`u32`, little-endian, truncated to 32 bits) then its bytes.
pub open spec fn png_frames(pngs: Seq<Seq<u8>>) -> Seq<u8>
    decreases pngs.len(),
{
    if pngs.len() == 0 {
        Seq::empty()
    } else {
        png_frames(pngs.drop_last()) + le_bytes(pngs.last().len() as u32) + pngs.last()
    }
}

/// The views of a list of byte buffers.
pub open spec fn buffers(v: Seq<Vec<u8>>) -> Seq<Seq<u8>> {
    v.map_values(|b: Vec<u8>| b@)
}

/// The companion `.aec.sprites` file of a bundle: the magic `AECS`, the
/// version byte, the sprite count (`u32`, little-endian, truncated to 32
/// bits), then every PNG framed with its length.
pub fn aec_sprites_bytes(pngs: &Vec<Vec<u8>>) -> (r: Vec<u8>)
    ensures
        r@ == seq![0x41u8, 0x45u8, 0x43u8, 0x53u8, AEC_SPRITE_VERSION] + le_bytes(pngs@.len() as u32) + png_frames(
            buffers(pngs@),
        ),
{
    let mut out: Vec<u8> = Vec::new();
    out.push(0x41);
    out.push(0x45);
    out.push(0x43);
    out.push(0x53);
    out.push(AEC_SPRITE_VERSION);
    push_le(&mut out, pngs.len() as u32);
    let ghost head = out@;
    let mut i: usize = 0;
    while i < pngs.len()
        invariant
            i <= pngs@.len(),
            out@ == head + png_frames(buffers(pngs@.take(i as int))),
        decreases pngs@.len() - i,
    {
        let png = &pngs[i];
        push_le(&mut out, png.len() as u32);
        let ghost mid = out@;
        let mut k: usize = 0;
        while k < png.len()
            invariant
                k <= png@.len(),
                out@ == mid + png@.take(k as int),
            decreases png@.len() - k,
        {
            out.push(png[k]);
            proof {
                assert(png@.take(k + 1) =~= png@.take(k as int).push(png@[k as int]));
            }
            k = k + 1;
        }
        proof {
            assert(png@.take(k as int) =~= png@);
            let t = buffers(pngs@.take(i + 1));
            assert(t.drop_last() =~= buffers(pngs@.take(i as int)));
            assert(t.last() == png@);
        }
        i = i + 1;
    }
    proof {
        assert(pngs@.take(i as int) =~= pngs@);
    }
    out
}

// ---------------------------------------------------------------------------
// Splitting sprites into sheets

/// The rows a sheet of `n` tiles needs with `cols` columns (at least one).
pub open spec fn sheet_rows(n: int, cols: int) -> int {
    let r = (n + cols - 1) / cols;
    if r < 1 { 1 } else { r }
}

/// One sheet of a compilation: its first sprite id, the id that its last
/// cell stands for, and how many sprites it holds.
pub struct SheetPlan {
    pub first_id: u32,
    pub last_id: u32,
    pub count: usize,
}

/// The sheets that sprites with ids `ids` make from position `start` on:
/// chunks of 384 in order; each sheet starts at its first sprite's id and
/// covers 12 columns times as many rows as its sprites need.
pub open spec fn spec_plan(ids: Seq<u32>, start: nat) -> Seq<(int, int, int)>
    decreases ids.len() - start,
{
    if start >= ids.len() {
        Seq::empty()
    } else {
        let n = if ids.len() - start < MAX_TILES_PER_SHEET { ids.len() - start } else { MAX_TILES_PER_SHEET as int };
        let first = ids[start as int] as int;
        seq![(first, first + DEFAULT_COLS * sheet_rows(n, DEFAULT_COLS as int) - 1, n)] + spec_plan(
            ids,
            (start + n) as nat,
        )
    }
}

/// The first id of every sheet from position `start` on, plus the sheet's
/// cells, stays within `u32`.
pub open spec fn plan_fits(ids: Seq<u32>, start: nat) -> bool
    decreases (if start < ids.len() { ids.len() - start } else { 0 }),
{
    if start >= ids.len() {
        true
    } else {
        let n = if ids.len() - start < MAX_TILES_PER_SHEET { ids.len() - start } else { MAX_TILES_PER_SHEET as int };
        ids[start as int] + DEFAULT_COLS * sheet_rows(n, DEFAULT_COLS as int) <= u32::MAX && plan_fits(ids, start + 384)
    }
}

/// The view of a sheet plan.
pub open spec fn plan_view(p: SheetPlan) -> (int, int, int) {
    (p.first_id as int, p.last_id as int, p.count as int)
}

/// Split sprites (by id, in order) into sheets of up to 384.
pub fn plan_sheets(ids: &Vec<u32>) -> (r: Vec<SheetPlan>)
    requires
        plan_fits(ids@, 0),
    ensures
        r@.map_values(|p: SheetPlan| plan_view(p)) == spec_plan(ids@, 0),
{
    let mut r: Vec<SheetPlan> = Vec::new();
    let mut start: usize = 0;
    while start < ids.len()
        invariant
            start <= ids@.len(),
            plan_fits(ids@, start as nat),
            spec_plan(ids@, 0) == r@.map_values(|p: SheetPlan| plan_view(p)) + spec_plan(ids@, start as nat),
        decreases ids@.len() - start,
    {
        let n: usize = if ids.len() - start < MAX_TILES_PER_SHEET { ids.len() - start } else { MAX_TILES_PER_SHEET };
        let first = ids[start];
        let rows: u32 = ((n as u32) + DEFAULT_COLS - 1) / DEFAULT_COLS;
        proof {
            assert(1 <= rows <= 32 && rows == sheet_rows(n as int, 12)) by (nonlinear_arith)
                requires
                    1 <= n <= 384,
                    rows == (n + 12 - 1) / 12,
            ;
        }
        let last = first + DEFAULT_COLS * rows - 1;
        let ghost before = r@;
        r.push(SheetPlan { first_id: first, last_id: last, count: n });
        proof {
            assert(r@.map_values(|p: SheetPlan| plan_view(p)) =~= before.map_values(|p: SheetPlan| plan_view(p)).push(
                (first as int, last as int, n as int),
            ));
            assert(spec_plan(ids@, 0) =~= r@.map_values(|p: SheetPlan| plan_view(p)) + spec_plan(ids@, (start + n) as nat));
            if start + n < ids@.len() {
                assert(n == 384);
                assert(plan_fits(ids@, (start + n) as nat));
            }
        }
        start = start + n;
    }
    proof {
        assert(spec_plan(ids@, start as nat) =~= Seq::<(int, int, int)>::empty());
        assert(spec_plan(ids@, 0) =~= r@.map_values(|p: SheetPlan| plan_view(p)));
    }
    r
}

// ---------------------------------------------------------------------------
// Sheet images

/// The columns a sheet uses: `cols`, at least one.
pub open spec fn used_cols(cols: u32) -> int {
    if cols < 1 { 1 } else { cols as int }
}

/// Byte `b` of the RGBA pixels of a sheet with `cols` columns of 32x32
/// tiles, row-major: tile `i` sits at column `i % cols`, row `i / cols`; a
/// pixel comes from its tile when the tile exists and holds that pixel,
/// else it is 0.
pub open spec fn sheet_byte(tiles: Seq<Seq<u8>>, cols: int, b: int) -> u8 {
    let w = cols * 32;
    let p = b / 4;
    let c = b % 4;
    let px = p % w;
    let py = p / w;
    let i = (py / 32) * cols + px / 32;
    let idx = ((py % 32) * 32 + px % 32) * 4;
    if i < tiles.len() && idx + 3 < tiles[i].len() {
        tiles[i][idx + c]
    } else {
        0
    }
}

/// The RGBA pixels of a sheet of `rows` rows.
pub open spec fn sheet_pixels(tiles: Seq<Seq<u8>>, cols: int, rows: int) -> Seq<u8> {
    Seq::new((cols * 32 * rows * 32 * 4) as nat, |b: int| sheet_byte(tiles, cols, b))
}

/// A sheet for `n` tiles on `cols` columns has a width and a height in
/// pixels that fit in `u32`, and a pixel buffer that fits in memory.
pub open spec fn sheet_fits(n: int, cols: u32) -> bool {
    let c = used_cols(cols);
    let rows = sheet_rows(n, c);
    &&& 0 <= n <= u32::MAX
    &&& c * 32 <= u32::MAX
    &&& rows * 32 <= u32::MAX
    &&& c * 32 * rows * 32 * 4 <= usize::MAX
}

/// Lay out tiles on a sheet of `cols` columns (at least one) and as many
/// rows as they need (at least one): the RGBA pixels, the columns and the
/// rows.
pub fn layout_sheet(tiles: &Vec<Vec<u8>>, cols: u32) -> (r: (Vec<u8>, u32, u32))
    requires
        sheet_fits(tiles@.len() as int, cols),
    ensures
        r.1 == used_cols(cols),
        r.2 == sheet_rows(tiles@.len() as int, used_cols(cols)),
        r.0@ == sheet_pixels(buffers(tiles@), r.1 as int, r.2 as int),
{
    let cols: u32 = if cols < 1 { 1 } else { cols };
    let n: u64 = tiles.len() as u64;
    let rows0: u64 = (n + cols as u64 - 1) / (cols as u64);
    let rows: u32 = if rows0 < 1 { 1 } else { rows0 as u32 };
    let ghost cc = cols as int;
    let ghost rr = rows as int;
    let w: u64 = cols as u64 * 32;
    let h: u64 = rows as u64 * 32;
    proof {
        assert(w * h * 4 == cc * 32 * rr * 32 * 4) by (nonlinear_arith)
            requires
                w == cc * 32,
                h == rr * 32,
        ;
        assert(w * h * 4 <= usize::MAX);
        assert(w * h <= w * h * 4) by (nonlinear_arith)
            requires
                w >= 0,
                h >= 0,
        ;
    }
    let len: u64 = w * h * 4;
    let ghost ts = buffers(tiles@);
    let mut out: Vec<u8> = Vec::new();
    let mut b: u64 = 0;
    while b < len
        invariant
            b <= len,
            1 <= cols,
            cc == cols,
            rr == rows,
            1 <= rows,
            w == cols * 32,
            h == rows * 32,
            len == w * h * 4,
            len <= usize::MAX,
            ts == buffers(tiles@),
            out@ == Seq::new(b as nat, |j: int| sheet_byte(ts, cols as int, j)),
        decreases len - b,
    {
        let p = b / 4;
        let c = b % 4;
        let px = p % w;
        let py = p / w;
        proof {
            assert(p < w * h) by (nonlinear_arith)
                requires
                    b < len,
                    len == w * h * 4,
                    p == b / 4,
            ;
            assert(py < h) by (nonlinear_arith)
                requires
                    p < w * h,
                    py == p / w,
                    w > 0,
            ;
            assert(px < w) by (nonlinear_arith)
                requires
                    px == p % w,
                    w > 0,
            ;
            assert((py / 32) * (cols as int) + px / 32 < rr * cc) by (nonlinear_arith)
                requires
                    py < h,
                    px < w,
                    h == rr * 32,
                    w == cc * 32,
                    cc >= 1,
                    rr >= 1,
                    cols as int == cc,
            ;
            assert(rr * cc <= w * h) by (nonlinear_arith)
                requires
                    h == rr * 32,
                    w == cc * 32,
                    cc >= 1,
                    rr >= 1,
            ;
        }
        let i = (py / 32) * (cols as u64) + px / 32;
        let idx = ((py % 32) * 32 + px % 32) * 4;
        let v: u8 = if i < tiles.len() as u64 && idx + 3 < tiles[i as usize].len() as u64 {
            tiles[i as usize][(idx + c) as usize]
        } else {
            0
        };
        out.push(v);
        proof {
            assert(out@ =~= Seq::new((b + 1) as nat, |j: int| sheet_byte(ts, cols as int, j)));
        }
        b = b + 1;
    }
    proof {
        assert(len == cc * 32 * rr * 32 * 4);
        assert(rr == sheet_rows(tiles@.len() as int, used_cols(cols)));
    }
    (out, cols, rows)
}

/// A BMP of `width` x `height` RGBA pixels, with its 122 header bytes, has a
/// row size and a file size that fit in `u32`.
pub open spec fn bmp_fits(width: int, height: int) -> bool {
    width * 4 <= u32::MAX && width * 4 * height + 122 <= u32::MAX
}

/// The BMP file that the `image` crate writes for an RGBA image.
pub uninterp spec fn bmp_encoding(width: u32, height: u32, rgba: Seq<u8>) -> Seq<u8>;

/// `ImageBuffer::from_raw` then `DynamicImage::write_to` with
/// `ImageFormat::Bmp` (image crate): the BMP encoding of a `width` x
/// `height` RGBA image. `from_raw` refuses a buffer shorter than the image
/// and keeps a longer one whole, which the BMP encoder then rejects with a
/// panic (its buffer-length assertion), so a longer buffer is not admitted.
/// The encoder writes an RGBA image unconverted, with a 14-byte file header
/// and a 108-byte V4 header, and fails only when the row size or the file
/// size overflows `u32` or the writer fails; writing into a `Vec` does not
/// fail. When the encoding succeeds its bytes are `bmp_encoding` of the
/// arguments.
#[verifier::external_body]
fn encode_bmp(width: u32, height: u32, rgba: Vec<u8>) -> (r: Result<Vec<u8>, String>)
    requires
        rgba@.len() <= width * height * 4,
    ensures
        r matches Ok(b) ==> b@ == bmp_encoding(width, height, rgba@),
        rgba@.len() < width * height * 4 ==> r is Err,
        rgba@.len() == width * height * 4 && bmp_fits(width as int, height as int) ==> r is Ok,
{
    let img: ImageBuffer<Rgba<u8>, Vec<u8>> = match ImageBuffer::from_raw(width, height, rgba) {
        Some(img) => img,
        None => return Err("Failed to create image buffer".to_string()),
    };
    let mut bmp = Vec::new();
    match DynamicImage::ImageRgba8(img).write_to(&mut Cursor::new(&mut bmp), ImageFormat::Bmp) {
        Ok(()) => Ok(bmp),
        Err(e) => Err(format!("Failed to encode sheet BMP: {}", e)),
    }
}

/// Compile tiles into a BMP sheet of `cols` columns: the BMP bytes of
/// `layout_sheet`'s pixels, with its columns and rows; an error only when
/// the BMP would be too large for its header fields.
pub fn build_sheet_bmp(tiles: &Vec<Vec<u8>>, cols: u32) -> (r: Result<(Vec<u8>, u32, u32), String>)
    requires
        sheet_fits(tiles@.len() as int, cols),
    ensures
        bmp_fits(used_cols(cols) * 32, sheet_rows(tiles@.len() as int, used_cols(cols)) * 32) ==> r is Ok,
        r matches Ok((bmp, c, rows)) ==> c == used_cols(cols) && rows == sheet_rows(tiles@.len() as int, used_cols(cols))
            && bmp@ == bmp_encoding(
            (c * 32) as u32,
            (rows * 32) as u32,
            sheet_pixels(buffers(tiles@), c as int, rows as int),
        ),
{
    let (pixels, c, rows) = layout_sheet(tiles, cols);
    let wd: u32 = c * 32;
    let ht: u32 = rows * 32;
    proof {
        assert(pixels@.len() == wd * ht * 4) by (nonlinear_arith)
            requires
                wd == c * 32,
                ht == rows * 32,
                pixels@.len() == c * 32 * rows * 32 * 4,
        ;
    }
    let bmp = match encode_bmp(wd, ht, pixels) {
        Ok(b) => b,
        Err(e) => {
            return Err(e);
        },
    };
    Ok((bmp, c, rows))
}

/// The PNG file that the `image` crate writes for a 32x32 RGBA sprite.
pub uninterp spec fn png_encoding(rgba: Seq<u8>) -> Seq<u8>;

/// `ImageBuffer::from_raw(32, 32, ..)` then `DynamicImage::write_to` with
/// `ImageFormat::Png` (image crate): the PNG encoding of a 32x32 sprite.
/// `from_raw` refuses a buffer shorter than 4096 bytes and keeps a longer
/// one whole, which the PNG encoder then rejects with a panic (its
/// buffer-length assertion), so a longer buffer is not admitted. For 4096
/// bytes the encoder (RGBA, 8 bits, nonzero size) fails only when its writer
/// fails, and writing into a `Vec` does not fail. When the encoding succeeds
/// its bytes are `png_encoding` of the pixels.
#[verifier::external_body]
fn rgba_to_png(rgba: &[u8]) -> (r: Result<Vec<u8>, String>)
    requires
        rgba@.len() <= 4096,
    ensures
        r matches Ok(b) ==> b@ == png_encoding(rgba@),
        rgba@.len() < 4096 ==> r is Err,
        rgba@.len() == 4096 ==> r is Ok,
{
    let img: ImageBuffer<Rgba<u8>, Vec<u8>> = match ImageBuffer::from_raw(32, 32, rgba.to_vec()) {
        Some(img) => img,
        None => return Err("Failed to create image buffer".to_string()),
    };
    let mut png = Vec::new();
    match DynamicImage::ImageRgba8(img).write_to(&mut Cursor::new(&mut png), ImageFormat::Png) {
        Ok(()) => Ok(png),
        Err(e) => Err(format!("Failed to encode PNG: {}", e)),
    }
}

/// The PNGs of sprites, in order.
pub open spec fn pngs_of(sprites: Seq<DecodedSprite>) -> Seq<Seq<u8>> {
    sprites.map_values(|s: DecodedSprite| png_encoding(s.rgba@))
}

/// The companion sprite file of an `.aec` bundle for decoded sprites: every
/// sprite encoded as PNG, framed as `aec_sprites_bytes` frames them. A
/// sprite with fewer than 4096 RGBA bytes cannot be encoded and is an error.
pub fn aec_companion(sprites: &Vec<DecodedSprite>) -> (r: Result<Vec<u8>, String>)
    requires
        forall|i: int| 0 <= i < sprites@.len() ==> (#[trigger] sprites@[i]).rgba@.len() <= 4096,
    ensures
        r is Ok <==> forall|i: int| 0 <= i < sprites@.len() ==> (#[trigger] sprites@[i]).rgba@.len() == 4096,
        r matches Ok(b) ==> b@ == seq![0x41u8, 0x45u8, 0x43u8, 0x53u8, AEC_SPRITE_VERSION] + le_bytes(
            sprites@.len() as u32,
        ) + png_frames(pngs_of(sprites@)),
{
    let mut pngs: Vec<Vec<u8>> = Vec::new();
    let mut i: usize = 0;
    while i < sprites.len()
        invariant
            i <= sprites@.len(),
            buffers(pngs@) == pngs_of(sprites@.take(i as int)),
            forall|j: int| 0 <= j < sprites@.len() ==> (#[trigger] sprites@[j]).rgba@.len() <= 4096,
            forall|j: int| 0 <= j < i ==> (#[trigger] sprites@[j]).rgba@.len() == 4096,
        decreases sprites@.len() - i,
    {
        let png = match rgba_to_png(sprites[i].rgba.as_slice()) {
            Ok(png) => png,
            Err(e) => {
                return Err(e);
            },
        };
        let ghost prev = pngs@;
        proof {
            assert(png@ == png_encoding(sprites@[i as int].rgba@));
        }
        pngs.push(png);
        proof {
            assert(buffers(pngs@) =~= buffers(prev).push(png@));
            assert(pngs_of(sprites@.take(i + 1)) =~= pngs_of(sprites@.take(i as int)).push(
                png_encoding(sprites@[i as int].rgba@),
            ));
        }
        i = i + 1;
    }
    proof {
        assert(sprites@.take(i as int) =~= sprites@);
    }
    Ok(aec_sprites_bytes(&pngs))
}

/// An entry of `catalog-content.json`.
pub struct SpriteCatalogEntry {
    pub entry_type: String,
    pub file: String,
    pub sprite_type: Option<u32>,
    pub first_sprite_id: Option<u32>,
    pub last_sprite_id: Option<u32>,
    pub area: Option<u32>,
}

/// The bytes of `sprites_{first_id}.cwm`, the id in decimal.
pub open spec fn sheet_file_bytes(first_id: u32) -> Seq<u8> {
    seq![115u8, 112u8, 114u8, 105u8, 116u8, 101u8, 115u8, 95u8] + decimal(first_id as nat) + seq![
        46u8,
        99u8,
        119u8,
        109u8,
    ]
}

/// `sprites_{first_id}.cwm`.
fn sheet_file_name(first_id: u32) -> (r: String)
    ensures
        r@ == byte_chars(sheet_file_bytes(first_id)),
{
    let mut b: Vec<u8> = vec![115u8, 112u8, 114u8, 105u8, 116u8, 101u8, 115u8, 95u8];
    push_decimal(&mut b, first_id);
    b.push(46u8);
    b.push(99u8);
    b.push(119u8);
    b.push(109u8);
    proof {
        assert(b@ =~= sheet_file_bytes(first_id));
    }
    string_from_bytes(&b)
}

/// The catalog entry of a sheet: a 32x32 ("type 0") sprite sheet covering
/// its first to last id.
pub fn catalog_entry(plan: &SheetPlan) -> (r: SpriteCatalogEntry)
    ensures
        r.entry_type@ == "sprite"@,
        r.file@ == byte_chars(sheet_file_bytes(plan.first_id)),
        r.sprite_type == Some(0u32),
        r.first_sprite_id == Some(plan.first_id),
        r.last_sprite_id == Some(plan.last_id),
        r.area is None,
{
    SpriteCatalogEntry {
        entry_type: String::from_str("sprite"),
        file: sheet_file_name(plan.first_id),
        sprite_type: Some(0),
        first_sprite_id: Some(plan.first_id),
        last_sprite_id: Some(plan.last_id),
        area: None,
    }
}

/// The tiles of a chunk of sprites: their RGBA bytes, in order.
pub open spec fn tiles_of(sprites: Seq<DecodedSprite>) -> Seq<Seq<u8>> {
    sprites.map_values(|s: DecodedSprite| s.rgba@)
}

fn copy_bytes(v: &Vec<u8>) -> (r: Vec<u8>)
    ensures
        r@ == v@,
{
    let mut r: Vec<u8> = Vec::new();
    let mut i: usize = 0;
    while i < v.len()
        invariant
            i <= v@.len(),
            r@ == v@.take(i as int),
        decreases v@.len() - i,
    {
        r.push(v[i]);
        proof {
            assert(r@ =~= v@.take(i + 1));
        }
        i = i + 1;
    }
    proof {
        assert(v@.take(i as int) =~= v@);
    }
    r
}

/// One sheet of sprites: the BMP of their tiles on 12 columns, and its
/// catalog entry, which starts at the first sprite's id and covers every
/// cell of the sheet.
pub fn compile_sheet(chunk: &Vec<DecodedSprite>) -> (r: Result<(Vec<u8>, SpriteCatalogEntry), String>)
    requires
        1 <= chunk@.len() <= MAX_TILES_PER_SHEET,
        chunk@[0].id + DEFAULT_COLS * sheet_rows(chunk@.len() as int, DEFAULT_COLS as int) <= u32::MAX,
    ensures
        r matches Ok((bmp, e)) && ({
            let rows = sheet_rows(chunk@.len() as int, DEFAULT_COLS as int);
            &&& bmp@ == bmp_encoding(
                (DEFAULT_COLS * 32) as u32,
                (rows * 32) as u32,
                sheet_pixels(tiles_of(chunk@), DEFAULT_COLS as int, rows),
            )
            &&& e.entry_type@ == "sprite"@ && e.sprite_type == Some(0u32) && e.area is None
            &&& e.file@ == byte_chars(sheet_file_bytes(chunk@[0].id))
            &&& e.first_sprite_id == Some(chunk@[0].id)
            &&& e.last_sprite_id == Some((chunk@[0].id + DEFAULT_COLS * rows - 1) as u32)
        }),
{
    let mut tiles: Vec<Vec<u8>> = Vec::new();
    let mut i: usize = 0;
    while i < chunk.len()
        invariant
            i <= chunk@.len(),
            buffers(tiles@) == tiles_of(chunk@.take(i as int)),
        decreases chunk@.len() - i,
    {
        let t = copy_bytes(&chunk[i].rgba);
        let ghost prev = tiles@;
        tiles.push(t);
        proof {
            assert(buffers(tiles@) =~= buffers(prev).push(chunk@[i as int].rgba@));
            assert(tiles_of(chunk@.take(i + 1)) =~= tiles_of(chunk@.take(i as int)).push(chunk@[i as int].rgba@));
        }
        i = i + 1;
    }
    proof {
        assert(chunk@.take(i as int) =~= chunk@);
    }
    let first_id = chunk[0].id;
    proof {
        let n = tiles@.len() as int;
        assert(sheet_rows(n, 12) <= 32) by (nonlinear_arith)
            requires
                1 <= n <= 384,
        ;
        let rr = sheet_rows(n, 12);
        assert(rr >= 1);
        assert(12 * 32 * rr * 32 * 4 <= 12 * 32 * 32 * 32 * 4) by (nonlinear_arith)
            requires
                1 <= rr <= 32,
        ;
        assert(12 * 32 * 4 * (rr * 32) <= 12 * 32 * 4 * (32 * 32)) by (nonlinear_arith)
            requires
                1 <= rr <= 32,
        ;
        assert(sheet_fits(n, 12));
        let hh: int = rr * 32;
        assert(0 <= hh <= 1024);
        assert(384 * 4 * hh + 122 <= u32::MAX) by (nonlinear_arith)
            requires
                0 <= hh <= 1024,
        ;
        assert(bmp_fits(384, hh));
    }
    let (bmp, cols, rows) = match build_sheet_bmp(&tiles, DEFAULT_COLS) {
        Ok(x) => x,
        Err(e) => {
            return Err(e);
        },
    };
    proof {
        assert(rows <= 32) by (nonlinear_arith)
            requires
                1 <= tiles@.len() <= 384,
                rows == sheet_rows(tiles@.len() as int, 12),
        ;
    }
    let last_id = first_id + cols * rows - 1;
    let plan = SheetPlan { first_id, last_id, count: chunk.len() };
    Ok((bmp, catalog_entry(&plan)))
}

/// The sprites of sheet `sheet_idx` of a `.spr`, compiled: ids
/// `1 + 384 * sheet_idx` on, at most 384 of them; `None` for a sheet past the
/// last sprite. Decoding and encoding errors stop it.
pub fn compile_sheet_from_reader(reader: &LegacySprReader, sheet_idx: u32) -> (r: Result<Option<(Vec<u8>, SpriteCatalogEntry)>, String>)
    requires
        reader.wf(),
        1 + 384 * sheet_idx + 384 <= u32::MAX,
    ensures
        ({
            let first = 1 + 384 * sheet_idx;
            first > reader.sprite_count ==> r matches Ok(None)
        }),
        ({
            let first = 1 + 384 * sheet_idx;
            let end = reader.batch_end(first as u32, 384);
            first <= reader.sprite_count ==> match reader.spec_batch(first, end, Seq::empty()) {
                Ok(_) => r matches Ok(Some(_)),
                Err(e) => r matches Err(m) && m@ == spr_error_text(e),
            }
        }),
        r matches Ok(Some((bmp, e))) ==> ({
            let first = 1 + 384 * sheet_idx;
            let end = reader.batch_end(first as u32, 384);
            reader.spec_batch(first, end, Seq::empty()) matches Ok(ss) && ss.len() >= 1 && ({
                let rows = sheet_rows(ss.len() as int, DEFAULT_COLS as int);
                &&& bmp@ == bmp_encoding((DEFAULT_COLS * 32) as u32, (rows * 32) as u32, sheet_pixels(ss, DEFAULT_COLS as int, rows))
                &&& e.first_sprite_id == Some(first as u32)
                &&& e.file@ == byte_chars(sheet_file_bytes(first as u32))
                &&& e.last_sprite_id == Some((first + DEFAULT_COLS * rows - 1) as u32)
            })
        }),
{
    let first_id: u32 = 1 + 384 * sheet_idx;
    let batch = match reader.decode_batch(first_id, MAX_TILES_PER_SHEET as u32) {
        Ok(b) => b,
        Err(e) => {
            return Err(e.message());
        },
    };
    proof {
        reader.lemma_batch_len(first_id as int, reader.batch_end(first_id, 384), Seq::empty());
    }
    if batch.len() == 0 {
        return Ok(None);
    }
    proof {
        assert(batch@[0].id == first_id);
        assert(batch@.len() <= 384);
        assert(sheet_rows(batch@.len() as int, 12) <= 32) by (nonlinear_arith)
            requires
                1 <= batch@.len() <= 384,
        ;
    }
    let (bmp, entry) = match compile_sheet(&batch) {
        Ok(x) => x,
        Err(e) => {
            return Err(e);
        },
    };
    proof {
        assert(tiles_of(batch@) =~= reader.spec_batch(first_id as int, reader.batch_end(first_id, 384), Seq::empty())->Ok_0);
    }
    Ok(Some((bmp, entry)))
}

/// The ids of a list of sprites, in order.
pub open spec fn ids_of(sprites: Seq<DecodedSprite>) -> Seq<u32> {
    sprites.map_values(|s: DecodedSprite| s.id)
}

/// The sprites of sheet `k`: chunk `k` of 384.
pub open spec fn chunk_of(sprites: Seq<DecodedSprite>, k: int) -> Seq<DecodedSprite> {
    let start = 384 * k;
    let end = if start + 384 < sprites.len() { start + 384 } else { sprites.len() as int };
    sprites.subrange(start, end)
}

/// Compile decoded sprites into sheets of up to 384, in order: each sheet's
/// BMP and catalog entry as `compile_sheet` makes them, and the number of
/// sheets.
pub fn compile_sprites_to_sheets(sprites: &Vec<DecodedSprite>) -> (r: Result<(Vec<(Vec<u8>, SpriteCatalogEntry)>, usize), String>)
    requires
        plan_fits(ids_of(sprites@), 0),
    ensures
        r matches Ok((sheets, n)) && n == sheets@.len() && n == spec_plan(ids_of(sprites@), 0).len() && forall|k: int|
            0 <= k < n ==> ({
                let chunk = chunk_of(sprites@, k);
                let rows = sheet_rows(chunk.len() as int, DEFAULT_COLS as int);
                let (bmp, e) = #[trigger] sheets@[k];
                &&& bmp@ == bmp_encoding(
                    (DEFAULT_COLS * 32) as u32,
                    (rows * 32) as u32,
                    sheet_pixels(tiles_of(chunk), DEFAULT_COLS as int, rows),
                )
                &&& e.first_sprite_id == Some(chunk[0].id)
                &&& e.file@ == byte_chars(sheet_file_bytes(chunk[0].id))
                &&& e.last_sprite_id == Some((chunk[0].id + DEFAULT_COLS * rows - 1) as u32)
            }),
{
    let mut sheets: Vec<(Vec<u8>, SpriteCatalogEntry)> = Vec::new();
    let mut start: usize = 0;
    let ghost ids = ids_of(sprites@);
    while start < sprites.len()
        invariant
            ids == ids_of(sprites@),
            start <= sprites@.len(),
            start < sprites@.len() ==> start == 384 * sheets@.len(),
            start == sprites@.len() ==> sheets@.len() == spec_plan(ids, 0).len(),
            plan_fits(ids, start as nat),
            spec_plan(ids, 0).len() == sheets@.len() + spec_plan(ids, start as nat).len(),
            forall|k: int|
                0 <= k < sheets@.len() ==> ({
                    let chunk = chunk_of(sprites@, k);
                    let rows = sheet_rows(chunk.len() as int, DEFAULT_COLS as int);
                    let (bmp, e) = #[trigger] sheets@[k];
                    &&& bmp@ == bmp_encoding(
                        (DEFAULT_COLS * 32) as u32,
                        (rows * 32) as u32,
                        sheet_pixels(tiles_of(chunk), DEFAULT_COLS as int, rows),
                    )
                    &&& e.first_sprite_id == Some(chunk[0].id)
                    &&& e.file@ == byte_chars(sheet_file_bytes(chunk[0].id))
                    &&& e.last_sprite_id == Some((chunk[0].id + DEFAULT_COLS * rows - 1) as u32)
                }),
        decreases sprites@.len() - start,
    {
        let n: usize = if sprites.len() - start < MAX_TILES_PER_SHEET { sprites.len() - start } else { MAX_TILES_PER_SHEET };
        let mut chunk: Vec<DecodedSprite> = Vec::new();
        let mut j: usize = 0;
        while j < n
            invariant
                j <= n,
                start + n <= sprites.len(),
                chunk@.len() == j,
                forall|t: int| 0 <= t < j ==> (#[trigger] chunk@[t]).id == sprites@[start + t].id && chunk@[t].rgba@
                    == sprites@[start + t].rgba@,
            decreases n - j,
        {
            let s = &sprites[start + j];
            chunk.push(DecodedSprite { id: s.id, rgba: copy_bytes(&s.rgba) });
            j = j + 1;
        }
        let ghost k = sheets@.len() as int;
        proof {
            assert(chunk_of(sprites@, k).len() == n);
            assert(ids[start as int] == sprites@[start as int].id);
            assert(chunk@[0].id == ids[start as int]);
        }
        let (bmp, entry) = match compile_sheet(&chunk) {
            Ok(x) => x,
            Err(e) => {
                return Err(e);
            },
        };
        proof {
            let c = chunk_of(sprites@, k);
            assert(tiles_of(chunk@) =~= tiles_of(c));
            assert(chunk@[0].id == c[0].id);
        }
        sheets.push((bmp, entry));
        proof {
            assert(spec_plan(ids, start as nat).len() == 1 + spec_plan(ids, (start + n) as nat).len());
            if start + n < sprites@.len() {
                assert(n == 384);
            }
        }
        start = start + n;
    }
    proof {
        assert(spec_plan(ids, start as nat).len() == 0);
    }
    let count = sheets.len();
    Ok((sheets, count))
}

/// Tile `i` of a sheet sits at column `i % cols` and row `i / cols`: pixel
/// `(x, y)` of the tile, channel `ch`, is the byte of the sheet at pixel
/// `(col * 32 + x, row * 32 + y)` of a sheet `cols * 32` pixels wide, and
/// it is the tile's own byte for that pixel.
pub proof fn lemma_tile_placement(tiles: Seq<Seq<u8>>, cols: int, rows: int, i: int, x: int, y: int, ch: int)
    requires
        cols >= 1,
        0 <= i < tiles.len(),
        i / cols < rows,
        tiles[i].len() >= 4096,
        0 <= x < 32,
        0 <= y < 32,
        0 <= ch < 4,
    ensures
        ({
            let col = i % cols;
            let row = i / cols;
            let b = ((row * 32 + y) * (cols * 32) + col * 32 + x) * 4 + ch;
            &&& 0 <= b < sheet_pixels(tiles, cols, rows).len()
            &&& sheet_pixels(tiles, cols, rows)[b] == tiles[i][(y * 32 + x) * 4 + ch]
        }),
{
    let col = i % cols;
    let row = i / cols;
    let w = cols * 32;
    vstd::arithmetic::div_mod::lemma_fundamental_div_mod(i, cols);
    assert(0 <= col < cols);
    assert(row >= 0) by (nonlinear_arith)
        requires
            i >= 0,
            cols >= 1,
            row == i / cols,
    ;
    let p = (row * 32 + y) * w + col * 32 + x;
    let b = p * 4 + ch;
    assert(b == ((row * 32 + y) * (cols * 32) + col * 32 + x) * 4 + ch);
    assert(0 <= col * 32 + x < w) by (nonlinear_arith)
        requires
            0 <= col < cols,
            0 <= x < 32,
            w == cols * 32,
    ;
    assert(p >= 0) by (nonlinear_arith)
        requires
            row >= 0,
            0 <= y,
            w >= 32,
            col >= 0,
            x >= 0,
            p == (row * 32 + y) * w + col * 32 + x,
    ;
    vstd::arithmetic::div_mod::lemma_fundamental_div_mod_converse(b, 4, p, ch);
    vstd::arithmetic::div_mod::lemma_fundamental_div_mod_converse(p, w, row * 32 + y, col * 32 + x);
    vstd::arithmetic::div_mod::lemma_fundamental_div_mod_converse(row * 32 + y, 32, row, y);
    vstd::arithmetic::div_mod::lemma_fundamental_div_mod_converse(col * 32 + x, 32, col, x);
    assert(row * cols + col == i) by (nonlinear_arith)
        requires
            i == cols * (i / cols) + i % cols,
            row == i / cols,
            col == i % cols,
    ;
    assert(b < cols * 32 * rows * 32 * 4) by (nonlinear_arith)
        requires
            0 <= row < rows,
            0 <= y < 32,
            0 <= col * 32 + x < cols * 32,
            w == cols * 32,
            p == (row * 32 + y) * w + col * 32 + x,
            b == p * 4 + ch,
            0 <= ch < 4,
    ;
    assert((y * 32 + x) * 4 + 3 < 4096) by (nonlinear_arith)
        requires
            0 <= x < 32,
            0 <= y < 32,
    ;
    assert(sheet_pixels(tiles, cols, rows)[b] == sheet_byte(tiles, cols, b));
}

} // verus!
