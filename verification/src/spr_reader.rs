//! Reader for legacy Tibia `.spr` sprite files: a header with the sprite
//! count, a table of offsets, and each sprite as run-length encoded 32x32
//! pixels.
use crate::dat_reader::{read_u16, read_u32, u16_at, u32_at, DatError};
use crate::lua::decimal;
use crate::text::{append_decimal, append_str, byte_chars};
use vstd::prelude::*;

verus! {

pub const SPRITE_WIDTH: u32 = 32;
pub const SPRITE_HEIGHT: u32 = 32;
/// Pixels of one sprite (32 x 32).
pub const SPRITE_PIXELS: usize = 1024;
/// RGBA bytes of one sprite.
pub const SPRITE_RGBA_BYTES: usize = 4096;

/// Why a `.spr` or one of its sprites could not be read.
#[derive(Clone, Copy, PartialEq, Eq, Structural, Debug)]
pub enum SprError {
    /// Fewer than the 6 header bytes.
    FileTooSmall,
    /// An extended file with fewer than its 8 header bytes.
    ExtendedFileTooSmall,
    /// The file is shorter than its offset table.
    Truncated { required: u64, count: u32, len: u64 },
    /// A sprite id outside `1..=sprite_count`.
    IdOutOfRange { id: u32, count: u32 },
    /// The data ended in the middle of a sprite.
    UnexpectedEof,
}

/// The message of a `.spr` error.
pub open spec fn spr_error_text(e: SprError) -> Seq<char> {
    match e {
        SprError::FileTooSmall => "SPR file too small (less than 6 bytes)"@,
        SprError::ExtendedFileTooSmall => "Extended SPR file too small (less than 8 bytes)"@,
        SprError::Truncated { required, count, len } => "SPR file truncated: expected at least "@
            + byte_chars(decimal(required as nat)) + " bytes for "@ + byte_chars(decimal(count as nat))
            + " sprite offsets, but file has "@ + byte_chars(decimal(len as nat)) + " bytes"@,
        SprError::IdOutOfRange { id, count } => "Sprite ID "@ + byte_chars(decimal(id as nat)) + " out of range (1.."@
            + byte_chars(decimal(count as nat)) + ")"@,
        SprError::UnexpectedEof => "Failed to read sprite data: unexpected end of file"@,
    }
}

impl SprError {
    /// The error as text.
    pub fn message(&self) -> (r: String)
        ensures
            r@ == spr_error_text(*self),
    {
        let mut s = String::new();
        match *self {
            SprError::FileTooSmall => append_str(&mut s, "SPR file too small (less than 6 bytes)"),
            SprError::ExtendedFileTooSmall => append_str(&mut s, "Extended SPR file too small (less than 8 bytes)"),
            SprError::Truncated { required, count, len } => {
                append_str(&mut s, "SPR file truncated: expected at least ");
                append_decimal(&mut s, required);
                append_str(&mut s, " bytes for ");
                append_decimal(&mut s, count as u64);
                append_str(&mut s, " sprite offsets, but file has ");
                append_decimal(&mut s, len);
                append_str(&mut s, " bytes");
            },
            SprError::IdOutOfRange { id, count } => {
                append_str(&mut s, "Sprite ID ");
                append_decimal(&mut s, id as u64);
                append_str(&mut s, " out of range (1..");
                append_decimal(&mut s, count as u64);
                append_str(&mut s, ")");
            },
            SprError::UnexpectedEof => append_str(&mut s, "Failed to read sprite data: unexpected end of file"),
        }
        s
    }
}

/// A decoded 32x32 RGBA sprite.
pub struct DecodedSprite {
    pub id: u32,
    pub rgba: Vec<u8>,
}

/// A fully transparent sprite: every byte 0.
pub open spec fn blank_sprite() -> Seq<u8> {
    Seq::new(SPRITE_RGBA_BYTES as nat, |i: int| 0u8)
}

/// Channel `ch` (0 red, 1 green, 2 blue, 3 alpha) of the colored pixel whose
/// bytes start at `at`; without an alpha byte the alpha is 0xFF.
pub open spec fn channel(d: Seq<u8>, at: int, ch: int, transparent: bool) -> u8 {
    if ch < 3 {
        d[at + ch]
    } else if transparent {
        d[at + 3]
    } else {
        0xFF
    }
}

/// Where colored pixel `k` of a run starts, relative to the run's data: 4
/// bytes per pixel with alpha, else 3.
pub open spec fn pixel_offset(transparent: bool, k: int) -> int {
    if transparent { 4 * k } else { 3 * k }
}

/// `out` with the `c` colored pixels whose bytes start at `q` painted from
/// pixel `first` on (those past the last pixel are dropped).
pub open spec fn paint(out: Seq<u8>, d: Seq<u8>, q: int, first: int, c: int, transparent: bool) -> Seq<u8> {
    Seq::new(
        out.len(),
        |b: int|
            {
                let k = b / 4 - first;
                if 0 <= k < c {
                    channel(d, q + pixel_offset(transparent, k), b % 4, transparent)
                } else {
                    out[b]
                }
            },
    )
}

/// The runs of a sprite from `p` on while `p < end` and pixels remain: each
/// run is a count of transparent pixels to skip (`u16`), a count of colored
/// pixels (`u16`), and that many colored pixels.
pub open spec fn rle_runs(d: Seq<u8>, p: int, end: int, pix: int, out: Seq<u8>, transparent: bool) -> Result<Seq<u8>, SprError>
    decreases (if p < end { end - p } else { 0 }),
{
    if !(p < end && pix < SPRITE_PIXELS) {
        Ok(out)
    } else {
        match (u16_at(d, p), u16_at(d, p + 2)) {
            (Some(t), Some(c)) => {
                let q = p + 4;
                if q + pixel_offset(transparent, c as int) > d.len() {
                    Err(SprError::UnexpectedEof)
                } else {
                    rle_runs(
                        d,
                        q + pixel_offset(transparent, c as int),
                        end,
                        pix + t + c,
                        paint(out, d, q, pix + t, c as int, transparent),
                        transparent,
                    )
                }
            },
            _ => Err(SprError::UnexpectedEof),
        }
    }
}

/// The sprite at `offset`: blank for offset 0 or past the data; else a
/// 3-byte color key, a `u16` data size (0 is blank), and runs over that many
/// bytes.
pub open spec fn spec_decode(d: Seq<u8>, offset: u32, transparent: bool) -> Result<Seq<u8>, SprError> {
    if offset == 0 || offset >= d.len() {
        Ok(blank_sprite())
    } else {
        match u16_at(d, offset + 3) {
            None => Err(SprError::UnexpectedEof),
            Some(size) => if size == 0 {
                Ok(blank_sprite())
            } else {
                rle_runs(d, offset + 5, offset + 5 + size, 0, blank_sprite(), transparent)
            },
        }
    }
}

fn eof<T>(r: Result<T, DatError>) -> (o: Result<T, SprError>)
    ensures
        match r {
            Ok(v) => o == Ok::<T, SprError>(v),
            Err(_) => o == Err::<T, SprError>(SprError::UnexpectedEof),
        },
{
    match r {
        Ok(v) => Ok(v),
        Err(_) => Err(SprError::UnexpectedEof),
    }
}

proof fn lemma_byte_pixel(b: int, pixel: int, j: int)
    requires
        0 <= j < 4,
        b == 4 * pixel + j,
    ensures
        b / 4 == pixel,
        b % 4 == j,
{
    assert(b / 4 == pixel && b % 4 == j) by (nonlinear_arith)
        requires
            0 <= j < 4,
            b == 4 * pixel + j,
    ;
}

proof fn lemma_other_pixel(b: int, pixel: int)
    requires
        0 <= b,
        !(4 * pixel <= b < 4 * pixel + 4),
    ensures
        b / 4 != pixel,
{
    assert(b / 4 != pixel) by (nonlinear_arith)
        requires
            0 <= b,
            !(4 * pixel <= b < 4 * pixel + 4),
    ;
}

/// Paint the `c` colored pixels of a run starting at pixel `first`.
fn paint_run(d: &[u8], pos: &mut usize, out: &mut Vec<u8>, first: usize, c: u16, transparent: bool)
    requires
        *old(pos) + pixel_offset(transparent, c as int) <= d@.len(),
        old(out)@.len() == SPRITE_RGBA_BYTES,
        first < SPRITE_PIXELS + 65536,
    ensures
        *final(pos) == *old(pos) + pixel_offset(transparent, c as int),
        final(out)@ == paint(old(out)@, d@, *old(pos) as int, first as int, c as int, transparent),
{
    let ghost q = *pos as int;
    let ghost out0 = out@;
    let mut k: u16 = 0;
    proof {
        assert(out@ =~= paint(out0, d@, q, first as int, 0, transparent));
    }
    while k < c
        invariant
            k <= c,
            q + pixel_offset(transparent, c as int) <= d@.len(),
            *pos == q + pixel_offset(transparent, k as int),
            first < SPRITE_PIXELS + 65536,
            out0.len() == SPRITE_RGBA_BYTES,
            out@ == paint(out0, d@, q, first as int, k as int, transparent),
        decreases c - k,
    {
        let red = d[*pos];
        let green = d[*pos + 1];
        let blue = d[*pos + 2];
        let alpha = if transparent { d[*pos + 3] } else { 0xFF };
        *pos = if transparent { *pos + 4 } else { *pos + 3 };
        let pixel = first + k as usize;
        if pixel < SPRITE_PIXELS {
            let base = pixel * 4;
            out.set(base, red);
            out.set(base + 1, green);
            out.set(base + 2, blue);
            out.set(base + 3, alpha);
        }
        proof {
            let next = paint(out0, d@, q, first as int, k + 1, transparent);
            assert forall|b: int| 0 <= b < out@.len() implies out@[b] == next[b] by {
                if 4 * pixel <= b < 4 * pixel + 4 {
                    lemma_byte_pixel(b, pixel as int, b - 4 * pixel);
                } else {
                    lemma_other_pixel(b, pixel as int);
                }
            }
            assert(out@ =~= next);
        }
        k = k + 1;
    }
}

/// Decode the run-length encoded 32x32 sprite at `offset` into RGBA bytes.
pub fn decode_sprite_rle(file_bytes: &[u8], offset: u32, is_transparent: bool) -> (r: Result<Vec<u8>, SprError>)
    ensures
        match spec_decode(file_bytes@, offset, is_transparent) {
            Ok(s) => r matches Ok(v) && v@ == s,
            Err(e) => r == Err::<Vec<u8>, SprError>(e),
        },
{
    let mut output: Vec<u8> = Vec::new();
    while output.len() < SPRITE_RGBA_BYTES
        invariant
            output@.len() <= SPRITE_RGBA_BYTES,
            forall|i: int| 0 <= i < output@.len() ==> output@[i] == 0,
        decreases SPRITE_RGBA_BYTES - output@.len(),
    {
        output.push(0);
    }
    proof {
        assert(output@ =~= blank_sprite());
    }
    if offset == 0 || offset as usize >= file_bytes.len() {
        return Ok(output);
    }
    let mut pos: usize = offset as usize;
    if file_bytes.len() - pos < 3 {
        return Err(SprError::UnexpectedEof);
    }
    pos = pos + 3;
    let data_size = eof(read_u16(file_bytes, &mut pos))?;
    if data_size == 0 {
        return Ok(output);
    }
    let start = pos;
    let ghost end = start + data_size;
    let mut pixel_index: usize = 0;
    while pos - start < data_size as usize && pixel_index < SPRITE_PIXELS
        invariant
            start <= pos <= file_bytes@.len(),
            end == start + data_size,
            start == offset + 5,
            pixel_index <= SPRITE_PIXELS + 65536 * 2,
            output@.len() == SPRITE_RGBA_BYTES,
            spec_decode(file_bytes@, offset, is_transparent) == rle_runs(
                file_bytes@,
                pos as int,
                end,
                pixel_index as int,
                output@,
                is_transparent,
            ),
        decreases (if pos < end { end - pos } else { 0 }),
    {
        let transparent_pixels = eof(read_u16(file_bytes, &mut pos))?;
        let colored_pixels = eof(read_u16(file_bytes, &mut pos))?;
        pixel_index = pixel_index + transparent_pixels as usize;
        let need: usize = if is_transparent { 4 * colored_pixels as usize } else { 3 * colored_pixels as usize };
        if file_bytes.len() - pos < need {
            return Err(SprError::UnexpectedEof);
        }
        paint_run(file_bytes, &mut pos, &mut output, pixel_index, colored_pixels, is_transparent);
        pixel_index = pixel_index + colored_pixels as usize;
    }
    Ok(output)
}

/// A parsed `.spr`: its header, the offset of each sprite, and the file data.
pub struct LegacySprReader {
    pub signature: u32,
    pub sprite_count: u32,
    pub is_extended: bool,
    pub is_transparent: bool,
    pub offsets: Vec<u32>,
    pub file_bytes: Vec<u8>,
}

/// What a `.spr` header and offset table hold.
pub struct SprView {
    pub signature: u32,
    pub sprite_count: u32,
    pub header_size: int,
    pub offsets: Seq<u32>,
}

/// The header of a `.spr`: a `u32` signature, then the sprite count (`u32`
/// when extended, else `u16`), then one `u32` offset per sprite. Fewer than
/// 6 bytes (8 when extended) or a file shorter than its offset table is an
/// error.
pub open spec fn spec_spr(d: Seq<u8>, is_extended: bool) -> Result<SprView, SprError> {
    if d.len() < 6 {
        Err(SprError::FileTooSmall)
    } else if is_extended && d.len() < 8 {
        Err(SprError::ExtendedFileTooSmall)
    } else {
        let signature = u32_at(d, 0)->Some_0;
        let count: u32 = if is_extended { u32_at(d, 4)->Some_0 } else { u16_at(d, 4)->Some_0 as u32 };
        let header: int = if is_extended { 8 } else { 6 };
        let required = header + 4 * count;
        if d.len() < required {
            Err(SprError::Truncated { required: required as u64, count, len: d.len() as u64 })
        } else {
            Ok(SprView {
                signature,
                sprite_count: count,
                header_size: header,
                offsets: Seq::new(count as nat, |i: int| u32_at(d, header + 4 * i)->Some_0),
            })
        }
    }
}

impl LegacySprReader {
    /// The offset table has one entry per sprite.
    pub open spec fn wf(&self) -> bool {
        self.offsets@.len() == self.sprite_count
    }

    /// Parse the header and offset table of the `.spr` in `file_bytes`.
    pub fn from_bytes(file_bytes: Vec<u8>, is_extended: bool, is_transparent: bool) -> (r: Result<LegacySprReader, SprError>)
        ensures
            match spec_spr(file_bytes@, is_extended) {
                Ok(v) => r matches Ok(x) && x.wf() && x.signature == v.signature && x.sprite_count == v.sprite_count
                    && x.offsets@ == v.offsets && x.is_extended == is_extended && x.is_transparent == is_transparent
                    && x.file_bytes@ == file_bytes@,
                Err(e) => r matches Err(e2) && e2 == e,
            },
    {
        if file_bytes.len() < 6 {
            return Err(SprError::FileTooSmall);
        }
        if is_extended && file_bytes.len() < 8 {
            return Err(SprError::ExtendedFileTooSmall);
        }
        let mut pos: usize = 0;
        let signature = eof(read_u32(&file_bytes, &mut pos))?;
        let sprite_count: u32 = if is_extended {
            eof(read_u32(&file_bytes, &mut pos))?
        } else {
            let c = eof(read_u16(&file_bytes, &mut pos))?;
            c as u32
        };
        let header: u64 = if is_extended { 8 } else { 6 };
        let required: u64 = header + 4 * sprite_count as u64;
        if (file_bytes.len() as u64) < required {
            return Err(SprError::Truncated { required, count: sprite_count, len: file_bytes.len() as u64 });
        }
        let ghost h: int = header as int;
        let mut offsets: Vec<u32> = Vec::new();
        let mut i: u32 = 0;
        while i < sprite_count
            invariant
                i <= sprite_count,
                h + 4 * sprite_count <= file_bytes@.len(),
                pos == h + 4 * i,
                h == (if is_extended { 8int } else { 6int }),
                offsets@ == Seq::new(i as nat, |j: int| u32_at(file_bytes@, h + 4 * j)->Some_0),
            decreases sprite_count - i,
        {
            let o = eof(read_u32(&file_bytes, &mut pos))?;
            offsets.push(o);
            proof {
                assert(offsets@ =~= Seq::new((i + 1) as nat, |j: int| u32_at(file_bytes@, h + 4 * j)->Some_0));
            }
            i = i + 1;
        }
        Ok(LegacySprReader { signature, sprite_count, is_extended, is_transparent, offsets, file_bytes })
    }

    /// What decoding sprite `id` gives: ids outside `1..=sprite_count` are
    /// refused; else the sprite at its offset.
    pub open spec fn spec_sprite(&self, id: u32) -> Result<Seq<u8>, SprError> {
        if id == 0 || id > self.sprite_count {
            Err(SprError::IdOutOfRange { id, count: self.sprite_count })
        } else {
            spec_decode(self.file_bytes@, self.offsets@[id - 1], self.is_transparent)
        }
    }

    /// Decode sprite `id` (1-based).
    pub fn decode_sprite(&self, id: u32) -> (r: Result<DecodedSprite, SprError>)
        requires
            self.wf(),
        ensures
            match self.spec_sprite(id) {
                Ok(s) => r matches Ok(x) && x.id == id && x.rgba@ == s,
                Err(e) => r matches Err(e2) && e2 == e,
            },
    {
        if id == 0 || id > self.sprite_count {
            return Err(SprError::IdOutOfRange { id, count: self.sprite_count });
        }
        let offset = self.offsets[(id - 1) as usize];
        let rgba = decode_sprite_rle(&self.file_bytes, offset, self.is_transparent)?;
        Ok(DecodedSprite { id, rgba })
    }

    /// The last id of a batch: `start + count - 1` (saturating), at most the
    /// sprite count.
    pub open spec fn batch_end(&self, start_id: u32, count: u32) -> int {
        let sum: int = if start_id + count > u32::MAX { u32::MAX as int } else { start_id + count };
        let last: int = if sum == 0 { 0 } else { sum - 1 };
        if last < self.sprite_count { last } else { self.sprite_count as int }
    }

    /// The sprites `start_id..=end`, decoded in order, up to the first error.
    pub open spec fn spec_batch(&self, id: int, end: int, acc: Seq<Seq<u8>>) -> Result<Seq<Seq<u8>>, SprError>
        decreases end + 1 - id,
    {
        if id > end || id <= 0 || id > u32::MAX {
            Ok(acc)
        } else {
            match self.spec_sprite(id as u32) {
                Err(e) => Err(e),
                Ok(s) => self.spec_batch(id + 1, end, acc.push(s)),
            }
        }
    }

    /// Decode the sprites `start_id..start_id + count` that exist (1-based),
    /// in order; an empty list when there are none.
    pub fn decode_batch(&self, start_id: u32, count: u32) -> (r: Result<Vec<DecodedSprite>, SprError>)
        requires
            self.wf(),
        ensures
            start_id == 0 || start_id > self.batch_end(start_id, count) ==> (r matches Ok(v) && v@.len() == 0),
            r matches Ok(v) ==> v@.len() <= count && forall|i: int| 0 <= i < v@.len() ==> (#[trigger] v@[i]).id == start_id + i,
            start_id != 0 && start_id <= self.batch_end(start_id, count) ==> match self.spec_batch(
                start_id as int,
                self.batch_end(start_id, count),
                Seq::empty(),
            ) {
                Ok(ss) => r matches Ok(v) && v@.len() == ss.len() && forall|i: int| 0 <= i < ss.len() ==> (#[trigger] v@[i]).rgba@ == ss[i]
                    && v@[i].id == start_id + i,
                Err(e) => r matches Err(e2) && e2 == e,
            },
    {
        let sum = start_id.saturating_add(count);
        let last = sum.saturating_sub(1);
        let end_id = if last < self.sprite_count { last } else { self.sprite_count };
        if start_id == 0 || start_id > end_id {
            return Ok(Vec::new());
        }
        let ghost end = end_id as int;
        let mut out: Vec<DecodedSprite> = Vec::new();
        let ghost mut acc: Seq<Seq<u8>> = Seq::empty();
        let mut id: u64 = start_id as u64;
        while id <= end_id as u64
            invariant
                self.wf(),
                start_id != 0,
                start_id <= end_id,
                end == self.batch_end(start_id, count),
                start_id <= id,
                id <= end_id + 1,
                end_id <= self.sprite_count,
                end == end_id,
                out@.len() == acc.len(),
                acc.len() == id - start_id,
                forall|i: int| 0 <= i < acc.len() ==> (#[trigger] out@[i]).rgba@ == acc[i] && out@[i].id == start_id + i,
                self.spec_batch(start_id as int, end, Seq::empty()) == self.spec_batch(id as int, end, acc),
                end_id <= start_id + count - 1,
            decreases end_id + 1 - id,
        {
            let s = self.decode_sprite(id as u32)?;
            proof {
                acc = acc.push(s.rgba@);
            }
            out.push(s);
            id = id + 1;
        }
        Ok(out)
    }

    /// Decode every sprite, in id order.
    pub fn decode_all_sprites(&self) -> (r: Result<Vec<DecodedSprite>, SprError>)
        requires
            self.wf(),
        ensures
            self.sprite_count == 0 ==> (r matches Ok(v) && v@.len() == 0),
            self.sprite_count > 0 ==> match self.spec_batch(1, self.batch_end(1, self.sprite_count), Seq::empty()) {
                Ok(ss) => r matches Ok(v) && v@.len() == ss.len() && forall|i: int| 0 <= i < ss.len() ==> (#[trigger] v@[i]).rgba@ == ss[i]
                    && v@[i].id == 1 + i,
                Err(e) => r matches Err(e2) && e2 == e,
            },
    {
        self.decode_batch(1, self.sprite_count)
    }
}

/// What the first bytes of a `.spr` and its length say: the signature, the
/// sprite count, and whether the file is extended. It is read as extended
/// when the file has at least 8 bytes and either its `u32` count exceeds
/// 65535, or the `u32` offset table fits the file while the `u16` one does
/// not match the file length exactly.
pub open spec fn spec_spr_header(head: Seq<u8>, file_len: u64) -> Option<(u32, u32, bool)> {
    match (u32_at(head, 0), u16_at(head, 4)) {
        (Some(sig), Some(c16)) => {
            let expected16 = 6 + 4 * c16;
            if file_len >= 8 {
                match u32_at(head, 4) {
                    None => None,
                    Some(c32) => if c32 > 65535 || (8 + 4 * c32 <= file_len && expected16 != file_len) {
                        Some((sig, c32, true))
                    } else {
                        Some((sig, c16 as u32, false))
                    },
                }
            } else {
                Some((sig, c16 as u32, false))
            }
        },
        _ => None,
    }
}

/// Inspect a `.spr` header from its first bytes and the file length.
pub fn inspect_spr_header(head: &[u8], file_len: u64) -> (r: Result<(u32, u32, bool), SprError>)
    ensures
        match spec_spr_header(head@, file_len) {
            Some(h) => r == Ok::<(u32, u32, bool), SprError>(h),
            None => r == Err::<(u32, u32, bool), SprError>(SprError::UnexpectedEof),
        },
{
    let mut pos: usize = 0;
    let signature = eof(read_u32(head, &mut pos))?;
    let count_u16 = eof(read_u16(head, &mut pos))?;
    let expected_u16_bytes: u64 = 6 + 4 * count_u16 as u64;
    let mut is_extended = false;
    let mut final_count = count_u16 as u32;
    if file_len >= 8 {
        let mut p4: usize = 4;
        let count_u32 = eof(read_u32(head, &mut p4))?;
        let expected_u32_bytes: u64 = 8 + 4 * count_u32 as u64;
        if count_u32 > 65535 || (expected_u32_bytes <= file_len && expected_u16_bytes != file_len) {
            is_extended = true;
            final_count = count_u32;
        }
    }
    Ok((signature, final_count, is_extended))
}

/// Every run keeps the sprite at 4096 bytes.
proof fn lemma_runs_len(d: Seq<u8>, p: int, end: int, pix: int, out: Seq<u8>, transparent: bool)
    requires
        out.len() == SPRITE_RGBA_BYTES,
    ensures
        rle_runs(d, p, end, pix, out, transparent) matches Ok(s) ==> s.len() == SPRITE_RGBA_BYTES,
    decreases (if p < end { end - p } else { 0 }),
{
    if p < end && pix < SPRITE_PIXELS {
        match (u16_at(d, p), u16_at(d, p + 2)) {
            (Some(t), Some(c)) => {
                let q = p + 4;
                if q + pixel_offset(transparent, c as int) <= d.len() {
                    lemma_runs_len(
                        d,
                        q + pixel_offset(transparent, c as int),
                        end,
                        pix + t + c,
                        paint(out, d, q, pix + t, c as int, transparent),
                        transparent,
                    );
                }
            },
            _ => {},
        }
    }
}

impl LegacySprReader {
    /// A batch that decodes holds one sprite per id of its range, after
    /// what it started with.
    pub proof fn lemma_batch_len(&self, id: int, end: int, acc: Seq<Seq<u8>>)
        requires
            0 < id,
            end <= u32::MAX,
        ensures
            self.spec_batch(id, end, acc) matches Ok(ss) ==> ss.len() == acc.len() + (if id > end { 0 } else { end + 1 - id }),
        decreases end + 1 - id,
    {
        if id <= end {
            match self.spec_sprite(id as u32) {
                Err(_) => {},
                Ok(s) => {
                    self.lemma_batch_len(id + 1, end, acc.push(s));
                },
            }
        }
    }
}

/// A decoded sprite is always a full 32x32 RGBA image: 4096 bytes.
pub proof fn lemma_decoded_sprite_len(d: Seq<u8>, offset: u32, transparent: bool)
    ensures
        spec_decode(d, offset, transparent) matches Ok(s) ==> s.len() == SPRITE_RGBA_BYTES,
{
    lemma_runs_len(d, offset + 5, offset + 5 + u16_at(d, offset + 3)->Some_0, 0, blank_sprite(), transparent);
}

/// A sprite of one run decodes to that run: the pixels before it stay fully
/// transparent (all four bytes 0), and colored pixel `k` of the run takes its
/// red, green and blue from the three bytes stored for it, and its alpha
/// from the fourth byte in a transparent `.spr` (4 bytes per pixel), or 0xFF
/// in an opaque one (3 bytes per pixel).
pub proof fn lemma_single_run_pixels(d: Seq<u8>, offset: u32, transparent: bool, t: u16, c: u16, k: int, j: int, ch: int)
    requires
        0 < offset < d.len(),
        u16_at(d, offset + 3) matches Some(size) && size == 4 + (if transparent { 4 * c } else { 3 * c }),
        u16_at(d, offset + 5) == Some(t),
        u16_at(d, offset + 7) == Some(c),
        offset + 9 + (if transparent { 4 * c } else { 3 * c }) <= d.len(),
        0 <= k < c,
        t + k < SPRITE_PIXELS,
        0 <= j < t,
        0 <= ch < 4,
    ensures
        spec_decode(d, offset, transparent) matches Ok(s) && ({
            let q = offset + 9 + (if transparent { 4 * k } else { 3 * k });
            &&& s.len() == 4096
            &&& s[4 * (t + k)] == d[q]
            &&& s[4 * (t + k) + 1] == d[q + 1]
            &&& s[4 * (t + k) + 2] == d[q + 2]
            &&& s[4 * (t + k) + 3] == (if transparent { d[q + 3] } else { 0xFFu8 })
            &&& s[4 * j + ch] == 0
        }),
{
    let size = u16_at(d, offset + 3)->Some_0;
    let p = offset + 5;
    let end = p + size;
    let q0 = p + 4;
    let po = pixel_offset(transparent, c as int);
    assert(po == (if transparent { 4 * c } else { 3 * c }));
    let out = paint(blank_sprite(), d, q0, t as int, c as int, transparent);
    assert(rle_runs(d, q0 + po, end, t + c, out, transparent) == Ok::<Seq<u8>, SprError>(out));
    assert(rle_runs(d, p, end, 0, blank_sprite(), transparent) == rle_runs(d, q0 + po, end, 0 + t + c, out, transparent));
    assert(spec_decode(d, offset, transparent) == Ok::<Seq<u8>, SprError>(out));
    let pixel = t + k;
    let qk = q0 + pixel_offset(transparent, k);
    assert(qk == offset + 9 + (if transparent { 4 * k } else { 3 * k }));
    lemma_byte_pixel(4 * pixel, pixel, 0);
    lemma_byte_pixel(4 * pixel + 1, pixel, 1);
    lemma_byte_pixel(4 * pixel + 2, pixel, 2);
    lemma_byte_pixel(4 * pixel + 3, pixel, 3);
    lemma_byte_pixel(4 * j + ch, j, ch);
}

/// The header of a `.spr` read back: the signature is the little-endian
/// `u32` at 0; the sprite count the `u32` at 4 in an extended file, else the
/// `u16` at 4; and offset `i` (of sprite `i + 1`) the `u32` at
/// `header + 4 * i`, the header being 8 bytes extended and 6 otherwise; the
/// file holds the whole table.
pub proof fn lemma_spr_header_layout(d: Seq<u8>, is_extended: bool)
    ensures
        spec_spr(d, is_extended) matches Ok(v) ==> {
            let h: int = if is_extended { 8 } else { 6 };
            &&& v.signature == (d[0] + 256 * d[1] + 65536 * d[2] + 16777216 * d[3]) as u32
            &&& v.sprite_count == (if is_extended {
                (d[4] + 256 * d[5] + 65536 * d[6] + 16777216 * d[7]) as u32
            } else {
                (d[4] + 256 * d[5]) as u32
            })
            &&& v.header_size == h
            &&& h + 4 * v.sprite_count <= d.len()
            &&& v.offsets.len() == v.sprite_count
            &&& forall|i: int|
                0 <= i < v.sprite_count ==> #[trigger] v.offsets[i] == (d[h + 4 * i] + 256 * d[h + 4 * i + 1] + 65536 * d[h
                    + 4 * i + 2] + 16777216 * d[h + 4 * i + 3]) as u32
        },
{
}

impl LegacySprReader {
    /// Sprite `id` (1-based) is the one stored at the `id`-th offset of the
    /// table, decoded with the reader's transparency; id 0 and ids past the
    /// count are refused.
    pub proof fn lemma_sprite_at_its_offset(&self, id: u32)
        ensures
            1 <= id <= self.sprite_count ==> self.spec_sprite(id) == spec_decode(
                self.file_bytes@,
                self.offsets@[id as int - 1],
                self.is_transparent,
            ),
            (id == 0 || id > self.sprite_count) ==> self.spec_sprite(id) is Err,
    {
    }
}

} // verus!
