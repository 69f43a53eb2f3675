//! RSA login-modulus detection and replacement in `client.exe`.
//!
//! The client stores its 1024-bit RSA public modulus as a fixed-length
//! 256-character hex ASCII string. Detection anchors on the unique run of
//! exactly 256 hex characters bounded by non-hex bytes; a replace is an
//! in-place overwrite of those 256 bytes, applied only on a unique match.
use vstd::prelude::*;
use crate::lua::decimal;
use crate::text::{append_decimal, append_str, byte_chars, chars_of, is_whitespace, is_ws, string_from_bytes, upper_byte};

verus! {

/// The OTServ/TFS/Canary default modulus (uppercase hex), shown as a hint.
pub const OT_DEFAULT_MODULUS: &'static str = "9B646903B45B07AC956568D87353BD7165139DD7940703B03E6DD079399661B4A837AA60561D7CCB9452FA0080594909882AB5BCA58A1A1B35F8B1059B72B1212611C6152AD3DBB3CFBEE7ADC142A75D3D75971509C321C5C24A5BD51FD460F01B4E15BEB0DE1930528A5D3F15C1E3CBF5C401D6777E10ACAAB33DBE8D5B7FF5";

/// Fixed on-disk length of the modulus string (1024-bit = 128 bytes = 256 hex chars).
pub const MODULUS_HEX_LEN: usize = 256;

/// State of the RSA modulus in a binary.
pub struct RsaStatus {
    pub found: bool,
    /// The current modulus as uppercase hex, if found.
    pub modulus: Option<String>,
    /// File offset of the modulus string.
    pub offset: Option<usize>,
    /// True when the current modulus equals the known OT default.
    pub is_ot_default: bool,
}

impl RsaStatus {
    /// The status of a binary with no modulus.
    pub fn not_found() -> (r: RsaStatus)
        ensures
            !r.found,
            r.modulus is None,
            r.offset is None,
            !r.is_ot_default,
    {
        RsaStatus { found: false, modulus: None, offset: None, is_ot_default: false }
    }
}

/// An ASCII hex digit byte: `0-9`, `A-F` or `a-f`.
pub open spec fn hex_byte(b: u8) -> bool {
    (48 <= b <= 57) || (65 <= b <= 70) || (97 <= b <= 102)
}

/// An ASCII hex digit character.
pub open spec fn hex_char(c: char) -> bool {
    let u = c as u32;
    (48 <= u <= 57) || (65 <= u <= 70) || (97 <= u <= 102)
}

/// Whether `b` is an ASCII hex digit.
pub fn is_hex(b: u8) -> (r: bool)
    ensures
        r == hex_byte(b),
{
    (48 <= b && b <= 57) || (65 <= b && b <= 70) || (97 <= b && b <= 102)
}

/// `s` starts a maximal run of exactly 256 hex bytes.
pub open spec fn is_candidate(b: Seq<u8>, s: int) -> bool {
    &&& 0 <= s
    &&& s + 256 <= b.len()
    &&& (s == 0 || !hex_byte(b[s - 1]))
    &&& forall|k: int| s <= k < s + 256 ==> #[trigger] hex_byte(b[k])
    &&& (s + 256 == b.len() || !hex_byte(b[s + 256]))
}

/// Start offsets, at or after `i`, of every maximal run of exactly 256 hex
/// bytes, in increasing order.
pub open spec fn cands_from(b: Seq<u8>, i: int) -> Seq<int>
    decreases b.len() + 1 - i,
{
    if i < 0 || i >= b.len() {
        Seq::empty()
    } else if is_candidate(b, i) {
        seq![i] + cands_from(b, i + 1)
    } else {
        cands_from(b, i + 1)
    }
}

/// All modulus candidates of a binary.
pub open spec fn modulus_cands(b: Seq<u8>) -> Seq<int> {
    cands_from(b, 0)
}

/// Candidates depend only on which bytes are hex digits.
proof fn lemma_cands_hex_mask(b1: Seq<u8>, b2: Seq<u8>, i: int)
    requires
        b1.len() == b2.len(),
        forall|k: int| 0 <= k < b1.len() ==> hex_byte(#[trigger] b1[k]) == hex_byte(b2[k]),
    ensures
        cands_from(b1, i) == cands_from(b2, i),
    decreases b1.len() + 1 - i,
{
    if 0 <= i < b1.len() {
        lemma_cands_hex_mask(b1, b2, i + 1);
        assert(is_candidate(b1, i) == is_candidate(b2, i)) by {
            if is_candidate(b1, i) {
                assert forall|k: int| i <= k < i + 256 implies #[trigger] hex_byte(b2[k]) by {
                    assert(hex_byte(b1[k]));
                }
            }
            if is_candidate(b2, i) {
                assert forall|k: int| i <= k < i + 256 implies #[trigger] hex_byte(b1[k]) by {
                    assert(hex_byte(b2[k]));
                }
            }
        }
    }
}

/// No position strictly inside a run is a candidate.
proof fn lemma_skip_run_interior(b: Seq<u8>, a: int, e: int)
    requires
        0 < a <= e <= b.len(),
        forall|k: int| a - 1 <= k < e ==> #[trigger] hex_byte(b[k]),
    ensures
        cands_from(b, a) == cands_from(b, e),
    decreases e - a,
{
    if a < e {
        assert(!is_candidate(b, a));
        lemma_skip_run_interior(b, a + 1, e);
    }
}

/// Offsets of every run of exactly 256 hex bytes bounded by non-hex bytes
/// (a longer run is not clipped down to 256).
fn modulus_candidates(bytes: &[u8]) -> (out: Vec<usize>)
    ensures
        out@.map_values(|o: usize| o as int) == modulus_cands(bytes@),
{
    let mut out: Vec<usize> = Vec::new();
    let n = bytes.len();
    let mut i: usize = 0;
    while i < n
        invariant
            n == bytes@.len(),
            i <= n,
            0 < i < n ==> (!hex_byte(bytes@[i - 1]) || !hex_byte(bytes@[i as int])),
            out@.map_values(|o: usize| o as int) + cands_from(bytes@, i as int) == modulus_cands(bytes@),
        decreases n - i,
    {
        if !is_hex(bytes[i]) {
            assert(!is_candidate(bytes@, i as int));
            i = i + 1;
            continue;
        }
        let start = i;
        while i < n && is_hex(bytes[i])
            invariant
                n == bytes@.len(),
                start <= i <= n,
                forall|k: int| start <= k < i ==> #[trigger] hex_byte(bytes@[k]),
            decreases n - i,
        {
            i = i + 1;
        }
        // [start, i) is a maximal hex run.
        proof {
            if start + 1 < i {
                lemma_skip_run_interior(bytes@, start + 1, i as int);
            }
            if start + 1 == i {
                assert(cands_from(bytes@, start + 1) == cands_from(bytes@, i as int));
            }
            assert(is_candidate(bytes@, start as int) == (i - start == 256)) by {
                if is_candidate(bytes@, start as int) {
                    if i < start + 256 {
                        assert(hex_byte(bytes@[i as int]));
                    }
                    if i > start + 256 {
                        assert(hex_byte(bytes@[start + 256]));
                    }
                }
            }
        }
        let ghost prev = out@;
        if i - start == MODULUS_HEX_LEN {
            out.push(start);
            assert(out@.map_values(|o: usize| o as int) =~= prev.map_values(|o: usize| o as int) + seq![start as int]);
        }
    }
    assert(cands_from(bytes@, i as int) =~= Seq::<int>::empty());
    out
}

/// What `detect` reports: the offset of the unique candidate, none, or an
/// ambiguity error.
pub open spec fn spec_detect(b: Seq<u8>) -> Result<Option<int>, ()> {
    let c = modulus_cands(b);
    if c.len() == 0 {
        Ok(None)
    } else if c.len() == 1 {
        Ok(Some(c[0]))
    } else {
        Err(())
    }
}

/// The uppercase form of the 256 bytes at `off`, as characters.
pub open spec fn modulus_at(b: Seq<u8>, off: int) -> Seq<char> {
    byte_chars(b.subrange(off, off + 256).map_values(|x: u8| upper_byte(x)))
}

/// Every candidate is a full run of 256 hex bytes inside the buffer.
proof fn lemma_cands_valid(b: Seq<u8>, i: int)
    ensures
        forall|k: int| 0 <= k < cands_from(b, i).len() ==> is_candidate(b, #[trigger] cands_from(b, i)[k]),
    decreases b.len() + 1 - i,
{
    if 0 <= i < b.len() {
        lemma_cands_valid(b, i + 1);
        let rest = cands_from(b, i + 1);
        if is_candidate(b, i) {
            let c = cands_from(b, i);
            assert forall|k: int| 0 <= k < c.len() implies is_candidate(b, #[trigger] c[k]) by {
                if k > 0 {
                    assert(c[k] == rest[k - 1]);
                }
            }
        }
    }
}

/// Whether the characters `v` spell the OT default modulus.
fn equals_ot_default(v: &Vec<u8>) -> (r: bool)
    ensures
        r == (byte_chars(v@) == OT_DEFAULT_MODULUS@),
{
    let ot = chars_of(OT_DEFAULT_MODULUS);
    if ot.len() != v.len() {
        assert(byte_chars(v@).len() != OT_DEFAULT_MODULUS@.len());
        return false;
    }
    let mut i: usize = 0;
    while i < v.len()
        invariant
            ot@ == OT_DEFAULT_MODULUS@,
            ot@.len() == v@.len(),
            i <= v.len(),
            forall|k: int| 0 <= k < i ==> ot@[k] == v@[k] as char,
        decreases v.len() - i,
    {
        if ot[i] != v[i] as char {
            assert(byte_chars(v@)[i as int] != OT_DEFAULT_MODULUS@[i as int]);
            return false;
        }
        i = i + 1;
    }
    assert(byte_chars(v@) =~= OT_DEFAULT_MODULUS@);
    true
}

/// Detect the RSA modulus. Errors when more than one candidate exists.
pub fn detect(bytes: &[u8]) -> (r: Result<RsaStatus, String>)
    ensures
        match spec_detect(bytes@) {
            Ok(None) => {
                &&& r matches Ok(s)
                &&& !s.found
                &&& s.modulus is None
                &&& s.offset is None
                &&& !s.is_ot_default
            },
            Ok(Some(off)) => {
                &&& r matches Ok(s)
                &&& s.found
                &&& s.offset == Some(off as usize)
                &&& 0 <= off && off + 256 <= bytes@.len()
                &&& s.modulus matches Some(m)
                &&& m@ == modulus_at(bytes@, off)
                &&& s.is_ot_default == (m@ == OT_DEFAULT_MODULUS@)
            },
            Err(_) => r matches Err(e) && e@ == candidates_text(modulus_cands(bytes@).len()),
        },
{
    let cands = modulus_candidates(bytes);
    assert(cands@.len() == modulus_cands(bytes@).len()) by {
        assert(cands@.map_values(|o: usize| o as int).len() == cands@.len());
    }
    if cands.len() == 0 {
        Ok(RsaStatus::not_found())
    } else if cands.len() == 1 {
        let off = cands[0];
        proof {
            assert(cands@.map_values(|o: usize| o as int)[0] == off as int);
            lemma_cands_valid(bytes@, 0);
            assert(is_candidate(bytes@, off as int));
        }
        let mut hex: Vec<u8> = Vec::new();
        let mut k: usize = 0;
        while k < MODULUS_HEX_LEN
            invariant
                off + 256 <= bytes.len(),
                k <= 256,
                hex@ == bytes@.subrange(off as int, off + k).map_values(|x: u8| upper_byte(x)),
            decreases 256 - k,
        {
            let b = bytes[off + k];
            let u = if 97 <= b && b <= 122 { b - 32 } else { b };
            hex.push(u);
            assert(bytes@.subrange(off as int, off + k + 1).map_values(|x: u8| upper_byte(x))
                =~= bytes@.subrange(off as int, off + k).map_values(|x: u8| upper_byte(x)).push(u));
            k = k + 1;
        }
        let is_ot = equals_ot_default(&hex);
        let modulus = string_from_bytes(&hex);
        Ok(RsaStatus { found: true, is_ot_default: is_ot, modulus: Some(modulus), offset: Some(off) })
    } else {
        Err(candidates_message(cands.len()))
    }
}

/// The error text for several candidate modulus strings.
/// The refusal to patch when `n` candidate strings were found.
pub open spec fn candidates_text(n: nat) -> Seq<char> {
    "Found "@ + byte_chars(decimal(n)) + " candidate RSA modulus strings \u{2014} refusing to guess which one to patch."@
}

fn candidates_message(n: usize) -> (r: String)
    ensures
        r@ == candidates_text(n as nat),
{
    let mut s = String::new();
    append_str(&mut s, "Found ");
    append_decimal(&mut s, n as u64);
    append_str(&mut s, " candidate RSA modulus strings \u{2014} refusing to guess which one to patch.");
    s
}

/// The error text for a modulus wider than the client's slot.
/// The refusal of a modulus of `n` hex characters, wider than the slot.
pub open spec fn oversize_text(n: nat) -> Seq<char> {
    "Modulus is "@ + byte_chars(decimal(n)) + " hex chars; the client slot holds a 1024-bit key ("@
        + byte_chars(decimal(MODULUS_HEX_LEN as nat)) + " hex chars max)."@
}

fn oversize_message(n: usize) -> (r: String)
    ensures
        r@ == oversize_text(n as nat),
{
    let mut s = String::new();
    append_str(&mut s, "Modulus is ");
    append_decimal(&mut s, n as u64);
    append_str(&mut s, " hex chars; the client slot holds a 1024-bit key (");
    append_decimal(&mut s, MODULUS_HEX_LEN as u64);
    append_str(&mut s, " hex chars max).");
    s
}

/// `s` with every whitespace character removed.
pub open spec fn strip_ws(s: Seq<char>) -> Seq<char>
    decreases s.len(),
{
    if s.len() == 0 {
        s
    } else if is_ws(s.last()) {
        strip_ws(s.drop_last())
    } else {
        strip_ws(s.drop_last()).push(s.last())
    }
}

/// `char::to_ascii_uppercase`.
pub open spec fn upper_char(c: char) -> char {
    if 97 <= (c as u32) <= 122 { ((c as u32) - 32) as char } else { c }
}

/// The canonical 256-char form of hex input: uppercase, left-padded with `0`.
pub open spec fn padded_upper(cleaned: Seq<char>) -> Seq<char> {
    Seq::new((256 - cleaned.len()) as nat, |k: int| '0') + cleaned.map_values(|c: char| upper_char(c))
}

/// What `normalize_modulus` decides about `input`.
pub open spec fn spec_normalize(input: Seq<char>) -> Option<Seq<char>> {
    let c = strip_ws(input);
    if c.len() == 0 || !(forall|k: int| 0 <= k < c.len() ==> hex_char(#[trigger] c[k])) || c.len() > 256 {
        None
    } else {
        Some(padded_upper(c))
    }
}

/// Normalize user input to canonical 256-char uppercase hex: strip
/// whitespace, uppercase, left-pad with zeros. Errors on an empty value, a
/// non-hex character or a value wider than 128 bytes.
pub fn normalize_modulus(input: &str) -> (r: Result<String, String>)
    ensures
        match spec_normalize(input@) {
            Some(n) => r matches Ok(s) && s@ == n,
            None => r is Err,
        },
        strip_ws(input@).len() == 0 ==> (r matches Err(e) && e@ == "Modulus is empty."@),
        strip_ws(input@).len() > 0 && !(forall|k: int| 0 <= k < strip_ws(input@).len() ==> hex_char(#[trigger] strip_ws(input@)[k]))
            ==> (r matches Err(e) && e@ == "Modulus must be hexadecimal (0-9, A-F)."@),
        strip_ws(input@).len() > 256 && (forall|k: int| 0 <= k < strip_ws(input@).len() ==> hex_char(#[trigger] strip_ws(input@)[k]))
            ==> (r matches Err(e) && e@ == oversize_text(strip_ws(input@).len())),
{
    match normalize_bytes(input) {
        Ok(v) => {
            let s = string_from_bytes(&v);
            Ok(s)
        },
        Err(e) => Err(e),
    }
}

/// The normalized modulus as ASCII bytes.
fn normalize_bytes(input: &str) -> (r: Result<Vec<u8>, String>)
    ensures
        match spec_normalize(input@) {
            Some(n) => r matches Ok(v) && byte_chars(v@) == n && v@.len() == 256
                && (forall|k: int| 0 <= k < 256 ==> hex_byte(#[trigger] v@[k])),
            None => r is Err,
        },
        strip_ws(input@).len() == 0 ==> (r matches Err(e) && e@ == "Modulus is empty."@),
        strip_ws(input@).len() > 0 && !(forall|k: int| 0 <= k < strip_ws(input@).len() ==> hex_char(#[trigger] strip_ws(input@)[k]))
            ==> (r matches Err(e) && e@ == "Modulus must be hexadecimal (0-9, A-F)."@),
        strip_ws(input@).len() > 256 && (forall|k: int| 0 <= k < strip_ws(input@).len() ==> hex_char(#[trigger] strip_ws(input@)[k]))
            ==> (r matches Err(e) && e@ == oversize_text(strip_ws(input@).len())),
{
    let chars = chars_of(input);
    let mut cleaned: Vec<char> = Vec::new();
    let mut i: usize = 0;
    while i < chars.len()
        invariant
            chars@ == input@,
            i <= chars@.len(),
            cleaned@ == strip_ws(chars@.take(i as int)),
        decreases chars.len() - i,
    {
        let c = chars[i];
        assert(chars@.take(i + 1).drop_last() =~= chars@.take(i as int));
        if !is_whitespace(c) {
            cleaned.push(c);
        }
        i = i + 1;
    }
    assert(chars@.take(chars.len() as int) =~= chars@);
    let ghost c = cleaned@;
    if cleaned.len() == 0 {
        return Err(String::from_str("Modulus is empty."));
    }
    let mut j: usize = 0;
    while j < cleaned.len()
        invariant
            c == cleaned@,
            c == strip_ws(input@),
            c.len() > 0,
            j <= c.len(),
            forall|k: int| 0 <= k < j ==> hex_char(#[trigger] c[k]),
        decreases cleaned.len() - j,
    {
        let u = cleaned[j] as u32;
        if !((48 <= u && u <= 57) || (65 <= u && u <= 70) || (97 <= u && u <= 102)) {
            assert(!hex_char(c[j as int]));
            return Err(String::from_str("Modulus must be hexadecimal (0-9, A-F)."));
        }
        j = j + 1;
    }
    if cleaned.len() > MODULUS_HEX_LEN {
        return Err(oversize_message(cleaned.len()));
    }
    let pad = MODULUS_HEX_LEN - cleaned.len();
    let mut out: Vec<u8> = Vec::new();
    let mut p: usize = 0;
    while p < pad
        invariant
            p <= pad,
            out@.len() == p,
            forall|k: int| 0 <= k < p ==> out@[k] == 48u8,
        decreases pad - p,
    {
        out.push(48u8);
        p = p + 1;
    }
    let mut q: usize = 0;
    while q < cleaned.len()
        invariant
            c == cleaned@,
            c == strip_ws(input@),
            c.len() <= 256,
            pad == 256 - c.len(),
            forall|k: int| 0 <= k < c.len() ==> hex_char(#[trigger] c[k]),
            q <= c.len(),
            out@.len() == pad + q,
            forall|k: int| 0 <= k < pad ==> out@[k] == 48u8,
            forall|k: int| 0 <= k < q ==> out@[pad + k] as char == upper_char(#[trigger] c[k]) && hex_byte(out@[pad + k]),
        decreases cleaned.len() - q,
    {
        let w = cleaned[q] as u32;
        assert(hex_char(c[q as int]));
        let b: u8 = if 97 <= w && w <= 122 { (w - 32) as u8 } else { w as u8 };
        out.push(b);
        q = q + 1;
    }
    proof {
        let n = padded_upper(c);
        assert forall|k: int| 0 <= k < 256 implies byte_chars(out@)[k] == n[k] && hex_byte(#[trigger] out@[k]) by {
            if k >= pad {
                let cc = c[k - pad];
                assert(n[k] == upper_char(cc));
                assert(out@[pad + (k - pad)] as char == upper_char(cc));
            }
        }
        assert(byte_chars(out@) =~= n);
    }
    Ok(out)
}

/// Overwrite the modulus in place with `new_hex`, normalized. Errors, writing
/// nothing, unless the input is valid and the current modulus is uniquely
/// located.
pub fn set_modulus(bytes: &mut [u8], new_hex: &str) -> (r: Result<RsaStatus, String>)
    ensures
        match (spec_normalize(new_hex@), spec_detect(old(bytes)@)) {
            (Some(n), Ok(Some(off))) => {
                &&& r matches Ok(s)
                &&& s.found
                &&& s.offset == Some(off as usize)
                &&& s.modulus matches Some(m)
                &&& m@ == n
                &&& s.is_ot_default == (n == OT_DEFAULT_MODULUS@)
                &&& final(bytes)@.len() == old(bytes)@.len()
                &&& byte_chars(final(bytes)@.subrange(off, off + 256)) == n
                &&& final(bytes)@.subrange(0, off) == old(bytes)@.subrange(0, off)
                &&& final(bytes)@.subrange(off + 256, old(bytes)@.len() as int)
                    == old(bytes)@.subrange(off + 256, old(bytes)@.len() as int)
                &&& spec_detect(final(bytes)@) == Ok::<Option<int>, ()>(Some(off))
                &&& modulus_at(final(bytes)@, off) == n
            },
            _ => {
                &&& r is Err
                &&& final(bytes)@ == old(bytes)@
            },
        },
        strip_ws(new_hex@).len() == 0 ==> (r matches Err(e) && e@ == "Modulus is empty."@),
        strip_ws(new_hex@).len() > 0 && !(forall|k: int| 0 <= k < strip_ws(new_hex@).len() ==> hex_char(#[trigger] strip_ws(new_hex@)[k]))
            ==> (r matches Err(e) && e@ == "Modulus must be hexadecimal (0-9, A-F)."@),
        strip_ws(new_hex@).len() > 256 && (forall|k: int| 0 <= k < strip_ws(new_hex@).len() ==> hex_char(#[trigger] strip_ws(new_hex@)[k]))
            ==> (r matches Err(e) && e@ == oversize_text(strip_ws(new_hex@).len())),
        spec_normalize(new_hex@) is Some && spec_detect(old(bytes)@) is Err ==> (r matches Err(e) && e@
            == candidates_text(modulus_cands(old(bytes)@).len())),
        spec_normalize(new_hex@) is Some && spec_detect(old(bytes)@) == Ok::<Option<int>, ()>(None) ==> (r matches Err(e) && e@
            == "RSA modulus not found in this binary \u{2014} unknown or already-modified build."@),
{
    let normalized = match normalize_bytes(new_hex) {
        Ok(v) => v,
        Err(e) => return Err(e),
    };
    let status = match detect(bytes) {
        Ok(s) => s,
        Err(e) => return Err(e),
    };
    let off = match status.offset {
        Some(o) => o,
        None => return Err(String::from_str("RSA modulus not found in this binary \u{2014} unknown or already-modified build.")),
    };
    proof {
        lemma_cands_valid(bytes@, 0);
        assert(is_candidate(bytes@, modulus_cands(bytes@)[0]));
    }
    let ghost before = bytes@;
    let mut k: usize = 0;
    while k < MODULUS_HEX_LEN
        invariant
            before.len() == bytes@.len(),
            off + 256 <= bytes.len(),
            normalized@.len() == 256,
            k <= 256,
            forall|x: int| 0 <= x < k ==> bytes@[off + x] == normalized@[x],
            forall|x: int| 0 <= x < before.len() && !(off <= x < off + k) ==> bytes@[x] == before[x],
        decreases 256 - k,
    {
        bytes[off + k] = normalized[k];
        k = k + 1;
    }
    proof {
        let after = bytes@;
        assert(after.subrange(off as int, off + 256) =~= normalized@);
        assert(after.subrange(0, off as int) =~= before.subrange(0, off as int));
        assert(after.subrange(off + 256, before.len() as int) =~= before.subrange(off + 256, before.len() as int));
        assert forall|x: int| 0 <= x < after.len() implies hex_byte(#[trigger] after[x]) == hex_byte(before[x]) by {
            if off <= x < off + 256 {
                assert(hex_byte(normalized@[x - off]));
                assert(hex_byte(before[x]));
            }
        }
        lemma_cands_hex_mask(after, before, 0);
        assert forall|x: int| 0 <= x < 256 implies upper_byte(#[trigger] normalized@[x]) == normalized@[x] by {
            assert(byte_chars(normalized@)[x] == padded_upper(strip_ws(new_hex@))[x]);
        }
        assert(after.subrange(off as int, off + 256).map_values(|x: u8| upper_byte(x)) =~= normalized@);
    }
    let is_ot = equals_ot_default(&normalized);
    let modulus = string_from_bytes(&normalized);
    Ok(RsaStatus { found: true, is_ot_default: is_ot, modulus: Some(modulus), offset: Some(off) })
}

/// Removing whitespace from text that holds none gives it back.
proof fn lemma_strip_ws_none(s: Seq<char>)
    requires
        forall|k: int| 0 <= k < s.len() ==> !is_ws(#[trigger] s[k]),
    ensures
        strip_ws(s) == s,
    decreases s.len(),
{
    if s.len() > 0 {
        assert(!is_ws(s[s.len() - 1]));
        lemma_strip_ws_none(s.drop_last());
        assert(s.drop_last().push(s.last()) =~= s);
    }
}

/// `normalize_modulus` succeeds exactly when the input without whitespace
/// is non-empty, all hex digits and at most 256 of them; it then gives that
/// hex uppercased and left-padded with `0` to 256 characters, every one of
/// them in `0-9`/`A-F`; and normalizing that result gives it back.
pub proof fn lemma_normalize_modulus_law(input: Seq<char>)
    ensures
        spec_normalize(input) is Some <==> ({
            let c = strip_ws(input);
            c.len() > 0 && (forall|k: int| 0 <= k < c.len() ==> hex_char(#[trigger] c[k])) && c.len() <= 256
        }),
        spec_normalize(input) matches Some(s) ==> {
            &&& s == padded_upper(strip_ws(input))
            &&& s.len() == 256
            &&& forall|k: int| 0 <= k < 256 ==> ({
                let u = #[trigger] s[k] as u32;
                (48 <= u <= 57) || (65 <= u <= 70)
            })
            &&& spec_normalize(s) == Some(s)
        },
{
    if let Some(s) = spec_normalize(input) {
        let c = strip_ws(input);
        let z = Seq::new((256 - c.len()) as nat, |k: int| '0');
        let up = c.map_values(|ch: char| upper_char(ch));
        assert(s == z + up);
        assert forall|k: int| 0 <= k < 256 implies ({
            let u = #[trigger] s[k] as u32;
            (48 <= u <= 57) || (65 <= u <= 70)
        }) by {
            if k >= z.len() {
                assert(s[k] == up[k - z.len()]);
                assert(hex_char(c[k - z.len()]));
            }
        }
        assert forall|k: int| 0 <= k < s.len() implies !is_ws(#[trigger] s[k]) by {
            let u = s[k] as u32;
            assert((48 <= u <= 57) || (65 <= u <= 70));
        }
        lemma_strip_ws_none(s);
        assert forall|k: int| 0 <= k < s.len() implies hex_char(#[trigger] s[k]) by {
            let u = s[k] as u32;
            assert((48 <= u <= 57) || (65 <= u <= 70));
        }
        let z2 = Seq::new((256 - s.len()) as nat, |k: int| '0');
        assert(z2 =~= Seq::<char>::empty());
        assert forall|k: int| 0 <= k < s.len() implies upper_char(#[trigger] s[k]) == s[k] by {
            let u = s[k] as u32;
            assert((48 <= u <= 57) || (65 <= u <= 70));
        }
        assert(padded_upper(s) =~= s);
    }
}

} // verus!
