//! Client-side BattleEye gate detection and toggle, by masked signature scan.
//!
//! The client guards the BattleEye init `call` with a conditional jump whose
//! opcode is `0x75` (JNZ, BattleEye active) or `0xEB` (JMP, BattleEye
//! skipped). A patch is applied only when a signature yields exactly one
//! valid match, never on zero or several.
use crate::text::append_str;
use vstd::prelude::*;

verus! {

/// JNZ opcode: the conditional jump present when BattleEye is active.
pub const JNZ: u8 = 0x75;

/// JMP opcode: the unconditional jump that skips the BattleEye init call.
pub const JMP: u8 = 0xEB;

/// A masked byte signature. `mask[i]` true means `pattern[i]` must match
/// exactly; false is a wildcard. `jump_index` is the offset, within the
/// pattern, of the JNZ/JMP byte that is read and flipped.
pub struct Signature {
    pub name: &'static str,
    pub pattern: Vec<u8>,
    pub mask: Vec<bool>,
    pub jump_index: usize,
}

/// Current state of the BattleEye gate in a binary.
pub struct BeStatus {
    /// A signature matched uniquely.
    pub found: bool,
    /// `Some(true)` = active (JNZ), `Some(false)` = disabled (JMP), `None` if not found.
    pub enabled: Option<bool>,
    /// File offset of the jump byte, if found.
    pub offset: Option<usize>,
    /// Which signature matched.
    pub signature: Option<String>,
}

/// A signature's shape: pattern and mask of one length, the jump byte inside
/// the pattern and a wildcard there.
pub open spec fn sig_wf(sig: Signature) -> bool {
    &&& sig.pattern@.len() == sig.mask@.len()
    &&& sig.jump_index < sig.pattern@.len()
    &&& !sig.mask@[sig.jump_index as int]
}

/// The one signature known: `80 BE ?? ?? ?? ?? 00 [75|EB] 0F E8`
/// (`cmp byte ptr [rsi+disp32], 0; jcc +0x0F; call rel32`).
pub open spec fn known_pattern() -> Seq<u8> {
    seq![0x80u8, 0xBEu8, 0x00u8, 0x00u8, 0x00u8, 0x00u8, 0x00u8, 0x00u8, 0x0Fu8, 0xE8u8]
}

pub open spec fn known_mask() -> Seq<bool> {
    seq![true, true, false, false, false, false, true, false, true, true]
}

pub open spec fn known_jump_index() -> int {
    7
}

pub open spec fn is_jump(b: u8) -> bool {
    b == JNZ || b == JMP
}

/// The signature matches `bytes` at `start`, and its jump byte is JNZ or JMP.
pub open spec fn valid_at(bytes: Seq<u8>, pattern: Seq<u8>, mask: Seq<bool>, jump: int, start: int) -> bool {
    &&& 0 <= start
    &&& start + pattern.len() <= bytes.len()
    &&& forall|i: int| 0 <= i < pattern.len() && #[trigger] mask[i] ==> bytes[start + i] == pattern[i]
    &&& is_jump(bytes[start + jump])
}

/// Jump-byte offsets of every valid match starting at or after `start`, in
/// increasing order.
pub open spec fn matches_from(bytes: Seq<u8>, pattern: Seq<u8>, mask: Seq<bool>, jump: int, start: int) -> Seq<int>
    decreases bytes.len() + 1 - start,
{
    if start < 0 || start > bytes.len() || start + pattern.len() > bytes.len() {
        Seq::empty()
    } else if valid_at(bytes, pattern, mask, jump, start) {
        seq![start + jump] + matches_from(bytes, pattern, mask, jump, start + 1)
    } else {
        matches_from(bytes, pattern, mask, jump, start + 1)
    }
}

/// Jump-byte offsets of all valid matches of the known signature.
pub open spec fn gate_matches(bytes: Seq<u8>) -> Seq<int> {
    matches_from(bytes, known_pattern(), known_mask(), known_jump_index(), 0)
}

/// The signature table.
pub fn signatures() -> (r: Vec<Signature>)
    ensures
        r@.len() == 1,
        r@[0].pattern@ == known_pattern(),
        r@[0].mask@ == known_mask(),
        r@[0].jump_index == known_jump_index(),
        r@[0].name@ == "cmp[reg+disp32],0;jcc0F;call"@,
{
    let pattern: Vec<u8> = vec![0x80, 0xBE, 0x00, 0x00, 0x00, 0x00, 0x00, 0x00, 0x0F, 0xE8];
    let mask: Vec<bool> = vec![true, true, false, false, false, false, true, false, true, true];
    let mut r: Vec<Signature> = Vec::new();
    r.push(Signature { name: "cmp[reg+disp32],0;jcc0F;call", pattern, mask, jump_index: 7 });
    assert(r@[0].pattern@ =~= known_pattern());
    assert(r@[0].mask@ =~= known_mask());
    r
}

impl BeStatus {
    /// The status of a binary in which no signature matched.
    pub fn not_found() -> (r: BeStatus)
        ensures
            !r.found,
            r.enabled is None,
            r.offset is None,
            r.signature is None,
    {
        BeStatus { found: false, enabled: None, offset: None, signature: None }
    }
}

proof fn lemma_matches_step(bytes: Seq<u8>, pattern: Seq<u8>, mask: Seq<bool>, jump: int, start: int)
    requires
        0 <= start,
        start + pattern.len() <= bytes.len(),
    ensures
        matches_from(bytes, pattern, mask, jump, start) == (if valid_at(bytes, pattern, mask, jump, start) {
            seq![start + jump] + matches_from(bytes, pattern, mask, jump, start + 1)
        } else {
            matches_from(bytes, pattern, mask, jump, start + 1)
        }),
{
}

/// Offsets of the jump byte of every place where `sig` matches and the jump
/// byte is JNZ or JMP, in increasing order.
fn valid_matches(bytes: &[u8], sig: &Signature) -> (out: Vec<usize>)
    requires
        sig_wf(*sig),
    ensures
        out@.map_values(|o: usize| o as int) == matches_from(bytes@, sig.pattern@, sig.mask@, sig.jump_index as int, 0),
{
    let plen = sig.pattern.len();
    let mut out: Vec<usize> = Vec::new();
    if bytes.len() < plen {
        assert(out@.map_values(|o: usize| o as int) =~= Seq::<int>::empty());
        return out;
    }
    let last = bytes.len() - plen;
    let mut start: usize = 0;
    while start <= last
        invariant
            sig_wf(*sig),
            plen == sig.pattern@.len(),
            last + plen == bytes@.len(),
            start <= last + 1,
            out@.map_values(|o: usize| o as int) + matches_from(bytes@, sig.pattern@, sig.mask@, sig.jump_index as int, start as int)
                == matches_from(bytes@, sig.pattern@, sig.mask@, sig.jump_index as int, 0),
        decreases last + 1 - start,
    {
        let ghost pat = sig.pattern@;
        let ghost msk = sig.mask@;
        let ghost j = sig.jump_index as int;
        proof {
            lemma_matches_step(bytes@, pat, msk, j, start as int);
        }
        let mut ok = true;
        let mut i: usize = 0;
        while i < plen
            invariant
                sig_wf(*sig),
                plen == sig.pattern@.len(),
                start + plen <= bytes.len(),
                i <= plen,
                ok <==> (forall|k: int| 0 <= k < i && #[trigger] sig.mask@[k] ==> bytes@[start + k] == sig.pattern@[k]),
            decreases plen - i,
        {
            if sig.mask[i] && bytes[start + i] != sig.pattern[i] {
                ok = false;
            }
            i = i + 1;
        }
        let jb = bytes[start + sig.jump_index];
        let ghost prev = out@;
        if ok && (jb == JNZ || jb == JMP) {
            out.push(start + sig.jump_index);
            proof {
                assert(valid_at(bytes@, pat, msk, j, start as int));
                assert(out@.map_values(|o: usize| o as int) =~= prev.map_values(|o: usize| o as int) + seq![start + j]);
            }
        } else {
            proof {
                assert(!valid_at(bytes@, pat, msk, j, start as int));
            }
        }
        start = start + 1;
    }
    proof {
        assert(matches_from(bytes@, sig.pattern@, sig.mask@, sig.jump_index as int, start as int) =~= Seq::<int>::empty());
    }
    out
}

/// What `detect` reports, stated over the matches of the signature table.
pub open spec fn spec_detect(bytes: Seq<u8>) -> Result<Option<int>, ()> {
    let m = gate_matches(bytes);
    if m.len() == 1 {
        Ok(Some(m[0]))
    } else if m.len() == 0 {
        Ok(None)
    } else {
        Err(())
    }
}

/// What `detect` reports for `bytes`: the offset and state of a unique
/// match with its signature, nothing found, or the ambiguity error.
pub open spec fn detect_outcome(bytes: Seq<u8>, r: Result<BeStatus, String>) -> bool {
    match spec_detect(bytes) {
        Ok(Some(off)) => {
            &&& r matches Ok(s)
            &&& s.found
            &&& s.offset == Some(off as usize)
            &&& 0 <= off < bytes.len()
            &&& is_jump(bytes[off])
            &&& s.enabled == Some(bytes[off] == JNZ)
            &&& s.signature matches Some(n)
            &&& n@ == "cmp[reg+disp32],0;jcc0F;call"@
        },
        Ok(None) => {
            &&& r matches Ok(s)
            &&& !s.found
            &&& s.enabled is None
            &&& s.offset is None
            &&& s.signature is None
        },
        Err(_) => r matches Err(e) && e@ == ambiguous_text("cmp[reg+disp32],0;jcc0F;call"@),
    }
}

/// What `set_enabled` does to `before`, giving `after` and `r`: with a
/// unique match it writes the jump byte for the requested state and reports
/// it; otherwise it refuses and writes nothing.
pub open spec fn set_enabled_outcome(before: Seq<u8>, after: Seq<u8>, enabled: bool, r: Result<BeStatus, String>) -> bool {
    match spec_detect(before) {
        Ok(Some(off)) => {
            &&& r matches Ok(s)
            &&& s.found
            &&& s.enabled == Some(enabled)
            &&& s.offset == Some(off as usize)
            &&& s.signature matches Some(n)
            &&& n@ == "cmp[reg+disp32],0;jcc0F;call"@
            &&& after == before.update(off, if enabled { JNZ } else { JMP })
            &&& spec_detect(after) == Ok::<Option<int>, ()>(Some(off))
        },
        _ => {
            &&& r is Err
            &&& after == before
        },
    }
}

/// Detect the BattleEye gate: the first signature with exactly one valid
/// match is reported; a signature with two or more matches is ambiguous and
/// is an error.
pub fn detect(bytes: &[u8]) -> (r: Result<BeStatus, String>)
    ensures
        detect_outcome(bytes@, r),
{
    let sigs = signatures();
    let mut ambiguous: Option<&'static str> = None;
    let mut k: usize = 0;
    while k < sigs.len()
        invariant
            sigs@.len() == 1,
            sigs@[0].pattern@ == known_pattern(),
            sigs@[0].mask@ == known_mask(),
            sigs@[0].jump_index == known_jump_index(),
            sigs@[0].name@ == "cmp[reg+disp32],0;jcc0F;call"@,
            k <= 1,
            k == 1 ==> gate_matches(bytes@).len() != 1,
            ambiguous is Some <==> (k == 1 && gate_matches(bytes@).len() >= 2),
            ambiguous matches Some(a) ==> a@ == "cmp[reg+disp32],0;jcc0F;call"@,
        decreases sigs.len() - k,
    {
        let sig = &sigs[k];
        assert(sig_wf(*sig)) by {
            assert(sig.mask@[7] == false);
        }
        let matches = valid_matches(bytes, sig);
        assert(matches@.len() == gate_matches(bytes@).len()) by {
            assert(matches@.map_values(|o: usize| o as int).len() == matches@.len());
        }
        if matches.len() == 1 {
            let off = matches[0];
            proof {
                let m = gate_matches(bytes@);
                assert(m[0] == off as int) by {
                    assert(matches@.map_values(|o: usize| o as int)[0] == off as int);
                }
                lemma_matches_in_range(bytes@, known_pattern(), known_mask(), known_jump_index(), 0);
                assert(valid_at(bytes@, known_pattern(), known_mask(), known_jump_index(), m[0] - 7));
            }
            return Ok(BeStatus {
                found: true,
                enabled: Some(bytes[off] == JNZ),
                offset: Some(off),
                signature: Some(String::from_str(sig.name)),
            });
        } else if matches.len() >= 2 {
            if ambiguous.is_none() {
                ambiguous = Some(sig.name);
            }
        }
        k = k + 1;
    }
    if let Some(name) = ambiguous {
        return Err(ambiguous_message(name));
    }
    Ok(BeStatus::not_found())
}

/// Every offset that `matches_from` lists is the jump byte of a valid match.
proof fn lemma_matches_in_range(bytes: Seq<u8>, pattern: Seq<u8>, mask: Seq<bool>, jump: int, start: int)
    requires
        0 <= start,
    ensures
        forall|k: int| 0 <= k < matches_from(bytes, pattern, mask, jump, start).len()
            ==> valid_at(bytes, pattern, mask, jump, #[trigger] matches_from(bytes, pattern, mask, jump, start)[k] - jump)
                && matches_from(bytes, pattern, mask, jump, start)[k] - jump >= start,
    decreases bytes.len() + 1 - start,
{
    if start <= bytes.len() && start + pattern.len() <= bytes.len() {
        lemma_matches_in_range(bytes, pattern, mask, jump, start + 1);
        let rest = matches_from(bytes, pattern, mask, jump, start + 1);
        if valid_at(bytes, pattern, mask, jump, start) {
            let m = matches_from(bytes, pattern, mask, jump, start);
            assert forall|k: int| 0 <= k < m.len() implies valid_at(bytes, pattern, mask, jump, #[trigger] m[k] - jump)
                && m[k] - jump >= start by {
                if k > 0 {
                    assert(m[k] == rest[k - 1]);
                }
            }
        }
    }
}

/// Flip the BattleEye check to `enabled` in place. Errors, writing nothing, unless the
/// signature table locates the check uniquely. When the byte already holds the
/// wanted state the write changes nothing and the status is still returned.
pub fn set_enabled(bytes: &mut [u8], enabled: bool) -> (r: Result<BeStatus, String>)
    ensures
        set_enabled_outcome(old(bytes)@, final(bytes)@, enabled, r),
        spec_detect(old(bytes)@) is Err ==> (r matches Err(e) && e@ == ambiguous_text("cmp[reg+disp32],0;jcc0F;call"@)),
        spec_detect(old(bytes)@) == Ok::<Option<int>, ()>(None) ==> (r matches Err(e) && e@
            == "BattleEye gate not found in this binary \u{2014} unknown or already-modified build."@),
{
    let status = detect(bytes);
    let status = match status {
        Ok(s) => s,
        Err(e) => return Err(e),
    };
    let off = match status.offset {
        Some(o) => o,
        None => return Err(String::from_str("BattleEye gate not found in this binary \u{2014} unknown or already-modified build.")),
    };
    let ghost before = bytes@;
    bytes[off] = if enabled { JNZ } else { JMP };
    proof {
        lemma_toggle_keeps_gate(before, bytes@, off as int, enabled);
    }
    Ok(BeStatus { found: true, enabled: Some(enabled), offset: Some(off), signature: status.signature })
}

/// Writing one changed byte that is a jump opcode before and after does not
/// change which windows are valid matches, as long as no exact pattern byte is
/// itself a jump opcode.
proof fn lemma_flip_preserves_matches(
    b: Seq<u8>,
    b2: Seq<u8>,
    pattern: Seq<u8>,
    mask: Seq<bool>,
    jump: int,
    p: int,
    start: int,
)
    requires
        b2.len() == b.len(),
        0 <= p < b.len(),
        forall|k: int| 0 <= k < b.len() && k != p ==> b2[k] == b[k],
        is_jump(b[p]),
        is_jump(b2[p]),
        pattern.len() == mask.len(),
        0 <= jump < pattern.len(),
        !mask[jump],
        forall|i: int| 0 <= i < pattern.len() && #[trigger] mask[i] ==> !is_jump(pattern[i]),
    ensures
        matches_from(b2, pattern, mask, jump, start) == matches_from(b, pattern, mask, jump, start),
    decreases b.len() + 1 - start,
{
    if 0 <= start && start <= b.len() && start + pattern.len() <= b.len() {
        lemma_flip_preserves_matches(b, b2, pattern, mask, jump, p, start + 1);
        assert(valid_at(b2, pattern, mask, jump, start) == valid_at(b, pattern, mask, jump, start)) by {
            if valid_at(b, pattern, mask, jump, start) {
                assert forall|i: int| 0 <= i < pattern.len() && #[trigger] mask[i] implies b2[start + i] == pattern[i] by {
                    if start + i == p {
                        assert(b[start + i] == pattern[i]);
                    }
                }
            }
            if valid_at(b2, pattern, mask, jump, start) {
                assert forall|i: int| 0 <= i < pattern.len() && #[trigger] mask[i] implies b[start + i] == pattern[i] by {
                    if start + i == p {
                        assert(b2[start + i] == pattern[i]);
                    }
                }
            }
        }
    }
}

/// Toggling the BattleEye check keeps it uniquely located at the same offset, and the
/// jump byte then reads as the requested state: `detect` after
/// `set_enabled(enabled)` reports `enabled` at the offset it reported before.
pub proof fn lemma_toggle_keeps_gate(before: Seq<u8>, after: Seq<u8>, off: int, enabled: bool)
    requires
        spec_detect(before) == Ok::<Option<int>, ()>(Some(off)),
        0 <= off < before.len(),
        after == before.update(off, if enabled { JNZ } else { JMP }),
    ensures
        spec_detect(after) == Ok::<Option<int>, ()>(Some(off)),
        (after[off] == JNZ) == enabled,
{
    lemma_matches_in_range(before, known_pattern(), known_mask(), known_jump_index(), 0);
    let m = gate_matches(before);
    assert(valid_at(before, known_pattern(), known_mask(), known_jump_index(), m[0] - 7));
    assert(is_jump(before[off]));
    assert forall|i: int| 0 <= i < known_pattern().len() && #[trigger] known_mask()[i] implies !is_jump(known_pattern()[i]) by {
        assert(known_pattern()[0] == 0x80u8);
        assert(known_pattern()[1] == 0xBEu8);
        assert(known_pattern()[6] == 0x00u8);
        assert(known_pattern()[8] == 0x0Fu8);
        assert(known_pattern()[9] == 0xE8u8);
        assert(known_mask()[2] == false && known_mask()[3] == false && known_mask()[4] == false);
        assert(known_mask()[5] == false && known_mask()[7] == false);
    }
    lemma_flip_preserves_matches(before, after, known_pattern(), known_mask(), known_jump_index(), off, 0);
}

/// The error text for an ambiguous signature.
/// The refusal to patch a signature that matched more than once.
pub open spec fn ambiguous_text(name: Seq<char>) -> Seq<char> {
    "BattleEye signature '"@ + name + "' matched more than once \u{2014} refusing to guess which site to patch."@
}

fn ambiguous_message(name: &str) -> (r: String)
    ensures
        r@ == ambiguous_text(name@),
{
    let mut s = String::new();
    append_str(&mut s, "BattleEye signature '");
    append_str(&mut s, name);
    append_str(&mut s, "' matched more than once \u{2014} refusing to guess which site to patch.");
    s
}

/// Setting the BattleEye check and detecting it again agree: a successful
/// `set_enabled(enabled)` changes exactly one byte, the jump at the reported
/// offset, to `0x75` (enabled) or `0xEB` (disabled), and `detect` on the
/// result finds the check at that offset in the requested state. A refused
/// one changes nothing.
pub proof fn lemma_set_then_detect(
    before: Seq<u8>,
    after: Seq<u8>,
    enabled: bool,
    r1: Result<BeStatus, String>,
    r2: Result<BeStatus, String>,
)
    requires
        before.len() <= usize::MAX,
        set_enabled_outcome(before, after, enabled, r1),
        detect_outcome(after, r2),
    ensures
        r1 is Err ==> after == before,
        r1 matches Ok(s1) ==> (s1.offset matches Some(off) && {
            &&& after.len() == before.len()
            &&& off < after.len()
            &&& after[off as int] == (if enabled { 0x75u8 } else { 0xEBu8 })
            &&& forall|i: int| 0 <= i < after.len() && i != off ==> after[i] == before[i]
            &&& r2 matches Ok(s2) && s2.found && s2.offset == Some(off) && s2.enabled == Some(enabled)
        }),
{
    if let Ok(Some(off)) = spec_detect(before) {
        lemma_matches_in_range(before, known_pattern(), known_mask(), known_jump_index(), 0);
        let m = gate_matches(before);
        assert(m[0] == off);
        assert(valid_at(before, known_pattern(), known_mask(), known_jump_index(), m[0] - 7));
        assert(0 <= off < before.len());
        assert(after[off] == (if enabled { JNZ } else { JMP }));
        assert(after.len() == before.len());
        assert(forall|i: int| 0 <= i < after.len() && i != off ==> after[i] == before[i]);
        assert(spec_detect(after) == Ok::<Option<int>, ()>(Some(off)));
        let s2 = r2->Ok_0;
        assert(s2.enabled == Some(after[off] == JNZ));
    }
}

} // verus!
