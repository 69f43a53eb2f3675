//! Staticdata documents in either client schema, their statistics, and the
//! merge of custom records into an official document.
use crate::sorting::{insert_by_key, lemma_insert_at, sort_by_key};
use std::collections::HashSet;
use crate::text::append_str;
use vstd::prelude::*;

verus! {

broadcast use vstd::std_specs::hash::group_hash_axioms;

/// One record of a staticdata category: its id and the rest of its encoded
/// message.
pub struct StaticRecord {
    pub id: Option<u32>,
    pub payload: Vec<u8>,
}

/// A staticdata document in the legacy schema.
pub struct StaticDataOld {
    pub creatures: Vec<StaticRecord>,
    pub achievements: Vec<StaticRecord>,
    pub houses: Vec<StaticRecord>,
    pub bosses: Vec<StaticRecord>,
    pub quests: Vec<StaticRecord>,
}

/// A staticdata document in the newer client's schema.
pub struct StaticDataNew {
    pub monsters: Vec<StaticRecord>,
    pub monster_classes: Vec<StaticRecord>,
    pub achievements: Vec<StaticRecord>,
    pub houses: Vec<StaticRecord>,
    pub bosses: Vec<StaticRecord>,
    pub quests: Vec<StaticRecord>,
}

/// A decoded staticdata file tagged with the schema it matched. The newer
/// client renumbered the categories, so the two layouts are kept apart.
pub enum StaticDataDoc {
    /// Legacy schema: creatures / achievements / houses / bosses / quests.
    Old(StaticDataOld),
    /// Newer client: monsters / monster classes / achievements / houses /
    /// bosses / quests.
    New(StaticDataNew),
}

impl StaticDataDoc {
    /// The schema's name: "old" or "new".
    pub fn version(&self) -> (r: &'static str)
        ensures
            self is Old ==> r@ == "old"@,
            self is New ==> r@ == "new"@,
    {
        match self {
            StaticDataDoc::Old(_) => "old",
            StaticDataDoc::New(_) => "new",
        }
    }
}

/// How many records each category of a document holds.
pub struct StaticDataStats {
    /// Which schema the document uses: "old" or "new".
    pub version: String,
    pub total_creatures: usize,
    pub total_monster_classes: usize,
    pub total_achievements: usize,
    pub total_houses: usize,
    pub total_bosses: usize,
    pub total_quests: usize,
}

/// Statistics of a document: its schema and the size of each category
/// (monsters count as creatures; a legacy document has no monster classes).
pub fn doc_statistics(doc: &StaticDataDoc) -> (r: StaticDataStats)
    ensures
        match doc {
            StaticDataDoc::Old(o) => r.version@ == "old"@ && r.total_creatures == o.creatures@.len()
                && r.total_monster_classes == 0 && r.total_achievements == o.achievements@.len()
                && r.total_houses == o.houses@.len() && r.total_bosses == o.bosses@.len()
                && r.total_quests == o.quests@.len(),
            StaticDataDoc::New(n) => r.version@ == "new"@ && r.total_creatures == n.monsters@.len()
                && r.total_monster_classes == n.monster_classes@.len()
                && r.total_achievements == n.achievements@.len() && r.total_houses == n.houses@.len()
                && r.total_bosses == n.bosses@.len() && r.total_quests == n.quests@.len(),
        },
{
    match doc {
        StaticDataDoc::Old(o) => StaticDataStats {
            version: String::from_str("old"),
            total_creatures: o.creatures.len(),
            total_monster_classes: 0,
            total_achievements: o.achievements.len(),
            total_houses: o.houses.len(),
            total_bosses: o.bosses.len(),
            total_quests: o.quests.len(),
        },
        StaticDataDoc::New(n) => StaticDataStats {
            version: String::from_str("new"),
            total_creatures: n.monsters.len(),
            total_monster_classes: n.monster_classes.len(),
            total_achievements: n.achievements.len(),
            total_houses: n.houses.len(),
            total_bosses: n.bosses.len(),
            total_quests: n.quests.len(),
        },
    }
}

/// Every category of the document is empty.
pub open spec fn spec_trivially_empty(doc: &StaticDataDoc) -> bool {
    match doc {
        StaticDataDoc::Old(o) => o.creatures@.len() == 0 && o.achievements@.len() == 0 && o.houses@.len() == 0
            && o.bosses@.len() == 0 && o.quests@.len() == 0,
        StaticDataDoc::New(n) => n.monsters@.len() == 0 && n.monster_classes@.len() == 0 && n.achievements@.len() == 0
            && n.houses@.len() == 0 && n.bosses@.len() == 0 && n.quests@.len() == 0,
    }
}

/// True when a decode yielded an empty document: every category empty.
pub fn is_trivially_empty(doc: &StaticDataDoc) -> (r: bool)
    ensures
        r == spec_trivially_empty(doc),
{
    match doc {
        StaticDataDoc::Old(o) => o.creatures.len() == 0 && o.achievements.len() == 0 && o.houses.len() == 0
            && o.bosses.len() == 0 && o.quests.len() == 0,
        StaticDataDoc::New(n) => n.monsters.len() == 0 && n.monster_classes.len() == 0 && n.achievements.len() == 0
            && n.houses.len() == 0 && n.bosses.len() == 0 && n.quests.len() == 0,
    }
}

/// The on-disk encoding of a staticdata file.
#[derive(Clone, Copy, PartialEq, Eq, Structural, Debug)]
pub enum StaticDataFormat {
    Raw,
    Xz,
    Lzma,
}

/// The encoding of an existing file: an XZ container is XZ; else bytes that
/// decode, in either schema, to a non-empty document are raw; anything else
/// is the client's LZMA.
pub fn detect_format(is_xz: bool, raw_decode_non_empty: bool) -> (r: StaticDataFormat)
    ensures
        is_xz ==> r == StaticDataFormat::Xz,
        !is_xz && raw_decode_non_empty ==> r == StaticDataFormat::Raw,
        !is_xz && !raw_decode_non_empty ==> r == StaticDataFormat::Lzma,
{
    if is_xz {
        StaticDataFormat::Xz
    } else if raw_decode_non_empty {
        StaticDataFormat::Raw
    } else {
        StaticDataFormat::Lzma
    }
}

/// Which schema a decode picked.
#[derive(Clone, Copy, PartialEq, Eq, Structural, Debug)]
pub enum Schema {
    Old,
    New,
}

/// How far a re-encoded length is from the input's.
pub open spec fn len_gap(orig: int, len: int) -> int {
    if orig >= len { orig - len } else { len - orig }
}

/// The schema to keep when the bytes (of length `orig`) decoded as the new
/// schema and/or the old one, given each decode's re-encoded length: the one
/// closer to the input, the new one on a tie; `None` when neither decoded.
pub open spec fn spec_choose_schema(orig: int, new_len: Option<usize>, old_len: Option<usize>) -> Option<Schema> {
    match (new_len, old_len) {
        (Some(n), Some(o)) => if len_gap(orig, n as int) <= len_gap(orig, o as int) {
            Some(Schema::New)
        } else {
            Some(Schema::Old)
        },
        (Some(_), None) => Some(Schema::New),
        (None, Some(_)) => Some(Schema::Old),
        (None, None) => None,
    }
}

fn gap(orig: usize, len: usize) -> (r: usize)
    ensures
        r == len_gap(orig as int, len as int),
{
    if orig >= len { orig - len } else { len - orig }
}

/// Pick the schema a raw decode should keep.
pub fn choose_schema(orig_len: usize, new_len: Option<usize>, old_len: Option<usize>) -> (r: Option<Schema>)
    ensures
        r == spec_choose_schema(orig_len as int, new_len, old_len),
{
    match (new_len, old_len) {
        (Some(n), Some(o)) => if gap(orig_len, n) <= gap(orig_len, o) {
            Some(Schema::New)
        } else {
            Some(Schema::Old)
        },
        (Some(_), None) => Some(Schema::New),
        (None, Some(_)) => Some(Schema::Old),
        (None, None) => None,
    }
}

// ---------------------------------------------------------------------------
// Merging

/// Thresholds: a custom record is merged only when its id is at least the
/// threshold of its category.
pub struct StaticDataMergeThresholds {
    pub creatures: u32,
    pub bosses: u32,
    pub houses: u32,
    pub quests: u32,
    pub achievements: u32,
    /// Newer-client schema only; ignored for legacy files.
    pub monster_classes: u32,
    pub map_houses: u32,
}

/// What a merge would add.
pub struct StaticDataMergePreview {
    pub creatures_to_add: usize,
    pub bosses_to_add: usize,
    pub houses_to_add: usize,
    pub quests_to_add: usize,
    pub achievements_to_add: usize,
    pub monster_classes_to_add: usize,
    pub map_houses_to_add: usize,
    /// File name that will be overwritten.
    pub staticdata_file: String,
    pub staticmapdata_file: Option<String>,
    /// Which schema both files use: "old" or "new".
    pub schema: String,
}

/// What a merge added.
pub struct StaticDataMergeResult {
    pub creatures_added: usize,
    pub bosses_added: usize,
    pub houses_added: usize,
    pub quests_added: usize,
    pub achievements_added: usize,
    pub monster_classes_added: usize,
    pub map_houses_added: usize,
}

/// The key a record is ordered by: its id, or 0 without one.
pub open spec fn rec_key() -> spec_fn(StaticRecord) -> int {
    |r: StaticRecord|
        match r.id {
            Some(i) => i as int,
            None => 0,
        }
}

/// The ids that the records of `s` carry.
pub open spec fn id_set(s: Seq<StaticRecord>) -> Set<u32> {
    Set::new(|i: u32| exists|j: int| 0 <= j < s.len() && #[trigger] s[j].id == Some(i))
}

/// A custom record is taken when it has an id, at least the threshold, that
/// the base does not hold.
pub open spec fn takes(r: StaticRecord, base_ids: Set<u32>, threshold: u32) -> bool {
    match r.id {
        Some(i) => i >= threshold && !base_ids.contains(i),
        None => false,
    }
}

/// The custom records that a merge adds, in their order.
pub open spec fn additions(custom: Seq<StaticRecord>, base_ids: Set<u32>, threshold: u32) -> Seq<StaticRecord> {
    custom.filter(|r: StaticRecord| takes(r, base_ids, threshold))
}

/// The merged category: the base followed by the additions, stably sorted by id.
pub open spec fn merged(base: Seq<StaticRecord>, custom: Seq<StaticRecord>, threshold: u32) -> Seq<StaticRecord> {
    sort_by_key(base + additions(custom, id_set(base), threshold), rec_key())
}

fn blank_record() -> (r: StaticRecord)
    ensures
        r.id is None,
        r.payload@ == Seq::<u8>::empty(),
{
    StaticRecord { id: None, payload: Vec::new() }
}

fn key_of(r: &StaticRecord) -> (k: u32)
    ensures
        k == (rec_key())(*r),
{
    match r.id {
        Some(i) => i,
        None => 0,
    }
}

fn insert_record(v: &mut Vec<StaticRecord>, x: StaticRecord)
    ensures
        final(v)@ == insert_by_key(old(v)@, x, rec_key()),
{
    let kx = key_of(&x);
    let mut j = v.len();
    while j > 0 && key_of(&v[j - 1]) > kx
        invariant
            j <= v@.len(),
            v@ == old(v)@,
            kx == (rec_key())(x),
            forall|i: int| j <= i < v@.len() ==> (rec_key())(#[trigger] v@[i]) > (rec_key())(x),
        decreases j,
    {
        j = j - 1;
    }
    proof {
        lemma_insert_at(v@, x, rec_key(), j as int);
    }
    v.insert(j, x);
}

fn sort_records(v: Vec<StaticRecord>) -> (r: Vec<StaticRecord>)
    ensures
        r@ == sort_by_key(v@, rec_key()),
{
    let ghost s = v@;
    let mut v = v;
    let mut r: Vec<StaticRecord> = Vec::new();
    let mut i: usize = 0;
    while i < v.len()
        invariant
            i <= v@.len(),
            v@.len() == s.len(),
            forall|j: int| i <= j < s.len() ==> v@[j] == s[j],
            r@ == sort_by_key(s.take(i as int), rec_key()),
        decreases v@.len() - i,
    {
        let mut a = blank_record();
        std::mem::swap(&mut a, &mut v[i]);
        proof {
            assert(s.take(i + 1).drop_last() =~= s.take(i as int));
        }
        insert_record(&mut r, a);
        i = i + 1;
    }
    proof {
        assert(s.take(i as int) =~= s);
    }
    r
}

fn ids_of(base: &Vec<StaticRecord>) -> (r: HashSet<u32>)
    ensures
        r@ == id_set(base@),
{
    let mut r: HashSet<u32> = HashSet::new();
    let mut i: usize = 0;
    while i < base.len()
        invariant
            i <= base@.len(),
            r@ == id_set(base@.take(i as int)),
        decreases base@.len() - i,
    {
        let ghost before = r@;
        if let Some(id) = base[i].id {
            r.insert(id);
        }
        proof {
            let t = base@.take(i + 1);
            let p = base@.take(i as int);
            assert forall|x: u32| r@.contains(x) == id_set(t).contains(x) by {
                if id_set(t).contains(x) {
                    let j = choose|j: int| 0 <= j < t.len() && #[trigger] t[j].id == Some(x);
                    if j < i {
                        assert(p[j].id == Some(x));
                        assert(id_set(p).contains(x));
                    }
                }
                if before.contains(x) {
                    let j = choose|j: int| 0 <= j < p.len() && #[trigger] p[j].id == Some(x);
                    assert(t[j].id == Some(x));
                }
                if base@[i as int].id == Some(x) {
                    assert(t[i as int].id == Some(x));
                }
            }
            assert(r@ =~= id_set(t));
        }
        i = i + 1;
    }
    proof {
        assert(base@.take(i as int) =~= base@);
    }
    r
}

/// Merge the records of `custom` whose id is at least `threshold` and absent
/// from `base` into `base`, then sort by id (stably); also how many were added.
pub fn merge_by_id(base: Vec<StaticRecord>, custom: Vec<StaticRecord>, threshold: u32) -> (r: (Vec<StaticRecord>, usize))
    ensures
        r.0@ == merged(base@, custom@, threshold),
        r.1 == additions(custom@, id_set(base@), threshold).len(),
{
    let base_ids = ids_of(&base);
    let ghost ids = id_set(base@);
    let ghost b0 = base@;
    let ghost c0 = custom@;
    let mut base = base;
    let mut custom = custom;
    let mut added: usize = 0;
    let mut i: usize = 0;
    while i < custom.len()
        invariant
            i <= custom@.len(),
            custom@.len() == c0.len(),
            base_ids@ == ids,
            forall|j: int| i <= j < c0.len() ==> custom@[j] == c0[j],
            base@ == b0 + additions(c0.take(i as int), ids, threshold),
            added == additions(c0.take(i as int), ids, threshold).len(),
            added <= i,
        decreases custom@.len() - i,
    {
        let mut item = blank_record();
        std::mem::swap(&mut item, &mut custom[i]);
        proof {
            let t = c0.take(i + 1);
            assert(t.drop_last() =~= c0.take(i as int));
            assert(t.last() == item);
            reveal(Seq::filter);
        }
        let take = match item.id {
            Some(id) => id >= threshold && !base_ids.contains(&id),
            None => false,
        };
        if take {
            base.push(item);
            added = added + 1;
        }
        i = i + 1;
    }
    proof {
        assert(c0.take(i as int) =~= c0);
    }
    (sort_records(base), added)
}

/// How many records each category gained.
pub struct MergeCounts {
    pub creatures: usize,
    pub bosses: usize,
    pub houses: usize,
    pub quests: usize,
    pub achievements: usize,
    pub monster_classes: usize,
}

/// The count of records that merging `custom` into `base` adds.
pub open spec fn added_count(base: Seq<StaticRecord>, custom: Seq<StaticRecord>, threshold: u32) -> nat {
    additions(custom, id_set(base), threshold).len()
}

/// `Schema mismatch: ...` naming the two schemas.
/// The schema a document was decoded with, by name.
pub open spec fn schema_name(d: StaticDataDoc) -> Seq<char> {
    if d is Old { "old"@ } else { "new"@ }
}

/// The refusal to merge documents of two schemas.
pub open spec fn schema_mismatch_text(official: Seq<char>, custom: Seq<char>) -> Seq<char> {
    "Schema mismatch: the official staticdata uses the \""@ + official
        + "\" schema but the loaded one uses \""@ + custom
        + "\". Load a staticdata from the same client version before merging."@
}

fn schema_mismatch_message(official: &str, custom: &str) -> (r: String)
    ensures
        r@ == schema_mismatch_text(official@, custom@),
{
    let mut s = String::new();
    append_str(&mut s, "Schema mismatch: the official staticdata uses the \"");
    append_str(&mut s, official);
    append_str(&mut s, "\" schema but the loaded one uses \"");
    append_str(&mut s, custom);
    append_str(&mut s, "\". Load a staticdata from the same client version before merging.");
    s
}

/// Merge `custom` into `official`, category by category. Both must use the
/// same schema: the categories are numbered differently in each, so mixing
/// them is refused.
pub fn merge_docs(official: StaticDataDoc, custom: StaticDataDoc, thresholds: &StaticDataMergeThresholds) -> (r: Result<(StaticDataDoc, MergeCounts), String>)
    ensures
        match (official, custom) {
            (StaticDataDoc::Old(o), StaticDataDoc::Old(c)) => r matches Ok((StaticDataDoc::Old(m), n))
                && m.creatures@ == merged(o.creatures@, c.creatures@, thresholds.creatures)
                && m.bosses@ == merged(o.bosses@, c.bosses@, thresholds.bosses)
                && m.houses@ == merged(o.houses@, c.houses@, thresholds.houses)
                && m.quests@ == merged(o.quests@, c.quests@, thresholds.quests)
                && m.achievements@ == merged(o.achievements@, c.achievements@, thresholds.achievements)
                && n.creatures == added_count(o.creatures@, c.creatures@, thresholds.creatures)
                && n.bosses == added_count(o.bosses@, c.bosses@, thresholds.bosses)
                && n.houses == added_count(o.houses@, c.houses@, thresholds.houses)
                && n.quests == added_count(o.quests@, c.quests@, thresholds.quests)
                && n.achievements == added_count(o.achievements@, c.achievements@, thresholds.achievements)
                && n.monster_classes == 0,
            (StaticDataDoc::New(o), StaticDataDoc::New(c)) => r matches Ok((StaticDataDoc::New(m), n))
                && m.monsters@ == merged(o.monsters@, c.monsters@, thresholds.creatures)
                && m.monster_classes@ == merged(o.monster_classes@, c.monster_classes@, thresholds.monster_classes)
                && m.bosses@ == merged(o.bosses@, c.bosses@, thresholds.bosses)
                && m.houses@ == merged(o.houses@, c.houses@, thresholds.houses)
                && m.quests@ == merged(o.quests@, c.quests@, thresholds.quests)
                && m.achievements@ == merged(o.achievements@, c.achievements@, thresholds.achievements)
                && n.creatures == added_count(o.monsters@, c.monsters@, thresholds.creatures)
                && n.monster_classes == added_count(o.monster_classes@, c.monster_classes@, thresholds.monster_classes)
                && n.bosses == added_count(o.bosses@, c.bosses@, thresholds.bosses)
                && n.houses == added_count(o.houses@, c.houses@, thresholds.houses)
                && n.quests == added_count(o.quests@, c.quests@, thresholds.quests)
                && n.achievements == added_count(o.achievements@, c.achievements@, thresholds.achievements),
            _ => r matches Err(e) && e@ == schema_mismatch_text(schema_name(official), schema_name(custom)),
        },
{
    match (official, custom) {
        (StaticDataDoc::Old(o), StaticDataDoc::Old(c)) => {
            let (creatures, n_creatures) = merge_by_id(o.creatures, c.creatures, thresholds.creatures);
            let (bosses, n_bosses) = merge_by_id(o.bosses, c.bosses, thresholds.bosses);
            let (houses, n_houses) = merge_by_id(o.houses, c.houses, thresholds.houses);
            let (quests, n_quests) = merge_by_id(o.quests, c.quests, thresholds.quests);
            let (achievements, n_achievements) = merge_by_id(o.achievements, c.achievements, thresholds.achievements);
            Ok((
                StaticDataDoc::Old(StaticDataOld { creatures, achievements, houses, bosses, quests }),
                MergeCounts {
                    creatures: n_creatures,
                    bosses: n_bosses,
                    houses: n_houses,
                    quests: n_quests,
                    achievements: n_achievements,
                    monster_classes: 0,
                },
            ))
        },
        (StaticDataDoc::New(o), StaticDataDoc::New(c)) => {
            let (monsters, n_creatures) = merge_by_id(o.monsters, c.monsters, thresholds.creatures);
            let (bosses, n_bosses) = merge_by_id(o.bosses, c.bosses, thresholds.bosses);
            let (houses, n_houses) = merge_by_id(o.houses, c.houses, thresholds.houses);
            let (quests, n_quests) = merge_by_id(o.quests, c.quests, thresholds.quests);
            let (achievements, n_achievements) = merge_by_id(o.achievements, c.achievements, thresholds.achievements);
            let (monster_classes, n_classes) = merge_by_id(o.monster_classes, c.monster_classes, thresholds.monster_classes);
            Ok((
                StaticDataDoc::New(StaticDataNew { monsters, monster_classes, achievements, houses, bosses, quests }),
                MergeCounts {
                    creatures: n_creatures,
                    bosses: n_bosses,
                    houses: n_houses,
                    quests: n_quests,
                    achievements: n_achievements,
                    monster_classes: n_classes,
                },
            ))
        },
        (official, custom) => Err(schema_mismatch_message(official.version(), custom.version())),
    }
}

/// Merging keeps every base record and adds exactly the taken custom ones:
/// the merged category is sorted by id, holds the base and the additions
/// (as a multiset), and every addition has an id of at least the threshold
/// that the base did not hold.
pub proof fn lemma_merge_keeps_base(base: Seq<StaticRecord>, custom: Seq<StaticRecord>, threshold: u32)
    ensures
        crate::sorting::sorted_by(merged(base, custom, threshold), rec_key()),
        merged(base, custom, threshold).to_multiset() == (base + additions(custom, id_set(base), threshold)).to_multiset(),
        merged(base, custom, threshold).len() == base.len() + added_count(base, custom, threshold),
        forall|i: int| 0 <= i < additions(custom, id_set(base), threshold).len() ==> ({
            let a = #[trigger] additions(custom, id_set(base), threshold)[i];
            a.id matches Some(x) && x >= threshold && !id_set(base).contains(x)
        }),
{
    let adds = additions(custom, id_set(base), threshold);
    crate::sorting::lemma_sort_by_key(base + adds, rec_key());
    let p = |r: StaticRecord| takes(r, id_set(base), threshold);
    assert forall|i: int| 0 <= i < adds.len() implies ({
        let a = #[trigger] adds[i];
        a.id matches Some(x) && x >= threshold && !id_set(base).contains(x)
    }) by {
        custom.lemma_filter_pred(p, i);
    }
}

/// The base holds a record with id `i`.
pub open spec fn base_has_id(base: Seq<StaticRecord>, i: u32) -> bool {
    exists|j: int| 0 <= j < base.len() && #[trigger] base[j].id == Some(i)
}

/// A custom record that a merge should add: its id is at least the threshold
/// and no base record holds it.
pub open spec fn eligible(r: StaticRecord, base: Seq<StaticRecord>, threshold: u32) -> bool {
    r.id matches Some(i) && i >= threshold && !base_has_id(base, i)
}

/// A merge keeps exactly the right records: every custom record whose id is
/// at least the threshold and held by no base record is in the merged
/// category, and every record of the merged category is a base record or
/// such a custom record; a custom record below the threshold, without an
/// id, or with an id the base holds is never added.
pub proof fn lemma_merge_takes_exactly(base: Seq<StaticRecord>, custom: Seq<StaticRecord>, threshold: u32)
    ensures
        forall|k: int|
            0 <= k < custom.len() && eligible(#[trigger] custom[k], base, threshold) ==> merged(base, custom, threshold).contains(
                custom[k],
            ),
        forall|x: StaticRecord|
            #[trigger] merged(base, custom, threshold).contains(x) ==> base.contains(x) || (custom.contains(x) && eligible(
                x,
                base,
                threshold,
            )),
{
    broadcast use vstd::seq_lib::group_to_multiset_ensures;

    let p = |r: StaticRecord| takes(r, id_set(base), threshold);
    let adds = additions(custom, id_set(base), threshold);
    let all = base + adds;
    crate::sorting::lemma_sort_by_key(all, rec_key());
    let m = merged(base, custom, threshold);
    assert forall|i: u32| id_set(base).contains(i) <==> base_has_id(base, i) by {}
    assert forall|k: int|
        0 <= k < custom.len() && eligible(#[trigger] custom[k], base, threshold) implies m.contains(custom[k]) by {
        assert(p(custom[k]));
        custom.lemma_filter_contains(p, k);
        let q = choose|q: int| 0 <= q < adds.len() && adds[q] == custom[k];
        assert(all[base.len() + q] == custom[k]);
        assert(all.contains(custom[k]));
        assert(all.to_multiset().count(custom[k]) > 0);
        assert(m.to_multiset().count(custom[k]) > 0);
    }
    assert forall|x: StaticRecord| #[trigger] m.contains(x) implies base.contains(x) || (custom.contains(x) && eligible(
        x,
        base,
        threshold,
    )) by {
        assert(m.to_multiset().count(x) > 0);
        assert(all.to_multiset().count(x) > 0);
        assert(all.contains(x));
        let q = choose|q: int| 0 <= q < all.len() && all[q] == x;
        if q >= base.len() {
            assert(adds[q - base.len()] == x);
            assert(adds.contains(x));
            custom.lemma_filter_contains_rev(p, x);
            custom.lemma_filter_pred(p, q - base.len());
        } else {
            assert(base[q] == x);
        }
    }
}

/// What a merge would add, for the preview: the counts of each category and
/// of the map houses (0 without both map files), the files concerned and the
/// schema of the loaded document.
pub fn get_staticdata_merge_preview(
    official: StaticDataDoc,
    current: StaticDataDoc,
    thresholds: &StaticDataMergeThresholds,
    map_houses: Option<(Vec<StaticRecord>, Vec<StaticRecord>)>,
    staticdata_file: String,
    staticmapdata_file: Option<String>,
) -> (r: Result<StaticDataMergePreview, String>)
    ensures
        match (official, current) {
            (StaticDataDoc::Old(o), StaticDataDoc::Old(c)) => r matches Ok(p) && p.schema@ == "old"@
                && p.creatures_to_add == added_count(o.creatures@, c.creatures@, thresholds.creatures)
                && p.bosses_to_add == added_count(o.bosses@, c.bosses@, thresholds.bosses)
                && p.houses_to_add == added_count(o.houses@, c.houses@, thresholds.houses)
                && p.quests_to_add == added_count(o.quests@, c.quests@, thresholds.quests)
                && p.achievements_to_add == added_count(o.achievements@, c.achievements@, thresholds.achievements)
                && p.monster_classes_to_add == 0,
            (StaticDataDoc::New(o), StaticDataDoc::New(c)) => r matches Ok(p) && p.schema@ == "new"@
                && p.creatures_to_add == added_count(o.monsters@, c.monsters@, thresholds.creatures)
                && p.bosses_to_add == added_count(o.bosses@, c.bosses@, thresholds.bosses)
                && p.houses_to_add == added_count(o.houses@, c.houses@, thresholds.houses)
                && p.quests_to_add == added_count(o.quests@, c.quests@, thresholds.quests)
                && p.achievements_to_add == added_count(o.achievements@, c.achievements@, thresholds.achievements)
                && p.monster_classes_to_add == added_count(o.monster_classes@, c.monster_classes@, thresholds.monster_classes),
            _ => r matches Err(e) && e@ == schema_mismatch_text(schema_name(official), schema_name(current)),
        },
        r matches Ok(p) ==> p.staticdata_file == staticdata_file && p.staticmapdata_file == staticmapdata_file
            && p.map_houses_to_add == match map_houses {
                Some((o, c)) => added_count(o@, c@, thresholds.map_houses) as int,
                None => 0,
            },
{
    let schema = String::from_str(current.version());
    let (_, counts) = match merge_docs(official, current, thresholds) {
        Ok(m) => m,
        Err(e) => {
            return Err(e);
        },
    };
    let map_houses_to_add = match map_houses {
        Some((o, c)) => {
            let (_, n) = merge_by_id(o, c, thresholds.map_houses);
            n
        },
        None => 0,
    };
    Ok(StaticDataMergePreview {
        creatures_to_add: counts.creatures,
        bosses_to_add: counts.bosses,
        houses_to_add: counts.houses,
        quests_to_add: counts.quests,
        achievements_to_add: counts.achievements,
        monster_classes_to_add: counts.monster_classes,
        map_houses_to_add,
        staticdata_file,
        staticmapdata_file,
        schema,
    })
}

/// Merge the loaded document into the official one, and the map houses when
/// both map files are given: the merged document, the merged map houses, and
/// how many records each category gained (0 map houses without both files).
pub fn execute_staticdata_merge(
    official: StaticDataDoc,
    current: StaticDataDoc,
    thresholds: &StaticDataMergeThresholds,
    map_houses: Option<(Vec<StaticRecord>, Vec<StaticRecord>)>,
) -> (r: Result<(StaticDataDoc, Option<Vec<StaticRecord>>, StaticDataMergeResult), String>)
    ensures
        match (official, current) {
            (StaticDataDoc::Old(o), StaticDataDoc::Old(c)) => r matches Ok((StaticDataDoc::Old(m), _, res))
                && m.creatures@ == merged(o.creatures@, c.creatures@, thresholds.creatures)
                && m.bosses@ == merged(o.bosses@, c.bosses@, thresholds.bosses)
                && m.houses@ == merged(o.houses@, c.houses@, thresholds.houses)
                && m.quests@ == merged(o.quests@, c.quests@, thresholds.quests)
                && m.achievements@ == merged(o.achievements@, c.achievements@, thresholds.achievements)
                && res.creatures_added == added_count(o.creatures@, c.creatures@, thresholds.creatures)
                && res.bosses_added == added_count(o.bosses@, c.bosses@, thresholds.bosses)
                && res.houses_added == added_count(o.houses@, c.houses@, thresholds.houses)
                && res.quests_added == added_count(o.quests@, c.quests@, thresholds.quests)
                && res.achievements_added == added_count(o.achievements@, c.achievements@, thresholds.achievements)
                && res.monster_classes_added == 0,
            (StaticDataDoc::New(o), StaticDataDoc::New(c)) => r matches Ok((StaticDataDoc::New(m), _, res))
                && m.monsters@ == merged(o.monsters@, c.monsters@, thresholds.creatures)
                && m.monster_classes@ == merged(o.monster_classes@, c.monster_classes@, thresholds.monster_classes)
                && m.bosses@ == merged(o.bosses@, c.bosses@, thresholds.bosses)
                && m.houses@ == merged(o.houses@, c.houses@, thresholds.houses)
                && m.quests@ == merged(o.quests@, c.quests@, thresholds.quests)
                && m.achievements@ == merged(o.achievements@, c.achievements@, thresholds.achievements)
                && res.creatures_added == added_count(o.monsters@, c.monsters@, thresholds.creatures)
                && res.bosses_added == added_count(o.bosses@, c.bosses@, thresholds.bosses)
                && res.houses_added == added_count(o.houses@, c.houses@, thresholds.houses)
                && res.quests_added == added_count(o.quests@, c.quests@, thresholds.quests)
                && res.achievements_added == added_count(o.achievements@, c.achievements@, thresholds.achievements)
                && res.monster_classes_added == added_count(o.monster_classes@, c.monster_classes@, thresholds.monster_classes),
            _ => r matches Err(e) && e@ == schema_mismatch_text(schema_name(official), schema_name(current)),
        },
        r matches Ok((_, houses, res)) ==> match map_houses {
            Some((o, c)) => houses matches Some(h) && h@ == merged(o@, c@, thresholds.map_houses)
                && res.map_houses_added == added_count(o@, c@, thresholds.map_houses),
            None => houses is None && res.map_houses_added == 0,
        },
{
    let (doc, counts) = match merge_docs(official, current, thresholds) {
        Ok(m) => m,
        Err(e) => {
            return Err(e);
        },
    };
    let (houses, map_houses_added) = match map_houses {
        Some((o, c)) => {
            let (h, n) = merge_by_id(o, c, thresholds.map_houses);
            (Some(h), n)
        },
        None => (None, 0),
    };
    Ok((
        doc,
        houses,
        StaticDataMergeResult {
            creatures_added: counts.creatures,
            bosses_added: counts.bosses,
            houses_added: counts.houses,
            quests_added: counts.quests,
            achievements_added: counts.achievements,
            monster_classes_added: counts.monster_classes,
            map_houses_added,
        },
    ))
}

} // verus!
