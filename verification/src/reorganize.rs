//! Reorganize (compact) appearance ids within a range.
//!
//! Given a category and an id range `[from, to]`, renumbers the appearances whose
//! id falls in that range to be sequential starting at `from`, removing gaps and
//! freeing the tail `[from + N, to]`. Object-id cross-references inside the
//! catalog (market trade-as / show-as, the former object of an expiring item, the
//! currency of NPC offers, and the special-meaning ids) follow the moved ids.
use crate::appearance::{
    appearance_views, Appearance, AppearanceFlagChangedToExpire, AppearanceFlagMarket,
    AppearanceFlagNpc, AppearanceFlags, AppearanceFlagsView, AppearanceView, Appearances,
    AppearancesView, SpecialMeaningAppearanceIds,
};
use crate::lua::{decimal, push_decimal};
use crate::sorting::{insert_by_key, lemma_insert_at, lemma_sort_by_key, sort_by_key};
use crate::text::{byte_chars, string_from_bytes};
use std::collections::HashMap;
use vstd::prelude::*;

verus! {

broadcast use vstd::std_specs::hash::group_hash_axioms;

/// Which list of the catalog an operation works on.
#[derive(Clone, Copy, PartialEq, Eq, Structural, Debug)]
pub enum AppearanceCategory {
    Objects,
    Outfits,
    Effects,
    Missiles,
}

/// What a reorganize would do.
pub struct ReorganizePreview {
    /// Appearances found in `[from, to]`.
    pub count: usize,
    /// How many of them change id.
    pub changed: usize,
    /// First freed id (`from + count`) and the range's upper bound.
    pub freed_from: u32,
    pub freed_to: u32,
    /// The first (at most 50) `(old, new)` pairs.
    pub sample: Vec<(u32, u32)>,
}

/// What a reorganize did.
pub struct ReorganizeResult {
    /// Every `(old, new)` id that moved.
    pub remap: Vec<(u32, u32)>,
    pub count: usize,
    pub changed: usize,
    pub freed_from: u32,
    pub freed_to: u32,
}

/// The key of an id: the id itself.
pub open spec fn u32_key() -> spec_fn(u32) -> int {
    |x: u32| x as int
}

/// The key an appearance is ordered by: its id, or 0 without one.
pub open spec fn app_key() -> spec_fn(Appearance) -> int {
    |a: Appearance|
        match a.id {
            Some(i) => i as int,
            None => 0,
        }
}

fn insert_id(v: &mut Vec<u32>, x: u32)
    ensures
        final(v)@ == insert_by_key(old(v)@, x, u32_key()),
{
    let mut j = v.len();
    while j > 0 && v[j - 1] > x
        invariant
            j <= v@.len(),
            v@ == old(v)@,
            forall|i: int| j <= i < v@.len() ==> (u32_key())(#[trigger] v@[i]) > (u32_key())(x),
        decreases j,
    {
        j = j - 1;
    }
    proof {
        lemma_insert_at(v@, x, u32_key(), j as int);
    }
    v.insert(j, x);
}

fn sort_ids(v: &Vec<u32>) -> (r: Vec<u32>)
    ensures
        r@ == sort_by_key(v@, u32_key()),
{
    let mut r: Vec<u32> = Vec::new();
    let mut i: usize = 0;
    while i < v.len()
        invariant
            i <= v@.len(),
            r@ == sort_by_key(v@.take(i as int), u32_key()),
        decreases v@.len() - i,
    {
        proof {
            assert(v@.take(i + 1).drop_last() =~= v@.take(i as int));
        }
        insert_id(&mut r, v[i]);
        i = i + 1;
    }
    proof {
        assert(v@.take(i as int) =~= v@);
    }
    r
}

fn placeholder() -> (r: Appearance)
    ensures
        r.id.is_none(),
{
    Appearance { id: None, name: None, description: None, flags: None, frame_group: Vec::new() }
}

fn app_key_of(a: &Appearance) -> (r: u32)
    ensures
        r == (app_key())(*a),
{
    match a.id {
        Some(i) => i,
        None => 0,
    }
}

fn insert_appearance(v: &mut Vec<Appearance>, x: Appearance)
    ensures
        final(v)@ == insert_by_key(old(v)@, x, app_key()),
{
    let kx = app_key_of(&x);
    let mut j = v.len();
    while j > 0 && app_key_of(&v[j - 1]) > kx
        invariant
            j <= v@.len(),
            v@ == old(v)@,
            kx == (app_key())(x),
            forall|i: int| j <= i < v@.len() ==> (app_key())(#[trigger] v@[i]) > (app_key())(x),
        decreases j,
    {
        j = j - 1;
    }
    proof {
        lemma_insert_at(v@, x, app_key(), j as int);
    }
    v.insert(j, x);
}

/// Stable sort of the appearances by id (a missing id counts as 0).
fn sort_appearances(v: Vec<Appearance>) -> (r: Vec<Appearance>)
    ensures
        r@ == sort_by_key(v@, app_key()),
{
    let ghost s = v@;
    let mut v = v;
    let mut r: Vec<Appearance> = Vec::new();
    let mut i: usize = 0;
    while i < v.len()
        invariant
            i <= v@.len(),
            v@.len() == s.len(),
            forall|j: int| i <= j < s.len() ==> v@[j] == s[j],
            r@ == sort_by_key(s.take(i as int), app_key()),
        decreases v@.len() - i,
    {
        let mut a = placeholder();
        std::mem::swap(&mut a, &mut v[i]);
        proof {
            assert(s.take(i + 1).drop_last() =~= s.take(i as int));
            assert(a == s[i as int]);
        }
        insert_appearance(&mut r, a);
        i = i + 1;
    }
    proof {
        assert(s.take(i as int) =~= s);
    }
    r
}

// ---------------------------------------------------------------------------
// The remap

/// The `(old, new)` pairs of the ids that move when the sorted in-range ids
/// `ids` are renumbered `from`, `from + 1`, ...: those whose new id differs.
pub open spec fn remap_pairs(ids: Seq<u32>, from: int) -> Seq<(u32, u32)>
    decreases ids.len(),
{
    if ids.len() == 0 {
        Seq::empty()
    } else {
        let prev = remap_pairs(ids.drop_last(), from);
        let new_id = from + ids.len() - 1;
        if ids.last() != new_id {
            prev.push((ids.last(), new_id as u32))
        } else {
            prev
        }
    }
}

/// The old-to-new map of the ids that move (a later pair for the same old id
/// overrides an earlier one).
pub open spec fn remap_map(ids: Seq<u32>, from: int) -> Map<u32, u32>
    decreases ids.len(),
{
    if ids.len() == 0 {
        Map::empty()
    } else {
        let prev = remap_map(ids.drop_last(), from);
        let new_id = from + ids.len() - 1;
        if ids.last() != new_id {
            prev.insert(ids.last(), new_id as u32)
        } else {
            prev
        }
    }
}

/// Renumber the sorted in-range ids from `from`: the pairs that move, in
/// order, and the map from each moved id to its new id.
pub fn build_remap(ids_in_range: &[u32], from: u32) -> (r: (Vec<(u32, u32)>, HashMap<u32, u32>))
    requires
        from + ids_in_range@.len() <= u32::MAX + 1,
    ensures
        r.0@ == remap_pairs(ids_in_range@, from as int),
        r.1@ == remap_map(ids_in_range@, from as int),
{
    let mut pairs: Vec<(u32, u32)> = Vec::new();
    let mut map: HashMap<u32, u32> = HashMap::new();
    let mut i: usize = 0;
    while i < ids_in_range.len()
        invariant
            i <= ids_in_range@.len(),
            from + ids_in_range@.len() <= u32::MAX + 1,
            pairs@ == remap_pairs(ids_in_range@.take(i as int), from as int),
            map@ == remap_map(ids_in_range@.take(i as int), from as int),
        decreases ids_in_range@.len() - i,
    {
        let old_id = ids_in_range[i];
        let new_id = from + i as u32;
        proof {
            let t = ids_in_range@.take(i + 1);
            assert(t.drop_last() =~= ids_in_range@.take(i as int));
            assert(t.last() == old_id);
        }
        if old_id != new_id {
            pairs.push((old_id, new_id));
            map.insert(old_id, new_id);
        }
        i = i + 1;
    }
    proof {
        assert(ids_in_range@.take(i as int) =~= ids_in_range@);
    }
    (pairs, map)
}

/// The ids of `s`, in order, that lie in `[from, to]`.
pub open spec fn in_range_ids(s: Seq<Appearance>, from: u32, to: u32) -> Seq<u32>
    decreases s.len(),
{
    if s.len() == 0 {
        Seq::empty()
    } else {
        let prev = in_range_ids(s.drop_last(), from, to);
        match s.last().id {
            Some(i) => if from <= i && i <= to {
                prev.push(i)
            } else {
                prev
            },
            None => prev,
        }
    }
}

/// The exec appearances of a category.
pub open spec fn category_list(a: &Appearances, c: AppearanceCategory) -> Seq<Appearance> {
    match c {
        AppearanceCategory::Objects => a.object@,
        AppearanceCategory::Outfits => a.outfit@,
        AppearanceCategory::Effects => a.effect@,
        AppearanceCategory::Missiles => a.missile@,
    }
}

/// The in-range ids of a category, sorted ascending.
pub open spec fn sorted_in_range_ids(a: &Appearances, c: AppearanceCategory, from: u32, to: u32) -> Seq<u32> {
    sort_by_key(in_range_ids(category_list(a, c), from, to), u32_key())
}

fn in_range_of(v: &Vec<Appearance>, from: u32, to: u32) -> (r: Vec<u32>)
    ensures
        r@ == in_range_ids(v@, from, to),
{
    let mut r: Vec<u32> = Vec::new();
    let mut i: usize = 0;
    while i < v.len()
        invariant
            i <= v@.len(),
            r@ == in_range_ids(v@.take(i as int), from, to),
        decreases v@.len() - i,
    {
        proof {
            assert(v@.take(i + 1).drop_last() =~= v@.take(i as int));
        }
        match v[i].id {
            Some(id) => {
                if id >= from && id <= to {
                    r.push(id);
                }
            },
            None => {},
        }
        i = i + 1;
    }
    proof {
        assert(v@.take(i as int) =~= v@);
    }
    r
}

/// The ids of the category's appearances that lie in `[from, to]`, sorted.
pub fn ids_in_range(appearances: &Appearances, category: AppearanceCategory, from: u32, to: u32) -> (r: Vec<u32>)
    ensures
        r@ == sorted_in_range_ids(appearances, category, from, to),
{
    let ids = match category {
        AppearanceCategory::Objects => in_range_of(&appearances.object, from, to),
        AppearanceCategory::Outfits => in_range_of(&appearances.outfit, from, to),
        AppearanceCategory::Effects => in_range_of(&appearances.effect, from, to),
        AppearanceCategory::Missiles => in_range_of(&appearances.missile, from, to),
    };
    sort_ids(&ids)
}

/// The bytes of `Invalid range: {from} > {to}`, both in decimal.
pub open spec fn invalid_range_bytes(from: u32, to: u32) -> Seq<u8> {
    seq![73u8, 110u8, 118u8, 97u8, 108u8, 105u8, 100u8, 32u8, 114u8, 97u8, 110u8, 103u8, 101u8, 58u8, 32u8]
        + decimal(from as nat) + seq![32u8, 62u8, 32u8] + decimal(to as nat)
}

/// `Invalid range: {from} > {to}`.
fn invalid_range_message(from: u32, to: u32) -> (r: String)
    ensures
        r@ == byte_chars(invalid_range_bytes(from, to)),
{
    let mut b: Vec<u8> = vec![73u8, 110u8, 118u8, 97u8, 108u8, 105u8, 100u8, 32u8, 114u8, 97u8, 110u8, 103u8, 101u8, 58u8, 32u8];
    push_decimal(&mut b, from);
    b.push(32u8);
    b.push(62u8);
    b.push(32u8);
    push_decimal(&mut b, to);
    proof {
        assert(b@ =~= invalid_range_bytes(from, to));
    }
    string_from_bytes(&b)
}

/// A range is accepted when it starts above 0 and does not end before it.
pub open spec fn valid_range(from: u32, to: u32) -> bool {
    from != 0 && from <= to
}

/// Check the bounds of a range: a start of 0 is refused with
/// "Start id must be greater than 0", a start past the end with
/// "Invalid range: {from} > {to}".
pub fn validate_range(from: u32, to: u32) -> (r: Result<(), String>)
    ensures
        r.is_ok() == valid_range(from, to),
        from == 0 ==> (r matches Err(m) && m@ == "Start id must be greater than 0"@),
        from != 0 && from > to ==> (r matches Err(m) && m@ == byte_chars(invalid_range_bytes(from, to))),
{
    if from == 0 {
        return Err(String::from_str("Start id must be greater than 0"));
    }
    if from > to {
        return Err(invalid_range_message(from, to));
    }
    Ok(())
}

// ---------------------------------------------------------------------------
// Following the moved ids

/// An optional id after the remap: a mapped id becomes its new id; any other
/// value stays.
pub open spec fn remap_id_opt(o: Option<u32>, m: Map<u32, u32>) -> Option<u32> {
    match o {
        Some(i) => if m.contains_key(i) {
            Some(m[i])
        } else {
            o
        },
        None => None,
    }
}

/// Rewrite an optional id through `map`.
pub fn remap_opt(field: &mut Option<u32>, map: &HashMap<u32, u32>)
    ensures
        *final(field) == remap_id_opt(*old(field), map@),
{
    if let Some(id) = *field {
        if let Some(new_id) = map.get(&id) {
            *field = Some(*new_id);
        }
    }
}

/// The flags after the remap: market trade-as and show-as, the former object
/// of an expiring appearance and the currency of each NPC offer follow the
/// map; nothing else changes.
pub open spec fn remap_flag_refs(f: AppearanceFlagsView, m: Map<u32, u32>) -> AppearanceFlagsView {
    AppearanceFlagsView {
        market: match f.market {
            Some(mk) => Some(
                AppearanceFlagMarket {
                    trade_as_object_id: remap_id_opt(mk.trade_as_object_id, m),
                    show_as_object_id: remap_id_opt(mk.show_as_object_id, m),
                    ..mk
                },
            ),
            None => None,
        },
        changedtoexpire: match f.changedtoexpire {
            Some(c) => Some(AppearanceFlagChangedToExpire { former_object_typeid: remap_id_opt(c.former_object_typeid, m) }),
            None => None,
        },
        npcsaledata: f.npcsaledata.map_values(
            |n: AppearanceFlagNpc| AppearanceFlagNpc { currency_object_type_id: remap_id_opt(n.currency_object_type_id, m), ..n },
        ),
        ..f
    }
}

/// An appearance after the remap of the object ids it refers to.
pub open spec fn remap_refs(a: AppearanceView, m: Map<u32, u32>) -> AppearanceView {
    AppearanceView {
        flags: match a.flags {
            Some(f) => Some(remap_flag_refs(f, m)),
            None => None,
        },
        ..a
    }
}

fn remap_npcs(v: &mut Vec<AppearanceFlagNpc>, map: &HashMap<u32, u32>)
    ensures
        final(v)@ == old(v)@.map_values(
            |n: AppearanceFlagNpc| AppearanceFlagNpc { currency_object_type_id: remap_id_opt(n.currency_object_type_id, map@), ..n },
        ),
{
    let ghost s = v@;
    let mut i: usize = 0;
    while i < v.len()
        invariant
            i <= v@.len(),
            v@.len() == s.len(),
            forall|j: int| i <= j < s.len() ==> v@[j] == s[j],
            forall|j: int| 0 <= j < i ==> v@[j] == (AppearanceFlagNpc {
                currency_object_type_id: remap_id_opt(s[j].currency_object_type_id, map@),
                ..s[j]
            }),
        decreases v@.len() - i,
    {
        let mut n = v[i];
        remap_opt(&mut n.currency_object_type_id, map);
        v.set(i, n);
        i = i + 1;
    }
    proof {
        assert(v@ =~= s.map_values(
            |n: AppearanceFlagNpc| AppearanceFlagNpc { currency_object_type_id: remap_id_opt(n.currency_object_type_id, map@), ..n },
        ));
    }
}

fn remap_flags(flags: &mut AppearanceFlags, map: &HashMap<u32, u32>)
    ensures
        final(flags)@ == remap_flag_refs(old(flags)@, map@),
{
    if let Some(market) = &mut flags.market {
        remap_opt(&mut market.trade_as_object_id, map);
        remap_opt(&mut market.show_as_object_id, map);
    }
    if let Some(cte) = &mut flags.changedtoexpire {
        remap_opt(&mut cte.former_object_typeid, map);
    }
    remap_npcs(&mut flags.npcsaledata, map);
}

/// Rewrite every object-id reference an appearance holds through `map` (ids
/// absent from the map are left unchanged). Lens-help and the other non-object
/// ids are not touched.
pub fn apply_object_id_remap(appearance: &mut Appearance, map: &HashMap<u32, u32>)
    ensures
        final(appearance)@ == remap_refs(old(appearance)@, map@),
{
    if let Some(flags) = &mut appearance.flags {
        remap_flags(flags, map);
    }
}

/// The special-meaning ids after the remap: each follows the map.
pub open spec fn remap_special(sm: SpecialMeaningAppearanceIds, m: Map<u32, u32>) -> SpecialMeaningAppearanceIds {
    SpecialMeaningAppearanceIds {
        gold_coin_id: remap_id_opt(sm.gold_coin_id, m),
        platinum_coin_id: remap_id_opt(sm.platinum_coin_id, m),
        crystal_coin_id: remap_id_opt(sm.crystal_coin_id, m),
        tibia_coin_id: remap_id_opt(sm.tibia_coin_id, m),
        stamped_letter_id: remap_id_opt(sm.stamped_letter_id, m),
        supply_stash_id: remap_id_opt(sm.supply_stash_id, m),
        standard_reward_chest_id: remap_id_opt(sm.standard_reward_chest_id, m),
        blank_imbuement_scroll_id: remap_id_opt(sm.blank_imbuement_scroll_id, m),
    }
}

/// Rewrite the special-meaning ids through `map`.
pub fn apply_special_meaning_remap(sm: &mut SpecialMeaningAppearanceIds, map: &HashMap<u32, u32>)
    ensures
        *final(sm) == remap_special(*old(sm), map@),
{
    remap_opt(&mut sm.gold_coin_id, map);
    remap_opt(&mut sm.platinum_coin_id, map);
    remap_opt(&mut sm.crystal_coin_id, map);
    remap_opt(&mut sm.tibia_coin_id, map);
    remap_opt(&mut sm.stamped_letter_id, map);
    remap_opt(&mut sm.supply_stash_id, map);
    remap_opt(&mut sm.standard_reward_chest_id, map);
    remap_opt(&mut sm.blank_imbuement_scroll_id, map);
}

// ---------------------------------------------------------------------------
// The commands

/// An appearance after its own id is remapped.
pub open spec fn remap_id(a: Appearance, m: Map<u32, u32>) -> Appearance {
    match a.id {
        Some(i) => if m.contains_key(i) {
            Appearance { id: Some(m[i]), ..a }
        } else {
            a
        },
        None => a,
    }
}

fn reassign_ids(v: &mut Vec<Appearance>, map: &HashMap<u32, u32>)
    ensures
        final(v)@ == old(v)@.map_values(|a: Appearance| remap_id(a, map@)),
{
    let ghost s = v@;
    let mut i: usize = 0;
    while i < v.len()
        invariant
            i <= v@.len(),
            v@.len() == s.len(),
            forall|j: int| i <= j < s.len() ==> v@[j] == s[j],
            forall|j: int| 0 <= j < i ==> v@[j] == remap_id(s[j], map@),
        decreases v@.len() - i,
    {
        if let Some(id) = v[i].id {
            if let Some(new_id) = map.get(&id) {
                v[i].id = Some(*new_id);
            }
        }
        i = i + 1;
    }
    proof {
        assert(v@ =~= s.map_values(|a: Appearance| remap_id(a, map@)));
    }
}

fn remap_all_refs(v: &mut Vec<Appearance>, map: &HashMap<u32, u32>)
    ensures
        appearance_views(final(v)@) == appearance_views(old(v)@).map_values(|x: AppearanceView| remap_refs(x, map@)),
{
    let ghost s = v@;
    let mut i: usize = 0;
    while i < v.len()
        invariant
            i <= v@.len(),
            v@.len() == s.len(),
            forall|j: int| i <= j < s.len() ==> v@[j] == s[j],
            forall|j: int| 0 <= j < i ==> v@[j]@ == remap_refs(s[j]@, map@),
        decreases v@.len() - i,
    {
        let mut a = placeholder();
        std::mem::swap(&mut a, &mut v[i]);
        apply_object_id_remap(&mut a, map);
        v.set(i, a);
        i = i + 1;
    }
    proof {
        assert(appearance_views(v@) =~= appearance_views(s).map_values(|x: AppearanceView| remap_refs(x, map@)));
    }
}

/// The catalog after a reorganize of category `c` with map `m`: the
/// category's appearances get their new ids and are sorted by id (stably);
/// for objects, the references between objects and the special-meaning ids
/// follow the map too. The other categories are unchanged.
pub open spec fn reorganized(a: &Appearances, c: AppearanceCategory, m: Map<u32, u32>) -> AppearancesView {
    let items = appearance_views(sort_by_key(category_list(a, c).map_values(|x: Appearance| remap_id(x, m)), app_key()));
    let v = a@;
    match c {
        AppearanceCategory::Objects => AppearancesView {
            object: items.map_values(|x: AppearanceView| remap_refs(x, m)),
            special_meaning_appearance_ids: match v.special_meaning_appearance_ids {
                Some(sm) => Some(remap_special(sm, m)),
                None => None,
            },
            ..v
        },
        AppearanceCategory::Outfits => AppearancesView { outfit: items, ..v },
        AppearanceCategory::Effects => AppearancesView { effect: items, ..v },
        AppearanceCategory::Missiles => AppearancesView { missile: items, ..v },
    }
}

/// Every moved id is a key of the map.
proof fn lemma_pairs_in_map(ids: Seq<u32>, from: int)
    ensures
        forall|i: int| 0 <= i < remap_pairs(ids, from).len() ==> remap_map(ids, from).contains_key(
            #[trigger] remap_pairs(ids, from)[i].0,
        ),
    decreases ids.len(),
{
    if ids.len() > 0 {
        let t = ids.drop_last();
        lemma_pairs_in_map(t, from);
        let p = remap_pairs(ids, from);
        let m = remap_map(ids, from);
        assert forall|i: int| 0 <= i < p.len() implies m.contains_key(#[trigger] p[i].0) by {
            if i < remap_pairs(t, from).len() {
                assert(p[i] == remap_pairs(t, from)[i]);
                assert(remap_map(t, from).contains_key(remap_pairs(t, from)[i].0));
            }
        }
    }
}

/// No move leaves no pair.
proof fn lemma_no_move_no_pairs(ids: Seq<u32>, from: int)
    requires
        remap_map(ids, from).is_empty(),
    ensures
        remap_pairs(ids, from).len() == 0,
{
    lemma_pairs_in_map(ids, from);
    if remap_pairs(ids, from).len() > 0 {
        assert(remap_map(ids, from).contains_key(remap_pairs(ids, from)[0].0));
        assert(remap_map(ids, from).dom().contains(remap_pairs(ids, from)[0].0));
    }
}

fn swap_category(appearances: &mut Appearances, category: AppearanceCategory, items: &mut Vec<Appearance>)
    ensures
        final(items)@ == category_list(old(appearances), category),
        category_list(final(appearances), category) == old(items)@,
        final(appearances).special_meaning_appearance_ids == old(appearances).special_meaning_appearance_ids,
        forall|c: AppearanceCategory| c != category ==> category_list(final(appearances), c) == category_list(
            old(appearances),
            c,
        ),
{
    match category {
        AppearanceCategory::Objects => std::mem::swap(items, &mut appearances.object),
        AppearanceCategory::Outfits => std::mem::swap(items, &mut appearances.outfit),
        AppearanceCategory::Effects => std::mem::swap(items, &mut appearances.effect),
        AppearanceCategory::Missiles => std::mem::swap(items, &mut appearances.missile),
    }
}

/// The count of in-range ids leaves room for the new ids and the freed start.
pub open spec fn fits(a: &Appearances, c: AppearanceCategory, from: u32, to: u32) -> bool {
    valid_range(from, to) ==> from + sorted_in_range_ids(a, c, from, to).len() <= u32::MAX
}

/// What `reorganize_appearance_ids` does to `before`, giving `after` and
/// `r`: a refused range is an error and changes nothing; otherwise the
/// in-range ids are compacted from `from`, reporting every move, the count,
/// and the freed tail, and the catalog changes only when an id moves.
pub open spec fn reorganize_outcome(
    before: &Appearances,
    after: &Appearances,
    c: AppearanceCategory,
    from: u32,
    to: u32,
    r: Result<ReorganizeResult, String>,
) -> bool {
    &&& !valid_range(from, to) ==> r.is_err() && after@ == before@
    &&& valid_range(from, to) ==> ({
        let ids = sorted_in_range_ids(before, c, from, to);
        let m = remap_map(ids, from as int);
        let pairs = remap_pairs(ids, from as int);
        &&& r matches Ok(res) && res.remap@ == pairs && res.count == ids.len() && res.changed == pairs.len()
            && res.freed_from == from + ids.len() && res.freed_to == to
        &&& m.is_empty() ==> after@ == before@
        &&& !m.is_empty() ==> after@ == reorganized(before, c, m)
    })
}

/// What `preview_reorganize_appearance_ids` reports for `a`: a refused
/// range is an error; otherwise the count, the number of moves, the freed
/// tail and the first 50 moves.
pub open spec fn preview_outcome(
    a: &Appearances,
    c: AppearanceCategory,
    from: u32,
    to: u32,
    r: Result<ReorganizePreview, String>,
) -> bool {
    &&& r.is_ok() == valid_range(from, to)
    &&& valid_range(from, to) ==> ({
        let ids = sorted_in_range_ids(a, c, from, to);
        let pairs = remap_pairs(ids, from as int);
        r matches Ok(p) && p.count == ids.len() && p.changed == pairs.len() && p.freed_from == from + ids.len()
            && p.freed_to == to && p.sample@ == pairs.take(if pairs.len() < 50 { pairs.len() as int } else { 50 })
    })
}

/// Compact the appearance ids of `category` in `[from, to]` sequentially from
/// `from` and rewrite the references to the moved object ids. A refused range
/// leaves the catalog unchanged; when no id moves, nothing changes either.
pub fn reorganize_appearance_ids(appearances: &mut Appearances, category: AppearanceCategory, from: u32, to: u32) -> (r: Result<ReorganizeResult, String>)
    requires
        fits(old(appearances), category, from, to),
    ensures
        reorganize_outcome(old(appearances), final(appearances), category, from, to, r),
        from == 0 ==> (r matches Err(m) && m@ == "Start id must be greater than 0"@),
        from != 0 && from > to ==> (r matches Err(m) && m@ == byte_chars(invalid_range_bytes(from, to))),
{
    validate_range(from, to)?;
    let ids = ids_in_range(appearances, category, from, to);
    let (pairs, map) = build_remap(&ids, from);
    let count = ids.len();
    if map.is_empty() {
        proof {
            lemma_no_move_no_pairs(ids@, from as int);
        }
        let remap: Vec<(u32, u32)> = Vec::new();
        assert(remap@ =~= remap_pairs(ids@, from as int));
        return Ok(ReorganizeResult { remap, count, changed: 0, freed_from: from + count as u32, freed_to: to });
    }
    let ghost before = *appearances;
    let ghost m = map@;
    let mut items: Vec<Appearance> = Vec::new();
    swap_category(appearances, category, &mut items);
    reassign_ids(&mut items, &map);
    let ghost reassigned = items@;
    let mut items = sort_appearances(items);
    let ghost sorted = items@;
    if category == AppearanceCategory::Objects {
        remap_all_refs(&mut items, &map);
    }
    let ghost done = items@;
    swap_category(appearances, category, &mut items);
    if category == AppearanceCategory::Objects {
        if let Some(sm) = &mut appearances.special_meaning_appearance_ids {
            apply_special_meaning_remap(sm, &map);
        }
    }
    proof {
        let target = reorganized(&before, category, m);
        let v = before@;
        let after = appearances@;
        assert(reassigned == category_list(&before, category).map_values(|x: Appearance| remap_id(x, m)));
        assert(sorted == sort_by_key(reassigned, app_key()));
        assert(category_list(appearances, category) == done);
        match category {
            AppearanceCategory::Objects => {
                assert(category_list(appearances, AppearanceCategory::Outfits) == category_list(&before, AppearanceCategory::Outfits));
                assert(category_list(appearances, AppearanceCategory::Effects) == category_list(&before, AppearanceCategory::Effects));
                assert(category_list(appearances, AppearanceCategory::Missiles) == category_list(&before, AppearanceCategory::Missiles));
                assert(after.object == target.object);
                assert(after.special_meaning_appearance_ids == target.special_meaning_appearance_ids);
            },
            AppearanceCategory::Outfits => {
                assert(category_list(appearances, AppearanceCategory::Objects) == category_list(&before, AppearanceCategory::Objects));
                assert(category_list(appearances, AppearanceCategory::Effects) == category_list(&before, AppearanceCategory::Effects));
                assert(category_list(appearances, AppearanceCategory::Missiles) == category_list(&before, AppearanceCategory::Missiles));
                assert(after.outfit == target.outfit);
            },
            AppearanceCategory::Effects => {
                assert(category_list(appearances, AppearanceCategory::Objects) == category_list(&before, AppearanceCategory::Objects));
                assert(category_list(appearances, AppearanceCategory::Outfits) == category_list(&before, AppearanceCategory::Outfits));
                assert(category_list(appearances, AppearanceCategory::Missiles) == category_list(&before, AppearanceCategory::Missiles));
                assert(after.effect == target.effect);
            },
            AppearanceCategory::Missiles => {
                assert(category_list(appearances, AppearanceCategory::Objects) == category_list(&before, AppearanceCategory::Objects));
                assert(category_list(appearances, AppearanceCategory::Outfits) == category_list(&before, AppearanceCategory::Outfits));
                assert(category_list(appearances, AppearanceCategory::Effects) == category_list(&before, AppearanceCategory::Effects));
                assert(after.missile == target.missile);
            },
        }
        assert(after == target);
    }
    let changed = pairs.len();
    Ok(ReorganizeResult { remap: pairs, count, changed, freed_from: from + count as u32, freed_to: to })
}

/// Compute what a reorganize would do, without applying it: the count of
/// in-range ids, how many move, the freed tail, and the first 50 moves.
pub fn preview_reorganize_appearance_ids(appearances: &Appearances, category: AppearanceCategory, from: u32, to: u32) -> (r: Result<ReorganizePreview, String>)
    requires
        fits(appearances, category, from, to),
    ensures
        preview_outcome(appearances, category, from, to, r),
        from == 0 ==> (r matches Err(m) && m@ == "Start id must be greater than 0"@),
        from != 0 && from > to ==> (r matches Err(m) && m@ == byte_chars(invalid_range_bytes(from, to))),
{
    validate_range(from, to)?;
    let ids = ids_in_range(appearances, category, from, to);
    let (pairs, _map) = build_remap(&ids, from);
    let n: usize = if pairs.len() < 50 { pairs.len() } else { 50 };
    let mut sample: Vec<(u32, u32)> = Vec::new();
    let mut i: usize = 0;
    while i < n
        invariant
            i <= n <= pairs@.len(),
            sample@ == pairs@.take(i as int),
        decreases n - i,
    {
        sample.push(pairs[i]);
        proof {
            assert(pairs@.take(i + 1) =~= pairs@.take(i as int).push(pairs@[i as int]));
        }
        i = i + 1;
    }
    Ok(ReorganizePreview { count: ids.len(), changed: pairs.len(), freed_from: from + ids.len() as u32, freed_to: to, sample })
}

// ---------------------------------------------------------------------------
// Laws

/// A preview reports what the reorganize of the same catalog does: both
/// fail on the same ranges, and otherwise agree on the count, the number of
/// moves and the freed range, the preview's sample being the first 50 moves
/// of the reorganize.
pub proof fn lemma_preview_matches_reorganize(
    before: &Appearances,
    after: &Appearances,
    c: AppearanceCategory,
    from: u32,
    to: u32,
    p: Result<ReorganizePreview, String>,
    q: Result<ReorganizeResult, String>,
)
    requires
        preview_outcome(before, c, from, to, p),
        reorganize_outcome(before, after, c, from, to, q),
    ensures
        p.is_err() <==> q.is_err(),
        (p, q) matches (Ok(pv), Ok(res)) ==> pv.count == res.count && pv.changed == res.changed
            && pv.freed_from == res.freed_from && pv.freed_to == res.freed_to
            && pv.sample@ == res.remap@.take(if res.remap@.len() < 50 { res.remap@.len() as int } else { 50 }),
{
}

/// `ids` is strictly ascending: sorted with no id twice.
pub open spec fn strictly_ascending(ids: Seq<u32>) -> bool {
    forall|i: int, j: int| 0 <= i < j < ids.len() ==> ids[i] < ids[j]
}

/// Compaction: when the sorted in-range ids hold no id twice, the remap sends
/// the `i`-th of them to `from + i`, and touches no other id.
pub proof fn lemma_remap_compacts(ids: Seq<u32>, from: u32)
    requires
        strictly_ascending(ids),
        from + ids.len() <= u32::MAX + 1,
    ensures
        forall|i: int| 0 <= i < ids.len() ==> remap_id_opt(Some(#[trigger] ids[i]), remap_map(ids, from as int)) == Some(
            (from + i) as u32,
        ),
        forall|x: u32| !ids.contains(x) ==> !remap_map(ids, from as int).contains_key(x),
    decreases ids.len(),
{
    if ids.len() > 0 {
        let t = ids.drop_last();
        let m = remap_map(ids, from as int);
        let mt = remap_map(t, from as int);
        assert(strictly_ascending(t));
        lemma_remap_compacts(t, from);
        assert(!t.contains(ids.last())) by {
            if t.contains(ids.last()) {
                let j = choose|j: int| 0 <= j < t.len() && t[j] == ids.last();
                assert(ids[j] < ids[ids.len() - 1]);
            }
        }
        assert forall|i: int| 0 <= i < ids.len() implies remap_id_opt(Some(#[trigger] ids[i]), m) == Some((from + i) as u32) by {
            if i < t.len() {
                assert(t[i] == ids[i]);
                assert(ids[i] != ids.last());
                assert(remap_id_opt(Some(t[i]), mt) == Some((from + i) as u32));
            }
        }
        assert forall|x: u32| !ids.contains(x) implies !m.contains_key(x) by {
            if t.contains(x) {
                let j = choose|j: int| 0 <= j < t.len() && t[j] == x;
                assert(ids[j] == x);
            }
        }
    }
}

/// The new ids fill `[from, from + N)`: every id the remap sends somewhere
/// goes into that interval, and (when the range holds the ids) stays at most
/// `to`.
pub proof fn lemma_remap_targets(ids: Seq<u32>, from: u32, to: u32)
    requires
        strictly_ascending(ids),
        from + ids.len() <= u32::MAX + 1,
        forall|i: int| 0 <= i < ids.len() ==> from <= #[trigger] ids[i] <= to,
    ensures
        forall|k: u32| #[trigger] remap_map(ids, from as int).contains_key(k) ==> from <= remap_map(ids, from as int)[k] < from + ids.len()
            && remap_map(ids, from as int)[k] <= to,
{
    lemma_remap_compacts(ids, from);
    let m = remap_map(ids, from as int);
    assert forall|k: u32| #[trigger] m.contains_key(k) implies from <= m[k] < from + ids.len() && m[k] <= to by {
        assert(ids.contains(k));
        let i = choose|i: int| 0 <= i < ids.len() && ids[i] == k;
        assert(remap_id_opt(Some(ids[i]), m) == Some((from + i) as u32));
        lemma_ascending_bound(ids, i);
    }
}

/// In a strictly ascending run of ids, the `i`-th is at least the first plus `i`.
proof fn lemma_ascending_bound(ids: Seq<u32>, i: int)
    requires
        strictly_ascending(ids),
        0 <= i < ids.len(),
    ensures
        ids[0] + i <= ids[i],
        ids[i] + (ids.len() - 1 - i) <= ids[ids.len() - 1],
    decreases i,
{
    if i > 0 {
        lemma_ascending_bound(ids, i - 1);
    }
    lemma_ascending_tail(ids, i);
}

proof fn lemma_ascending_tail(ids: Seq<u32>, i: int)
    requires
        strictly_ascending(ids),
        0 <= i < ids.len(),
    ensures
        ids[i] + (ids.len() - 1 - i) <= ids[ids.len() - 1],
    decreases ids.len() - i,
{
    if i < ids.len() - 1 {
        lemma_ascending_tail(ids, i + 1);
    }
}

/// The ids a reorganize renumbers all lie in the range, ascending, and are
/// exactly the category's in-range ids (as a multiset).
pub proof fn lemma_sorted_ids_in_range(a: &Appearances, c: AppearanceCategory, from: u32, to: u32)
    ensures
        forall|i: int| 0 <= i < sorted_in_range_ids(a, c, from, to).len() ==> from <= #[trigger] sorted_in_range_ids(
            a,
            c,
            from,
            to,
        )[i] <= to,
        crate::sorting::sorted_by(sorted_in_range_ids(a, c, from, to), u32_key()),
        sorted_in_range_ids(a, c, from, to).to_multiset() == in_range_ids(category_list(a, c), from, to).to_multiset(),
{
    let s = in_range_ids(category_list(a, c), from, to);
    crate::sorting::lemma_sort_by_key(s, u32_key());
    lemma_in_range_bounds(category_list(a, c), from, to);
    let r = sorted_in_range_ids(a, c, from, to);
    assert forall|i: int| 0 <= i < r.len() implies from <= #[trigger] r[i] <= to by {
        assert(r.to_multiset().count(r[i]) > 0) by {
            broadcast use vstd::seq_lib::group_to_multiset_ensures;
            assert(r.contains(r[i]));
        }
        assert(s.to_multiset().count(r[i]) > 0);
        assert(s.contains(r[i])) by {
            broadcast use vstd::seq_lib::group_to_multiset_ensures;
        }
    }
}

/// Every id the filter keeps lies in the range.
proof fn lemma_in_range_bounds(s: Seq<Appearance>, from: u32, to: u32)
    ensures
        forall|x: u32| in_range_ids(s, from, to).contains(x) ==> from <= x <= to,
    decreases s.len(),
{
    if s.len() > 0 {
        lemma_in_range_bounds(s.drop_last(), from, to);
        let prev = in_range_ids(s.drop_last(), from, to);
        assert forall|x: u32| in_range_ids(s, from, to).contains(x) implies from <= x <= to by {
            if !prev.contains(x) {
                let j = choose|j: int| 0 <= j < in_range_ids(s, from, to).len() && in_range_ids(s, from, to)[j] == x;
                if j < prev.len() {
                    assert(prev[j] == x);
                }
            }
        }
    }
}

/// The id `after` is what `before` becomes when the ids of `m` move: a
/// moved id becomes its new id, any other id and an absent one stay.
pub open spec fn follows(before: Option<u32>, after: Option<u32>, m: Map<u32, u32>) -> bool {
    match before {
        None => after is None,
        Some(x) => after == Some(if m.contains_key(x) { m[x] } else { x }),
    }
}

/// Appearance `a` is `b` with its own id and every object id it refers to
/// (market trade-as and show-as, the former object of an expiring item, the
/// currency of each NPC offer) following the moves of `m`.
pub open spec fn refs_follow(b: AppearanceView, a: AppearanceView, m: Map<u32, u32>) -> bool {
    &&& follows(b.id, a.id, m)
    &&& (b.flags is None <==> a.flags is None)
    &&& (b.flags matches Some(fb) ==> (a.flags matches Some(fa) && {
        &&& (fb.market is None <==> fa.market is None)
        &&& (fb.market matches Some(mb) ==> (fa.market matches Some(ma) && follows(
            mb.trade_as_object_id,
            ma.trade_as_object_id,
            m,
        ) && follows(mb.show_as_object_id, ma.show_as_object_id, m) && ma.category == mb.category))
        &&& (fb.changedtoexpire is None <==> fa.changedtoexpire is None)
        &&& (fb.changedtoexpire matches Some(cb) ==> (fa.changedtoexpire matches Some(ca) && follows(
            cb.former_object_typeid,
            ca.former_object_typeid,
            m,
        )))
        &&& fa.npcsaledata.len() == fb.npcsaledata.len()
        &&& forall|k: int|
            0 <= k < fb.npcsaledata.len() ==> follows(
                (#[trigger] fb.npcsaledata[k]).currency_object_type_id,
                fa.npcsaledata[k].currency_object_type_id,
                m,
            )
    }))
}

/// Appearance `x` is one of `before` with its ids following `m`.
pub open spec fn has_origin(before: Seq<AppearanceView>, x: AppearanceView, m: Map<u32, u32>) -> bool {
    exists|j: int| 0 <= j < before.len() && refs_follow(#[trigger] before[j], x, m)
}

proof fn lemma_one_object_follows(x: Appearance, m: Map<u32, u32>)
    ensures
        refs_follow(x@, remap_refs(remap_id(x, m)@, m), m),
{
    let y = remap_id(x, m)@;
    assert(y.flags == x@.flags);
    let a = remap_refs(y, m);
    if let Some(fb) = x@.flags {
        let fa = a.flags->Some_0;
        assert forall|k: int| 0 <= k < fb.npcsaledata.len() implies follows(
            (#[trigger] fb.npcsaledata[k]).currency_object_type_id,
            fa.npcsaledata[k].currency_object_type_id,
            m,
        ) by {
            assert(fa.npcsaledata[k] == AppearanceFlagNpc {
                currency_object_type_id: remap_id_opt(fb.npcsaledata[k].currency_object_type_id, m),
                ..fb.npcsaledata[k]
            });
        }
    }
}

/// After the objects are reorganized through the moves `m`, every object of
/// the new catalog is an object of the old one whose id and whose every
/// object-id reference (market trade-as and show-as, expiring former object,
/// NPC currency) follow `m`: a reference to a moved id points to its new id,
/// so none to a moved id survives.
pub proof fn lemma_reorganized_objects_follow(a: &Appearances, m: Map<u32, u32>)
    ensures
        reorganized(a, AppearanceCategory::Objects, m).object.len() == a@.object.len(),
        forall|i: int|
            0 <= i < reorganized(a, AppearanceCategory::Objects, m).object.len() ==> #[trigger] has_origin(
                a@.object,
                reorganized(a, AppearanceCategory::Objects, m).object[i],
                m,
            ),
{
    lemma_sort_by_key(a.object@.map_values(|x: Appearance| remap_id(x, m)), app_key());
    assert forall|i: int| 0 <= i < reorganized(a, AppearanceCategory::Objects, m).object.len() implies #[trigger] has_origin(
        a@.object,
        reorganized(a, AppearanceCategory::Objects, m).object[i],
        m,
    ) by {
        lemma_object_follows_at(a, m, i);
    }
}

proof fn lemma_object_follows_at(a: &Appearances, m: Map<u32, u32>, i: int)
    requires
        0 <= i < reorganized(a, AppearanceCategory::Objects, m).object.len(),
    ensures
        has_origin(a@.object, reorganized(a, AppearanceCategory::Objects, m).object[i], m),
{
    broadcast use vstd::seq_lib::group_to_multiset_ensures;

    let objs = a.object@;
    let moved = objs.map_values(|x: Appearance| remap_id(x, m));
    let sorted = sort_by_key(moved, app_key());
    lemma_sort_by_key(moved, app_key());
    let after = reorganized(a, AppearanceCategory::Objects, m);
    assert(category_list(a, AppearanceCategory::Objects) == objs);
    assert(a@.object == appearance_views(objs));
    let x = sorted[i];
    assert(sorted.to_multiset().count(x) > 0);
    assert(moved.contains(x));
    let j = choose|j: int| 0 <= j < moved.len() && moved[j] == x;
    assert(x == remap_id(objs[j], m));
    lemma_one_object_follows(objs[j], m);
    assert(after.object[i] == remap_refs(x@, m));
    assert(a@.object[j] == objs[j]@);
    assert(0 <= j < a@.object.len() && refs_follow(a@.object[j], after.object[i], m));
}

/// A reorganize of the objects leaves every object of the catalog either as
/// it was (no id moved) or following the moves of the remap: each object of
/// the result is an old object whose id and object-id references follow
/// the remap.
pub proof fn lemma_reorganize_objects_follow(before: &Appearances, after: &Appearances, from: u32, to: u32, r: Result<ReorganizeResult, String>)
    requires
        reorganize_outcome(before, after, AppearanceCategory::Objects, from, to, r),
        valid_range(from, to),
    ensures
        ({
            let m = remap_map(sorted_in_range_ids(before, AppearanceCategory::Objects, from, to), from as int);
            &&& after@.object.len() == before@.object.len()
            &&& forall|i: int| 0 <= i < after@.object.len() ==> #[trigger] has_origin(before@.object, after@.object[i], m)
        }),
{
    let m = remap_map(sorted_in_range_ids(before, AppearanceCategory::Objects, from, to), from as int);
    if m.is_empty() {
        assert forall|i: int| 0 <= i < after@.object.len() implies #[trigger] has_origin(before@.object, after@.object[i], m) by {
            lemma_empty_map_follows(before@.object[i], m);
            assert(refs_follow(before@.object[i], after@.object[i], m));
        }
    } else {
        lemma_reorganized_objects_follow(before, m);
    }
}

proof fn lemma_empty_map_follows(b: AppearanceView, m: Map<u32, u32>)
    requires
        m.is_empty(),
    ensures
        refs_follow(b, b, m),
{
    assert(forall|x: u32| !m.contains_key(x));
}

} // verus!
