//! Mapping of legacy things onto the appearance model.
use crate::appearance::{
    Appearance, AppearanceFlagAutomap, AppearanceFlagBank, AppearanceFlagClothes,
    AppearanceFlagDefaultAction, AppearanceFlagHeight, AppearanceFlagHook, AppearanceFlagLenshelp,
    AppearanceFlagLight, AppearanceFlagMarket, AppearanceFlagShift, AppearanceFlagWrite,
    AppearanceFlagWriteOnce, AppearanceFlags, AppearanceFlagsView, AppearanceView, FrameGroup,
    FrameGroupModel, SpriteAnimation, SpriteAnimationView, SpriteInfo, SpriteInfoView, SpritePhase,
};
use crate::dat_reader::{FrameGroupView, LegacyCategory, LegacyFrameDuration, LegacyFrameGroup, LegacyThingType};
use vstd::prelude::*;

verus! {

/// `Some(true)` for a set flag, nothing otherwise.
pub open spec fn opt_true(b: bool) -> Option<bool> {
    if b { Some(true) } else { None }
}

fn opt_true_of(b: bool) -> (r: Option<bool>)
    ensures
        r == opt_true(b),
{
    if b { Some(true) } else { None }
}

/// The `bank` flag of a legacy thing.
pub open spec fn spec_flag_bank(t: LegacyThingType) -> Option<AppearanceFlagBank> {
    if t.is_ground { Some(AppearanceFlagBank { waypoints: Some(t.ground_speed as u32) }) } else { None }
}

/// The `write` flag of a legacy thing.
pub open spec fn spec_flag_write(t: LegacyThingType) -> Option<AppearanceFlagWrite> {
    if t.is_writable { Some(AppearanceFlagWrite { max_text_length: Some(t.max_read_write_chars as u32) }) } else { None }
}

/// The `write_once` flag of a legacy thing.
pub open spec fn spec_flag_write_once(t: LegacyThingType) -> Option<AppearanceFlagWriteOnce> {
    if t.is_writable_once { Some(AppearanceFlagWriteOnce { max_text_length_once: Some(t.max_read_chars as u32) }) } else { None }
}

/// The `hook` flag of a legacy thing.
pub open spec fn spec_flag_hook(t: LegacyThingType) -> Option<AppearanceFlagHook> {
    if t.is_vertical || t.is_horizontal { Some(AppearanceFlagHook { direction: Some(if t.is_vertical { 1i32 } else { 2i32 }) }) } else { None }
}

/// The `light` flag of a legacy thing.
pub open spec fn spec_flag_light(t: LegacyThingType) -> Option<AppearanceFlagLight> {
    if t.has_light { Some(AppearanceFlagLight { brightness: Some(t.light.level as u32), color: Some(t.light.color as u32) }) } else { None }
}

/// The `shift` flag of a legacy thing.
pub open spec fn spec_flag_shift(t: LegacyThingType) -> Option<AppearanceFlagShift> {
    if t.has_offset { Some(AppearanceFlagShift { x: Some(t.offset.x as u32), y: Some(t.offset.y as u32) }) } else { None }
}

/// The `height` flag of a legacy thing.
pub open spec fn spec_flag_height(t: LegacyThingType) -> Option<AppearanceFlagHeight> {
    if t.has_elevation { Some(AppearanceFlagHeight { elevation: Some(t.elevation as u32) }) } else { None }
}

/// The `automap` flag of a legacy thing.
pub open spec fn spec_flag_automap(t: LegacyThingType) -> Option<AppearanceFlagAutomap> {
    if t.is_mini_map { Some(AppearanceFlagAutomap { color: Some(t.mini_map_color as u32) }) } else { None }
}

/// The `lenshelp` flag of a legacy thing.
pub open spec fn spec_flag_lenshelp(t: LegacyThingType) -> Option<AppearanceFlagLenshelp> {
    if t.is_lens_help { Some(AppearanceFlagLenshelp { id: Some(t.lens_help as u32) }) } else { None }
}

/// The `clothes` flag of a legacy thing.
pub open spec fn spec_flag_clothes(t: LegacyThingType) -> Option<AppearanceFlagClothes> {
    if t.is_cloth { Some(AppearanceFlagClothes { slot: Some(t.cloth_slot as u32) }) } else { None }
}

/// The `default_action` flag of a legacy thing.
pub open spec fn spec_flag_default_action(t: LegacyThingType) -> Option<AppearanceFlagDefaultAction> {
    if t.has_default_action { Some(AppearanceFlagDefaultAction { action: Some(t.default_action as i32) }) } else { None }
}

/// The `market` flag of a legacy thing.
pub open spec fn spec_flag_market(t: LegacyThingType) -> Option<AppearanceFlagMarket> {
    if t.is_market_item { Some(AppearanceFlagMarket { category: Some(t.market.category as i32), trade_as_object_id: Some(t.market.trade_as as u32), show_as_object_id: Some(t.market.show_as as u32) }) } else { None }
}

/// The `minimum_level` flag of a legacy thing.
pub open spec fn spec_flag_minimum_level(t: LegacyThingType) -> Option<u32> {
    if t.is_market_item && t.market.restrict_level > 0 { Some(t.market.restrict_level as u32) } else { None }
}

/// The flags a legacy thing maps to.
pub open spec fn spec_flags(t: LegacyThingType) -> AppearanceFlagsView {
    AppearanceFlagsView {
        bank: spec_flag_bank(t),
        clip: opt_true(t.is_ground_border),
        bottom: opt_true(t.is_on_bottom),
        top: opt_true(t.is_on_top),
        container: opt_true(t.is_container),
        cumulative: opt_true(t.is_stackable),
        usable: opt_true(t.is_usable),
        forceuse: opt_true(t.is_force_use),
        multiuse: opt_true(t.is_multi_use),
        write: spec_flag_write(t),
        write_once: spec_flag_write_once(t),
        liquidpool: opt_true(t.is_fluid),
        unpass: opt_true(t.is_unpassable),
        unmove: opt_true(t.is_unmoveable),
        unsight: opt_true(t.is_block_missile),
        avoid: opt_true(t.is_block_pathfind),
        no_movement_animation: opt_true(t.is_no_move_animation),
        take: opt_true(t.is_pickupable),
        liquidcontainer: opt_true(t.is_fluid_container),
        hang: opt_true(t.is_hangable),
        hook: spec_flag_hook(t),
        rotate: opt_true(t.is_rotatable),
        light: spec_flag_light(t),
        dont_hide: opt_true(t.dont_hide),
        translucent: opt_true(t.is_translucent),
        shift: spec_flag_shift(t),
        height: spec_flag_height(t),
        lying_object: opt_true(t.is_lying_object),
        animate_always: opt_true(t.is_animate_always),
        automap: spec_flag_automap(t),
        lenshelp: spec_flag_lenshelp(t),
        fullbank: opt_true(t.is_full_ground),
        ignore_look: opt_true(t.is_ignore_look),
        clothes: spec_flag_clothes(t),
        default_action: spec_flag_default_action(t),
        market: spec_flag_market(t),
        wrap: opt_true(t.is_wrappable),
        unwrap: opt_true(t.is_unwrappable),
        topeffect: opt_true(t.is_top_effect),
        npcsaledata: Seq::empty(),
        changedtoexpire: None,
        restrict_to_vocation: if t.is_market_item && t.market.restrict_profession > 0 { seq![t.market.restrict_profession as i32] } else { Seq::empty() },
        minimum_level: spec_flag_minimum_level(t),
    }
}

fn flag_bank(t: &LegacyThingType) -> (r: Option<AppearanceFlagBank>)
    ensures
        r == spec_flag_bank(*t),
{
    if t.is_ground { Some(AppearanceFlagBank { waypoints: Some(t.ground_speed as u32) }) } else { None }
}

fn flag_write(t: &LegacyThingType) -> (r: Option<AppearanceFlagWrite>)
    ensures
        r == spec_flag_write(*t),
{
    if t.is_writable { Some(AppearanceFlagWrite { max_text_length: Some(t.max_read_write_chars as u32) }) } else { None }
}

fn flag_write_once(t: &LegacyThingType) -> (r: Option<AppearanceFlagWriteOnce>)
    ensures
        r == spec_flag_write_once(*t),
{
    if t.is_writable_once { Some(AppearanceFlagWriteOnce { max_text_length_once: Some(t.max_read_chars as u32) }) } else { None }
}

fn flag_hook(t: &LegacyThingType) -> (r: Option<AppearanceFlagHook>)
    ensures
        r == spec_flag_hook(*t),
{
    if t.is_vertical || t.is_horizontal { Some(AppearanceFlagHook { direction: Some(if t.is_vertical { 1i32 } else { 2i32 }) }) } else { None }
}

fn flag_light(t: &LegacyThingType) -> (r: Option<AppearanceFlagLight>)
    ensures
        r == spec_flag_light(*t),
{
    if t.has_light { Some(AppearanceFlagLight { brightness: Some(t.light.level as u32), color: Some(t.light.color as u32) }) } else { None }
}

fn flag_shift(t: &LegacyThingType) -> (r: Option<AppearanceFlagShift>)
    ensures
        r == spec_flag_shift(*t),
{
    if t.has_offset { Some(AppearanceFlagShift { x: Some(t.offset.x as u32), y: Some(t.offset.y as u32) }) } else { None }
}

fn flag_height(t: &LegacyThingType) -> (r: Option<AppearanceFlagHeight>)
    ensures
        r == spec_flag_height(*t),
{
    if t.has_elevation { Some(AppearanceFlagHeight { elevation: Some(t.elevation as u32) }) } else { None }
}

fn flag_automap(t: &LegacyThingType) -> (r: Option<AppearanceFlagAutomap>)
    ensures
        r == spec_flag_automap(*t),
{
    if t.is_mini_map { Some(AppearanceFlagAutomap { color: Some(t.mini_map_color as u32) }) } else { None }
}

fn flag_lenshelp(t: &LegacyThingType) -> (r: Option<AppearanceFlagLenshelp>)
    ensures
        r == spec_flag_lenshelp(*t),
{
    if t.is_lens_help { Some(AppearanceFlagLenshelp { id: Some(t.lens_help as u32) }) } else { None }
}

fn flag_clothes(t: &LegacyThingType) -> (r: Option<AppearanceFlagClothes>)
    ensures
        r == spec_flag_clothes(*t),
{
    if t.is_cloth { Some(AppearanceFlagClothes { slot: Some(t.cloth_slot as u32) }) } else { None }
}

fn flag_default_action(t: &LegacyThingType) -> (r: Option<AppearanceFlagDefaultAction>)
    ensures
        r == spec_flag_default_action(*t),
{
    if t.has_default_action { Some(AppearanceFlagDefaultAction { action: Some(t.default_action as i32) }) } else { None }
}

fn flag_market(t: &LegacyThingType) -> (r: Option<AppearanceFlagMarket>)
    ensures
        r == spec_flag_market(*t),
{
    if t.is_market_item { Some(AppearanceFlagMarket { category: Some(t.market.category as i32), trade_as_object_id: Some(t.market.trade_as as u32), show_as_object_id: Some(t.market.show_as as u32) }) } else { None }
}

fn flag_minimum_level(t: &LegacyThingType) -> (r: Option<u32>)
    ensures
        r == spec_flag_minimum_level(*t),
{
    if t.is_market_item && t.market.restrict_level > 0 { Some(t.market.restrict_level as u32) } else { None }
}

fn vocation_of(t: &LegacyThingType) -> (r: Vec<i32>)
    ensures
        r@ == spec_flags(*t).restrict_to_vocation,
{
    let mut r: Vec<i32> = Vec::new();
    if t.is_market_item && t.market.restrict_profession > 0 {
        r.push(t.market.restrict_profession as i32);
    }
    proof {
        assert(r@ =~= spec_flags(*t).restrict_to_vocation);
    }
    r
}

fn map_legacy_flags(thing: &LegacyThingType) -> (r: AppearanceFlags)
    ensures
        r@ == spec_flags(*thing),
{
    let t = thing;
    let restrict_to_vocation = vocation_of(t);
    let r = AppearanceFlags {
        bank: flag_bank(t),
        clip: opt_true_of(t.is_ground_border),
        bottom: opt_true_of(t.is_on_bottom),
        top: opt_true_of(t.is_on_top),
        container: opt_true_of(t.is_container),
        cumulative: opt_true_of(t.is_stackable),
        usable: opt_true_of(t.is_usable),
        forceuse: opt_true_of(t.is_force_use),
        multiuse: opt_true_of(t.is_multi_use),
        write: flag_write(t),
        write_once: flag_write_once(t),
        liquidpool: opt_true_of(t.is_fluid),
        unpass: opt_true_of(t.is_unpassable),
        unmove: opt_true_of(t.is_unmoveable),
        unsight: opt_true_of(t.is_block_missile),
        avoid: opt_true_of(t.is_block_pathfind),
        no_movement_animation: opt_true_of(t.is_no_move_animation),
        take: opt_true_of(t.is_pickupable),
        liquidcontainer: opt_true_of(t.is_fluid_container),
        hang: opt_true_of(t.is_hangable),
        hook: flag_hook(t),
        rotate: opt_true_of(t.is_rotatable),
        light: flag_light(t),
        dont_hide: opt_true_of(t.dont_hide),
        translucent: opt_true_of(t.is_translucent),
        shift: flag_shift(t),
        height: flag_height(t),
        lying_object: opt_true_of(t.is_lying_object),
        animate_always: opt_true_of(t.is_animate_always),
        automap: flag_automap(t),
        lenshelp: flag_lenshelp(t),
        fullbank: opt_true_of(t.is_full_ground),
        ignore_look: opt_true_of(t.is_ignore_look),
        clothes: flag_clothes(t),
        default_action: flag_default_action(t),
        market: flag_market(t),
        wrap: opt_true_of(t.is_wrappable),
        unwrap: opt_true_of(t.is_unwrappable),
        topeffect: opt_true_of(t.is_top_effect),
        npcsaledata: Vec::new(),
        changedtoexpire: None,
        restrict_to_vocation: restrict_to_vocation,
        minimum_level: flag_minimum_level(t),
    };
    proof {
        assert(r@.npcsaledata =~= spec_flags(*thing).npcsaledata);
    }
    r
}
/// The phase of one frame duration.
pub open spec fn phase_of(d: LegacyFrameDuration) -> SpritePhase {
    SpritePhase { duration_min: Some(d.min), duration_max: Some(d.max) }
}

/// The fixed frame group of group `idx` of a thing: outfits have idle (0) for
/// their first group or a group of type 0, else moving (1); other things
/// have the object's initial group (2).
pub open spec fn fixed_group(category: LegacyCategory, group_type: u8, idx: int) -> i32 {
    match category {
        LegacyCategory::Outfit => if group_type == 0 || idx == 0 { 0 } else { 1 },
        _ => 2,
    }
}

/// The frame group that legacy group `fg`, the `idx`-th of a thing of
/// `category`, maps to.
pub open spec fn spec_frame_group(fg: FrameGroupView, category: LegacyCategory, idx: int) -> FrameGroupModel {
    let animation = if fg.is_animation && fg.frame_durations.len() > 0 {
        Some(
            SpriteAnimationView {
                synchronized: Some(fg.animation_mode == 1),
                loop_type: None,
                loop_count: if fg.loop_count > 0 { Some(fg.loop_count as u32) } else { None },
                sprite_phase: fg.frame_durations.map_values(|d: LegacyFrameDuration| phase_of(d)),
            },
        )
    } else {
        None
    };
    FrameGroupModel {
        fixed_frame_group: Some(fixed_group(category, fg.group_type, idx)),
        id: Some(fg.group_type as u32),
        sprite_info: Some(
            SpriteInfoView {
                pattern_width: Some(fg.width as u32),
                pattern_height: Some(fg.height as u32),
                pattern_depth: Some(fg.pattern_z as u32),
                layers: Some(fg.layers as u32),
                sprite_id: fg.sprite_ids,
                bounding_square: if fg.exact_size > 0 { Some(fg.exact_size as u32) } else { None },
                animation,
                is_opaque: None,
            },
        ),
    }
}

fn map_phases(durations: &Vec<LegacyFrameDuration>) -> (r: Vec<SpritePhase>)
    ensures
        r@ == durations@.map_values(|d: LegacyFrameDuration| phase_of(d)),
{
    let mut r: Vec<SpritePhase> = Vec::new();
    let mut i: usize = 0;
    while i < durations.len()
        invariant
            i <= durations@.len(),
            r@ == durations@.take(i as int).map_values(|d: LegacyFrameDuration| phase_of(d)),
        decreases durations@.len() - i,
    {
        let d = durations[i];
        r.push(SpritePhase { duration_min: Some(d.min), duration_max: Some(d.max) });
        proof {
            assert(r@ =~= durations@.take(i + 1).map_values(|d: LegacyFrameDuration| phase_of(d)));
        }
        i = i + 1;
    }
    proof {
        assert(durations@.take(i as int) =~= durations@);
    }
    r
}

fn copy_ids(v: &Vec<u32>) -> (r: Vec<u32>)
    ensures
        r@ == v@,
{
    let mut r: Vec<u32> = Vec::new();
    let mut i: usize = 0;
    while i < v.len()
        invariant
            i <= v@.len(),
            r@ == v@.take(i as int),
        decreases v@.len() - i,
    {
        r.push(v[i]);
        proof {
            assert(r@ =~= v@.take(i + 1));
        }
        i = i + 1;
    }
    proof {
        assert(v@.take(i as int) =~= v@);
    }
    r
}

fn map_legacy_frame_group(fg: &LegacyFrameGroup, category: LegacyCategory, group_idx: usize) -> (r: FrameGroup)
    ensures
        r@ == spec_frame_group(fg@, category, group_idx as int),
{
    let fixed_frame_group_id: i32 = match category {
        LegacyCategory::Outfit => if fg.group_type == 0 || group_idx == 0 { 0 } else { 1 },
        _ => 2,
    };
    let animation = if fg.is_animation && fg.frame_durations.len() > 0 {
        Some(
            SpriteAnimation {
                synchronized: Some(fg.animation_mode == 1),
                loop_type: None,
                loop_count: if fg.loop_count > 0 { Some(fg.loop_count as u32) } else { None },
                sprite_phase: map_phases(&fg.frame_durations),
            },
        )
    } else {
        None
    };
    let sprite_info = SpriteInfo {
        pattern_width: Some(fg.width as u32),
        pattern_height: Some(fg.height as u32),
        pattern_depth: Some(fg.pattern_z as u32),
        layers: Some(fg.layers as u32),
        sprite_id: copy_ids(&fg.sprite_ids),
        bounding_square: if fg.exact_size > 0 { Some(fg.exact_size as u32) } else { None },
        animation,
        is_opaque: None,
    };
    FrameGroup { fixed_frame_group: Some(fixed_frame_group_id), id: Some(fg.group_type as u32), sprite_info: Some(sprite_info) }
}

/// The appearance a legacy thing maps to: its id; its market name, as UTF-8
/// bytes, when that is not empty; its flags; and its frame groups in order.
pub open spec fn spec_appearance(t: LegacyThingType) -> AppearanceView {
    AppearanceView {
        id: Some(t.id),
        name: if t.market.name@.len() > 0 { Some(vstd::utf8::encode_utf8(t.market.name@)) } else { None },
        description: None,
        flags: Some(spec_flags(t)),
        frame_group: Seq::new(
            t.frame_groups@.len(),
            |i: int| spec_frame_group(t.frame_groups@[i]@, t.category, i),
        ),
    }
}

/// Map a legacy thing to an appearance.
pub fn map_legacy_thing_to_appearance(thing: &LegacyThingType) -> (r: Appearance)
    ensures
        r@ == spec_appearance(*thing),
{
    let name = if !thing.market.name.as_str().is_empty() {
        Some(vstd::slice::slice_to_vec(thing.market.name.as_str().as_bytes()))
    } else {
        None
    };
    let flags = map_legacy_flags(thing);
    let mut groups: Vec<FrameGroup> = Vec::new();
    let mut i: usize = 0;
    while i < thing.frame_groups.len()
        invariant
            i <= thing.frame_groups@.len(),
            groups@.len() == i,
            forall|j: int| 0 <= j < i ==> (#[trigger] groups@[j])@ == spec_frame_group(thing.frame_groups@[j]@, thing.category, j),
        decreases thing.frame_groups@.len() - i,
    {
        groups.push(map_legacy_frame_group(&thing.frame_groups[i], thing.category, i));
        i = i + 1;
    }
    let r = Appearance { id: Some(thing.id), name, description: None, flags: Some(flags), frame_group: groups };
    proof {
        assert(r@.frame_group =~= spec_appearance(*thing).frame_group);
    }
    r
}

/// Mapping a legacy thing carries each of its values into the flag that
/// holds it: the light level becomes the brightness and the light color the
/// color, the offset the shift, the ground speed the bank's waypoints, the
/// elevation the height, the text lengths, mini-map color, lens-help id,
/// cloth slot, default action and market data their flags; a property that
/// is not set gives no flag. The appearance keeps the thing's id, and the
/// blocking properties map one to one.
pub proof fn lemma_mapped_values(t: LegacyThingType)
    ensures
        spec_appearance(t).id == Some(t.id),
        spec_appearance(t).flags matches Some(f) && {
            &&& (t.has_light <==> f.light is Some)
            &&& t.has_light ==> f.light->Some_0.brightness == Some(t.light.level as u32) && f.light->Some_0.color == Some(
                t.light.color as u32,
            )
            &&& (t.has_offset <==> f.shift is Some)
            &&& t.has_offset ==> f.shift->Some_0.x == Some(t.offset.x as u32) && f.shift->Some_0.y == Some(t.offset.y as u32)
            &&& (t.is_ground <==> f.bank is Some)
            &&& t.is_ground ==> f.bank->Some_0.waypoints == Some(t.ground_speed as u32)
            &&& (t.has_elevation <==> f.height is Some)
            &&& t.has_elevation ==> f.height->Some_0.elevation == Some(t.elevation as u32)
            &&& (t.is_writable <==> f.write is Some)
            &&& t.is_writable ==> f.write->Some_0.max_text_length == Some(t.max_read_write_chars as u32)
            &&& (t.is_writable_once <==> f.write_once is Some)
            &&& t.is_writable_once ==> f.write_once->Some_0.max_text_length_once == Some(t.max_read_chars as u32)
            &&& (t.is_mini_map <==> f.automap is Some)
            &&& t.is_mini_map ==> f.automap->Some_0.color == Some(t.mini_map_color as u32)
            &&& (t.is_lens_help <==> f.lenshelp is Some)
            &&& t.is_lens_help ==> f.lenshelp->Some_0.id == Some(t.lens_help as u32)
            &&& (t.is_cloth <==> f.clothes is Some)
            &&& t.is_cloth ==> f.clothes->Some_0.slot == Some(t.cloth_slot as u32)
            &&& (t.has_default_action <==> f.default_action is Some)
            &&& t.has_default_action ==> f.default_action->Some_0.action == Some(t.default_action as i32)
            &&& (t.is_market_item <==> f.market is Some)
            &&& t.is_market_item ==> f.market->Some_0.category == Some(t.market.category as i32)
                && f.market->Some_0.trade_as_object_id == Some(t.market.trade_as as u32)
                && f.market->Some_0.show_as_object_id == Some(t.market.show_as as u32)
            &&& (f.unpass == Some(true) <==> t.is_unpassable) && (f.unpass is None <==> !t.is_unpassable)
            &&& (f.unmove == Some(true) <==> t.is_unmoveable) && (f.unmove is None <==> !t.is_unmoveable)
            &&& (f.unsight == Some(true) <==> t.is_block_missile) && (f.avoid == Some(true) <==> t.is_block_pathfind)
            &&& (f.take == Some(true) <==> t.is_pickupable) && (f.hang == Some(true) <==> t.is_hangable)
            &&& (f.bottom == Some(true) <==> t.is_on_bottom) && (f.top == Some(true) <==> t.is_on_top)
            &&& (f.container == Some(true) <==> t.is_container) && (f.cumulative == Some(true) <==> t.is_stackable)
        },
{
}

/// Each legacy frame group maps to the frame group at the same position:
/// its type is the group id; its width, height, pattern depth and layers are
/// the pattern sizes; its sprite ids are kept in order; its exact size, when
/// set, is the bounding square; its frame durations become the animation's
/// phases in order (only for an animated group with durations); and an
/// outfit's first group or a group of type 0 is idle (0), another outfit
/// group moving (1), and any other thing's group the initial one (2).
pub proof fn lemma_mapped_frame_groups(t: LegacyThingType, i: int)
    requires
        0 <= i < t.frame_groups@.len(),
    ensures
        spec_appearance(t).frame_group.len() == t.frame_groups@.len(),
        ({
            let fg = t.frame_groups@[i]@;
            let g = spec_appearance(t).frame_group[i];
            &&& g.id == Some(fg.group_type as u32)
            &&& g.fixed_frame_group == Some(
                if t.category == LegacyCategory::Outfit && fg.group_type != 0 && i != 0 { 1i32 } else if t.category
                    == LegacyCategory::Outfit { 0i32 } else { 2i32 },
            )
            &&& g.sprite_info matches Some(si) && {
                &&& si.pattern_width == Some(fg.width as u32)
                &&& si.pattern_height == Some(fg.height as u32)
                &&& si.pattern_depth == Some(fg.pattern_z as u32)
                &&& si.layers == Some(fg.layers as u32)
                &&& si.sprite_id == fg.sprite_ids
                &&& (fg.exact_size > 0 <==> si.bounding_square is Some)
                &&& fg.exact_size > 0 ==> si.bounding_square == Some(fg.exact_size as u32)
                &&& (si.animation is Some <==> fg.is_animation && fg.frame_durations.len() > 0)
                &&& si.animation matches Some(an) ==> {
                    &&& an.sprite_phase.len() == fg.frame_durations.len()
                    &&& forall|k: int|
                        0 <= k < fg.frame_durations.len() ==> (#[trigger] an.sprite_phase[k]).duration_min == Some(
                            fg.frame_durations[k].min,
                        ) && an.sprite_phase[k].duration_max == Some(fg.frame_durations[k].max)
                    &&& an.synchronized == Some(fg.animation_mode == 1)
                    &&& (fg.loop_count > 0 ==> an.loop_count == Some(fg.loop_count as u32))
                    &&& (fg.loop_count == 0 ==> an.loop_count is None)
                }
            }
        }),
{
}

} // verus!
