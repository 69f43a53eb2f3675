//! The appearance catalog model: appearances with their flags and frame
//! groups, grouped by category, and the special-meaning object ids.
use vstd::prelude::*;

verus! {

/// Ground speed of a bank (ground) appearance.
#[derive(Clone, Copy, PartialEq, Eq, Structural, Debug)]
pub struct AppearanceFlagBank {
    pub waypoints: Option<u32>,
}

/// Text length of a writable appearance.
#[derive(Clone, Copy, PartialEq, Eq, Structural, Debug)]
pub struct AppearanceFlagWrite {
    pub max_text_length: Option<u32>,
}

/// Text length of an appearance that can be written once.
#[derive(Clone, Copy, PartialEq, Eq, Structural, Debug)]
pub struct AppearanceFlagWriteOnce {
    pub max_text_length_once: Option<u32>,
}

/// Hook direction: 1 south (vertical), 2 east (horizontal).
#[derive(Clone, Copy, PartialEq, Eq, Structural, Debug)]
pub struct AppearanceFlagHook {
    pub direction: Option<i32>,
}

/// Light of an appearance.
#[derive(Clone, Copy, PartialEq, Eq, Structural, Debug)]
pub struct AppearanceFlagLight {
    pub brightness: Option<u32>,
    pub color: Option<u32>,
}

/// Drawing shift of an appearance.
#[derive(Clone, Copy, PartialEq, Eq, Structural, Debug)]
pub struct AppearanceFlagShift {
    pub x: Option<u32>,
    pub y: Option<u32>,
}

/// Elevation of an appearance.
#[derive(Clone, Copy, PartialEq, Eq, Structural, Debug)]
pub struct AppearanceFlagHeight {
    pub elevation: Option<u32>,
}

/// Minimap color of an appearance.
#[derive(Clone, Copy, PartialEq, Eq, Structural, Debug)]
pub struct AppearanceFlagAutomap {
    pub color: Option<u32>,
}

/// Lens-help id of an appearance.
#[derive(Clone, Copy, PartialEq, Eq, Structural, Debug)]
pub struct AppearanceFlagLenshelp {
    pub id: Option<u32>,
}

/// Equipment slot of a wearable appearance.
#[derive(Clone, Copy, PartialEq, Eq, Structural, Debug)]
pub struct AppearanceFlagClothes {
    pub slot: Option<u32>,
}

/// Default action of an appearance.
#[derive(Clone, Copy, PartialEq, Eq, Structural, Debug)]
pub struct AppearanceFlagDefaultAction {
    pub action: Option<i32>,
}

/// Market data: category and the object ids it trades and shows as.
#[derive(Clone, Copy, PartialEq, Eq, Structural, Debug)]
pub struct AppearanceFlagMarket {
    pub category: Option<i32>,
    pub trade_as_object_id: Option<u32>,
    pub show_as_object_id: Option<u32>,
}

/// An NPC offer: its prices and the object id of the currency it takes.
#[derive(Clone, Copy, PartialEq, Eq, Structural, Debug)]
pub struct AppearanceFlagNpc {
    pub sale_price: Option<u32>,
    pub buy_price: Option<u32>,
    pub currency_object_type_id: Option<u32>,
}

/// The object an expiring appearance was before it changed.
#[derive(Clone, Copy, PartialEq, Eq, Structural, Debug)]
pub struct AppearanceFlagChangedToExpire {
    pub former_object_typeid: Option<u32>,
}

/// The flags of an appearance.
pub struct AppearanceFlags {
    pub bank: Option<AppearanceFlagBank>,
    pub clip: Option<bool>,
    pub bottom: Option<bool>,
    pub top: Option<bool>,
    pub container: Option<bool>,
    pub cumulative: Option<bool>,
    pub usable: Option<bool>,
    pub forceuse: Option<bool>,
    pub multiuse: Option<bool>,
    pub write: Option<AppearanceFlagWrite>,
    pub write_once: Option<AppearanceFlagWriteOnce>,
    pub liquidpool: Option<bool>,
    pub unpass: Option<bool>,
    pub unmove: Option<bool>,
    pub unsight: Option<bool>,
    pub avoid: Option<bool>,
    pub no_movement_animation: Option<bool>,
    pub take: Option<bool>,
    pub liquidcontainer: Option<bool>,
    pub hang: Option<bool>,
    pub hook: Option<AppearanceFlagHook>,
    pub rotate: Option<bool>,
    pub light: Option<AppearanceFlagLight>,
    pub dont_hide: Option<bool>,
    pub translucent: Option<bool>,
    pub shift: Option<AppearanceFlagShift>,
    pub height: Option<AppearanceFlagHeight>,
    pub lying_object: Option<bool>,
    pub animate_always: Option<bool>,
    pub automap: Option<AppearanceFlagAutomap>,
    pub lenshelp: Option<AppearanceFlagLenshelp>,
    pub fullbank: Option<bool>,
    pub ignore_look: Option<bool>,
    pub clothes: Option<AppearanceFlagClothes>,
    pub default_action: Option<AppearanceFlagDefaultAction>,
    pub market: Option<AppearanceFlagMarket>,
    pub wrap: Option<bool>,
    pub unwrap: Option<bool>,
    pub topeffect: Option<bool>,
    pub npcsaledata: Vec<AppearanceFlagNpc>,
    pub changedtoexpire: Option<AppearanceFlagChangedToExpire>,
    pub restrict_to_vocation: Vec<i32>,
    pub minimum_level: Option<u32>,
}

/// The mathematical value of `AppearanceFlags`.
pub struct AppearanceFlagsView {
    pub bank: Option<AppearanceFlagBank>,
    pub clip: Option<bool>,
    pub bottom: Option<bool>,
    pub top: Option<bool>,
    pub container: Option<bool>,
    pub cumulative: Option<bool>,
    pub usable: Option<bool>,
    pub forceuse: Option<bool>,
    pub multiuse: Option<bool>,
    pub write: Option<AppearanceFlagWrite>,
    pub write_once: Option<AppearanceFlagWriteOnce>,
    pub liquidpool: Option<bool>,
    pub unpass: Option<bool>,
    pub unmove: Option<bool>,
    pub unsight: Option<bool>,
    pub avoid: Option<bool>,
    pub no_movement_animation: Option<bool>,
    pub take: Option<bool>,
    pub liquidcontainer: Option<bool>,
    pub hang: Option<bool>,
    pub hook: Option<AppearanceFlagHook>,
    pub rotate: Option<bool>,
    pub light: Option<AppearanceFlagLight>,
    pub dont_hide: Option<bool>,
    pub translucent: Option<bool>,
    pub shift: Option<AppearanceFlagShift>,
    pub height: Option<AppearanceFlagHeight>,
    pub lying_object: Option<bool>,
    pub animate_always: Option<bool>,
    pub automap: Option<AppearanceFlagAutomap>,
    pub lenshelp: Option<AppearanceFlagLenshelp>,
    pub fullbank: Option<bool>,
    pub ignore_look: Option<bool>,
    pub clothes: Option<AppearanceFlagClothes>,
    pub default_action: Option<AppearanceFlagDefaultAction>,
    pub market: Option<AppearanceFlagMarket>,
    pub wrap: Option<bool>,
    pub unwrap: Option<bool>,
    pub topeffect: Option<bool>,
    pub npcsaledata: Seq<AppearanceFlagNpc>,
    pub changedtoexpire: Option<AppearanceFlagChangedToExpire>,
    pub restrict_to_vocation: Seq<i32>,
    pub minimum_level: Option<u32>,
}

impl View for AppearanceFlags {
    type V = AppearanceFlagsView;

    open spec fn view(&self) -> AppearanceFlagsView {
        AppearanceFlagsView {
            bank: self.bank,
            clip: self.clip,
            bottom: self.bottom,
            top: self.top,
            container: self.container,
            cumulative: self.cumulative,
            usable: self.usable,
            forceuse: self.forceuse,
            multiuse: self.multiuse,
            write: self.write,
            write_once: self.write_once,
            liquidpool: self.liquidpool,
            unpass: self.unpass,
            unmove: self.unmove,
            unsight: self.unsight,
            avoid: self.avoid,
            no_movement_animation: self.no_movement_animation,
            take: self.take,
            liquidcontainer: self.liquidcontainer,
            hang: self.hang,
            hook: self.hook,
            rotate: self.rotate,
            light: self.light,
            dont_hide: self.dont_hide,
            translucent: self.translucent,
            shift: self.shift,
            height: self.height,
            lying_object: self.lying_object,
            animate_always: self.animate_always,
            automap: self.automap,
            lenshelp: self.lenshelp,
            fullbank: self.fullbank,
            ignore_look: self.ignore_look,
            clothes: self.clothes,
            default_action: self.default_action,
            market: self.market,
            wrap: self.wrap,
            unwrap: self.unwrap,
            topeffect: self.topeffect,
            npcsaledata: self.npcsaledata@,
            changedtoexpire: self.changedtoexpire,
            restrict_to_vocation: self.restrict_to_vocation@,
            minimum_level: self.minimum_level,
        }
    }
}

/// One animation phase: its minimum and maximum duration.
#[derive(Clone, Copy, PartialEq, Eq, Structural, Debug)]
pub struct SpritePhase {
    pub duration_min: Option<u32>,
    pub duration_max: Option<u32>,
}

/// How a frame group animates.
pub struct SpriteAnimation {
    pub synchronized: Option<bool>,
    pub loop_type: Option<i32>,
    pub loop_count: Option<u32>,
    pub sprite_phase: Vec<SpritePhase>,
}

/// The mathematical value of `SpriteAnimation`.
pub struct SpriteAnimationView {
    pub synchronized: Option<bool>,
    pub loop_type: Option<i32>,
    pub loop_count: Option<u32>,
    pub sprite_phase: Seq<SpritePhase>,
}

impl View for SpriteAnimation {
    type V = SpriteAnimationView;

    open spec fn view(&self) -> SpriteAnimationView {
        SpriteAnimationView {
            synchronized: self.synchronized,
            loop_type: self.loop_type,
            loop_count: self.loop_count,
            sprite_phase: self.sprite_phase@,
        }
    }
}

/// The sprites of a frame group: pattern sizes, layers, sprite ids, bounding
/// square and animation.
pub struct SpriteInfo {
    pub pattern_width: Option<u32>,
    pub pattern_height: Option<u32>,
    pub pattern_depth: Option<u32>,
    pub layers: Option<u32>,
    pub sprite_id: Vec<u32>,
    pub bounding_square: Option<u32>,
    pub animation: Option<SpriteAnimation>,
    pub is_opaque: Option<bool>,
}

/// The mathematical value of `SpriteInfo`.
pub struct SpriteInfoView {
    pub pattern_width: Option<u32>,
    pub pattern_height: Option<u32>,
    pub pattern_depth: Option<u32>,
    pub layers: Option<u32>,
    pub sprite_id: Seq<u32>,
    pub bounding_square: Option<u32>,
    pub animation: Option<SpriteAnimationView>,
    pub is_opaque: Option<bool>,
}

impl View for SpriteInfo {
    type V = SpriteInfoView;

    open spec fn view(&self) -> SpriteInfoView {
        SpriteInfoView {
            pattern_width: self.pattern_width,
            pattern_height: self.pattern_height,
            pattern_depth: self.pattern_depth,
            layers: self.layers,
            sprite_id: self.sprite_id@,
            bounding_square: self.bounding_square,
            animation: match self.animation {
                Some(a) => Some(a@),
                None => None,
            },
            is_opaque: self.is_opaque,
        }
    }
}

/// A frame group of an appearance: which fixed group it is (0 outfit idle,
/// 1 outfit moving, 2 object initial), its id and its sprites.
pub struct FrameGroup {
    pub fixed_frame_group: Option<i32>,
    pub id: Option<u32>,
    pub sprite_info: Option<SpriteInfo>,
}

/// The mathematical value of `FrameGroup`.
pub struct FrameGroupModel {
    pub fixed_frame_group: Option<i32>,
    pub id: Option<u32>,
    pub sprite_info: Option<SpriteInfoView>,
}

impl View for FrameGroup {
    type V = FrameGroupModel;

    open spec fn view(&self) -> FrameGroupModel {
        FrameGroupModel {
            fixed_frame_group: self.fixed_frame_group,
            id: self.id,
            sprite_info: match self.sprite_info {
                Some(s) => Some(s@),
                None => None,
            },
        }
    }
}

/// The view of an optional byte string.
pub open spec fn bytes_view(b: Option<Vec<u8>>) -> Option<Seq<u8>> {
    match b {
        Some(v) => Some(v@),
        None => None,
    }
}

/// An appearance: id, name, description, flags and frame groups.
pub struct Appearance {
    pub id: Option<u32>,
    pub name: Option<Vec<u8>>,
    pub description: Option<Vec<u8>>,
    pub flags: Option<AppearanceFlags>,
    pub frame_group: Vec<FrameGroup>,
}

/// The mathematical value of `Appearance`.
pub struct AppearanceView {
    pub id: Option<u32>,
    pub name: Option<Seq<u8>>,
    pub description: Option<Seq<u8>>,
    pub flags: Option<AppearanceFlagsView>,
    pub frame_group: Seq<FrameGroupModel>,
}

impl View for Appearance {
    type V = AppearanceView;

    open spec fn view(&self) -> AppearanceView {
        AppearanceView {
            id: self.id,
            name: bytes_view(self.name),
            description: bytes_view(self.description),
            flags: match self.flags {
                Some(f) => Some(f@),
                None => None,
            },
            frame_group: self.frame_group@.map_values(|g: FrameGroup| g@),
        }
    }
}

/// The object ids that have a special meaning to the client.
#[derive(Clone, Copy, PartialEq, Eq, Structural, Debug)]
pub struct SpecialMeaningAppearanceIds {
    pub gold_coin_id: Option<u32>,
    pub platinum_coin_id: Option<u32>,
    pub crystal_coin_id: Option<u32>,
    pub tibia_coin_id: Option<u32>,
    pub stamped_letter_id: Option<u32>,
    pub supply_stash_id: Option<u32>,
    pub standard_reward_chest_id: Option<u32>,
    pub blank_imbuement_scroll_id: Option<u32>,
}

impl Default for SpecialMeaningAppearanceIds {
    fn default() -> (r: SpecialMeaningAppearanceIds)
        ensures
            r == (SpecialMeaningAppearanceIds {
                gold_coin_id: None,
                platinum_coin_id: None,
                crystal_coin_id: None,
                tibia_coin_id: None,
                stamped_letter_id: None,
                supply_stash_id: None,
                standard_reward_chest_id: None,
                blank_imbuement_scroll_id: None,
            }),
    {
        SpecialMeaningAppearanceIds {
            gold_coin_id: None,
            platinum_coin_id: None,
            crystal_coin_id: None,
            tibia_coin_id: None,
            stamped_letter_id: None,
            supply_stash_id: None,
            standard_reward_chest_id: None,
            blank_imbuement_scroll_id: None,
        }
    }
}

/// The views of a list of appearances.
pub open spec fn appearance_views(v: Seq<Appearance>) -> Seq<AppearanceView> {
    v.map_values(|a: Appearance| a@)
}

/// The appearance catalog: objects, outfits, effects and missiles, and the
/// special-meaning object ids.
pub struct Appearances {
    pub object: Vec<Appearance>,
    pub outfit: Vec<Appearance>,
    pub effect: Vec<Appearance>,
    pub missile: Vec<Appearance>,
    pub special_meaning_appearance_ids: Option<SpecialMeaningAppearanceIds>,
}

/// The mathematical value of `Appearances`.
pub struct AppearancesView {
    pub object: Seq<AppearanceView>,
    pub outfit: Seq<AppearanceView>,
    pub effect: Seq<AppearanceView>,
    pub missile: Seq<AppearanceView>,
    pub special_meaning_appearance_ids: Option<SpecialMeaningAppearanceIds>,
}

impl View for Appearances {
    type V = AppearancesView;

    open spec fn view(&self) -> AppearancesView {
        AppearancesView {
            object: appearance_views(self.object@),
            outfit: appearance_views(self.outfit@),
            effect: appearance_views(self.effect@),
            missile: appearance_views(self.missile@),
            special_meaning_appearance_ids: self.special_meaning_appearance_ids,
        }
    }
}

} // verus!
