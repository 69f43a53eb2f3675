//! Reader for legacy Tibia `.dat` metadata files (client versions 7.10 to
//! 13.10): a header with counts, then every thing as a list of property flags
//! followed by its frame groups and sprite ids.
use byteorder::{ByteOrder, LittleEndian};
use vstd::prelude::*;

verus! {

/// The kind of a legacy thing.
#[derive(Clone, Copy, PartialEq, Eq, Structural, Debug)]
pub enum LegacyCategory {
    Item,
    Outfit,
    Effect,
    Missile,
}

impl Default for LegacyCategory {
    fn default() -> (r: LegacyCategory)
        ensures
            r == LegacyCategory::Item,
    {
        LegacyCategory::Item
    }
}

/// Minimum and maximum duration of one animation frame.
#[derive(Clone, Copy, PartialEq, Eq, Structural, Debug)]
pub struct LegacyFrameDuration {
    pub min: u32,
    pub max: u32,
}

/// One frame group (idle/moving) of a thing.
pub struct LegacyFrameGroup {
    pub group_type: u8,
    pub width: u8,
    pub height: u8,
    pub exact_size: u8,
    pub layers: u8,
    pub pattern_x: u8,
    pub pattern_y: u8,
    pub pattern_z: u8,
    pub frames: u8,
    pub is_animation: bool,
    pub animation_mode: u8,
    pub loop_count: i32,
    pub start_frame: i8,
    pub frame_durations: Vec<LegacyFrameDuration>,
    pub sprite_ids: Vec<u32>,
}

/// The mathematical value of a `LegacyFrameGroup`.
pub struct FrameGroupView {
    pub group_type: u8,
    pub width: u8,
    pub height: u8,
    pub exact_size: u8,
    pub layers: u8,
    pub pattern_x: u8,
    pub pattern_y: u8,
    pub pattern_z: u8,
    pub frames: u8,
    pub is_animation: bool,
    pub animation_mode: u8,
    pub loop_count: i32,
    pub start_frame: i8,
    pub frame_durations: Seq<LegacyFrameDuration>,
    pub sprite_ids: Seq<u32>,
}

impl View for LegacyFrameGroup {
    type V = FrameGroupView;

    open spec fn view(&self) -> FrameGroupView {
        FrameGroupView {
            group_type: self.group_type,
            width: self.width,
            height: self.height,
            exact_size: self.exact_size,
            layers: self.layers,
            pattern_x: self.pattern_x,
            pattern_y: self.pattern_y,
            pattern_z: self.pattern_z,
            frames: self.frames,
            is_animation: self.is_animation,
            animation_mode: self.animation_mode,
            loop_count: self.loop_count,
            start_frame: self.start_frame,
            frame_durations: self.frame_durations@,
            sprite_ids: self.sprite_ids@,
        }
    }
}

/// Light emitted by a thing.
#[derive(Clone, Copy, PartialEq, Eq, Structural, Debug)]
pub struct LegacyLight {
    pub level: u16,
    pub color: u16,
}

/// Drawing offset of a thing.
#[derive(Clone, Copy, PartialEq, Eq, Structural, Debug)]
pub struct LegacyShift {
    pub x: i16,
    pub y: i16,
}

/// Market data of an item.
pub struct LegacyMarket {
    pub category: u16,
    pub trade_as: u16,
    pub show_as: u16,
    pub name: String,
    pub restrict_profession: u16,
    pub restrict_level: u16,
}

/// The mathematical value of a `LegacyMarket`.
pub struct MarketView {
    pub category: u16,
    pub trade_as: u16,
    pub show_as: u16,
    pub name: Seq<char>,
    pub restrict_profession: u16,
    pub restrict_level: u16,
}

impl View for LegacyMarket {
    type V = MarketView;

    open spec fn view(&self) -> MarketView {
        MarketView {
            category: self.category,
            trade_as: self.trade_as,
            show_as: self.show_as,
            name: self.name@,
            restrict_profession: self.restrict_profession,
            restrict_level: self.restrict_level,
        }
    }
}

impl LegacyMarket {
    /// Market data with every field zero and an empty name.
    pub fn new() -> (r: LegacyMarket)
        ensures
            r@ == (MarketView {
                category: 0,
                trade_as: 0,
                show_as: 0,
                name: Seq::empty(),
                restrict_profession: 0,
                restrict_level: 0,
            }),
    {
        LegacyMarket {
            category: 0,
            trade_as: 0,
            show_as: 0,
            name: String::new(),
            restrict_profession: 0,
            restrict_level: 0,
        }
    }
}

/// Why a `.dat` could not be read.
#[derive(Clone, Copy, PartialEq, Eq, Structural, Debug)]
pub enum DatError {
    /// The file ended in the middle of a value.
    UnexpectedEof,
    /// A thing lists more than 128 property flags (corrupt or desynchronized file).
    TooManyAttributes { id: u32 },
    /// A flag that the chosen metadata structure does not define.
    UnknownFlag { flag: u8, structure: u8 },
    /// A market name longer than 512 bytes.
    InvalidMarketNameLength { len: u16 },
    /// More than 4 frame groups.
    InvalidGroupCount { id: u32, count: u8 },
    /// A frame group with no sprite or more than 4096.
    InvalidSpriteCount { id: u32 },
    /// Fewer than the 12 header bytes.
    FileTooSmall,
}

/// Where each boolean property stands in `ThingProps::flags`.
pub const IS_GROUND: usize = 0;
pub const IS_GROUND_BORDER: usize = 1;
pub const IS_ON_BOTTOM: usize = 2;
pub const IS_ON_TOP: usize = 3;
pub const IS_CONTAINER: usize = 4;
pub const IS_STACKABLE: usize = 5;
pub const IS_FORCE_USE: usize = 6;
pub const IS_MULTI_USE: usize = 7;
pub const IS_USABLE: usize = 8;
pub const IS_WRITABLE: usize = 9;
pub const IS_WRITABLE_ONCE: usize = 10;
pub const IS_FLUID_CONTAINER: usize = 11;
pub const IS_FLUID: usize = 12;
pub const IS_UNPASSABLE: usize = 13;
pub const IS_UNMOVEABLE: usize = 14;
pub const IS_BLOCK_MISSILE: usize = 15;
pub const IS_BLOCK_PATHFIND: usize = 16;
pub const IS_NO_MOVE_ANIMATION: usize = 17;
pub const IS_PICKUPABLE: usize = 18;
pub const IS_HANGABLE: usize = 19;
pub const IS_VERTICAL: usize = 20;
pub const IS_HORIZONTAL: usize = 21;
pub const IS_ROTATABLE: usize = 22;
pub const HAS_LIGHT: usize = 23;
pub const DONT_HIDE: usize = 24;
pub const IS_TRANSLUCENT: usize = 25;
pub const HAS_OFFSET: usize = 26;
pub const HAS_ELEVATION: usize = 27;
pub const IS_LYING_OBJECT: usize = 28;
pub const IS_ANIMATE_ALWAYS: usize = 29;
pub const IS_MINI_MAP: usize = 30;
pub const IS_LENS_HELP: usize = 31;
pub const IS_FULL_GROUND: usize = 32;
pub const IS_IGNORE_LOOK: usize = 33;
pub const IS_CLOTH: usize = 34;
pub const IS_MARKET_ITEM: usize = 35;
pub const HAS_DEFAULT_ACTION: usize = 36;
pub const IS_WRAPPABLE: usize = 37;
pub const IS_UNWRAPPABLE: usize = 38;
pub const IS_TOP_EFFECT: usize = 39;
/// How many boolean properties a thing has.
pub const FLAG_COUNT: usize = 40;

/// Where each `u16` property stands in `ThingProps::values`.
pub const GROUND_SPEED: usize = 0;
pub const MAX_READ_WRITE_CHARS: usize = 1;
pub const MAX_READ_CHARS: usize = 2;
pub const LIGHT_LEVEL: usize = 3;
pub const LIGHT_COLOR: usize = 4;
pub const ELEVATION: usize = 5;
pub const MINI_MAP_COLOR: usize = 6;
pub const LENS_HELP: usize = 7;
pub const CLOTH_SLOT: usize = 8;
pub const DEFAULT_ACTION: usize = 9;
/// How many `u16` properties a thing has.
pub const VALUE_COUNT: usize = 10;

/// What a property flag does to a thing, and which payload it reads.
#[derive(Clone, Copy, PartialEq, Eq, Structural, Debug)]
pub enum FlagAction {
    /// Sets the boolean property at this index; no payload.
    Flag(usize),
    /// Sets the boolean property at the first index and reads a `u16` into
    /// the value at the second.
    FlagValue(usize, usize),
    /// Sets `has_light` and reads the light level and color.
    Light,
    /// Structures 1-2: sets `has_offset` with an offset of (8, 8); no payload.
    FixedOffset,
    /// Sets `has_offset` and reads the offset as two `i16`.
    Offset,
    /// Sets `is_market_item` and reads the market data.
    Market,
    /// No effect and no payload.
    Nothing,
    /// No effect; a one-byte payload is skipped.
    SkipU8,
    /// No effect; a two-byte payload is skipped.
    SkipU16,
}

/// The indices that an action names are in range.
pub open spec fn action_ok(a: FlagAction) -> bool {
    match a {
        FlagAction::Flag(k) => k < FLAG_COUNT,
        FlagAction::FlagValue(k, v) => k < FLAG_COUNT && v < VALUE_COUNT,
        _ => true,
    }
}

/// The properties that the flags of a thing set, while they are read:
/// the boolean ones by index, the `u16` ones by index, the offset and the
/// market data.
pub struct ThingProps {
    pub flags: Vec<bool>,
    pub values: Vec<u16>,
    pub offset: LegacyShift,
    pub market: LegacyMarket,
}

/// The mathematical value of `ThingProps`.
pub struct PropsView {
    pub flags: Seq<bool>,
    pub values: Seq<u16>,
    pub offset: LegacyShift,
    pub market: MarketView,
}

impl View for ThingProps {
    type V = PropsView;

    open spec fn view(&self) -> PropsView {
        PropsView { flags: self.flags@, values: self.values@, offset: self.offset, market: self.market@ }
    }
}

/// Every boolean and every value has its slot.
pub open spec fn props_wf(p: PropsView) -> bool {
    p.flags.len() == FLAG_COUNT && p.values.len() == VALUE_COUNT
}

/// The properties of a thing before any flag is read: every one unset.
pub open spec fn fresh_props() -> PropsView {
    PropsView {
        flags: Seq::new(FLAG_COUNT as nat, |i: int| false),
        values: Seq::new(VALUE_COUNT as nat, |i: int| 0u16),
        offset: LegacyShift { x: 0, y: 0 },
        market: MarketView {
            category: 0,
            trade_as: 0,
            show_as: 0,
            name: Seq::empty(),
            restrict_profession: 0,
            restrict_level: 0,
        },
    }
}

impl ThingProps {
    /// Every property unset.
    pub fn new() -> (r: ThingProps)
        ensures
            r@ == fresh_props(),
    {
        let mut flags: Vec<bool> = Vec::new();
        while flags.len() < FLAG_COUNT
            invariant
                flags.len() <= FLAG_COUNT,
                forall|i: int| 0 <= i < flags.len() ==> !flags@[i],
            decreases FLAG_COUNT - flags.len(),
        {
            flags.push(false);
        }
        let mut values: Vec<u16> = Vec::new();
        while values.len() < VALUE_COUNT
            invariant
                values.len() <= VALUE_COUNT,
                forall|i: int| 0 <= i < values.len() ==> values@[i] == 0,
            decreases VALUE_COUNT - values.len(),
        {
            values.push(0);
        }
        let r = ThingProps { flags, values, offset: LegacyShift { x: 0, y: 0 }, market: LegacyMarket::new() };
        assert(r@.flags =~= fresh_props().flags);
        assert(r@.values =~= fresh_props().values);
        r
    }
}

/// What a thing of a `.dat` is: its id, category, properties and frame groups.
pub struct ThingView {
    pub id: u32,
    pub category: LegacyCategory,
    pub props: PropsView,
    pub groups: Seq<FrameGroupView>,
}

/// A legacy thing (item, outfit, effect or missile): its id and category,
/// the properties its flags set, and its frame groups.
pub struct LegacyThingType {
    pub id: u32,
    pub category: LegacyCategory,
    // Flags
    pub is_ground: bool,
    pub ground_speed: u16,
    pub is_ground_border: bool,
    pub is_on_bottom: bool,
    pub is_on_top: bool,
    pub is_container: bool,
    pub is_stackable: bool,
    pub is_force_use: bool,
    pub is_multi_use: bool,
    pub is_usable: bool,
    pub is_writable: bool,
    pub max_read_write_chars: u16,
    pub is_writable_once: bool,
    pub max_read_chars: u16,
    pub is_fluid_container: bool,
    pub is_fluid: bool,
    pub is_unpassable: bool,
    pub is_unmoveable: bool,
    pub is_block_missile: bool,
    pub is_block_pathfind: bool,
    pub is_no_move_animation: bool,
    pub is_pickupable: bool,
    pub is_hangable: bool,
    pub is_vertical: bool,
    pub is_horizontal: bool,
    pub is_rotatable: bool,
    pub has_light: bool,
    pub light: LegacyLight,
    pub dont_hide: bool,
    pub is_translucent: bool,
    pub has_offset: bool,
    pub offset: LegacyShift,
    pub has_elevation: bool,
    pub elevation: u16,
    pub is_lying_object: bool,
    pub is_animate_always: bool,
    pub is_mini_map: bool,
    pub mini_map_color: u16,
    pub is_lens_help: bool,
    pub lens_help: u16,
    pub is_full_ground: bool,
    pub is_ignore_look: bool,
    pub is_cloth: bool,
    pub cloth_slot: u16,
    pub is_market_item: bool,
    pub market: LegacyMarket,
    pub has_default_action: bool,
    pub default_action: u16,
    pub is_wrappable: bool,
    pub is_unwrappable: bool,
    pub is_top_effect: bool,
    // Frame groups
    pub frame_groups: Vec<LegacyFrameGroup>,
}

/// `t` is the thing that `v` describes: its id, category and frame groups, and
/// each property field read from the flags and values of `v.props`.
pub open spec fn thing_matches(t: LegacyThingType, v: ThingView) -> bool {
    &&& t.id == v.id
    &&& t.category == v.category
    &&& t.is_ground == v.props.flags[IS_GROUND as int]
    &&& t.ground_speed == v.props.values[GROUND_SPEED as int]
    &&& t.is_ground_border == v.props.flags[IS_GROUND_BORDER as int]
    &&& t.is_on_bottom == v.props.flags[IS_ON_BOTTOM as int]
    &&& t.is_on_top == v.props.flags[IS_ON_TOP as int]
    &&& t.is_container == v.props.flags[IS_CONTAINER as int]
    &&& t.is_stackable == v.props.flags[IS_STACKABLE as int]
    &&& t.is_force_use == v.props.flags[IS_FORCE_USE as int]
    &&& t.is_multi_use == v.props.flags[IS_MULTI_USE as int]
    &&& t.is_usable == v.props.flags[IS_USABLE as int]
    &&& t.is_writable == v.props.flags[IS_WRITABLE as int]
    &&& t.max_read_write_chars == v.props.values[MAX_READ_WRITE_CHARS as int]
    &&& t.is_writable_once == v.props.flags[IS_WRITABLE_ONCE as int]
    &&& t.max_read_chars == v.props.values[MAX_READ_CHARS as int]
    &&& t.is_fluid_container == v.props.flags[IS_FLUID_CONTAINER as int]
    &&& t.is_fluid == v.props.flags[IS_FLUID as int]
    &&& t.is_unpassable == v.props.flags[IS_UNPASSABLE as int]
    &&& t.is_unmoveable == v.props.flags[IS_UNMOVEABLE as int]
    &&& t.is_block_missile == v.props.flags[IS_BLOCK_MISSILE as int]
    &&& t.is_block_pathfind == v.props.flags[IS_BLOCK_PATHFIND as int]
    &&& t.is_no_move_animation == v.props.flags[IS_NO_MOVE_ANIMATION as int]
    &&& t.is_pickupable == v.props.flags[IS_PICKUPABLE as int]
    &&& t.is_hangable == v.props.flags[IS_HANGABLE as int]
    &&& t.is_vertical == v.props.flags[IS_VERTICAL as int]
    &&& t.is_horizontal == v.props.flags[IS_HORIZONTAL as int]
    &&& t.is_rotatable == v.props.flags[IS_ROTATABLE as int]
    &&& t.has_light == v.props.flags[HAS_LIGHT as int]
    &&& t.dont_hide == v.props.flags[DONT_HIDE as int]
    &&& t.is_translucent == v.props.flags[IS_TRANSLUCENT as int]
    &&& t.has_offset == v.props.flags[HAS_OFFSET as int]
    &&& t.has_elevation == v.props.flags[HAS_ELEVATION as int]
    &&& t.elevation == v.props.values[ELEVATION as int]
    &&& t.is_lying_object == v.props.flags[IS_LYING_OBJECT as int]
    &&& t.is_animate_always == v.props.flags[IS_ANIMATE_ALWAYS as int]
    &&& t.is_mini_map == v.props.flags[IS_MINI_MAP as int]
    &&& t.mini_map_color == v.props.values[MINI_MAP_COLOR as int]
    &&& t.is_lens_help == v.props.flags[IS_LENS_HELP as int]
    &&& t.lens_help == v.props.values[LENS_HELP as int]
    &&& t.is_full_ground == v.props.flags[IS_FULL_GROUND as int]
    &&& t.is_ignore_look == v.props.flags[IS_IGNORE_LOOK as int]
    &&& t.is_cloth == v.props.flags[IS_CLOTH as int]
    &&& t.cloth_slot == v.props.values[CLOTH_SLOT as int]
    &&& t.is_market_item == v.props.flags[IS_MARKET_ITEM as int]
    &&& t.has_default_action == v.props.flags[HAS_DEFAULT_ACTION as int]
    &&& t.default_action == v.props.values[DEFAULT_ACTION as int]
    &&& t.is_wrappable == v.props.flags[IS_WRAPPABLE as int]
    &&& t.is_unwrappable == v.props.flags[IS_UNWRAPPABLE as int]
    &&& t.is_top_effect == v.props.flags[IS_TOP_EFFECT as int]
    &&& t.light == (LegacyLight { level: v.props.values[LIGHT_LEVEL as int], color: v.props.values[LIGHT_COLOR as int] })
    &&& t.offset == v.props.offset
    &&& t.market@ == v.props.market
    &&& t.frame_groups@.map_values(|g: LegacyFrameGroup| g@) == v.groups
}

impl LegacyThingType {
    /// The thing with this id and category, whose properties are `p` and
    /// whose frame groups are `frame_groups`.
    pub fn assemble(id: u32, category: LegacyCategory, p: ThingProps, frame_groups: Vec<LegacyFrameGroup>) -> (r: LegacyThingType)
        requires
            props_wf(p@),
        ensures
            thing_matches(r, ThingView { id, category, props: p@, groups: frame_groups@.map_values(|g: LegacyFrameGroup| g@) }),
    {
        let ThingProps { flags, values, offset, market } = p;
        LegacyThingType {
            id,
            category,
            is_ground: flags[IS_GROUND],
            ground_speed: values[GROUND_SPEED],
            is_ground_border: flags[IS_GROUND_BORDER],
            is_on_bottom: flags[IS_ON_BOTTOM],
            is_on_top: flags[IS_ON_TOP],
            is_container: flags[IS_CONTAINER],
            is_stackable: flags[IS_STACKABLE],
            is_force_use: flags[IS_FORCE_USE],
            is_multi_use: flags[IS_MULTI_USE],
            is_usable: flags[IS_USABLE],
            is_writable: flags[IS_WRITABLE],
            max_read_write_chars: values[MAX_READ_WRITE_CHARS],
            is_writable_once: flags[IS_WRITABLE_ONCE],
            max_read_chars: values[MAX_READ_CHARS],
            is_fluid_container: flags[IS_FLUID_CONTAINER],
            is_fluid: flags[IS_FLUID],
            is_unpassable: flags[IS_UNPASSABLE],
            is_unmoveable: flags[IS_UNMOVEABLE],
            is_block_missile: flags[IS_BLOCK_MISSILE],
            is_block_pathfind: flags[IS_BLOCK_PATHFIND],
            is_no_move_animation: flags[IS_NO_MOVE_ANIMATION],
            is_pickupable: flags[IS_PICKUPABLE],
            is_hangable: flags[IS_HANGABLE],
            is_vertical: flags[IS_VERTICAL],
            is_horizontal: flags[IS_HORIZONTAL],
            is_rotatable: flags[IS_ROTATABLE],
            has_light: flags[HAS_LIGHT],
            light: LegacyLight { level: values[LIGHT_LEVEL], color: values[LIGHT_COLOR] },
            dont_hide: flags[DONT_HIDE],
            is_translucent: flags[IS_TRANSLUCENT],
            has_offset: flags[HAS_OFFSET],
            offset,
            has_elevation: flags[HAS_ELEVATION],
            elevation: values[ELEVATION],
            is_lying_object: flags[IS_LYING_OBJECT],
            is_animate_always: flags[IS_ANIMATE_ALWAYS],
            is_mini_map: flags[IS_MINI_MAP],
            mini_map_color: values[MINI_MAP_COLOR],
            is_lens_help: flags[IS_LENS_HELP],
            lens_help: values[LENS_HELP],
            is_full_ground: flags[IS_FULL_GROUND],
            is_ignore_look: flags[IS_IGNORE_LOOK],
            is_cloth: flags[IS_CLOTH],
            cloth_slot: values[CLOTH_SLOT],
            is_market_item: flags[IS_MARKET_ITEM],
            market,
            has_default_action: flags[HAS_DEFAULT_ACTION],
            default_action: values[DEFAULT_ACTION],
            is_wrappable: flags[IS_WRAPPABLE],
            is_unwrappable: flags[IS_UNWRAPPABLE],
            is_top_effect: flags[IS_TOP_EFFECT],
            frame_groups,
        }
    }
}


/// The byte at `p`.
pub open spec fn u8_at(d: Seq<u8>, p: int) -> Option<u8> {
    if 0 <= p && p + 1 <= d.len() { Some(d[p]) } else { None }
}

/// The little-endian `u16` at `p`.
pub open spec fn u16_at(d: Seq<u8>, p: int) -> Option<u16> {
    if 0 <= p && p + 2 <= d.len() { Some((d[p] + 256 * d[p + 1]) as u16) } else { None }
}

/// The little-endian `u32` at `p`.
pub open spec fn u32_at(d: Seq<u8>, p: int) -> Option<u32> {
    if 0 <= p && p + 4 <= d.len() {
        Some((d[p] + 256 * d[p + 1] + 65536 * d[p + 2] + 16777216 * d[p + 3]) as u32)
    } else {
        None
    }
}

/// The little-endian `i16` at `p` (two's complement).
pub open spec fn i16_at(d: Seq<u8>, p: int) -> Option<i16> {
    match u16_at(d, p) {
        Some(v) => Some(v as i16),
        None => None,
    }
}

/// The little-endian `i32` at `p` (two's complement).
pub open spec fn i32_at(d: Seq<u8>, p: int) -> Option<i32> {
    match u32_at(d, p) {
        Some(v) => Some(v as i32),
        None => None,
    }
}

/// `LittleEndian::read_u16` (byteorder) on `d[p..p + 2]`: the bytes as a
/// little-endian integer.
#[verifier::external_body]
fn le_u16(d: &[u8], p: usize) -> (r: u16)
    requires
        p + 2 <= d@.len(),
    ensures
        r == (d@[p as int] + 256 * d@[p + 1]) as u16,
{
    LittleEndian::read_u16(&d[p..p + 2])
}

/// `LittleEndian::read_u32` (byteorder) on `d[p..p + 4]`: the bytes as a
/// little-endian integer.
#[verifier::external_body]
fn le_u32(d: &[u8], p: usize) -> (r: u32)
    requires
        p + 4 <= d@.len(),
    ensures
        r == (d@[p as int] + 256 * d@[p + 1] + 65536 * d@[p + 2] + 16777216 * d@[p + 3]) as u32,
{
    LittleEndian::read_u32(&d[p..p + 4])
}

/// `LittleEndian::read_i16` (byteorder) on `d[p..p + 2]`: the `u16` that
/// `read_u16` gives, cast to `i16`.
#[verifier::external_body]
fn le_i16(d: &[u8], p: usize) -> (r: i16)
    requires
        p + 2 <= d@.len(),
    ensures
        r == ((d@[p as int] + 256 * d@[p + 1]) as u16) as i16,
{
    LittleEndian::read_i16(&d[p..p + 2])
}

/// `LittleEndian::read_i32` (byteorder) on `d[p..p + 4]`: the `u32` that
/// `read_u32` gives, cast to `i32`.
#[verifier::external_body]
fn le_i32(d: &[u8], p: usize) -> (r: i32)
    requires
        p + 4 <= d@.len(),
    ensures
        r == ((d@[p as int] + 256 * d@[p + 1] + 65536 * d@[p + 2] + 16777216 * d@[p + 3]) as u32) as i32,
{
    LittleEndian::read_i32(&d[p..p + 4])
}

/// The characters that `String::from_utf8_lossy` makes of `b`.
pub uninterp spec fn lossy_utf8(b: Seq<u8>) -> Seq<char>;

/// `String::from_utf8_lossy` on `d[lo..hi]`: valid UTF-8 decodes as itself,
/// each invalid sequence becomes U+FFFD, so the text is empty exactly when the
/// bytes are. Which characters invalid input gives is named, not stated.
#[verifier::external_body]
pub(crate) fn utf8_lossy(d: &[u8], lo: usize, hi: usize) -> (r: String)
    requires
        lo <= hi <= d@.len(),
    ensures
        r@ == lossy_utf8(d@.subrange(lo as int, hi as int)),
        vstd::utf8::valid_utf8(d@.subrange(lo as int, hi as int)) ==> r@ == vstd::utf8::decode_utf8(
            d@.subrange(lo as int, hi as int),
        ),
        (r@.len() == 0) == (lo == hi),
{
    String::from_utf8_lossy(&d[lo..hi]).into_owned()
}

/// Read one byte; at the end of the data the cursor stays at the end.
pub fn read_u8(d: &[u8], pos: &mut usize) -> (r: Result<u8, DatError>)
    requires
        *old(pos) <= d@.len(),
    ensures
        match u8_at(d@, *old(pos) as int) {
            Some(v) => r == Ok::<u8, DatError>(v) && *final(pos) == *old(pos) + 1,
            None => r == Err::<u8, DatError>(DatError::UnexpectedEof) && *final(pos) == d@.len(),
        },
{
    if *pos < d.len() {
        let v = d[*pos];
        *pos = *pos + 1;
        Ok(v)
    } else {
        *pos = d.len();
        Err(DatError::UnexpectedEof)
    }
}

/// Read a little-endian `u16`; when fewer than 2 bytes remain the cursor goes
/// to the end.
pub fn read_u16(d: &[u8], pos: &mut usize) -> (r: Result<u16, DatError>)
    requires
        *old(pos) <= d@.len(),
    ensures
        match u16_at(d@, *old(pos) as int) {
            Some(v) => r == Ok::<u16, DatError>(v) && *final(pos) == *old(pos) + 2,
            None => r == Err::<u16, DatError>(DatError::UnexpectedEof) && *final(pos) == d@.len(),
        },
{
    if d.len() - *pos >= 2 {
        let v = le_u16(d, *pos);
        *pos = *pos + 2;
        Ok(v)
    } else {
        *pos = d.len();
        Err(DatError::UnexpectedEof)
    }
}

/// Read a little-endian `u32`.
pub fn read_u32(d: &[u8], pos: &mut usize) -> (r: Result<u32, DatError>)
    requires
        *old(pos) <= d@.len(),
    ensures
        match u32_at(d@, *old(pos) as int) {
            Some(v) => r == Ok::<u32, DatError>(v) && *final(pos) == *old(pos) + 4,
            None => r == Err::<u32, DatError>(DatError::UnexpectedEof) && *final(pos) == d@.len(),
        },
{
    if d.len() - *pos >= 4 {
        let v = le_u32(d, *pos);
        *pos = *pos + 4;
        Ok(v)
    } else {
        *pos = d.len();
        Err(DatError::UnexpectedEof)
    }
}

/// Read a little-endian `i16`.
pub fn read_i16(d: &[u8], pos: &mut usize) -> (r: Result<i16, DatError>)
    requires
        *old(pos) <= d@.len(),
    ensures
        match i16_at(d@, *old(pos) as int) {
            Some(v) => r == Ok::<i16, DatError>(v) && *final(pos) == *old(pos) + 2,
            None => r == Err::<i16, DatError>(DatError::UnexpectedEof) && *final(pos) == d@.len(),
        },
{
    if d.len() - *pos >= 2 {
        let v = le_i16(d, *pos);
        *pos = *pos + 2;
        Ok(v)
    } else {
        *pos = d.len();
        Err(DatError::UnexpectedEof)
    }
}

/// Read a little-endian `i32`.
pub fn read_i32(d: &[u8], pos: &mut usize) -> (r: Result<i32, DatError>)
    requires
        *old(pos) <= d@.len(),
    ensures
        match i32_at(d@, *old(pos) as int) {
            Some(v) => r == Ok::<i32, DatError>(v) && *final(pos) == *old(pos) + 4,
            None => r == Err::<i32, DatError>(DatError::UnexpectedEof) && *final(pos) == d@.len(),
        },
{
    if d.len() - *pos >= 4 {
        let v = le_i32(d, *pos);
        *pos = *pos + 4;
        Ok(v)
    } else {
        *pos = d.len();
        Err(DatError::UnexpectedEof)
    }
}

/// Skip up to `n` bytes, stopping at the end of the data.
fn skip(d: &[u8], pos: &mut usize, n: usize)
    requires
        *old(pos) <= d@.len(),
        n <= 2,
    ensures
        *final(pos) == skipped(d@, *old(pos) as int, n as int),
{
    if d.len() - *pos >= n {
        *pos = *pos + n;
    } else {
        *pos = d.len();
    }
}

/// The cursor after skipping up to `n` bytes at `p`.
pub open spec fn skipped(d: Seq<u8>, p: int, n: int) -> int {
    if p + n <= d.len() { p + n } else { d.len() as int }
}

/// What market data a market flag reads at `p`.
pub open spec fn spec_market(t: PropsView, d: Seq<u8>, p: int) -> Result<(PropsView, int), DatError> {
    match (u16_at(d, p), u16_at(d, p + 2), u16_at(d, p + 4), u16_at(d, p + 6)) {
        (Some(cat), Some(trade), Some(show), Some(nl)) => {
            if nl > 512 {
                Err(DatError::InvalidMarketNameLength { len: nl })
            } else if p + 8 + nl > d.len() {
                Err(DatError::UnexpectedEof)
            } else {
                let q = p + 8 + nl;
                match (u16_at(d, q), u16_at(d, q + 2)) {
                    (Some(rp), Some(rl)) => Ok((
                        PropsView {
                            flags: t.flags.update(IS_MARKET_ITEM as int, true),
                            market: MarketView {
                                category: cat,
                                trade_as: trade,
                                show_as: show,
                                name: lossy_utf8(d.subrange(p + 8, q)),
                                restrict_profession: rp,
                                restrict_level: rl,
                            },
                            ..t
                        },
                        q + 4,
                    )),
                    _ => Err(DatError::UnexpectedEof),
                }
            }
        },
        _ => Err(DatError::UnexpectedEof),
    }
}

/// What a flag's action does to the properties `t` when its payload starts
/// at `p`: the new properties and where the next flag starts.
pub open spec fn spec_apply(t: PropsView, a: FlagAction, d: Seq<u8>, p: int) -> Result<(PropsView, int), DatError> {
    match a {
        FlagAction::Flag(k) => Ok((PropsView { flags: t.flags.update(k as int, true), ..t }, p)),
        FlagAction::FlagValue(k, v) => match u16_at(d, p) {
            Some(x) => Ok((
                PropsView { flags: t.flags.update(k as int, true), values: t.values.update(v as int, x), ..t },
                p + 2,
            )),
            None => Err(DatError::UnexpectedEof),
        },
        FlagAction::Light => match (u16_at(d, p), u16_at(d, p + 2)) {
            (Some(l), Some(c)) => Ok((
                PropsView {
                    flags: t.flags.update(HAS_LIGHT as int, true),
                    values: t.values.update(LIGHT_LEVEL as int, l).update(LIGHT_COLOR as int, c),
                    ..t
                },
                p + 4,
            )),
            _ => Err(DatError::UnexpectedEof),
        },
        FlagAction::FixedOffset => Ok((
            PropsView { flags: t.flags.update(HAS_OFFSET as int, true), offset: LegacyShift { x: 8, y: 8 }, ..t },
            p,
        )),
        FlagAction::Offset => match (i16_at(d, p), i16_at(d, p + 2)) {
            (Some(x), Some(y)) => Ok((
                PropsView { flags: t.flags.update(HAS_OFFSET as int, true), offset: LegacyShift { x, y }, ..t },
                p + 4,
            )),
            _ => Err(DatError::UnexpectedEof),
        },
        FlagAction::Market => spec_market(t, d, p),
        FlagAction::Nothing => Ok((t, p)),
        FlagAction::SkipU8 => Ok((t, skipped(d, p, 1))),
        FlagAction::SkipU16 => Ok((t, skipped(d, p, 2))),
    }
}

/// `r` and the cursor `pos` are what `s` describes.
pub open spec fn props_result(r: Result<ThingProps, DatError>, pos: int, s: Result<(PropsView, int), DatError>) -> bool {
    match s {
        Ok((t2, q)) => r matches Ok(x) && x@ == t2 && pos == q && props_wf(t2),
        Err(e) => r matches Err(e2) && e2 == e,
    }
}

/// Read the market data of a market flag.
fn read_market(d: &[u8], pos: &mut usize, t: ThingProps) -> (r: Result<ThingProps, DatError>)
    requires
        *old(pos) <= d@.len(),
        props_wf(t@),
    ensures
        *final(pos) <= d@.len(),
        props_result(r, *final(pos) as int, spec_market(t@, d@, *old(pos) as int)),
{
    let category = read_u16(d, pos)?;
    let trade_as = read_u16(d, pos)?;
    let show_as = read_u16(d, pos)?;
    let name_len = read_u16(d, pos)?;
    if name_len > 512 {
        return Err(DatError::InvalidMarketNameLength { len: name_len });
    }
    let nl = name_len as usize;
    if d.len() - *pos < nl {
        *pos = d.len();
        return Err(DatError::UnexpectedEof);
    }
    let name = utf8_lossy(d, *pos, *pos + nl);
    *pos = *pos + nl;
    let restrict_profession = read_u16(d, pos)?;
    let restrict_level = read_u16(d, pos)?;
    let mut t = t;
    t.flags.set(IS_MARKET_ITEM, true);
    t.market = LegacyMarket { category, trade_as, show_as, name, restrict_profession, restrict_level };
    Ok(t)
}

/// Apply one flag's action to `t`, reading its payload at the cursor.
fn apply_flag_action(d: &[u8], pos: &mut usize, t: ThingProps, a: FlagAction) -> (r: Result<ThingProps, DatError>)
    requires
        *old(pos) <= d@.len(),
        props_wf(t@),
        action_ok(a),
    ensures
        *final(pos) <= d@.len(),
        props_result(r, *final(pos) as int, spec_apply(t@, a, d@, *old(pos) as int)),
{
    let mut t = t;
    match a {
        FlagAction::Flag(k) => {
            t.flags.set(k, true);
            Ok(t)
        },
        FlagAction::FlagValue(k, v) => {
            let x = read_u16(d, pos)?;
            t.flags.set(k, true);
            t.values.set(v, x);
            Ok(t)
        },
        FlagAction::Light => {
            let level = read_u16(d, pos)?;
            let color = read_u16(d, pos)?;
            t.flags.set(HAS_LIGHT, true);
            t.values.set(LIGHT_LEVEL, level);
            t.values.set(LIGHT_COLOR, color);
            Ok(t)
        },
        FlagAction::FixedOffset => {
            t.flags.set(HAS_OFFSET, true);
            t.offset = LegacyShift { x: 8, y: 8 };
            Ok(t)
        },
        FlagAction::Offset => {
            let x = read_i16(d, pos)?;
            let y = read_i16(d, pos)?;
            t.flags.set(HAS_OFFSET, true);
            t.offset = LegacyShift { x, y };
            Ok(t)
        },
        FlagAction::Market => read_market(d, pos, t),
        FlagAction::Nothing => Ok(t),
        FlagAction::SkipU8 => {
            skip(d, pos, 1);
            Ok(t)
        },
        FlagAction::SkipU16 => {
            skip(d, pos, 2);
            Ok(t)
        },
    }
}

/// The flag table of metadata structure 1.
pub open spec fn flag_table_v1(flag: u8) -> Option<FlagAction> {
    match flag {
        0x00 => Some(FlagAction::FlagValue(IS_GROUND, GROUND_SPEED)),
        0x01 => Some(FlagAction::Flag(IS_ON_BOTTOM)),
        0x02 => Some(FlagAction::Flag(IS_ON_TOP)),
        0x03 => Some(FlagAction::Flag(IS_CONTAINER)),
        0x04 => Some(FlagAction::Flag(IS_STACKABLE)),
        0x05 => Some(FlagAction::Flag(IS_MULTI_USE)),
        0x06 => Some(FlagAction::Flag(IS_FORCE_USE)),
        0x07 => Some(FlagAction::FlagValue(IS_WRITABLE, MAX_READ_WRITE_CHARS)),
        0x08 => Some(FlagAction::FlagValue(IS_WRITABLE_ONCE, MAX_READ_CHARS)),
        0x09 => Some(FlagAction::Flag(IS_FLUID_CONTAINER)),
        0x0A => Some(FlagAction::Flag(IS_FLUID)),
        0x0B => Some(FlagAction::Flag(IS_UNPASSABLE)),
        0x0C => Some(FlagAction::Flag(IS_UNMOVEABLE)),
        0x0D => Some(FlagAction::Flag(IS_BLOCK_MISSILE)),
        0x0E => Some(FlagAction::Flag(IS_BLOCK_PATHFIND)),
        0x0F => Some(FlagAction::Flag(IS_PICKUPABLE)),
        0x10 => Some(FlagAction::Light),
        0x11 => Some(FlagAction::Nothing),
        0x12 => Some(FlagAction::Flag(IS_FULL_GROUND)),
        0x13 => Some(FlagAction::FlagValue(HAS_ELEVATION, ELEVATION)),
        0x14 => Some(FlagAction::FixedOffset),
        0x16 => Some(FlagAction::FlagValue(IS_MINI_MAP, MINI_MAP_COLOR)),
        0x17 => Some(FlagAction::Flag(IS_ROTATABLE)),
        0x18 => Some(FlagAction::Flag(IS_LYING_OBJECT)),
        0x19 => Some(FlagAction::Flag(IS_ANIMATE_ALWAYS)),
        0x1A => Some(FlagAction::FlagValue(IS_LENS_HELP, LENS_HELP)),
        0x24 => Some(FlagAction::Flag(IS_WRAPPABLE)),
        0x25 => Some(FlagAction::Flag(IS_UNWRAPPABLE)),
        0x26 => Some(FlagAction::Flag(IS_TOP_EFFECT)),
        _ => None,
    }
}

fn flag_action_v1(flag: u8) -> (r: Option<FlagAction>)
    ensures
        r == flag_table_v1(flag),
{
    match flag {
        0x00 => Some(FlagAction::FlagValue(IS_GROUND, GROUND_SPEED)),
        0x01 => Some(FlagAction::Flag(IS_ON_BOTTOM)),
        0x02 => Some(FlagAction::Flag(IS_ON_TOP)),
        0x03 => Some(FlagAction::Flag(IS_CONTAINER)),
        0x04 => Some(FlagAction::Flag(IS_STACKABLE)),
        0x05 => Some(FlagAction::Flag(IS_MULTI_USE)),
        0x06 => Some(FlagAction::Flag(IS_FORCE_USE)),
        0x07 => Some(FlagAction::FlagValue(IS_WRITABLE, MAX_READ_WRITE_CHARS)),
        0x08 => Some(FlagAction::FlagValue(IS_WRITABLE_ONCE, MAX_READ_CHARS)),
        0x09 => Some(FlagAction::Flag(IS_FLUID_CONTAINER)),
        0x0A => Some(FlagAction::Flag(IS_FLUID)),
        0x0B => Some(FlagAction::Flag(IS_UNPASSABLE)),
        0x0C => Some(FlagAction::Flag(IS_UNMOVEABLE)),
        0x0D => Some(FlagAction::Flag(IS_BLOCK_MISSILE)),
        0x0E => Some(FlagAction::Flag(IS_BLOCK_PATHFIND)),
        0x0F => Some(FlagAction::Flag(IS_PICKUPABLE)),
        0x10 => Some(FlagAction::Light),
        0x11 => Some(FlagAction::Nothing),
        0x12 => Some(FlagAction::Flag(IS_FULL_GROUND)),
        0x13 => Some(FlagAction::FlagValue(HAS_ELEVATION, ELEVATION)),
        0x14 => Some(FlagAction::FixedOffset),
        0x16 => Some(FlagAction::FlagValue(IS_MINI_MAP, MINI_MAP_COLOR)),
        0x17 => Some(FlagAction::Flag(IS_ROTATABLE)),
        0x18 => Some(FlagAction::Flag(IS_LYING_OBJECT)),
        0x19 => Some(FlagAction::Flag(IS_ANIMATE_ALWAYS)),
        0x1A => Some(FlagAction::FlagValue(IS_LENS_HELP, LENS_HELP)),
        0x24 => Some(FlagAction::Flag(IS_WRAPPABLE)),
        0x25 => Some(FlagAction::Flag(IS_UNWRAPPABLE)),
        0x26 => Some(FlagAction::Flag(IS_TOP_EFFECT)),
        _ => None,
    }
}

/// The flag table of metadata structure 2.
pub open spec fn flag_table_v2(flag: u8) -> Option<FlagAction> {
    match flag {
        0x00 => Some(FlagAction::FlagValue(IS_GROUND, GROUND_SPEED)),
        0x01 => Some(FlagAction::Flag(IS_ON_BOTTOM)),
        0x02 => Some(FlagAction::Flag(IS_ON_TOP)),
        0x03 => Some(FlagAction::Flag(IS_CONTAINER)),
        0x04 => Some(FlagAction::Flag(IS_STACKABLE)),
        0x05 => Some(FlagAction::Flag(IS_MULTI_USE)),
        0x06 => Some(FlagAction::Flag(IS_FORCE_USE)),
        0x07 => Some(FlagAction::FlagValue(IS_WRITABLE, MAX_READ_WRITE_CHARS)),
        0x08 => Some(FlagAction::FlagValue(IS_WRITABLE_ONCE, MAX_READ_CHARS)),
        0x09 => Some(FlagAction::Flag(IS_FLUID_CONTAINER)),
        0x0A => Some(FlagAction::Flag(IS_FLUID)),
        0x0B => Some(FlagAction::Flag(IS_UNPASSABLE)),
        0x0C => Some(FlagAction::Flag(IS_UNMOVEABLE)),
        0x0D => Some(FlagAction::Flag(IS_BLOCK_MISSILE)),
        0x0E => Some(FlagAction::Flag(IS_BLOCK_PATHFIND)),
        0x0F => Some(FlagAction::Flag(IS_PICKUPABLE)),
        0x10 => Some(FlagAction::Light),
        0x11 => Some(FlagAction::Nothing),
        0x12 => Some(FlagAction::Flag(IS_FULL_GROUND)),
        0x13 => Some(FlagAction::FlagValue(HAS_ELEVATION, ELEVATION)),
        0x14 => Some(FlagAction::FixedOffset),
        0x16 => Some(FlagAction::FlagValue(IS_MINI_MAP, MINI_MAP_COLOR)),
        0x17 => Some(FlagAction::Flag(IS_ROTATABLE)),
        0x18 => Some(FlagAction::Flag(IS_LYING_OBJECT)),
        0x19 => Some(FlagAction::Flag(IS_HANGABLE)),
        0x1A => Some(FlagAction::Flag(IS_VERTICAL)),
        0x1B => Some(FlagAction::Flag(IS_HORIZONTAL)),
        0x1C => Some(FlagAction::Flag(IS_ANIMATE_ALWAYS)),
        0x1D => Some(FlagAction::FlagValue(IS_LENS_HELP, LENS_HELP)),
        0x24 => Some(FlagAction::Flag(IS_WRAPPABLE)),
        0x25 => Some(FlagAction::Flag(IS_UNWRAPPABLE)),
        0x26 => Some(FlagAction::Flag(IS_TOP_EFFECT)),
        _ => None,
    }
}

fn flag_action_v2(flag: u8) -> (r: Option<FlagAction>)
    ensures
        r == flag_table_v2(flag),
{
    match flag {
        0x00 => Some(FlagAction::FlagValue(IS_GROUND, GROUND_SPEED)),
        0x01 => Some(FlagAction::Flag(IS_ON_BOTTOM)),
        0x02 => Some(FlagAction::Flag(IS_ON_TOP)),
        0x03 => Some(FlagAction::Flag(IS_CONTAINER)),
        0x04 => Some(FlagAction::Flag(IS_STACKABLE)),
        0x05 => Some(FlagAction::Flag(IS_MULTI_USE)),
        0x06 => Some(FlagAction::Flag(IS_FORCE_USE)),
        0x07 => Some(FlagAction::FlagValue(IS_WRITABLE, MAX_READ_WRITE_CHARS)),
        0x08 => Some(FlagAction::FlagValue(IS_WRITABLE_ONCE, MAX_READ_CHARS)),
        0x09 => Some(FlagAction::Flag(IS_FLUID_CONTAINER)),
        0x0A => Some(FlagAction::Flag(IS_FLUID)),
        0x0B => Some(FlagAction::Flag(IS_UNPASSABLE)),
        0x0C => Some(FlagAction::Flag(IS_UNMOVEABLE)),
        0x0D => Some(FlagAction::Flag(IS_BLOCK_MISSILE)),
        0x0E => Some(FlagAction::Flag(IS_BLOCK_PATHFIND)),
        0x0F => Some(FlagAction::Flag(IS_PICKUPABLE)),
        0x10 => Some(FlagAction::Light),
        0x11 => Some(FlagAction::Nothing),
        0x12 => Some(FlagAction::Flag(IS_FULL_GROUND)),
        0x13 => Some(FlagAction::FlagValue(HAS_ELEVATION, ELEVATION)),
        0x14 => Some(FlagAction::FixedOffset),
        0x16 => Some(FlagAction::FlagValue(IS_MINI_MAP, MINI_MAP_COLOR)),
        0x17 => Some(FlagAction::Flag(IS_ROTATABLE)),
        0x18 => Some(FlagAction::Flag(IS_LYING_OBJECT)),
        0x19 => Some(FlagAction::Flag(IS_HANGABLE)),
        0x1A => Some(FlagAction::Flag(IS_VERTICAL)),
        0x1B => Some(FlagAction::Flag(IS_HORIZONTAL)),
        0x1C => Some(FlagAction::Flag(IS_ANIMATE_ALWAYS)),
        0x1D => Some(FlagAction::FlagValue(IS_LENS_HELP, LENS_HELP)),
        0x24 => Some(FlagAction::Flag(IS_WRAPPABLE)),
        0x25 => Some(FlagAction::Flag(IS_UNWRAPPABLE)),
        0x26 => Some(FlagAction::Flag(IS_TOP_EFFECT)),
        _ => None,
    }
}

/// The flag table of metadata structure 3.
pub open spec fn flag_table_v3(flag: u8) -> Option<FlagAction> {
    match flag {
        0x00 => Some(FlagAction::FlagValue(IS_GROUND, GROUND_SPEED)),
        0x01 => Some(FlagAction::Flag(IS_GROUND_BORDER)),
        0x02 => Some(FlagAction::Flag(IS_ON_BOTTOM)),
        0x03 => Some(FlagAction::Flag(IS_ON_TOP)),
        0x04 => Some(FlagAction::Flag(IS_CONTAINER)),
        0x05 => Some(FlagAction::Flag(IS_STACKABLE)),
        0x06 => Some(FlagAction::Flag(IS_MULTI_USE)),
        0x07 => Some(FlagAction::Flag(IS_FORCE_USE)),
        0x08 => Some(FlagAction::FlagValue(IS_WRITABLE, MAX_READ_WRITE_CHARS)),
        0x09 => Some(FlagAction::FlagValue(IS_WRITABLE_ONCE, MAX_READ_CHARS)),
        0x0A => Some(FlagAction::Flag(IS_FLUID_CONTAINER)),
        0x0B => Some(FlagAction::Flag(IS_FLUID)),
        0x0C => Some(FlagAction::Flag(IS_UNPASSABLE)),
        0x0D => Some(FlagAction::Flag(IS_UNMOVEABLE)),
        0x0E => Some(FlagAction::Flag(IS_BLOCK_MISSILE)),
        0x0F => Some(FlagAction::Flag(IS_BLOCK_PATHFIND)),
        0x10 => Some(FlagAction::Flag(IS_PICKUPABLE)),
        0x11 => Some(FlagAction::Flag(IS_HANGABLE)),
        0x12 => Some(FlagAction::Flag(IS_VERTICAL)),
        0x13 => Some(FlagAction::Flag(IS_HORIZONTAL)),
        0x14 => Some(FlagAction::Flag(IS_ROTATABLE)),
        0x15 => Some(FlagAction::Light),
        0x16 => Some(FlagAction::Nothing),
        0x17 => Some(FlagAction::Offset),
        0x18 => Some(FlagAction::FlagValue(HAS_ELEVATION, ELEVATION)),
        0x19 => Some(FlagAction::Flag(IS_LYING_OBJECT)),
        0x1A => Some(FlagAction::Flag(IS_ANIMATE_ALWAYS)),
        0x1B => Some(FlagAction::FlagValue(IS_MINI_MAP, MINI_MAP_COLOR)),
        0x1C => Some(FlagAction::FlagValue(IS_LENS_HELP, LENS_HELP)),
        0x1D => Some(FlagAction::Flag(IS_FULL_GROUND)),
        _ => None,
    }
}

fn flag_action_v3(flag: u8) -> (r: Option<FlagAction>)
    ensures
        r == flag_table_v3(flag),
{
    match flag {
        0x00 => Some(FlagAction::FlagValue(IS_GROUND, GROUND_SPEED)),
        0x01 => Some(FlagAction::Flag(IS_GROUND_BORDER)),
        0x02 => Some(FlagAction::Flag(IS_ON_BOTTOM)),
        0x03 => Some(FlagAction::Flag(IS_ON_TOP)),
        0x04 => Some(FlagAction::Flag(IS_CONTAINER)),
        0x05 => Some(FlagAction::Flag(IS_STACKABLE)),
        0x06 => Some(FlagAction::Flag(IS_MULTI_USE)),
        0x07 => Some(FlagAction::Flag(IS_FORCE_USE)),
        0x08 => Some(FlagAction::FlagValue(IS_WRITABLE, MAX_READ_WRITE_CHARS)),
        0x09 => Some(FlagAction::FlagValue(IS_WRITABLE_ONCE, MAX_READ_CHARS)),
        0x0A => Some(FlagAction::Flag(IS_FLUID_CONTAINER)),
        0x0B => Some(FlagAction::Flag(IS_FLUID)),
        0x0C => Some(FlagAction::Flag(IS_UNPASSABLE)),
        0x0D => Some(FlagAction::Flag(IS_UNMOVEABLE)),
        0x0E => Some(FlagAction::Flag(IS_BLOCK_MISSILE)),
        0x0F => Some(FlagAction::Flag(IS_BLOCK_PATHFIND)),
        0x10 => Some(FlagAction::Flag(IS_PICKUPABLE)),
        0x11 => Some(FlagAction::Flag(IS_HANGABLE)),
        0x12 => Some(FlagAction::Flag(IS_VERTICAL)),
        0x13 => Some(FlagAction::Flag(IS_HORIZONTAL)),
        0x14 => Some(FlagAction::Flag(IS_ROTATABLE)),
        0x15 => Some(FlagAction::Light),
        0x16 => Some(FlagAction::Nothing),
        0x17 => Some(FlagAction::Offset),
        0x18 => Some(FlagAction::FlagValue(HAS_ELEVATION, ELEVATION)),
        0x19 => Some(FlagAction::Flag(IS_LYING_OBJECT)),
        0x1A => Some(FlagAction::Flag(IS_ANIMATE_ALWAYS)),
        0x1B => Some(FlagAction::FlagValue(IS_MINI_MAP, MINI_MAP_COLOR)),
        0x1C => Some(FlagAction::FlagValue(IS_LENS_HELP, LENS_HELP)),
        0x1D => Some(FlagAction::Flag(IS_FULL_GROUND)),
        _ => None,
    }
}

/// The flag table of metadata structure 4.
pub open spec fn flag_table_v4(flag: u8) -> Option<FlagAction> {
    match flag {
        0x00 => Some(FlagAction::FlagValue(IS_GROUND, GROUND_SPEED)),
        0x01 => Some(FlagAction::Flag(IS_GROUND_BORDER)),
        0x02 => Some(FlagAction::Flag(IS_ON_BOTTOM)),
        0x03 => Some(FlagAction::Flag(IS_ON_TOP)),
        0x04 => Some(FlagAction::Flag(IS_CONTAINER)),
        0x05 => Some(FlagAction::Flag(IS_STACKABLE)),
        0x06 => Some(FlagAction::Flag(IS_FORCE_USE)),
        0x07 => Some(FlagAction::Flag(IS_MULTI_USE)),
        0x08 => Some(FlagAction::Nothing),
        0x09 => Some(FlagAction::FlagValue(IS_WRITABLE, MAX_READ_WRITE_CHARS)),
        0x0A => Some(FlagAction::FlagValue(IS_WRITABLE_ONCE, MAX_READ_CHARS)),
        0x0B => Some(FlagAction::Flag(IS_FLUID_CONTAINER)),
        0x0C => Some(FlagAction::Flag(IS_FLUID)),
        0x0D => Some(FlagAction::Flag(IS_UNPASSABLE)),
        0x0E => Some(FlagAction::Flag(IS_UNMOVEABLE)),
        0x0F => Some(FlagAction::Flag(IS_BLOCK_MISSILE)),
        0x10 => Some(FlagAction::Flag(IS_BLOCK_PATHFIND)),
        0x11 => Some(FlagAction::Flag(IS_PICKUPABLE)),
        0x12 => Some(FlagAction::Flag(IS_HANGABLE)),
        0x13 => Some(FlagAction::Flag(IS_VERTICAL)),
        0x14 => Some(FlagAction::Flag(IS_HORIZONTAL)),
        0x15 => Some(FlagAction::Flag(IS_ROTATABLE)),
        0x16 => Some(FlagAction::Light),
        0x17 => Some(FlagAction::Flag(DONT_HIDE)),
        0x18 => Some(FlagAction::Nothing),
        0x19 => Some(FlagAction::Offset),
        0x1A => Some(FlagAction::FlagValue(HAS_ELEVATION, ELEVATION)),
        0x1B => Some(FlagAction::Flag(IS_LYING_OBJECT)),
        0x1C => Some(FlagAction::Flag(IS_ANIMATE_ALWAYS)),
        0x1D => Some(FlagAction::FlagValue(IS_MINI_MAP, MINI_MAP_COLOR)),
        0x1E => Some(FlagAction::FlagValue(IS_LENS_HELP, LENS_HELP)),
        0x1F => Some(FlagAction::Flag(IS_FULL_GROUND)),
        0x20 => Some(FlagAction::Flag(IS_IGNORE_LOOK)),
        0x24 => Some(FlagAction::Flag(IS_WRAPPABLE)),
        0x25 => Some(FlagAction::Flag(IS_UNWRAPPABLE)),
        0x27 => Some(FlagAction::Flag(IS_USABLE)),
        _ => None,
    }
}

fn flag_action_v4(flag: u8) -> (r: Option<FlagAction>)
    ensures
        r == flag_table_v4(flag),
{
    match flag {
        0x00 => Some(FlagAction::FlagValue(IS_GROUND, GROUND_SPEED)),
        0x01 => Some(FlagAction::Flag(IS_GROUND_BORDER)),
        0x02 => Some(FlagAction::Flag(IS_ON_BOTTOM)),
        0x03 => Some(FlagAction::Flag(IS_ON_TOP)),
        0x04 => Some(FlagAction::Flag(IS_CONTAINER)),
        0x05 => Some(FlagAction::Flag(IS_STACKABLE)),
        0x06 => Some(FlagAction::Flag(IS_FORCE_USE)),
        0x07 => Some(FlagAction::Flag(IS_MULTI_USE)),
        0x08 => Some(FlagAction::Nothing),
        0x09 => Some(FlagAction::FlagValue(IS_WRITABLE, MAX_READ_WRITE_CHARS)),
        0x0A => Some(FlagAction::FlagValue(IS_WRITABLE_ONCE, MAX_READ_CHARS)),
        0x0B => Some(FlagAction::Flag(IS_FLUID_CONTAINER)),
        0x0C => Some(FlagAction::Flag(IS_FLUID)),
        0x0D => Some(FlagAction::Flag(IS_UNPASSABLE)),
        0x0E => Some(FlagAction::Flag(IS_UNMOVEABLE)),
        0x0F => Some(FlagAction::Flag(IS_BLOCK_MISSILE)),
        0x10 => Some(FlagAction::Flag(IS_BLOCK_PATHFIND)),
        0x11 => Some(FlagAction::Flag(IS_PICKUPABLE)),
        0x12 => Some(FlagAction::Flag(IS_HANGABLE)),
        0x13 => Some(FlagAction::Flag(IS_VERTICAL)),
        0x14 => Some(FlagAction::Flag(IS_HORIZONTAL)),
        0x15 => Some(FlagAction::Flag(IS_ROTATABLE)),
        0x16 => Some(FlagAction::Light),
        0x17 => Some(FlagAction::Flag(DONT_HIDE)),
        0x18 => Some(FlagAction::Nothing),
        0x19 => Some(FlagAction::Offset),
        0x1A => Some(FlagAction::FlagValue(HAS_ELEVATION, ELEVATION)),
        0x1B => Some(FlagAction::Flag(IS_LYING_OBJECT)),
        0x1C => Some(FlagAction::Flag(IS_ANIMATE_ALWAYS)),
        0x1D => Some(FlagAction::FlagValue(IS_MINI_MAP, MINI_MAP_COLOR)),
        0x1E => Some(FlagAction::FlagValue(IS_LENS_HELP, LENS_HELP)),
        0x1F => Some(FlagAction::Flag(IS_FULL_GROUND)),
        0x20 => Some(FlagAction::Flag(IS_IGNORE_LOOK)),
        0x24 => Some(FlagAction::Flag(IS_WRAPPABLE)),
        0x25 => Some(FlagAction::Flag(IS_UNWRAPPABLE)),
        0x27 => Some(FlagAction::Flag(IS_USABLE)),
        _ => None,
    }
}

/// The flag table of metadata structure 5 (flags it does not list are ignored).
pub open spec fn flag_table_v5(flag: u8) -> Option<FlagAction> {
    match flag {
        0x00 => Some(FlagAction::FlagValue(IS_GROUND, GROUND_SPEED)),
        0x01 => Some(FlagAction::Flag(IS_GROUND_BORDER)),
        0x02 => Some(FlagAction::Flag(IS_ON_BOTTOM)),
        0x03 => Some(FlagAction::Flag(IS_ON_TOP)),
        0x04 => Some(FlagAction::Flag(IS_CONTAINER)),
        0x05 => Some(FlagAction::Flag(IS_STACKABLE)),
        0x06 => Some(FlagAction::Flag(IS_FORCE_USE)),
        0x07 => Some(FlagAction::Flag(IS_MULTI_USE)),
        0x08 => Some(FlagAction::FlagValue(IS_WRITABLE, MAX_READ_WRITE_CHARS)),
        0x09 => Some(FlagAction::FlagValue(IS_WRITABLE_ONCE, MAX_READ_CHARS)),
        0x0A => Some(FlagAction::Flag(IS_FLUID_CONTAINER)),
        0x0B => Some(FlagAction::Flag(IS_FLUID)),
        0x0C => Some(FlagAction::Flag(IS_UNPASSABLE)),
        0x0D => Some(FlagAction::Flag(IS_UNMOVEABLE)),
        0x0E => Some(FlagAction::Flag(IS_BLOCK_MISSILE)),
        0x0F => Some(FlagAction::Flag(IS_BLOCK_PATHFIND)),
        0x10 => Some(FlagAction::Flag(IS_PICKUPABLE)),
        0x11 => Some(FlagAction::Flag(IS_HANGABLE)),
        0x12 => Some(FlagAction::Flag(IS_VERTICAL)),
        0x13 => Some(FlagAction::Flag(IS_HORIZONTAL)),
        0x14 => Some(FlagAction::Flag(IS_ROTATABLE)),
        0x15 => Some(FlagAction::Light),
        0x16 => Some(FlagAction::Flag(DONT_HIDE)),
        0x17 => Some(FlagAction::Flag(IS_TRANSLUCENT)),
        0x18 => Some(FlagAction::Offset),
        0x19 => Some(FlagAction::FlagValue(HAS_ELEVATION, ELEVATION)),
        0x1A => Some(FlagAction::Flag(IS_LYING_OBJECT)),
        0x1B => Some(FlagAction::Flag(IS_ANIMATE_ALWAYS)),
        0x1C => Some(FlagAction::FlagValue(IS_MINI_MAP, MINI_MAP_COLOR)),
        0x1D => Some(FlagAction::FlagValue(IS_LENS_HELP, LENS_HELP)),
        0x1E => Some(FlagAction::Flag(IS_FULL_GROUND)),
        0x1F => Some(FlagAction::Flag(IS_IGNORE_LOOK)),
        0x20 => Some(FlagAction::FlagValue(IS_CLOTH, CLOTH_SLOT)),
        0x21 => Some(FlagAction::Market),
        0x27 => Some(FlagAction::Flag(IS_USABLE)),
        0x28 => Some(FlagAction::SkipU8),
        0x29 => Some(FlagAction::SkipU16),
        0x2A => Some(FlagAction::SkipU16),
        0x2B => Some(FlagAction::SkipU16),
        0x64 => Some(FlagAction::SkipU8),
        0x66 => Some(FlagAction::SkipU16),
        0xFE => Some(FlagAction::Flag(IS_USABLE)),
        _ => Some(FlagAction::Nothing),
    }
}

fn flag_action_v5(flag: u8) -> (r: Option<FlagAction>)
    ensures
        r == flag_table_v5(flag),
{
    match flag {
        0x00 => Some(FlagAction::FlagValue(IS_GROUND, GROUND_SPEED)),
        0x01 => Some(FlagAction::Flag(IS_GROUND_BORDER)),
        0x02 => Some(FlagAction::Flag(IS_ON_BOTTOM)),
        0x03 => Some(FlagAction::Flag(IS_ON_TOP)),
        0x04 => Some(FlagAction::Flag(IS_CONTAINER)),
        0x05 => Some(FlagAction::Flag(IS_STACKABLE)),
        0x06 => Some(FlagAction::Flag(IS_FORCE_USE)),
        0x07 => Some(FlagAction::Flag(IS_MULTI_USE)),
        0x08 => Some(FlagAction::FlagValue(IS_WRITABLE, MAX_READ_WRITE_CHARS)),
        0x09 => Some(FlagAction::FlagValue(IS_WRITABLE_ONCE, MAX_READ_CHARS)),
        0x0A => Some(FlagAction::Flag(IS_FLUID_CONTAINER)),
        0x0B => Some(FlagAction::Flag(IS_FLUID)),
        0x0C => Some(FlagAction::Flag(IS_UNPASSABLE)),
        0x0D => Some(FlagAction::Flag(IS_UNMOVEABLE)),
        0x0E => Some(FlagAction::Flag(IS_BLOCK_MISSILE)),
        0x0F => Some(FlagAction::Flag(IS_BLOCK_PATHFIND)),
        0x10 => Some(FlagAction::Flag(IS_PICKUPABLE)),
        0x11 => Some(FlagAction::Flag(IS_HANGABLE)),
        0x12 => Some(FlagAction::Flag(IS_VERTICAL)),
        0x13 => Some(FlagAction::Flag(IS_HORIZONTAL)),
        0x14 => Some(FlagAction::Flag(IS_ROTATABLE)),
        0x15 => Some(FlagAction::Light),
        0x16 => Some(FlagAction::Flag(DONT_HIDE)),
        0x17 => Some(FlagAction::Flag(IS_TRANSLUCENT)),
        0x18 => Some(FlagAction::Offset),
        0x19 => Some(FlagAction::FlagValue(HAS_ELEVATION, ELEVATION)),
        0x1A => Some(FlagAction::Flag(IS_LYING_OBJECT)),
        0x1B => Some(FlagAction::Flag(IS_ANIMATE_ALWAYS)),
        0x1C => Some(FlagAction::FlagValue(IS_MINI_MAP, MINI_MAP_COLOR)),
        0x1D => Some(FlagAction::FlagValue(IS_LENS_HELP, LENS_HELP)),
        0x1E => Some(FlagAction::Flag(IS_FULL_GROUND)),
        0x1F => Some(FlagAction::Flag(IS_IGNORE_LOOK)),
        0x20 => Some(FlagAction::FlagValue(IS_CLOTH, CLOTH_SLOT)),
        0x21 => Some(FlagAction::Market),
        0x27 => Some(FlagAction::Flag(IS_USABLE)),
        0x28 => Some(FlagAction::SkipU8),
        0x29 => Some(FlagAction::SkipU16),
        0x2A => Some(FlagAction::SkipU16),
        0x2B => Some(FlagAction::SkipU16),
        0x64 => Some(FlagAction::SkipU8),
        0x66 => Some(FlagAction::SkipU16),
        0xFE => Some(FlagAction::Flag(IS_USABLE)),
        _ => Some(FlagAction::Nothing),
    }
}

/// The flag table of metadata structure 6 (flags it does not list are ignored).
pub open spec fn flag_table_v6(flag: u8) -> Option<FlagAction> {
    match flag {
        0x00 => Some(FlagAction::FlagValue(IS_GROUND, GROUND_SPEED)),
        0x01 => Some(FlagAction::Flag(IS_GROUND_BORDER)),
        0x02 => Some(FlagAction::Flag(IS_ON_BOTTOM)),
        0x03 => Some(FlagAction::Flag(IS_ON_TOP)),
        0x04 => Some(FlagAction::Flag(IS_CONTAINER)),
        0x05 => Some(FlagAction::Flag(IS_STACKABLE)),
        0x06 => Some(FlagAction::Flag(IS_FORCE_USE)),
        0x07 => Some(FlagAction::Flag(IS_MULTI_USE)),
        0x08 => Some(FlagAction::FlagValue(IS_WRITABLE, MAX_READ_WRITE_CHARS)),
        0x09 => Some(FlagAction::FlagValue(IS_WRITABLE_ONCE, MAX_READ_CHARS)),
        0x0A => Some(FlagAction::Flag(IS_FLUID_CONTAINER)),
        0x0B => Some(FlagAction::Flag(IS_FLUID)),
        0x0C => Some(FlagAction::Flag(IS_UNPASSABLE)),
        0x0D => Some(FlagAction::Flag(IS_UNMOVEABLE)),
        0x0E => Some(FlagAction::Flag(IS_BLOCK_MISSILE)),
        0x0F => Some(FlagAction::Flag(IS_BLOCK_PATHFIND)),
        0x10 => Some(FlagAction::Flag(IS_NO_MOVE_ANIMATION)),
        0x11 => Some(FlagAction::Flag(IS_PICKUPABLE)),
        0x12 => Some(FlagAction::Flag(IS_HANGABLE)),
        0x13 => Some(FlagAction::Flag(IS_VERTICAL)),
        0x14 => Some(FlagAction::Flag(IS_HORIZONTAL)),
        0x15 => Some(FlagAction::Flag(IS_ROTATABLE)),
        0x16 => Some(FlagAction::Light),
        0x17 => Some(FlagAction::Flag(DONT_HIDE)),
        0x18 => Some(FlagAction::Flag(IS_TRANSLUCENT)),
        0x19 => Some(FlagAction::Offset),
        0x1A => Some(FlagAction::FlagValue(HAS_ELEVATION, ELEVATION)),
        0x1B => Some(FlagAction::Flag(IS_LYING_OBJECT)),
        0x1C => Some(FlagAction::Flag(IS_ANIMATE_ALWAYS)),
        0x1D => Some(FlagAction::FlagValue(IS_MINI_MAP, MINI_MAP_COLOR)),
        0x1E => Some(FlagAction::FlagValue(IS_LENS_HELP, LENS_HELP)),
        0x1F => Some(FlagAction::Flag(IS_FULL_GROUND)),
        0x20 => Some(FlagAction::Flag(IS_IGNORE_LOOK)),
        0x21 => Some(FlagAction::FlagValue(IS_CLOTH, CLOTH_SLOT)),
        0x22 => Some(FlagAction::Market),
        0x23 => Some(FlagAction::FlagValue(HAS_DEFAULT_ACTION, DEFAULT_ACTION)),
        0x24 => Some(FlagAction::Flag(IS_WRAPPABLE)),
        0x25 => Some(FlagAction::Flag(IS_UNWRAPPABLE)),
        0x26 => Some(FlagAction::Flag(IS_TOP_EFFECT)),
        0x27 => Some(FlagAction::Flag(IS_USABLE)),
        0x28 => Some(FlagAction::SkipU8),
        0x29 => Some(FlagAction::SkipU16),
        0x2A => Some(FlagAction::SkipU16),
        0x2B => Some(FlagAction::SkipU16),
        0x64 => Some(FlagAction::SkipU8),
        0x66 => Some(FlagAction::SkipU16),
        0xFE => Some(FlagAction::Flag(IS_USABLE)),
        _ => Some(FlagAction::Nothing),
    }
}

fn flag_action_v6(flag: u8) -> (r: Option<FlagAction>)
    ensures
        r == flag_table_v6(flag),
{
    match flag {
        0x00 => Some(FlagAction::FlagValue(IS_GROUND, GROUND_SPEED)),
        0x01 => Some(FlagAction::Flag(IS_GROUND_BORDER)),
        0x02 => Some(FlagAction::Flag(IS_ON_BOTTOM)),
        0x03 => Some(FlagAction::Flag(IS_ON_TOP)),
        0x04 => Some(FlagAction::Flag(IS_CONTAINER)),
        0x05 => Some(FlagAction::Flag(IS_STACKABLE)),
        0x06 => Some(FlagAction::Flag(IS_FORCE_USE)),
        0x07 => Some(FlagAction::Flag(IS_MULTI_USE)),
        0x08 => Some(FlagAction::FlagValue(IS_WRITABLE, MAX_READ_WRITE_CHARS)),
        0x09 => Some(FlagAction::FlagValue(IS_WRITABLE_ONCE, MAX_READ_CHARS)),
        0x0A => Some(FlagAction::Flag(IS_FLUID_CONTAINER)),
        0x0B => Some(FlagAction::Flag(IS_FLUID)),
        0x0C => Some(FlagAction::Flag(IS_UNPASSABLE)),
        0x0D => Some(FlagAction::Flag(IS_UNMOVEABLE)),
        0x0E => Some(FlagAction::Flag(IS_BLOCK_MISSILE)),
        0x0F => Some(FlagAction::Flag(IS_BLOCK_PATHFIND)),
        0x10 => Some(FlagAction::Flag(IS_NO_MOVE_ANIMATION)),
        0x11 => Some(FlagAction::Flag(IS_PICKUPABLE)),
        0x12 => Some(FlagAction::Flag(IS_HANGABLE)),
        0x13 => Some(FlagAction::Flag(IS_VERTICAL)),
        0x14 => Some(FlagAction::Flag(IS_HORIZONTAL)),
        0x15 => Some(FlagAction::Flag(IS_ROTATABLE)),
        0x16 => Some(FlagAction::Light),
        0x17 => Some(FlagAction::Flag(DONT_HIDE)),
        0x18 => Some(FlagAction::Flag(IS_TRANSLUCENT)),
        0x19 => Some(FlagAction::Offset),
        0x1A => Some(FlagAction::FlagValue(HAS_ELEVATION, ELEVATION)),
        0x1B => Some(FlagAction::Flag(IS_LYING_OBJECT)),
        0x1C => Some(FlagAction::Flag(IS_ANIMATE_ALWAYS)),
        0x1D => Some(FlagAction::FlagValue(IS_MINI_MAP, MINI_MAP_COLOR)),
        0x1E => Some(FlagAction::FlagValue(IS_LENS_HELP, LENS_HELP)),
        0x1F => Some(FlagAction::Flag(IS_FULL_GROUND)),
        0x20 => Some(FlagAction::Flag(IS_IGNORE_LOOK)),
        0x21 => Some(FlagAction::FlagValue(IS_CLOTH, CLOTH_SLOT)),
        0x22 => Some(FlagAction::Market),
        0x23 => Some(FlagAction::FlagValue(HAS_DEFAULT_ACTION, DEFAULT_ACTION)),
        0x24 => Some(FlagAction::Flag(IS_WRAPPABLE)),
        0x25 => Some(FlagAction::Flag(IS_UNWRAPPABLE)),
        0x26 => Some(FlagAction::Flag(IS_TOP_EFFECT)),
        0x27 => Some(FlagAction::Flag(IS_USABLE)),
        0x28 => Some(FlagAction::SkipU8),
        0x29 => Some(FlagAction::SkipU16),
        0x2A => Some(FlagAction::SkipU16),
        0x2B => Some(FlagAction::SkipU16),
        0x64 => Some(FlagAction::SkipU8),
        0x66 => Some(FlagAction::SkipU16),
        0xFE => Some(FlagAction::Flag(IS_USABLE)),
        _ => Some(FlagAction::Nothing),
    }
}

/// The flag table that metadata structure `structure` uses (6 for any
/// structure past 5).
pub open spec fn flag_table(structure: u8, flag: u8) -> Option<FlagAction> {
    if structure == 1 {
        flag_table_v1(flag)
    } else if structure == 2 {
        flag_table_v2(flag)
    } else if structure == 3 {
        flag_table_v3(flag)
    } else if structure == 4 {
        flag_table_v4(flag)
    } else if structure == 5 {
        flag_table_v5(flag)
    } else {
        flag_table_v6(flag)
    }
}

fn flag_action(structure: u8, flag: u8) -> (r: Option<FlagAction>)
    ensures
        r == flag_table(structure, flag),
        r matches Some(a) ==> action_ok(a),
{
    if structure == 1 {
        flag_action_v1(flag)
    } else if structure == 2 {
        flag_action_v2(flag)
    } else if structure == 3 {
        flag_action_v3(flag)
    } else if structure == 4 {
        flag_action_v4(flag)
    } else if structure == 5 {
        flag_action_v5(flag)
    } else {
        flag_action_v6(flag)
    }
}

/// The most property flags a thing may list.
pub const MAX_ATTRIBUTES: usize = 128;

/// The properties that the flag list at `p` sets, starting from `t` with `n`
/// flags already read: flags are read until `0xFF`; a 129th flag, an unknown
/// flag or a short payload is an error.
pub open spec fn spec_props(d: Seq<u8>, p: int, t: PropsView, structure: u8, id: u32, n: nat) -> Result<(PropsView, int), DatError>
    decreases MAX_ATTRIBUTES - n,
{
    if n >= MAX_ATTRIBUTES {
        Err(DatError::TooManyAttributes { id })
    } else {
        match u8_at(d, p) {
            None => Err(DatError::UnexpectedEof),
            Some(flag) => if flag == 0xFF {
                Ok((t, p + 1))
            } else {
                match flag_table(structure, flag) {
                    None => Err(DatError::UnknownFlag { flag, structure }),
                    Some(a) => match spec_apply(t, a, d, p + 1) {
                        Err(e) => Err(e),
                        Ok((t2, q)) => spec_props(d, q, t2, structure, id, n + 1),
                    },
                }
            },
        }
    }
}

/// Read the property flags of thing `id` at the cursor.
fn read_properties(d: &[u8], pos: &mut usize, structure: u8, id: u32) -> (r: Result<ThingProps, DatError>)
    requires
        *old(pos) <= d@.len(),
    ensures
        *final(pos) <= d@.len(),
        props_result(r, *final(pos) as int, spec_props(d@, *old(pos) as int, fresh_props(), structure, id, 0)),
{
    let ghost p0 = *pos as int;
    let mut t = ThingProps::new();
    let mut n: usize = 0;
    loop
        invariant
            *pos <= d@.len(),
            p0 == *old(pos) as int,
            n <= MAX_ATTRIBUTES,
            props_wf(t@),
            spec_props(d@, p0, fresh_props(), structure, id, 0) == spec_props(d@, *pos as int, t@, structure, id, n as nat),
        decreases MAX_ATTRIBUTES - n,
    {
        if n >= MAX_ATTRIBUTES {
            return Err(DatError::TooManyAttributes { id });
        }
        let flag = read_u8(d, pos)?;
        if flag == 0xFF {
            return Ok(t);
        }
        let a = match flag_action(structure, flag) {
            Some(a) => a,
            None => {
                return Err(DatError::UnknownFlag { flag, structure });
            },
        };
        t = apply_flag_action(d, pos, t, a)?;
        n = n + 1;
    }
}

/// How a `.dat` is laid out: its metadata structure (1 to 6), whether sprite
/// ids are 32-bit, whether outfits have frame groups, and whether animated
/// items carry their own animation data.
#[derive(Clone, Copy, PartialEq, Eq, Structural, Debug)]
pub struct DatFormat {
    pub structure: u8,
    pub is_extended: bool,
    pub has_frame_groups: bool,
    pub has_improved_animations: bool,
}

/// The fixed part of a frame group: its type, size and pattern counts.
#[derive(Clone, Copy, PartialEq, Eq, Structural, Debug)]
pub struct GroupHeader {
    pub group_type: u8,
    pub width: u8,
    pub height: u8,
    pub exact_size: u8,
    pub layers: u8,
    pub pattern_x: u8,
    pub pattern_y: u8,
    pub pattern_z: u8,
    pub frames: u8,
}

/// A byte read at `p` when `read` holds, else `default` with nothing read.
pub open spec fn byte_or(d: Seq<u8>, p: int, read: bool, default: u8) -> Option<(u8, int)> {
    if read {
        match u8_at(d, p) {
            Some(b) => Some((b, p + 1)),
            None => None,
        }
    } else {
        Some((default, p))
    }
}

/// The header of a frame group at `p`: the group type (read only for outfits
/// with frame groups, else the group's index), width and height, the exact
/// size (read only when width or height exceeds 1, else 32), layers, the x
/// and y pattern counts, the z pattern count (read from structure 3 on, else
/// 1) and the frame count.
pub open spec fn spec_group_header(d: Seq<u8>, p: int, idx: u8, typed: bool, structure: u8) -> Option<(GroupHeader, int)> {
    match byte_or(d, p, typed, idx) {
        None => None,
        Some((group_type, p1)) => match (u8_at(d, p1), u8_at(d, p1 + 1)) {
            (Some(width), Some(height)) => match byte_or(d, p1 + 2, width > 1 || height > 1, 32) {
                None => None,
                Some((exact_size, p2)) => match (u8_at(d, p2), u8_at(d, p2 + 1), u8_at(d, p2 + 2)) {
                    (Some(layers), Some(pattern_x), Some(pattern_y)) => match byte_or(d, p2 + 3, structure >= 3, 1) {
                        None => None,
                        Some((pattern_z, p3)) => match u8_at(d, p3) {
                            None => None,
                            Some(frames) => Some((
                                GroupHeader {
                                    group_type,
                                    width,
                                    height,
                                    exact_size,
                                    layers,
                                    pattern_x,
                                    pattern_y,
                                    pattern_z,
                                    frames,
                                },
                                p3 + 1,
                            )),
                        },
                    },
                    _ => None,
                },
            },
            _ => None,
        },
    }
}

/// How many sprites a frame group holds.
pub open spec fn sprite_total(h: GroupHeader) -> int {
    h.width * h.height * h.layers * h.pattern_x * h.pattern_y * h.pattern_z * h.frames
}

fn read_byte_or(d: &[u8], pos: &mut usize, read: bool, default: u8) -> (r: Result<u8, DatError>)
    requires
        *old(pos) <= d@.len(),
    ensures
        *final(pos) <= d@.len(),
        match byte_or(d@, *old(pos) as int, read, default) {
            Some((b, q)) => r == Ok::<u8, DatError>(b) && *final(pos) == q,
            None => r == Err::<u8, DatError>(DatError::UnexpectedEof),
        },
{
    if read {
        read_u8(d, pos)
    } else {
        Ok(default)
    }
}

fn read_group_header(d: &[u8], pos: &mut usize, idx: u8, typed: bool, structure: u8) -> (r: Result<GroupHeader, DatError>)
    requires
        *old(pos) <= d@.len(),
    ensures
        *final(pos) <= d@.len(),
        match spec_group_header(d@, *old(pos) as int, idx, typed, structure) {
            Some((h, q)) => r == Ok::<GroupHeader, DatError>(h) && *final(pos) == q,
            None => r == Err::<GroupHeader, DatError>(DatError::UnexpectedEof),
        },
{
    let group_type = read_byte_or(d, pos, typed, idx)?;
    let width = read_u8(d, pos)?;
    let height = read_u8(d, pos)?;
    let exact_size = read_byte_or(d, pos, width > 1 || height > 1, 32)?;
    let layers = read_u8(d, pos)?;
    let pattern_x = read_u8(d, pos)?;
    let pattern_y = read_u8(d, pos)?;
    let pattern_z = read_byte_or(d, pos, structure >= 3, 1)?;
    let frames = read_u8(d, pos)?;
    Ok(GroupHeader { group_type, width, height, exact_size, layers, pattern_x, pattern_y, pattern_z, frames })
}

proof fn lemma_mul_bound(x: int, bx: int, y: int, by_: int)
    requires
        0 <= x <= bx,
        0 <= y <= by_,
    ensures
        0 <= x * y <= bx * by_,
{
    assert(0 <= x * y <= bx * by_) by (nonlinear_arith)
        requires
            0 <= x <= bx,
            0 <= y <= by_,
    ;
}

fn sprite_count(h: GroupHeader) -> (r: u64)
    ensures
        r == sprite_total(h),
{
    let w = h.width as u64;
    proof { lemma_mul_bound(w as int, 255int, h.height as int, 255int); }
    let a = w * (h.height as u64);
    proof { lemma_mul_bound(a as int, 65025int, h.layers as int, 255int); }
    let b = a * (h.layers as u64);
    proof { lemma_mul_bound(b as int, 16581375int, h.pattern_x as int, 255int); }
    let c = b * (h.pattern_x as u64);
    proof { lemma_mul_bound(c as int, 4228250625int, h.pattern_y as int, 255int); }
    let e = c * (h.pattern_y as u64);
    proof { lemma_mul_bound(e as int, 1078203909375int, h.pattern_z as int, 255int); }
    let f = e * (h.pattern_z as u64);
    proof { lemma_mul_bound(f as int, 274941996890625int, h.frames as int, 255int); }
    f * (h.frames as u64)
}

/// The animation data of a frame group.
pub struct AnimationView {
    pub is_animation: bool,
    pub animation_mode: u8,
    pub loop_count: i32,
    pub start_frame: i8,
    pub frame_durations: Seq<LegacyFrameDuration>,
}

/// The frame duration of animations that carry none: 100 ms for items and
/// outfits, 75 ms for effects and missiles.
pub open spec fn default_duration(c: LegacyCategory) -> u32 {
    match c {
        LegacyCategory::Item => 100,
        LegacyCategory::Outfit => 100,
        LegacyCategory::Effect => 75,
        LegacyCategory::Missile => 75,
    }
}

fn default_duration_of(c: LegacyCategory) -> (r: u32)
    ensures
        r == default_duration(c),
{
    match c {
        LegacyCategory::Item => 100,
        LegacyCategory::Outfit => 100,
        LegacyCategory::Effect => 75,
        LegacyCategory::Missile => 75,
    }
}

/// The little-endian `u32` at `p`, for `p + 4 <= d.len()`.
pub open spec fn le32(d: Seq<u8>, p: int) -> u32 {
    (d[p] + 256 * d[p + 1] + 65536 * d[p + 2] + 16777216 * d[p + 3]) as u32
}

/// The little-endian `u16` at `p`, for `p + 2 <= d.len()`.
pub open spec fn le16(d: Seq<u8>, p: int) -> u16 {
    (d[p] + 256 * d[p + 1]) as u16
}

/// The duration pair of frame `i` when the durations start at `p`.
pub open spec fn duration_at(d: Seq<u8>, p: int, i: int) -> LegacyFrameDuration {
    LegacyFrameDuration { min: le32(d, p + 8 * i), max: le32(d, p + 8 * i + 4) }
}

/// The animation data at `p` of a group with `frames` frames. A single frame
/// is no animation and reads nothing. Otherwise, when `own` holds, the mode
/// (`u8`), loop count (`i32`), start frame (`i8`) and a min/max pair of
/// `u32` per frame are read; else every frame lasts `dd` and nothing is read.
pub open spec fn spec_animation(d: Seq<u8>, p: int, frames: u8, own: bool, dd: u32) -> Option<(AnimationView, int)> {
    if frames <= 1 {
        Some((AnimationView { is_animation: false, animation_mode: 0, loop_count: 0, start_frame: 0, frame_durations: Seq::empty() }, p))
    } else if own {
        if p + 6 + 8 * frames <= d.len() {
            Some((
                AnimationView {
                    is_animation: true,
                    animation_mode: d[p],
                    loop_count: le32(d, p + 1) as i32,
                    start_frame: d[p + 5] as i8,
                    frame_durations: Seq::new(frames as nat, |i: int| duration_at(d, p + 6, i)),
                },
                p + 6 + 8 * frames,
            ))
        } else {
            None
        }
    } else {
        Some((
            AnimationView {
                is_animation: true,
                animation_mode: 0,
                loop_count: 0,
                start_frame: 0,
                frame_durations: Seq::new(frames as nat, |i: int| LegacyFrameDuration { min: dd, max: dd }),
            },
            p,
        ))
    }
}

fn read_durations(d: &[u8], pos: &mut usize, frames: u8) -> (r: Result<Vec<LegacyFrameDuration>, DatError>)
    requires
        *old(pos) <= d@.len(),
    ensures
        *final(pos) <= d@.len(),
        *old(pos) + 8 * frames <= d@.len() ==> (r matches Ok(v) && v@ == Seq::new(
            frames as nat,
            |i: int| duration_at(d@, *old(pos) as int, i),
        ) && *final(pos) == *old(pos) + 8 * frames),
        *old(pos) + 8 * frames > d@.len() ==> r == Err::<Vec<LegacyFrameDuration>, DatError>(DatError::UnexpectedEof),
{
    let ghost p0 = *pos as int;
    let mut v: Vec<LegacyFrameDuration> = Vec::new();
    let mut i: u8 = 0;
    while i < frames
        invariant
            i <= frames,
            p0 == *old(pos) as int,
            *pos == p0 + 8 * i,
            *pos <= d@.len(),
            v@ == Seq::new(i as nat, |j: int| duration_at(d@, p0, j)),
        decreases frames - i,
    {
        let min = read_u32(d, pos)?;
        let max = read_u32(d, pos)?;
        v.push(LegacyFrameDuration { min, max });
        proof {
            assert(v@ =~= Seq::new((i + 1) as nat, |j: int| duration_at(d@, p0, j)));
        }
        i = i + 1;
    }
    Ok(v)
}

fn repeat_duration(frames: u8, dd: u32) -> (r: Vec<LegacyFrameDuration>)
    ensures
        r@ == Seq::new(frames as nat, |i: int| LegacyFrameDuration { min: dd, max: dd }),
{
    let mut v: Vec<LegacyFrameDuration> = Vec::new();
    let mut i: u8 = 0;
    while i < frames
        invariant
            i <= frames,
            v@ == Seq::new(i as nat, |j: int| LegacyFrameDuration { min: dd, max: dd }),
        decreases frames - i,
    {
        v.push(LegacyFrameDuration { min: dd, max: dd });
        proof {
            assert(v@ =~= Seq::new((i + 1) as nat, |j: int| LegacyFrameDuration { min: dd, max: dd }));
        }
        i = i + 1;
    }
    v
}

/// The animation data of a group, as `spec_animation` describes it.
fn read_animation(d: &[u8], pos: &mut usize, frames: u8, own: bool, dd: u32) -> (r: Result<(bool, u8, i32, i8, Vec<LegacyFrameDuration>), DatError>)
    requires
        *old(pos) <= d@.len(),
    ensures
        *final(pos) <= d@.len(),
        match spec_animation(d@, *old(pos) as int, frames, own, dd) {
            Some((a, q)) => r matches Ok((ia, m, l, s, durs)) && ia == a.is_animation && m == a.animation_mode
                && l == a.loop_count && s == a.start_frame && durs@ == a.frame_durations && *final(pos) == q,
            None => r == Err::<(bool, u8, i32, i8, Vec<LegacyFrameDuration>), DatError>(DatError::UnexpectedEof),
        },
{
    if frames <= 1 {
        return Ok((false, 0, 0, 0, Vec::new()));
    }
    if own {
        let ghost p0 = *pos as int;
        let mode = read_u8(d, pos)?;
        let loop_count = read_i32(d, pos)?;
        let start = read_u8(d, pos)?;
        let durs = read_durations(d, pos, frames)?;
        proof {
            assert(p0 + 6 + 8 * frames <= d@.len());
        }
        Ok((true, mode, loop_count, start as i8, durs))
    } else {
        Ok((true, 0, 0, 0, repeat_duration(frames, dd)))
    }
}

/// The width in bytes of one sprite id.
pub open spec fn id_width(extended: bool) -> int {
    if extended { 4 } else { 2 }
}

/// Sprite id `i` when the ids start at `p`.
pub open spec fn sprite_id_at(d: Seq<u8>, p: int, i: int, extended: bool) -> u32 {
    if extended { le32(d, p + 4 * i) } else { le16(d, p + 2 * i) as u32 }
}

/// The `n` sprite ids at `p` (`u32` each when extended, else `u16`).
pub open spec fn spec_sprite_ids(d: Seq<u8>, p: int, n: int, extended: bool) -> Option<(Seq<u32>, int)> {
    if p + id_width(extended) * n <= d.len() {
        Some((Seq::new(n as nat, |i: int| sprite_id_at(d, p, i, extended)), p + id_width(extended) * n))
    } else {
        None
    }
}

fn read_sprite_ids(d: &[u8], pos: &mut usize, n: u64, extended: bool) -> (r: Result<Vec<u32>, DatError>)
    requires
        *old(pos) <= d@.len(),
        n <= 4096,
    ensures
        *final(pos) <= d@.len(),
        match spec_sprite_ids(d@, *old(pos) as int, n as int, extended) {
            Some((ids, q)) => r matches Ok(v) && v@ == ids && *final(pos) == q,
            None => r == Err::<Vec<u32>, DatError>(DatError::UnexpectedEof),
        },
{
    let ghost p0 = *pos as int;
    let ghost w = id_width(extended);
    let mut v: Vec<u32> = Vec::new();
    let mut i: u64 = 0;
    while i < n
        invariant
            i <= n <= 4096,
            p0 == *old(pos) as int,
            w == id_width(extended),
            *pos == p0 + w * i,
            *pos <= d@.len(),
            v@ == Seq::new(i as nat, |j: int| sprite_id_at(d@, p0, j, extended)),
        decreases n - i,
    {
        let sid = if extended {
            read_u32(d, pos)?
        } else {
            let x = read_u16(d, pos)?;
            x as u32
        };
        v.push(sid);
        proof {
            assert(v@ =~= Seq::new((i + 1) as nat, |j: int| sprite_id_at(d@, p0, j, extended)));
        }
        i = i + 1;
    }
    Ok(v)
}

/// The frame group at `p`: its header, a sprite count between 1 and 4096,
/// its animation data and its sprite ids.
pub open spec fn spec_group(d: Seq<u8>, p: int, idx: u8, cat: LegacyCategory, id: u32, f: DatFormat) -> Result<(FrameGroupView, int), DatError> {
    let typed = f.has_frame_groups && cat == LegacyCategory::Outfit;
    match spec_group_header(d, p, idx, typed, f.structure) {
        None => Err(DatError::UnexpectedEof),
        Some((h, p1)) => {
            let total = sprite_total(h);
            if total == 0 || total > 4096 {
                Err(DatError::InvalidSpriteCount { id })
            } else {
                let own = f.has_improved_animations && cat == LegacyCategory::Item;
                match spec_animation(d, p1, h.frames, own, default_duration(cat)) {
                    None => Err(DatError::UnexpectedEof),
                    Some((a, p2)) => match spec_sprite_ids(d, p2, total, f.is_extended) {
                        None => Err(DatError::UnexpectedEof),
                        Some((ids, p3)) => Ok((
                            FrameGroupView {
                                group_type: h.group_type,
                                width: h.width,
                                height: h.height,
                                exact_size: h.exact_size,
                                layers: h.layers,
                                pattern_x: h.pattern_x,
                                pattern_y: h.pattern_y,
                                pattern_z: h.pattern_z,
                                frames: h.frames,
                                is_animation: a.is_animation,
                                animation_mode: a.animation_mode,
                                loop_count: a.loop_count,
                                start_frame: a.start_frame,
                                frame_durations: a.frame_durations,
                                sprite_ids: ids,
                            },
                            p3,
                        )),
                    },
                }
            }
        },
    }
}

fn read_group(d: &[u8], pos: &mut usize, idx: u8, cat: LegacyCategory, id: u32, f: DatFormat) -> (r: Result<LegacyFrameGroup, DatError>)
    requires
        *old(pos) <= d@.len(),
    ensures
        *final(pos) <= d@.len(),
        match spec_group(d@, *old(pos) as int, idx, cat, id, f) {
            Ok((g, q)) => r matches Ok(x) && x@ == g && *final(pos) == q,
            Err(e) => r == Err::<LegacyFrameGroup, DatError>(e),
        },
{
    let typed = f.has_frame_groups && cat == LegacyCategory::Outfit;
    let h = read_group_header(d, pos, idx, typed, f.structure)?;
    let total = sprite_count(h);
    if total == 0 || total > 4096 {
        return Err(DatError::InvalidSpriteCount { id });
    }
    let own = f.has_improved_animations && cat == LegacyCategory::Item;
    let (is_animation, animation_mode, loop_count, start_frame, frame_durations) = read_animation(
        d,
        pos,
        h.frames,
        own,
        default_duration_of(cat),
    )?;
    let sprite_ids = read_sprite_ids(d, pos, total, f.is_extended)?;
    Ok(LegacyFrameGroup {
        group_type: h.group_type,
        width: h.width,
        height: h.height,
        exact_size: h.exact_size,
        layers: h.layers,
        pattern_x: h.pattern_x,
        pattern_y: h.pattern_y,
        pattern_z: h.pattern_z,
        frames: h.frames,
        is_animation,
        animation_mode,
        loop_count,
        start_frame,
        frame_durations,
        sprite_ids,
    })
}

/// The frame groups `k` to `count - 1` read at `p` after `acc`.
pub open spec fn spec_groups(d: Seq<u8>, p: int, k: nat, count: u8, cat: LegacyCategory, id: u32, f: DatFormat, acc: Seq<FrameGroupView>) -> Result<(Seq<FrameGroupView>, int), DatError>
    decreases count - k,
{
    if k >= count {
        Ok((acc, p))
    } else {
        match spec_group(d, p, k as u8, cat, id, f) {
            Err(e) => Err(e),
            Ok((g, q)) => spec_groups(d, q, k + 1, count, cat, id, f, acc.push(g)),
        }
    }
}

/// The frame groups of a thing at `p`. Outfits of a format with frame groups
/// first give their group count (0 counts as 1, more than 4 is an error);
/// every other thing has one group.
pub open spec fn spec_patterns(d: Seq<u8>, p: int, cat: LegacyCategory, id: u32, f: DatFormat) -> Result<(Seq<FrameGroupView>, int), DatError> {
    if f.has_frame_groups && cat == LegacyCategory::Outfit {
        match u8_at(d, p) {
            None => Err(DatError::UnexpectedEof),
            Some(c) => {
                let count: u8 = if c == 0 { 1 } else { c };
                if count > 4 {
                    Err(DatError::InvalidGroupCount { id, count })
                } else {
                    spec_groups(d, p + 1, 0, count, cat, id, f, Seq::empty())
                }
            },
        }
    } else {
        spec_groups(d, p, 0, 1, cat, id, f, Seq::empty())
    }
}

/// The views of a list of frame groups.
pub open spec fn group_views(gs: Seq<LegacyFrameGroup>) -> Seq<FrameGroupView> {
    gs.map_values(|g: LegacyFrameGroup| g@)
}

fn read_texture_patterns(d: &[u8], pos: &mut usize, cat: LegacyCategory, id: u32, f: DatFormat) -> (r: Result<Vec<LegacyFrameGroup>, DatError>)
    requires
        *old(pos) <= d@.len(),
    ensures
        *final(pos) <= d@.len(),
        match spec_patterns(d@, *old(pos) as int, cat, id, f) {
            Ok((gs, q)) => r matches Ok(v) && group_views(v@) == gs && *final(pos) == q,
            Err(e) => r == Err::<Vec<LegacyFrameGroup>, DatError>(e),
        },
{
    let typed = f.has_frame_groups && cat == LegacyCategory::Outfit;
    let count: u8 = if typed {
        let c = read_u8(d, pos)?;
        if c == 0 { 1 } else { c }
    } else {
        1
    };
    if count > 4 {
        return Err(DatError::InvalidGroupCount { id, count });
    }
    let ghost p1 = *pos as int;
    let mut groups: Vec<LegacyFrameGroup> = Vec::new();
    let mut k: u8 = 0;
    proof {
        assert(group_views(groups@) =~= Seq::<FrameGroupView>::empty());
    }
    while k < count
        invariant
            k <= count <= 4,
            *pos <= d@.len(),
            typed == (f.has_frame_groups && cat == LegacyCategory::Outfit),
            spec_patterns(d@, *old(pos) as int, cat, id, f) == spec_groups(d@, p1, 0, count, cat, id, f, Seq::empty()),
            spec_groups(d@, p1, 0, count, cat, id, f, Seq::empty()) == spec_groups(
                d@,
                *pos as int,
                k as nat,
                count,
                cat,
                id,
                f,
                group_views(groups@),
            ),
        decreases count - k,
    {
        let ghost before = group_views(groups@);
        let ghost q0 = *pos as int;
        let g = read_group(d, pos, k, cat, id, f)?;
        groups.push(g);
        proof {
            assert(group_views(groups@) =~= before.push(g@));
            assert(spec_groups(d@, q0, k as nat, count, cat, id, f, before) == spec_groups(
                d@,
                *pos as int,
                (k + 1) as nat,
                count,
                cat,
                id,
                f,
                before.push(g@),
            ));
        }
        k = k + 1;
    }
    Ok(groups)
}

/// The thing `id` of category `cat` at `p`: its property flags, then its
/// frame groups.
pub open spec fn spec_thing(d: Seq<u8>, p: int, id: u32, cat: LegacyCategory, f: DatFormat) -> Result<(ThingView, int), DatError> {
    match spec_props(d, p, fresh_props(), f.structure, id, 0) {
        Err(e) => Err(e),
        Ok((props, q)) => match spec_patterns(d, q, cat, id, f) {
            Err(e) => Err(e),
            Ok((groups, q2)) => Ok((ThingView { id, category: cat, props, groups }, q2)),
        },
    }
}

fn read_thing(d: &[u8], pos: &mut usize, id: u32, cat: LegacyCategory, f: DatFormat) -> (r: Result<LegacyThingType, DatError>)
    requires
        *old(pos) <= d@.len(),
    ensures
        *final(pos) <= d@.len(),
        match spec_thing(d@, *old(pos) as int, id, cat, f) {
            Ok((v, q)) => r matches Ok(t) && thing_matches(t, v) && *final(pos) == q,
            Err(e) => r == Err::<LegacyThingType, DatError>(e),
        },
{
    let props = read_properties(d, pos, f.structure, id)?;
    let groups = read_texture_patterns(d, pos, cat, id, f)?;
    Ok(LegacyThingType::assemble(id, cat, props, groups))
}

/// The things with ids `id` to `last` read at `p` after `acc`.
pub open spec fn spec_things(d: Seq<u8>, p: int, id: int, last: int, cat: LegacyCategory, f: DatFormat, acc: Seq<ThingView>) -> Result<(Seq<ThingView>, int), DatError>
    decreases last + 1 - id,
{
    if id > last {
        Ok((acc, p))
    } else {
        match spec_thing(d, p, id as u32, cat, f) {
            Err(e) => Err(e),
            Ok((t, q)) => spec_things(d, q, id + 1, last, cat, f, acc.push(t)),
        }
    }
}

/// Each thing of `ts` is the one that `vs` describes at the same place.
pub open spec fn things_match(ts: Seq<LegacyThingType>, vs: Seq<ThingView>) -> bool {
    &&& ts.len() == vs.len()
    &&& forall|i: int| 0 <= i < ts.len() ==> #[trigger] thing_matches(ts[i], vs[i])
}

fn read_things(d: &[u8], pos: &mut usize, first: u32, last: u32, cat: LegacyCategory, f: DatFormat) -> (r: Result<Vec<LegacyThingType>, DatError>)
    requires
        *old(pos) <= d@.len(),
        last < 0x10000,
    ensures
        *final(pos) <= d@.len(),
        match spec_things(d@, *old(pos) as int, first as int, last as int, cat, f, Seq::empty()) {
            Ok((vs, q)) => r matches Ok(ts) && things_match(ts@, vs) && *final(pos) == q,
            Err(e) => r == Err::<Vec<LegacyThingType>, DatError>(e),
        },
{
    let ghost p0 = *pos as int;
    let ghost mut views: Seq<ThingView> = Seq::empty();
    let mut things: Vec<LegacyThingType> = Vec::new();
    let mut id: u32 = first;
    while id <= last
        invariant
            *pos <= d@.len(),
            p0 == *old(pos) as int,
            last < 0x10000,
            first <= id || first > last,
            id <= last + 1 || id == first,
            things_match(things@, views),
            spec_things(d@, p0, first as int, last as int, cat, f, Seq::empty()) == spec_things(
                d@,
                *pos as int,
                id as int,
                last as int,
                cat,
                f,
                views,
            ),
        decreases last + 1 - id,
    {
        let ghost q0 = *pos as int;
        let t = read_thing(d, pos, id, cat, f)?;
        proof {
            let v = spec_thing(d@, q0, id, cat, f)->Ok_0.0;
            assert(spec_things(d@, q0, id as int, last as int, cat, f, views) == spec_things(
                d@,
                *pos as int,
                id + 1,
                last as int,
                cat,
                f,
                views.push(v),
            ));
            views = views.push(v);
        }
        things.push(t);
        proof {
            assert forall|i: int| 0 <= i < things@.len() implies #[trigger] thing_matches(things@[i], views[i]) by {
                if i < things@.len() - 1 {
                    assert(thing_matches(things@.drop_last()[i], views.drop_last()[i]));
                }
            }
        }
        id = id + 1;
    }
    Ok(things)
}

/// A parsed `.dat`: its header, the format it was read with, and its things.
pub struct LegacyDatReader {
    pub signature: u32,
    pub object_count: u32,
    pub outfit_count: u32,
    pub effect_count: u32,
    pub missile_count: u32,
    pub structure: u8,
    pub is_extended: bool,
    pub has_frame_groups: bool,
    pub has_improved_animations: bool,
    pub objects: Vec<LegacyThingType>,
    pub outfits: Vec<LegacyThingType>,
    pub effects: Vec<LegacyThingType>,
    pub missiles: Vec<LegacyThingType>,
}

/// What a `.dat` holds.
pub struct DatView {
    pub signature: u32,
    pub object_count: u32,
    pub outfit_count: u32,
    pub effect_count: u32,
    pub missile_count: u32,
    pub format: DatFormat,
    pub objects: Seq<ThingView>,
    pub outfits: Seq<ThingView>,
    pub effects: Seq<ThingView>,
    pub missiles: Seq<ThingView>,
}

/// The header of a `.dat`: the signature (`u32`), then the object, outfit,
/// effect and missile counts (`u16` each).
pub open spec fn spec_header(d: Seq<u8>) -> Option<(u32, u32, u32, u32, u32)> {
    match (u32_at(d, 0), u16_at(d, 4), u16_at(d, 6), u16_at(d, 8), u16_at(d, 10)) {
        (Some(s), Some(o), Some(u), Some(e), Some(m)) => Some((s, o as u32, u as u32, e as u32, m as u32)),
        _ => None,
    }
}

/// The `.dat` in `d` read with format `f`: the header, then the objects with
/// ids 100 to the object count, then the outfits, effects and missiles, each
/// with ids 1 to their count.
pub open spec fn spec_parse(d: Seq<u8>, f: DatFormat) -> Result<DatView, DatError> {
    match spec_header(d) {
        None => Err(DatError::UnexpectedEof),
        Some((s, oc, uc, ec, mc)) => match spec_things(d, 12, 100, oc as int, LegacyCategory::Item, f, Seq::empty()) {
            Err(e) => Err(e),
            Ok((objects, p1)) => match spec_things(d, p1, 1, uc as int, LegacyCategory::Outfit, f, Seq::empty()) {
                Err(e) => Err(e),
                Ok((outfits, p2)) => match spec_things(d, p2, 1, ec as int, LegacyCategory::Effect, f, Seq::empty()) {
                    Err(e) => Err(e),
                    Ok((effects, p3)) => match spec_things(d, p3, 1, mc as int, LegacyCategory::Missile, f, Seq::empty()) {
                        Err(e) => Err(e),
                        Ok((missiles, _)) => Ok(DatView {
                            signature: s,
                            object_count: oc,
                            outfit_count: uc,
                            effect_count: ec,
                            missile_count: mc,
                            format: f,
                            objects,
                            outfits,
                            effects,
                            missiles,
                        }),
                    },
                },
            },
        },
    }
}

/// `r` holds what `v` describes.
pub open spec fn reader_matches(r: LegacyDatReader, v: DatView) -> bool {
    &&& r.signature == v.signature
    &&& r.object_count == v.object_count
    &&& r.outfit_count == v.outfit_count
    &&& r.effect_count == v.effect_count
    &&& r.missile_count == v.missile_count
    &&& r.structure == v.format.structure
    &&& r.is_extended == v.format.is_extended
    &&& r.has_frame_groups == v.format.has_frame_groups
    &&& r.has_improved_animations == v.format.has_improved_animations
    &&& things_match(r.objects@, v.objects)
    &&& things_match(r.outfits@, v.outfits)
    &&& things_match(r.effects@, v.effects)
    &&& things_match(r.missiles@, v.missiles)
}

/// The five header fields of a `.dat`: signature and the four counts.
pub fn dat_header(d: &[u8]) -> (r: Result<(u32, u32, u32, u32, u32), DatError>)
    ensures
        match spec_header(d@) {
            Some(h) => r == Ok::<(u32, u32, u32, u32, u32), DatError>(h),
            None => r == Err::<(u32, u32, u32, u32, u32), DatError>(DatError::UnexpectedEof),
        },
{
    let mut pos: usize = 0;
    let signature = read_u32(d, &mut pos)?;
    let objects = read_u16(d, &mut pos)?;
    let outfits = read_u16(d, &mut pos)?;
    let effects = read_u16(d, &mut pos)?;
    let missiles = read_u16(d, &mut pos)?;
    Ok((signature, objects as u32, outfits as u32, effects as u32, missiles as u32))
}

impl LegacyDatReader {
    /// Read the whole `.dat` in `d` with format `f`.
    pub fn try_parse_bytes(d: &[u8], f: DatFormat) -> (r: Result<LegacyDatReader, DatError>)
        ensures
            match spec_parse(d@, f) {
                Ok(v) => r matches Ok(x) && reader_matches(x, v),
                Err(e) => r == Err::<LegacyDatReader, DatError>(e),
            },
    {
        let (signature, object_count, outfit_count, effect_count, missile_count) = dat_header(d)?;
        let mut pos: usize = 12;
        let objects = read_things(d, &mut pos, 100, object_count, LegacyCategory::Item, f)?;
        let outfits = read_things(d, &mut pos, 1, outfit_count, LegacyCategory::Outfit, f)?;
        let effects = read_things(d, &mut pos, 1, effect_count, LegacyCategory::Effect, f)?;
        let missiles = read_things(d, &mut pos, 1, missile_count, LegacyCategory::Missile, f)?;
        Ok(LegacyDatReader {
            signature,
            object_count,
            outfit_count,
            effect_count,
            missile_count,
            structure: f.structure,
            is_extended: f.is_extended,
            has_frame_groups: f.has_frame_groups,
            has_improved_animations: f.has_improved_animations,
            objects,
            outfits,
            effects,
            missiles,
        })
    }
}

/// The formats tried, in order, when reading a `.dat` that was asked for with
/// format `f`: `f`; `f` without improved animations; without frame groups
/// either; without frame groups but with improved animations; then the other
/// of structures 5 and 6 (5 when `f` has 6, else 6) without improved
/// animations, with and without frame groups.
pub open spec fn fallback_formats(f: DatFormat) -> Seq<DatFormat> {
    let alt: u8 = if f.structure == 6 { 5 } else { 6 };
    seq![
        f,
        DatFormat { has_improved_animations: false, ..f },
        DatFormat { has_frame_groups: false, has_improved_animations: false, ..f },
        DatFormat { has_frame_groups: false, has_improved_animations: true, ..f },
        DatFormat { structure: alt, has_improved_animations: false, ..f },
        DatFormat { structure: alt, has_frame_groups: false, has_improved_animations: false, ..f },
    ]
}

/// What the first format of `fs` from index `i` on that reads `d` makes of it.
pub open spec fn spec_first_parse(d: Seq<u8>, fs: Seq<DatFormat>, i: nat) -> Option<DatView>
    decreases fs.len() - i,
{
    if i >= fs.len() {
        None
    } else {
        match spec_parse(d, fs[i as int]) {
            Ok(v) => Some(v),
            Err(_) => spec_first_parse(d, fs, i + 1),
        }
    }
}

/// A `.dat` asked for with format `f`: fewer than 12 bytes is
/// `FileTooSmall`; else what the first of `fallback_formats(f)` that reads it
/// gives; when none does, the error of `f` itself.
pub open spec fn spec_open(d: Seq<u8>, f: DatFormat) -> Result<DatView, DatError> {
    if d.len() < 12 {
        Err(DatError::FileTooSmall)
    } else {
        match spec_first_parse(d, fallback_formats(f), 0) {
            Some(v) => Ok(v),
            None => Err(spec_parse(d, f)->Err_0),
        }
    }
}

impl LegacyDatReader {
    /// Read the `.dat` in `d`, asked for with format `f`, falling back on the
    /// other formats of `fallback_formats(f)`.
    pub fn from_bytes(d: &[u8], f: DatFormat) -> (r: Result<LegacyDatReader, DatError>)
        ensures
            match spec_open(d@, f) {
                Ok(v) => r matches Ok(x) && reader_matches(x, v),
                Err(e) => r == Err::<LegacyDatReader, DatError>(e),
            },
    {
        if d.len() < 12 {
            return Err(DatError::FileTooSmall);
        }
        let alt: u8 = if f.structure == 6 { 5 } else { 6 };
        let formats = vec![
            f,
            DatFormat { has_improved_animations: false, ..f },
            DatFormat { has_frame_groups: false, has_improved_animations: false, ..f },
            DatFormat { has_frame_groups: false, has_improved_animations: true, ..f },
            DatFormat { structure: alt, has_improved_animations: false, ..f },
            DatFormat { structure: alt, has_frame_groups: false, has_improved_animations: false, ..f },
        ];
        let ghost fs = fallback_formats(f);
        assert(formats@ =~= fs);
        let first_error = match Self::try_parse_bytes(d, f) {
            Ok(r) => {
                return Ok(r);
            },
            Err(e) => e,
        };
        let mut i: usize = 1;
        while i < formats.len()
            invariant
                formats@ == fs,
                fs == fallback_formats(f),
                1 <= i <= fs.len(),
                d@.len() >= 12,
                spec_parse(d@, f) == Err::<DatView, DatError>(first_error),
                spec_first_parse(d@, fs, 0) == spec_first_parse(d@, fs, i as nat),
            decreases fs.len() - i,
        {
            match Self::try_parse_bytes(d, formats[i]) {
                Ok(r) => {
                    return Ok(r);
                },
                Err(_) => {},
            }
            i = i + 1;
        }
        Err(first_error)
    }
}

/// The requested format comes first: when it reads a file of at least 12
/// bytes, that reading is the result.
pub proof fn lemma_requested_format_wins(d: Seq<u8>, f: DatFormat)
    requires
        d.len() >= 12,
        spec_parse(d, f) is Ok,
    ensures
        spec_open(d, f) == Ok::<DatView, DatError>(spec_parse(d, f)->Ok_0),
{
    assert(fallback_formats(f)[0] == f);
}

/// The properties of a thing with only the boolean property `k` set.
pub open spec fn with_flag(k: usize) -> PropsView {
    PropsView { flags: fresh_props().flags.update(k as int, true), ..fresh_props() }
}

/// In metadata structure 6, a flag list of one flag without payload sets
/// exactly the property that flag stands for: 0x0C unpassable, 0x0D
/// unmoveable, and so on through the structure's plain flags.
pub proof fn lemma_v6_single_flag(d: Seq<u8>, p: int, id: u32)
    requires
        0 <= p,
        p + 2 <= d.len(),
        d[p + 1] == 0xFFu8,
    ensures
        d[p] == 0x01u8 ==> spec_props(d, p, fresh_props(), 6, id, 0) == Ok::<(PropsView, int), DatError>((with_flag(IS_GROUND_BORDER), p + 2)),
        d[p] == 0x02u8 ==> spec_props(d, p, fresh_props(), 6, id, 0) == Ok::<(PropsView, int), DatError>((with_flag(IS_ON_BOTTOM), p + 2)),
        d[p] == 0x03u8 ==> spec_props(d, p, fresh_props(), 6, id, 0) == Ok::<(PropsView, int), DatError>((with_flag(IS_ON_TOP), p + 2)),
        d[p] == 0x04u8 ==> spec_props(d, p, fresh_props(), 6, id, 0) == Ok::<(PropsView, int), DatError>((with_flag(IS_CONTAINER), p + 2)),
        d[p] == 0x05u8 ==> spec_props(d, p, fresh_props(), 6, id, 0) == Ok::<(PropsView, int), DatError>((with_flag(IS_STACKABLE), p + 2)),
        d[p] == 0x06u8 ==> spec_props(d, p, fresh_props(), 6, id, 0) == Ok::<(PropsView, int), DatError>((with_flag(IS_FORCE_USE), p + 2)),
        d[p] == 0x07u8 ==> spec_props(d, p, fresh_props(), 6, id, 0) == Ok::<(PropsView, int), DatError>((with_flag(IS_MULTI_USE), p + 2)),
        d[p] == 0x0Au8 ==> spec_props(d, p, fresh_props(), 6, id, 0) == Ok::<(PropsView, int), DatError>((with_flag(IS_FLUID_CONTAINER), p + 2)),
        d[p] == 0x0Bu8 ==> spec_props(d, p, fresh_props(), 6, id, 0) == Ok::<(PropsView, int), DatError>((with_flag(IS_FLUID), p + 2)),
        d[p] == 0x0Cu8 ==> spec_props(d, p, fresh_props(), 6, id, 0) == Ok::<(PropsView, int), DatError>((with_flag(IS_UNPASSABLE), p + 2)),
        d[p] == 0x0Du8 ==> spec_props(d, p, fresh_props(), 6, id, 0) == Ok::<(PropsView, int), DatError>((with_flag(IS_UNMOVEABLE), p + 2)),
        d[p] == 0x0Eu8 ==> spec_props(d, p, fresh_props(), 6, id, 0) == Ok::<(PropsView, int), DatError>((with_flag(IS_BLOCK_MISSILE), p + 2)),
        d[p] == 0x0Fu8 ==> spec_props(d, p, fresh_props(), 6, id, 0) == Ok::<(PropsView, int), DatError>((with_flag(IS_BLOCK_PATHFIND), p + 2)),
        d[p] == 0x10u8 ==> spec_props(d, p, fresh_props(), 6, id, 0) == Ok::<(PropsView, int), DatError>((with_flag(IS_NO_MOVE_ANIMATION), p + 2)),
        d[p] == 0x11u8 ==> spec_props(d, p, fresh_props(), 6, id, 0) == Ok::<(PropsView, int), DatError>((with_flag(IS_PICKUPABLE), p + 2)),
        d[p] == 0x12u8 ==> spec_props(d, p, fresh_props(), 6, id, 0) == Ok::<(PropsView, int), DatError>((with_flag(IS_HANGABLE), p + 2)),
        d[p] == 0x13u8 ==> spec_props(d, p, fresh_props(), 6, id, 0) == Ok::<(PropsView, int), DatError>((with_flag(IS_VERTICAL), p + 2)),
        d[p] == 0x14u8 ==> spec_props(d, p, fresh_props(), 6, id, 0) == Ok::<(PropsView, int), DatError>((with_flag(IS_HORIZONTAL), p + 2)),
        d[p] == 0x15u8 ==> spec_props(d, p, fresh_props(), 6, id, 0) == Ok::<(PropsView, int), DatError>((with_flag(IS_ROTATABLE), p + 2)),
        d[p] == 0x17u8 ==> spec_props(d, p, fresh_props(), 6, id, 0) == Ok::<(PropsView, int), DatError>((with_flag(DONT_HIDE), p + 2)),
        d[p] == 0x18u8 ==> spec_props(d, p, fresh_props(), 6, id, 0) == Ok::<(PropsView, int), DatError>((with_flag(IS_TRANSLUCENT), p + 2)),
        d[p] == 0x1Bu8 ==> spec_props(d, p, fresh_props(), 6, id, 0) == Ok::<(PropsView, int), DatError>((with_flag(IS_LYING_OBJECT), p + 2)),
        d[p] == 0x1Cu8 ==> spec_props(d, p, fresh_props(), 6, id, 0) == Ok::<(PropsView, int), DatError>((with_flag(IS_ANIMATE_ALWAYS), p + 2)),
        d[p] == 0x1Fu8 ==> spec_props(d, p, fresh_props(), 6, id, 0) == Ok::<(PropsView, int), DatError>((with_flag(IS_FULL_GROUND), p + 2)),
        d[p] == 0x20u8 ==> spec_props(d, p, fresh_props(), 6, id, 0) == Ok::<(PropsView, int), DatError>((with_flag(IS_IGNORE_LOOK), p + 2)),
        d[p] == 0x24u8 ==> spec_props(d, p, fresh_props(), 6, id, 0) == Ok::<(PropsView, int), DatError>((with_flag(IS_WRAPPABLE), p + 2)),
        d[p] == 0x25u8 ==> spec_props(d, p, fresh_props(), 6, id, 0) == Ok::<(PropsView, int), DatError>((with_flag(IS_UNWRAPPABLE), p + 2)),
        d[p] == 0x26u8 ==> spec_props(d, p, fresh_props(), 6, id, 0) == Ok::<(PropsView, int), DatError>((with_flag(IS_TOP_EFFECT), p + 2)),
        d[p] == 0x27u8 ==> spec_props(d, p, fresh_props(), 6, id, 0) == Ok::<(PropsView, int), DatError>((with_flag(IS_USABLE), p + 2)),
        d[p] == 0xFEu8 ==> spec_props(d, p, fresh_props(), 6, id, 0) == Ok::<(PropsView, int), DatError>((with_flag(IS_USABLE), p + 2)),
{
    reveal_with_fuel(spec_props, 2);
    assert(u8_at(d, p) == Some(d[p]));
    assert(u8_at(d, p + 1) == Some(d[p + 1]));
}

/// A structure-6 thing whose flag list is `0x0C` alone is unpassable and not
/// unmoveable; one whose list is `0x0D` alone is unmoveable and not
/// unpassable.
pub proof fn lemma_v6_unpassable_unmoveable(d: Seq<u8>, p: int, id: u32, cat: LegacyCategory, f: DatFormat, t: LegacyThingType)
    requires
        0 <= p,
        p + 2 <= d.len(),
        d[p + 1] == 0xFFu8,
        f.structure == 6,
    ensures
        d[p] == 0x0Cu8 ==> (spec_thing(d, p, id, cat, f) matches Ok((v, _)) && thing_matches(t, v) ==> t.is_unpassable
            && !t.is_unmoveable),
        d[p] == 0x0Du8 ==> (spec_thing(d, p, id, cat, f) matches Ok((v, _)) && thing_matches(t, v) ==> t.is_unmoveable
            && !t.is_unpassable),
{
    lemma_v6_single_flag(d, p, id);
}

/// The properties of a thing with only the boolean property `k` set and the
/// value `v` holding `x`.
pub open spec fn with_value(k: usize, v: usize, x: u16) -> PropsView {
    PropsView { flags: fresh_props().flags.update(k as int, true), values: fresh_props().values.update(v as int, x), ..fresh_props() }
}

/// In metadata structure 1, a flag list of one flag without payload sets
/// exactly the property that flag stands for.
pub proof fn lemma_v1_single_flag(d: Seq<u8>, p: int, id: u32)
    requires
        0 <= p,
        p + 2 <= d.len(),
        d[p + 1] == 0xFFu8,
    ensures
        d[p] == 0x01u8 ==> spec_props(d, p, fresh_props(), 1, id, 0) == Ok::<(PropsView, int), DatError>((with_flag(IS_ON_BOTTOM), p + 2)),
        d[p] == 0x02u8 ==> spec_props(d, p, fresh_props(), 1, id, 0) == Ok::<(PropsView, int), DatError>((with_flag(IS_ON_TOP), p + 2)),
        d[p] == 0x03u8 ==> spec_props(d, p, fresh_props(), 1, id, 0) == Ok::<(PropsView, int), DatError>((with_flag(IS_CONTAINER), p + 2)),
        d[p] == 0x04u8 ==> spec_props(d, p, fresh_props(), 1, id, 0) == Ok::<(PropsView, int), DatError>((with_flag(IS_STACKABLE), p + 2)),
        d[p] == 0x05u8 ==> spec_props(d, p, fresh_props(), 1, id, 0) == Ok::<(PropsView, int), DatError>((with_flag(IS_MULTI_USE), p + 2)),
        d[p] == 0x06u8 ==> spec_props(d, p, fresh_props(), 1, id, 0) == Ok::<(PropsView, int), DatError>((with_flag(IS_FORCE_USE), p + 2)),
        d[p] == 0x09u8 ==> spec_props(d, p, fresh_props(), 1, id, 0) == Ok::<(PropsView, int), DatError>((with_flag(IS_FLUID_CONTAINER), p + 2)),
        d[p] == 0x0Au8 ==> spec_props(d, p, fresh_props(), 1, id, 0) == Ok::<(PropsView, int), DatError>((with_flag(IS_FLUID), p + 2)),
        d[p] == 0x0Bu8 ==> spec_props(d, p, fresh_props(), 1, id, 0) == Ok::<(PropsView, int), DatError>((with_flag(IS_UNPASSABLE), p + 2)),
        d[p] == 0x0Cu8 ==> spec_props(d, p, fresh_props(), 1, id, 0) == Ok::<(PropsView, int), DatError>((with_flag(IS_UNMOVEABLE), p + 2)),
        d[p] == 0x0Du8 ==> spec_props(d, p, fresh_props(), 1, id, 0) == Ok::<(PropsView, int), DatError>((with_flag(IS_BLOCK_MISSILE), p + 2)),
        d[p] == 0x0Eu8 ==> spec_props(d, p, fresh_props(), 1, id, 0) == Ok::<(PropsView, int), DatError>((with_flag(IS_BLOCK_PATHFIND), p + 2)),
        d[p] == 0x0Fu8 ==> spec_props(d, p, fresh_props(), 1, id, 0) == Ok::<(PropsView, int), DatError>((with_flag(IS_PICKUPABLE), p + 2)),
        d[p] == 0x12u8 ==> spec_props(d, p, fresh_props(), 1, id, 0) == Ok::<(PropsView, int), DatError>((with_flag(IS_FULL_GROUND), p + 2)),
        d[p] == 0x17u8 ==> spec_props(d, p, fresh_props(), 1, id, 0) == Ok::<(PropsView, int), DatError>((with_flag(IS_ROTATABLE), p + 2)),
        d[p] == 0x18u8 ==> spec_props(d, p, fresh_props(), 1, id, 0) == Ok::<(PropsView, int), DatError>((with_flag(IS_LYING_OBJECT), p + 2)),
        d[p] == 0x19u8 ==> spec_props(d, p, fresh_props(), 1, id, 0) == Ok::<(PropsView, int), DatError>((with_flag(IS_ANIMATE_ALWAYS), p + 2)),
        d[p] == 0x24u8 ==> spec_props(d, p, fresh_props(), 1, id, 0) == Ok::<(PropsView, int), DatError>((with_flag(IS_WRAPPABLE), p + 2)),
        d[p] == 0x25u8 ==> spec_props(d, p, fresh_props(), 1, id, 0) == Ok::<(PropsView, int), DatError>((with_flag(IS_UNWRAPPABLE), p + 2)),
        d[p] == 0x26u8 ==> spec_props(d, p, fresh_props(), 1, id, 0) == Ok::<(PropsView, int), DatError>((with_flag(IS_TOP_EFFECT), p + 2)),
{
    reveal_with_fuel(spec_props, 2);
    assert(u8_at(d, p) == Some(d[p]));
    assert(u8_at(d, p + 1) == Some(d[p + 1]));
}

/// In metadata structure 1, a flag list of one flag with a `u16` payload
/// sets exactly that flag's property and stores the little-endian payload
/// as its value.
pub proof fn lemma_v1_value_flag(d: Seq<u8>, p: int, id: u32)
    requires
        0 <= p,
        p + 4 <= d.len(),
        d[p + 3] == 0xFFu8,
    ensures
        d[p] == 0x00u8 ==> spec_props(d, p, fresh_props(), 1, id, 0) == Ok::<(PropsView, int), DatError>((with_value(IS_GROUND, GROUND_SPEED, (d[p + 1] + 256 * d[p + 2]) as u16), p + 4)),
        d[p] == 0x07u8 ==> spec_props(d, p, fresh_props(), 1, id, 0) == Ok::<(PropsView, int), DatError>((with_value(IS_WRITABLE, MAX_READ_WRITE_CHARS, (d[p + 1] + 256 * d[p + 2]) as u16), p + 4)),
        d[p] == 0x08u8 ==> spec_props(d, p, fresh_props(), 1, id, 0) == Ok::<(PropsView, int), DatError>((with_value(IS_WRITABLE_ONCE, MAX_READ_CHARS, (d[p + 1] + 256 * d[p + 2]) as u16), p + 4)),
        d[p] == 0x13u8 ==> spec_props(d, p, fresh_props(), 1, id, 0) == Ok::<(PropsView, int), DatError>((with_value(HAS_ELEVATION, ELEVATION, (d[p + 1] + 256 * d[p + 2]) as u16), p + 4)),
        d[p] == 0x16u8 ==> spec_props(d, p, fresh_props(), 1, id, 0) == Ok::<(PropsView, int), DatError>((with_value(IS_MINI_MAP, MINI_MAP_COLOR, (d[p + 1] + 256 * d[p + 2]) as u16), p + 4)),
        d[p] == 0x1Au8 ==> spec_props(d, p, fresh_props(), 1, id, 0) == Ok::<(PropsView, int), DatError>((with_value(IS_LENS_HELP, LENS_HELP, (d[p + 1] + 256 * d[p + 2]) as u16), p + 4)),
{
    reveal_with_fuel(spec_props, 2);
    assert(u8_at(d, p) == Some(d[p]));
    assert(u8_at(d, p + 3) == Some(d[p + 3]));
    assert(u16_at(d, p + 1) == Some((d[p + 1] + 256 * d[p + 2]) as u16));
}

/// In metadata structure 2, a flag list of one flag without payload sets
/// exactly the property that flag stands for.
pub proof fn lemma_v2_single_flag(d: Seq<u8>, p: int, id: u32)
    requires
        0 <= p,
        p + 2 <= d.len(),
        d[p + 1] == 0xFFu8,
    ensures
        d[p] == 0x01u8 ==> spec_props(d, p, fresh_props(), 2, id, 0) == Ok::<(PropsView, int), DatError>((with_flag(IS_ON_BOTTOM), p + 2)),
        d[p] == 0x02u8 ==> spec_props(d, p, fresh_props(), 2, id, 0) == Ok::<(PropsView, int), DatError>((with_flag(IS_ON_TOP), p + 2)),
        d[p] == 0x03u8 ==> spec_props(d, p, fresh_props(), 2, id, 0) == Ok::<(PropsView, int), DatError>((with_flag(IS_CONTAINER), p + 2)),
        d[p] == 0x04u8 ==> spec_props(d, p, fresh_props(), 2, id, 0) == Ok::<(PropsView, int), DatError>((with_flag(IS_STACKABLE), p + 2)),
        d[p] == 0x05u8 ==> spec_props(d, p, fresh_props(), 2, id, 0) == Ok::<(PropsView, int), DatError>((with_flag(IS_MULTI_USE), p + 2)),
        d[p] == 0x06u8 ==> spec_props(d, p, fresh_props(), 2, id, 0) == Ok::<(PropsView, int), DatError>((with_flag(IS_FORCE_USE), p + 2)),
        d[p] == 0x09u8 ==> spec_props(d, p, fresh_props(), 2, id, 0) == Ok::<(PropsView, int), DatError>((with_flag(IS_FLUID_CONTAINER), p + 2)),
        d[p] == 0x0Au8 ==> spec_props(d, p, fresh_props(), 2, id, 0) == Ok::<(PropsView, int), DatError>((with_flag(IS_FLUID), p + 2)),
        d[p] == 0x0Bu8 ==> spec_props(d, p, fresh_props(), 2, id, 0) == Ok::<(PropsView, int), DatError>((with_flag(IS_UNPASSABLE), p + 2)),
        d[p] == 0x0Cu8 ==> spec_props(d, p, fresh_props(), 2, id, 0) == Ok::<(PropsView, int), DatError>((with_flag(IS_UNMOVEABLE), p + 2)),
        d[p] == 0x0Du8 ==> spec_props(d, p, fresh_props(), 2, id, 0) == Ok::<(PropsView, int), DatError>((with_flag(IS_BLOCK_MISSILE), p + 2)),
        d[p] == 0x0Eu8 ==> spec_props(d, p, fresh_props(), 2, id, 0) == Ok::<(PropsView, int), DatError>((with_flag(IS_BLOCK_PATHFIND), p + 2)),
        d[p] == 0x0Fu8 ==> spec_props(d, p, fresh_props(), 2, id, 0) == Ok::<(PropsView, int), DatError>((with_flag(IS_PICKUPABLE), p + 2)),
        d[p] == 0x12u8 ==> spec_props(d, p, fresh_props(), 2, id, 0) == Ok::<(PropsView, int), DatError>((with_flag(IS_FULL_GROUND), p + 2)),
        d[p] == 0x17u8 ==> spec_props(d, p, fresh_props(), 2, id, 0) == Ok::<(PropsView, int), DatError>((with_flag(IS_ROTATABLE), p + 2)),
        d[p] == 0x18u8 ==> spec_props(d, p, fresh_props(), 2, id, 0) == Ok::<(PropsView, int), DatError>((with_flag(IS_LYING_OBJECT), p + 2)),
        d[p] == 0x19u8 ==> spec_props(d, p, fresh_props(), 2, id, 0) == Ok::<(PropsView, int), DatError>((with_flag(IS_HANGABLE), p + 2)),
        d[p] == 0x1Au8 ==> spec_props(d, p, fresh_props(), 2, id, 0) == Ok::<(PropsView, int), DatError>((with_flag(IS_VERTICAL), p + 2)),
        d[p] == 0x1Bu8 ==> spec_props(d, p, fresh_props(), 2, id, 0) == Ok::<(PropsView, int), DatError>((with_flag(IS_HORIZONTAL), p + 2)),
        d[p] == 0x1Cu8 ==> spec_props(d, p, fresh_props(), 2, id, 0) == Ok::<(PropsView, int), DatError>((with_flag(IS_ANIMATE_ALWAYS), p + 2)),
        d[p] == 0x24u8 ==> spec_props(d, p, fresh_props(), 2, id, 0) == Ok::<(PropsView, int), DatError>((with_flag(IS_WRAPPABLE), p + 2)),
        d[p] == 0x25u8 ==> spec_props(d, p, fresh_props(), 2, id, 0) == Ok::<(PropsView, int), DatError>((with_flag(IS_UNWRAPPABLE), p + 2)),
        d[p] == 0x26u8 ==> spec_props(d, p, fresh_props(), 2, id, 0) == Ok::<(PropsView, int), DatError>((with_flag(IS_TOP_EFFECT), p + 2)),
{
    reveal_with_fuel(spec_props, 2);
    assert(u8_at(d, p) == Some(d[p]));
    assert(u8_at(d, p + 1) == Some(d[p + 1]));
}

/// In metadata structure 2, a flag list of one flag with a `u16` payload
/// sets exactly that flag's property and stores the little-endian payload
/// as its value.
pub proof fn lemma_v2_value_flag(d: Seq<u8>, p: int, id: u32)
    requires
        0 <= p,
        p + 4 <= d.len(),
        d[p + 3] == 0xFFu8,
    ensures
        d[p] == 0x00u8 ==> spec_props(d, p, fresh_props(), 2, id, 0) == Ok::<(PropsView, int), DatError>((with_value(IS_GROUND, GROUND_SPEED, (d[p + 1] + 256 * d[p + 2]) as u16), p + 4)),
        d[p] == 0x07u8 ==> spec_props(d, p, fresh_props(), 2, id, 0) == Ok::<(PropsView, int), DatError>((with_value(IS_WRITABLE, MAX_READ_WRITE_CHARS, (d[p + 1] + 256 * d[p + 2]) as u16), p + 4)),
        d[p] == 0x08u8 ==> spec_props(d, p, fresh_props(), 2, id, 0) == Ok::<(PropsView, int), DatError>((with_value(IS_WRITABLE_ONCE, MAX_READ_CHARS, (d[p + 1] + 256 * d[p + 2]) as u16), p + 4)),
        d[p] == 0x13u8 ==> spec_props(d, p, fresh_props(), 2, id, 0) == Ok::<(PropsView, int), DatError>((with_value(HAS_ELEVATION, ELEVATION, (d[p + 1] + 256 * d[p + 2]) as u16), p + 4)),
        d[p] == 0x16u8 ==> spec_props(d, p, fresh_props(), 2, id, 0) == Ok::<(PropsView, int), DatError>((with_value(IS_MINI_MAP, MINI_MAP_COLOR, (d[p + 1] + 256 * d[p + 2]) as u16), p + 4)),
        d[p] == 0x1Du8 ==> spec_props(d, p, fresh_props(), 2, id, 0) == Ok::<(PropsView, int), DatError>((with_value(IS_LENS_HELP, LENS_HELP, (d[p + 1] + 256 * d[p + 2]) as u16), p + 4)),
{
    reveal_with_fuel(spec_props, 2);
    assert(u8_at(d, p) == Some(d[p]));
    assert(u8_at(d, p + 3) == Some(d[p + 3]));
    assert(u16_at(d, p + 1) == Some((d[p + 1] + 256 * d[p + 2]) as u16));
}

/// In metadata structure 3, a flag list of one flag without payload sets
/// exactly the property that flag stands for.
pub proof fn lemma_v3_single_flag(d: Seq<u8>, p: int, id: u32)
    requires
        0 <= p,
        p + 2 <= d.len(),
        d[p + 1] == 0xFFu8,
    ensures
        d[p] == 0x01u8 ==> spec_props(d, p, fresh_props(), 3, id, 0) == Ok::<(PropsView, int), DatError>((with_flag(IS_GROUND_BORDER), p + 2)),
        d[p] == 0x02u8 ==> spec_props(d, p, fresh_props(), 3, id, 0) == Ok::<(PropsView, int), DatError>((with_flag(IS_ON_BOTTOM), p + 2)),
        d[p] == 0x03u8 ==> spec_props(d, p, fresh_props(), 3, id, 0) == Ok::<(PropsView, int), DatError>((with_flag(IS_ON_TOP), p + 2)),
        d[p] == 0x04u8 ==> spec_props(d, p, fresh_props(), 3, id, 0) == Ok::<(PropsView, int), DatError>((with_flag(IS_CONTAINER), p + 2)),
        d[p] == 0x05u8 ==> spec_props(d, p, fresh_props(), 3, id, 0) == Ok::<(PropsView, int), DatError>((with_flag(IS_STACKABLE), p + 2)),
        d[p] == 0x06u8 ==> spec_props(d, p, fresh_props(), 3, id, 0) == Ok::<(PropsView, int), DatError>((with_flag(IS_MULTI_USE), p + 2)),
        d[p] == 0x07u8 ==> spec_props(d, p, fresh_props(), 3, id, 0) == Ok::<(PropsView, int), DatError>((with_flag(IS_FORCE_USE), p + 2)),
        d[p] == 0x0Au8 ==> spec_props(d, p, fresh_props(), 3, id, 0) == Ok::<(PropsView, int), DatError>((with_flag(IS_FLUID_CONTAINER), p + 2)),
        d[p] == 0x0Bu8 ==> spec_props(d, p, fresh_props(), 3, id, 0) == Ok::<(PropsView, int), DatError>((with_flag(IS_FLUID), p + 2)),
        d[p] == 0x0Cu8 ==> spec_props(d, p, fresh_props(), 3, id, 0) == Ok::<(PropsView, int), DatError>((with_flag(IS_UNPASSABLE), p + 2)),
        d[p] == 0x0Du8 ==> spec_props(d, p, fresh_props(), 3, id, 0) == Ok::<(PropsView, int), DatError>((with_flag(IS_UNMOVEABLE), p + 2)),
        d[p] == 0x0Eu8 ==> spec_props(d, p, fresh_props(), 3, id, 0) == Ok::<(PropsView, int), DatError>((with_flag(IS_BLOCK_MISSILE), p + 2)),
        d[p] == 0x0Fu8 ==> spec_props(d, p, fresh_props(), 3, id, 0) == Ok::<(PropsView, int), DatError>((with_flag(IS_BLOCK_PATHFIND), p + 2)),
        d[p] == 0x10u8 ==> spec_props(d, p, fresh_props(), 3, id, 0) == Ok::<(PropsView, int), DatError>((with_flag(IS_PICKUPABLE), p + 2)),
        d[p] == 0x11u8 ==> spec_props(d, p, fresh_props(), 3, id, 0) == Ok::<(PropsView, int), DatError>((with_flag(IS_HANGABLE), p + 2)),
        d[p] == 0x12u8 ==> spec_props(d, p, fresh_props(), 3, id, 0) == Ok::<(PropsView, int), DatError>((with_flag(IS_VERTICAL), p + 2)),
        d[p] == 0x13u8 ==> spec_props(d, p, fresh_props(), 3, id, 0) == Ok::<(PropsView, int), DatError>((with_flag(IS_HORIZONTAL), p + 2)),
        d[p] == 0x14u8 ==> spec_props(d, p, fresh_props(), 3, id, 0) == Ok::<(PropsView, int), DatError>((with_flag(IS_ROTATABLE), p + 2)),
        d[p] == 0x19u8 ==> spec_props(d, p, fresh_props(), 3, id, 0) == Ok::<(PropsView, int), DatError>((with_flag(IS_LYING_OBJECT), p + 2)),
        d[p] == 0x1Au8 ==> spec_props(d, p, fresh_props(), 3, id, 0) == Ok::<(PropsView, int), DatError>((with_flag(IS_ANIMATE_ALWAYS), p + 2)),
        d[p] == 0x1Du8 ==> spec_props(d, p, fresh_props(), 3, id, 0) == Ok::<(PropsView, int), DatError>((with_flag(IS_FULL_GROUND), p + 2)),
{
    reveal_with_fuel(spec_props, 2);
    assert(u8_at(d, p) == Some(d[p]));
    assert(u8_at(d, p + 1) == Some(d[p + 1]));
}

/// In metadata structure 3, a flag list of one flag with a `u16` payload
/// sets exactly that flag's property and stores the little-endian payload
/// as its value.
pub proof fn lemma_v3_value_flag(d: Seq<u8>, p: int, id: u32)
    requires
        0 <= p,
        p + 4 <= d.len(),
        d[p + 3] == 0xFFu8,
    ensures
        d[p] == 0x00u8 ==> spec_props(d, p, fresh_props(), 3, id, 0) == Ok::<(PropsView, int), DatError>((with_value(IS_GROUND, GROUND_SPEED, (d[p + 1] + 256 * d[p + 2]) as u16), p + 4)),
        d[p] == 0x08u8 ==> spec_props(d, p, fresh_props(), 3, id, 0) == Ok::<(PropsView, int), DatError>((with_value(IS_WRITABLE, MAX_READ_WRITE_CHARS, (d[p + 1] + 256 * d[p + 2]) as u16), p + 4)),
        d[p] == 0x09u8 ==> spec_props(d, p, fresh_props(), 3, id, 0) == Ok::<(PropsView, int), DatError>((with_value(IS_WRITABLE_ONCE, MAX_READ_CHARS, (d[p + 1] + 256 * d[p + 2]) as u16), p + 4)),
        d[p] == 0x18u8 ==> spec_props(d, p, fresh_props(), 3, id, 0) == Ok::<(PropsView, int), DatError>((with_value(HAS_ELEVATION, ELEVATION, (d[p + 1] + 256 * d[p + 2]) as u16), p + 4)),
        d[p] == 0x1Bu8 ==> spec_props(d, p, fresh_props(), 3, id, 0) == Ok::<(PropsView, int), DatError>((with_value(IS_MINI_MAP, MINI_MAP_COLOR, (d[p + 1] + 256 * d[p + 2]) as u16), p + 4)),
        d[p] == 0x1Cu8 ==> spec_props(d, p, fresh_props(), 3, id, 0) == Ok::<(PropsView, int), DatError>((with_value(IS_LENS_HELP, LENS_HELP, (d[p + 1] + 256 * d[p + 2]) as u16), p + 4)),
{
    reveal_with_fuel(spec_props, 2);
    assert(u8_at(d, p) == Some(d[p]));
    assert(u8_at(d, p + 3) == Some(d[p + 3]));
    assert(u16_at(d, p + 1) == Some((d[p + 1] + 256 * d[p + 2]) as u16));
}

/// In metadata structure 4, a flag list of one flag without payload sets
/// exactly the property that flag stands for.
pub proof fn lemma_v4_single_flag(d: Seq<u8>, p: int, id: u32)
    requires
        0 <= p,
        p + 2 <= d.len(),
        d[p + 1] == 0xFFu8,
    ensures
        d[p] == 0x01u8 ==> spec_props(d, p, fresh_props(), 4, id, 0) == Ok::<(PropsView, int), DatError>((with_flag(IS_GROUND_BORDER), p + 2)),
        d[p] == 0x02u8 ==> spec_props(d, p, fresh_props(), 4, id, 0) == Ok::<(PropsView, int), DatError>((with_flag(IS_ON_BOTTOM), p + 2)),
        d[p] == 0x03u8 ==> spec_props(d, p, fresh_props(), 4, id, 0) == Ok::<(PropsView, int), DatError>((with_flag(IS_ON_TOP), p + 2)),
        d[p] == 0x04u8 ==> spec_props(d, p, fresh_props(), 4, id, 0) == Ok::<(PropsView, int), DatError>((with_flag(IS_CONTAINER), p + 2)),
        d[p] == 0x05u8 ==> spec_props(d, p, fresh_props(), 4, id, 0) == Ok::<(PropsView, int), DatError>((with_flag(IS_STACKABLE), p + 2)),
        d[p] == 0x06u8 ==> spec_props(d, p, fresh_props(), 4, id, 0) == Ok::<(PropsView, int), DatError>((with_flag(IS_FORCE_USE), p + 2)),
        d[p] == 0x07u8 ==> spec_props(d, p, fresh_props(), 4, id, 0) == Ok::<(PropsView, int), DatError>((with_flag(IS_MULTI_USE), p + 2)),
        d[p] == 0x0Bu8 ==> spec_props(d, p, fresh_props(), 4, id, 0) == Ok::<(PropsView, int), DatError>((with_flag(IS_FLUID_CONTAINER), p + 2)),
        d[p] == 0x0Cu8 ==> spec_props(d, p, fresh_props(), 4, id, 0) == Ok::<(PropsView, int), DatError>((with_flag(IS_FLUID), p + 2)),
        d[p] == 0x0Du8 ==> spec_props(d, p, fresh_props(), 4, id, 0) == Ok::<(PropsView, int), DatError>((with_flag(IS_UNPASSABLE), p + 2)),
        d[p] == 0x0Eu8 ==> spec_props(d, p, fresh_props(), 4, id, 0) == Ok::<(PropsView, int), DatError>((with_flag(IS_UNMOVEABLE), p + 2)),
        d[p] == 0x0Fu8 ==> spec_props(d, p, fresh_props(), 4, id, 0) == Ok::<(PropsView, int), DatError>((with_flag(IS_BLOCK_MISSILE), p + 2)),
        d[p] == 0x10u8 ==> spec_props(d, p, fresh_props(), 4, id, 0) == Ok::<(PropsView, int), DatError>((with_flag(IS_BLOCK_PATHFIND), p + 2)),
        d[p] == 0x11u8 ==> spec_props(d, p, fresh_props(), 4, id, 0) == Ok::<(PropsView, int), DatError>((with_flag(IS_PICKUPABLE), p + 2)),
        d[p] == 0x12u8 ==> spec_props(d, p, fresh_props(), 4, id, 0) == Ok::<(PropsView, int), DatError>((with_flag(IS_HANGABLE), p + 2)),
        d[p] == 0x13u8 ==> spec_props(d, p, fresh_props(), 4, id, 0) == Ok::<(PropsView, int), DatError>((with_flag(IS_VERTICAL), p + 2)),
        d[p] == 0x14u8 ==> spec_props(d, p, fresh_props(), 4, id, 0) == Ok::<(PropsView, int), DatError>((with_flag(IS_HORIZONTAL), p + 2)),
        d[p] == 0x15u8 ==> spec_props(d, p, fresh_props(), 4, id, 0) == Ok::<(PropsView, int), DatError>((with_flag(IS_ROTATABLE), p + 2)),
        d[p] == 0x17u8 ==> spec_props(d, p, fresh_props(), 4, id, 0) == Ok::<(PropsView, int), DatError>((with_flag(DONT_HIDE), p + 2)),
        d[p] == 0x1Bu8 ==> spec_props(d, p, fresh_props(), 4, id, 0) == Ok::<(PropsView, int), DatError>((with_flag(IS_LYING_OBJECT), p + 2)),
        d[p] == 0x1Cu8 ==> spec_props(d, p, fresh_props(), 4, id, 0) == Ok::<(PropsView, int), DatError>((with_flag(IS_ANIMATE_ALWAYS), p + 2)),
        d[p] == 0x1Fu8 ==> spec_props(d, p, fresh_props(), 4, id, 0) == Ok::<(PropsView, int), DatError>((with_flag(IS_FULL_GROUND), p + 2)),
        d[p] == 0x20u8 ==> spec_props(d, p, fresh_props(), 4, id, 0) == Ok::<(PropsView, int), DatError>((with_flag(IS_IGNORE_LOOK), p + 2)),
        d[p] == 0x24u8 ==> spec_props(d, p, fresh_props(), 4, id, 0) == Ok::<(PropsView, int), DatError>((with_flag(IS_WRAPPABLE), p + 2)),
        d[p] == 0x25u8 ==> spec_props(d, p, fresh_props(), 4, id, 0) == Ok::<(PropsView, int), DatError>((with_flag(IS_UNWRAPPABLE), p + 2)),
        d[p] == 0x27u8 ==> spec_props(d, p, fresh_props(), 4, id, 0) == Ok::<(PropsView, int), DatError>((with_flag(IS_USABLE), p + 2)),
{
    reveal_with_fuel(spec_props, 2);
    assert(u8_at(d, p) == Some(d[p]));
    assert(u8_at(d, p + 1) == Some(d[p + 1]));
}

/// In metadata structure 4, a flag list of one flag with a `u16` payload
/// sets exactly that flag's property and stores the little-endian payload
/// as its value.
pub proof fn lemma_v4_value_flag(d: Seq<u8>, p: int, id: u32)
    requires
        0 <= p,
        p + 4 <= d.len(),
        d[p + 3] == 0xFFu8,
    ensures
        d[p] == 0x00u8 ==> spec_props(d, p, fresh_props(), 4, id, 0) == Ok::<(PropsView, int), DatError>((with_value(IS_GROUND, GROUND_SPEED, (d[p + 1] + 256 * d[p + 2]) as u16), p + 4)),
        d[p] == 0x09u8 ==> spec_props(d, p, fresh_props(), 4, id, 0) == Ok::<(PropsView, int), DatError>((with_value(IS_WRITABLE, MAX_READ_WRITE_CHARS, (d[p + 1] + 256 * d[p + 2]) as u16), p + 4)),
        d[p] == 0x0Au8 ==> spec_props(d, p, fresh_props(), 4, id, 0) == Ok::<(PropsView, int), DatError>((with_value(IS_WRITABLE_ONCE, MAX_READ_CHARS, (d[p + 1] + 256 * d[p + 2]) as u16), p + 4)),
        d[p] == 0x1Au8 ==> spec_props(d, p, fresh_props(), 4, id, 0) == Ok::<(PropsView, int), DatError>((with_value(HAS_ELEVATION, ELEVATION, (d[p + 1] + 256 * d[p + 2]) as u16), p + 4)),
        d[p] == 0x1Du8 ==> spec_props(d, p, fresh_props(), 4, id, 0) == Ok::<(PropsView, int), DatError>((with_value(IS_MINI_MAP, MINI_MAP_COLOR, (d[p + 1] + 256 * d[p + 2]) as u16), p + 4)),
        d[p] == 0x1Eu8 ==> spec_props(d, p, fresh_props(), 4, id, 0) == Ok::<(PropsView, int), DatError>((with_value(IS_LENS_HELP, LENS_HELP, (d[p + 1] + 256 * d[p + 2]) as u16), p + 4)),
{
    reveal_with_fuel(spec_props, 2);
    assert(u8_at(d, p) == Some(d[p]));
    assert(u8_at(d, p + 3) == Some(d[p + 3]));
    assert(u16_at(d, p + 1) == Some((d[p + 1] + 256 * d[p + 2]) as u16));
}

/// In metadata structure 5, a flag list of one flag without payload sets
/// exactly the property that flag stands for.
pub proof fn lemma_v5_single_flag(d: Seq<u8>, p: int, id: u32)
    requires
        0 <= p,
        p + 2 <= d.len(),
        d[p + 1] == 0xFFu8,
    ensures
        d[p] == 0x01u8 ==> spec_props(d, p, fresh_props(), 5, id, 0) == Ok::<(PropsView, int), DatError>((with_flag(IS_GROUND_BORDER), p + 2)),
        d[p] == 0x02u8 ==> spec_props(d, p, fresh_props(), 5, id, 0) == Ok::<(PropsView, int), DatError>((with_flag(IS_ON_BOTTOM), p + 2)),
        d[p] == 0x03u8 ==> spec_props(d, p, fresh_props(), 5, id, 0) == Ok::<(PropsView, int), DatError>((with_flag(IS_ON_TOP), p + 2)),
        d[p] == 0x04u8 ==> spec_props(d, p, fresh_props(), 5, id, 0) == Ok::<(PropsView, int), DatError>((with_flag(IS_CONTAINER), p + 2)),
        d[p] == 0x05u8 ==> spec_props(d, p, fresh_props(), 5, id, 0) == Ok::<(PropsView, int), DatError>((with_flag(IS_STACKABLE), p + 2)),
        d[p] == 0x06u8 ==> spec_props(d, p, fresh_props(), 5, id, 0) == Ok::<(PropsView, int), DatError>((with_flag(IS_FORCE_USE), p + 2)),
        d[p] == 0x07u8 ==> spec_props(d, p, fresh_props(), 5, id, 0) == Ok::<(PropsView, int), DatError>((with_flag(IS_MULTI_USE), p + 2)),
        d[p] == 0x0Au8 ==> spec_props(d, p, fresh_props(), 5, id, 0) == Ok::<(PropsView, int), DatError>((with_flag(IS_FLUID_CONTAINER), p + 2)),
        d[p] == 0x0Bu8 ==> spec_props(d, p, fresh_props(), 5, id, 0) == Ok::<(PropsView, int), DatError>((with_flag(IS_FLUID), p + 2)),
        d[p] == 0x0Cu8 ==> spec_props(d, p, fresh_props(), 5, id, 0) == Ok::<(PropsView, int), DatError>((with_flag(IS_UNPASSABLE), p + 2)),
        d[p] == 0x0Du8 ==> spec_props(d, p, fresh_props(), 5, id, 0) == Ok::<(PropsView, int), DatError>((with_flag(IS_UNMOVEABLE), p + 2)),
        d[p] == 0x0Eu8 ==> spec_props(d, p, fresh_props(), 5, id, 0) == Ok::<(PropsView, int), DatError>((with_flag(IS_BLOCK_MISSILE), p + 2)),
        d[p] == 0x0Fu8 ==> spec_props(d, p, fresh_props(), 5, id, 0) == Ok::<(PropsView, int), DatError>((with_flag(IS_BLOCK_PATHFIND), p + 2)),
        d[p] == 0x10u8 ==> spec_props(d, p, fresh_props(), 5, id, 0) == Ok::<(PropsView, int), DatError>((with_flag(IS_PICKUPABLE), p + 2)),
        d[p] == 0x11u8 ==> spec_props(d, p, fresh_props(), 5, id, 0) == Ok::<(PropsView, int), DatError>((with_flag(IS_HANGABLE), p + 2)),
        d[p] == 0x12u8 ==> spec_props(d, p, fresh_props(), 5, id, 0) == Ok::<(PropsView, int), DatError>((with_flag(IS_VERTICAL), p + 2)),
        d[p] == 0x13u8 ==> spec_props(d, p, fresh_props(), 5, id, 0) == Ok::<(PropsView, int), DatError>((with_flag(IS_HORIZONTAL), p + 2)),
        d[p] == 0x14u8 ==> spec_props(d, p, fresh_props(), 5, id, 0) == Ok::<(PropsView, int), DatError>((with_flag(IS_ROTATABLE), p + 2)),
        d[p] == 0x16u8 ==> spec_props(d, p, fresh_props(), 5, id, 0) == Ok::<(PropsView, int), DatError>((with_flag(DONT_HIDE), p + 2)),
        d[p] == 0x17u8 ==> spec_props(d, p, fresh_props(), 5, id, 0) == Ok::<(PropsView, int), DatError>((with_flag(IS_TRANSLUCENT), p + 2)),
        d[p] == 0x1Au8 ==> spec_props(d, p, fresh_props(), 5, id, 0) == Ok::<(PropsView, int), DatError>((with_flag(IS_LYING_OBJECT), p + 2)),
        d[p] == 0x1Bu8 ==> spec_props(d, p, fresh_props(), 5, id, 0) == Ok::<(PropsView, int), DatError>((with_flag(IS_ANIMATE_ALWAYS), p + 2)),
        d[p] == 0x1Eu8 ==> spec_props(d, p, fresh_props(), 5, id, 0) == Ok::<(PropsView, int), DatError>((with_flag(IS_FULL_GROUND), p + 2)),
        d[p] == 0x1Fu8 ==> spec_props(d, p, fresh_props(), 5, id, 0) == Ok::<(PropsView, int), DatError>((with_flag(IS_IGNORE_LOOK), p + 2)),
        d[p] == 0x27u8 ==> spec_props(d, p, fresh_props(), 5, id, 0) == Ok::<(PropsView, int), DatError>((with_flag(IS_USABLE), p + 2)),
        d[p] == 0xFEu8 ==> spec_props(d, p, fresh_props(), 5, id, 0) == Ok::<(PropsView, int), DatError>((with_flag(IS_USABLE), p + 2)),
{
    reveal_with_fuel(spec_props, 2);
    assert(u8_at(d, p) == Some(d[p]));
    assert(u8_at(d, p + 1) == Some(d[p + 1]));
}

/// In metadata structure 5, a flag list of one flag with a `u16` payload
/// sets exactly that flag's property and stores the little-endian payload
/// as its value.
pub proof fn lemma_v5_value_flag(d: Seq<u8>, p: int, id: u32)
    requires
        0 <= p,
        p + 4 <= d.len(),
        d[p + 3] == 0xFFu8,
    ensures
        d[p] == 0x00u8 ==> spec_props(d, p, fresh_props(), 5, id, 0) == Ok::<(PropsView, int), DatError>((with_value(IS_GROUND, GROUND_SPEED, (d[p + 1] + 256 * d[p + 2]) as u16), p + 4)),
        d[p] == 0x08u8 ==> spec_props(d, p, fresh_props(), 5, id, 0) == Ok::<(PropsView, int), DatError>((with_value(IS_WRITABLE, MAX_READ_WRITE_CHARS, (d[p + 1] + 256 * d[p + 2]) as u16), p + 4)),
        d[p] == 0x09u8 ==> spec_props(d, p, fresh_props(), 5, id, 0) == Ok::<(PropsView, int), DatError>((with_value(IS_WRITABLE_ONCE, MAX_READ_CHARS, (d[p + 1] + 256 * d[p + 2]) as u16), p + 4)),
        d[p] == 0x19u8 ==> spec_props(d, p, fresh_props(), 5, id, 0) == Ok::<(PropsView, int), DatError>((with_value(HAS_ELEVATION, ELEVATION, (d[p + 1] + 256 * d[p + 2]) as u16), p + 4)),
        d[p] == 0x1Cu8 ==> spec_props(d, p, fresh_props(), 5, id, 0) == Ok::<(PropsView, int), DatError>((with_value(IS_MINI_MAP, MINI_MAP_COLOR, (d[p + 1] + 256 * d[p + 2]) as u16), p + 4)),
        d[p] == 0x1Du8 ==> spec_props(d, p, fresh_props(), 5, id, 0) == Ok::<(PropsView, int), DatError>((with_value(IS_LENS_HELP, LENS_HELP, (d[p + 1] + 256 * d[p + 2]) as u16), p + 4)),
        d[p] == 0x20u8 ==> spec_props(d, p, fresh_props(), 5, id, 0) == Ok::<(PropsView, int), DatError>((with_value(IS_CLOTH, CLOTH_SLOT, (d[p + 1] + 256 * d[p + 2]) as u16), p + 4)),
{
    reveal_with_fuel(spec_props, 2);
    assert(u8_at(d, p) == Some(d[p]));
    assert(u8_at(d, p + 3) == Some(d[p + 3]));
    assert(u16_at(d, p + 1) == Some((d[p + 1] + 256 * d[p + 2]) as u16));
}

/// In metadata structure 6, a flag list of one flag with a `u16` payload
/// sets exactly that flag's property and stores the little-endian payload
/// as its value.
pub proof fn lemma_v6_value_flag(d: Seq<u8>, p: int, id: u32)
    requires
        0 <= p,
        p + 4 <= d.len(),
        d[p + 3] == 0xFFu8,
    ensures
        d[p] == 0x00u8 ==> spec_props(d, p, fresh_props(), 6, id, 0) == Ok::<(PropsView, int), DatError>((with_value(IS_GROUND, GROUND_SPEED, (d[p + 1] + 256 * d[p + 2]) as u16), p + 4)),
        d[p] == 0x08u8 ==> spec_props(d, p, fresh_props(), 6, id, 0) == Ok::<(PropsView, int), DatError>((with_value(IS_WRITABLE, MAX_READ_WRITE_CHARS, (d[p + 1] + 256 * d[p + 2]) as u16), p + 4)),
        d[p] == 0x09u8 ==> spec_props(d, p, fresh_props(), 6, id, 0) == Ok::<(PropsView, int), DatError>((with_value(IS_WRITABLE_ONCE, MAX_READ_CHARS, (d[p + 1] + 256 * d[p + 2]) as u16), p + 4)),
        d[p] == 0x1Au8 ==> spec_props(d, p, fresh_props(), 6, id, 0) == Ok::<(PropsView, int), DatError>((with_value(HAS_ELEVATION, ELEVATION, (d[p + 1] + 256 * d[p + 2]) as u16), p + 4)),
        d[p] == 0x1Du8 ==> spec_props(d, p, fresh_props(), 6, id, 0) == Ok::<(PropsView, int), DatError>((with_value(IS_MINI_MAP, MINI_MAP_COLOR, (d[p + 1] + 256 * d[p + 2]) as u16), p + 4)),
        d[p] == 0x1Eu8 ==> spec_props(d, p, fresh_props(), 6, id, 0) == Ok::<(PropsView, int), DatError>((with_value(IS_LENS_HELP, LENS_HELP, (d[p + 1] + 256 * d[p + 2]) as u16), p + 4)),
        d[p] == 0x21u8 ==> spec_props(d, p, fresh_props(), 6, id, 0) == Ok::<(PropsView, int), DatError>((with_value(IS_CLOTH, CLOTH_SLOT, (d[p + 1] + 256 * d[p + 2]) as u16), p + 4)),
        d[p] == 0x23u8 ==> spec_props(d, p, fresh_props(), 6, id, 0) == Ok::<(PropsView, int), DatError>((with_value(HAS_DEFAULT_ACTION, DEFAULT_ACTION, (d[p + 1] + 256 * d[p + 2]) as u16), p + 4)),
{
    reveal_with_fuel(spec_props, 2);
    assert(u8_at(d, p) == Some(d[p]));
    assert(u8_at(d, p + 3) == Some(d[p + 3]));
    assert(u16_at(d, p + 1) == Some((d[p + 1] + 256 * d[p + 2]) as u16));
}

/// The `.dat` header read back: the signature is the little-endian `u32` at
/// 0, and the item, outfit, effect and missile counts the `u16`s at 4, 6, 8
/// and 10.
pub proof fn lemma_dat_header_layout(d: Seq<u8>)
    ensures
        d.len() >= 12 ==> spec_header(d) == Some((
            (d[0] + 256 * d[1] + 65536 * d[2] + 16777216 * d[3]) as u32,
            (d[4] + 256 * d[5]) as u32,
            (d[6] + 256 * d[7]) as u32,
            (d[8] + 256 * d[9]) as u32,
            (d[10] + 256 * d[11]) as u32,
        )),
        d.len() < 12 ==> spec_header(d) is None,
{
}

/// A frame-group header read back, byte by byte: the group type (only when
/// groups are typed, else the group's index), the width and the height, the
/// exact size (only for a group wider or taller than one tile, else 32), the
/// layers, the x and y pattern counts, the z pattern count (from structure 3
/// on, else 1), and the frame count; the group's data starts right after.
pub proof fn lemma_group_header_layout(d: Seq<u8>, p: int, idx: u8, typed: bool, structure: u8)
    requires
        0 <= p,
    ensures
        spec_group_header(d, p, idx, typed, structure) matches Some((h, q)) ==> {
            let a: int = if typed { p + 1 } else { p };
            let e: int = if d[a] > 1 || d[a + 1] > 1 { 1 } else { 0 };
            let z: int = if structure >= 3 { 1 } else { 0 };
            &&& h.group_type == (if typed { d[p] } else { idx })
            &&& h.width == d[a]
            &&& h.height == d[a + 1]
            &&& h.exact_size == (if e == 1 { d[a + 2] } else { 32u8 })
            &&& h.layers == d[a + 2 + e]
            &&& h.pattern_x == d[a + 3 + e]
            &&& h.pattern_y == d[a + 4 + e]
            &&& h.pattern_z == (if z == 1 { d[a + 5 + e] } else { 1u8 })
            &&& h.frames == d[a + 5 + e + z]
            &&& q == a + 6 + e + z
        },
{
}

/// The sprite ids of a group read back: id `i` is the little-endian `u32` at
/// `p + 4 * i` in an extended `.dat`, else the `u16` at `p + 2 * i`; there
/// are as many as the group needs, and the next data starts after the last.
pub proof fn lemma_sprite_ids_layout(d: Seq<u8>, p: int, n: int, extended: bool)
    requires
        0 <= n,
    ensures
        spec_sprite_ids(d, p, n, extended) matches Some((ids, q)) ==> {
            &&& ids.len() == n
            &&& q == p + (if extended { 4 * n } else { 2 * n })
            &&& forall|i: int|
                0 <= i < n ==> #[trigger] ids[i] == (if extended {
                    (d[p + 4 * i] + 256 * d[p + 4 * i + 1] + 65536 * d[p + 4 * i + 2] + 16777216 * d[p + 4 * i + 3]) as u32
                } else {
                    (d[p + 2 * i] + 256 * d[p + 2 * i + 1]) as u32
                })
        },
{
}

/// A frame group read back holds one sprite id per sprite of its patterns:
/// width x height x layers x pattern x x pattern y x pattern z x frames of
/// them, between 1 and 4096, and keeps its header's sizes.
pub proof fn lemma_group_sprite_count(d: Seq<u8>, p: int, idx: u8, cat: LegacyCategory, id: u32, f: DatFormat)
    ensures
        spec_group(d, p, idx, cat, id, f) matches Ok((g, _)) ==> {
            let n = g.width * g.height * g.layers * g.pattern_x * g.pattern_y * g.pattern_z * g.frames;
            &&& g.sprite_ids.len() == n
            &&& 1 <= n <= 4096
        },
{
}

} // verus!
