//! The decisions of the legacy conversion: what the headers of a `.dat` and
//! `.spr` say about their client version, which format to read them with,
//! and the appearances their things become.
use crate::appearance::{appearance_views, Appearance, AppearanceView, Appearances};
use crate::dat_reader::{DatFormat, LegacyDatReader, LegacyThingType};
use crate::mapper::{map_legacy_thing_to_appearance, spec_appearance};
use crate::versions::{
    detect_version_from_signatures, first_match, get_structure_for_version, get_version_by_id,
    spec_detect_version, spec_structure, with_id,
};
use crate::text::chars_of;
use vstd::prelude::*;

verus! {

/// Options of a conversion.
pub struct LegacyConvertOptions {
    pub dat_path: String,
    pub spr_path: String,
    pub output_dir: String,
    /// Client version id (e.g. 860, 1098; 0 or none to detect it).
    pub version_id: Option<u32>,
    /// Whether the `.spr` has a 32-bit sprite count.
    pub extended_sprites: bool,
    /// Whether the `.spr` pixels carry alpha.
    pub transparency: bool,
    /// Whether outfits have frame groups.
    pub frame_groups: bool,
    /// Whether animated items carry their own animation data.
    pub improved_animations: bool,
    /// Whether to write an `.aec` bundle too.
    pub export_aec: bool,
    /// Optional project name for the bundle.
    pub project_name: Option<String>,
}

/// What the headers of a `.dat` and `.spr` say.
pub struct LegacyDetectedInfo {
    pub dat_signature: u32,
    pub spr_signature: u32,
    pub detected_version_id: u32,
    pub detected_version_name: String,
    pub object_count: u32,
    pub outfit_count: u32,
    pub effect_count: u32,
    pub missile_count: u32,
    pub total_things: u32,
    pub sprite_count: u32,
    pub is_extended: bool,
    pub suggested_transparency: bool,
    pub suggested_frame_groups: bool,
    pub suggested_improved_animations: bool,
}

/// What a conversion produced.
pub struct ConversionResult {
    pub success: bool,
    pub output_dir: String,
    pub appearances_path: String,
    pub catalog_path: String,
    pub aec_path: Option<String>,
    pub object_count: u32,
    pub outfit_count: u32,
    pub effect_count: u32,
    pub missile_count: u32,
    pub sprites_converted: u32,
    pub sheets_created: usize,
    pub elapsed_ms: u64,
}

/// The number of things of a `.dat`: objects (whose ids start at 100) plus
/// outfits, effects and missiles, saturating at `u32::MAX`.
pub open spec fn total_things(objects: u32, outfits: u32, effects: u32, missiles: u32) -> u32 {
    objects.saturating_sub(99).saturating_add(outfits).saturating_add(effects).saturating_add(missiles)
}

/// The version detected from the headers, as (id, name, extended, frame
/// groups, improved animations): the table's when the signatures match one;
/// else 10.98 for an extended `.spr` or one with more than 65535 sprites,
/// and 8.60 otherwise.
pub open spec fn detected_version(dat_sig: u32, spr_sig: u32, sprite_count: u32, is_extended: bool) -> (u32, Seq<char>, bool, bool, bool) {
    match spec_detect_version(dat_sig, spr_sig) {
        Some(v) => (v.id, v.name, v.default_extended, v.default_frame_groups, v.default_improved_animations),
        None => if is_extended || sprite_count > 65535 {
            (1098, "Tibia 10.98 (Custom / Detected)"@, true, true, true)
        } else {
            (860, "Tibia 8.60 (Custom / Detected)"@, false, false, false)
        },
    }
}

/// Describe a pair of legacy files from their headers: the `.dat`
/// signature and counts, and the `.spr` signature, sprite count and
/// extension.
pub fn detect_legacy_info(dat_header: (u32, u32, u32, u32, u32), spr_header: (u32, u32, bool)) -> (r: LegacyDetectedInfo)
    ensures
        ({
            let (dat_sig, objects, outfits, effects, missiles) = dat_header;
            let (spr_sig, sprites, extended) = spr_header;
            let (id, name, ext, fg, ia) = detected_version(dat_sig, spr_sig, sprites, extended);
            &&& r.dat_signature == dat_sig && r.spr_signature == spr_sig
            &&& r.object_count == objects && r.outfit_count == outfits
            &&& r.effect_count == effects && r.missile_count == missiles
            &&& r.total_things == total_things(objects, outfits, effects, missiles)
            &&& r.sprite_count == sprites
            &&& r.detected_version_id == id && r.detected_version_name@ == name
            &&& r.is_extended == (extended || ext)
            &&& !r.suggested_transparency
            &&& r.suggested_frame_groups == fg && r.suggested_improved_animations == ia
        }),
{
    let (dat_sig, object_count, outfit_count, effect_count, missile_count) = dat_header;
    let (spr_sig, sprite_count, is_extended) = spr_header;
    let total = object_count.saturating_sub(99).saturating_add(outfit_count).saturating_add(effect_count).saturating_add(
        missile_count,
    );
    let (ver_id, ver_name, suggested_extended, suggested_fg, suggested_ia) = match detect_version_from_signatures(
        dat_sig,
        spr_sig,
    ) {
        Some(v) => (v.id, v.name, v.default_extended, v.default_frame_groups, v.default_improved_animations),
        None => if is_extended || sprite_count > 65535 {
            (1098, String::from_str("Tibia 10.98 (Custom / Detected)"), true, true, true)
        } else {
            (860, String::from_str("Tibia 8.60 (Custom / Detected)"), false, false, false)
        },
    };
    LegacyDetectedInfo {
        dat_signature: dat_sig,
        spr_signature: spr_sig,
        detected_version_id: ver_id,
        detected_version_name: ver_name,
        object_count,
        outfit_count,
        effect_count,
        missile_count,
        total_things: total,
        sprite_count,
        is_extended: is_extended || suggested_extended,
        suggested_transparency: false,
        suggested_frame_groups: suggested_fg,
        suggested_improved_animations: suggested_ia,
    }
}

/// The format a conversion reads the `.dat` with. With a version id, that
/// version's structure and defaults (each option also turned on by the
/// user's choice), or for an unknown id the structure of its id range and
/// the user's choices. Without one, the version detected from the header
/// signatures `detected` (`.dat` signature, `.spr` signature, `.spr`
/// extended), or failing that structure 6 for an extended `.spr` and 5
/// otherwise.
pub open spec fn spec_resolve(version_id: Option<u32>, extended: bool, frame_groups: bool, improved: bool, detected: (u32, u32, bool)) -> DatFormat {
    let vid: u32 = match version_id {
        Some(v) => v,
        None => 0,
    };
    if vid > 0 {
        match first_match(with_id(vid), 0) {
            Some(v) => DatFormat {
                structure: v.structure,
                is_extended: extended || v.default_extended,
                has_frame_groups: frame_groups || v.default_frame_groups,
                has_improved_animations: improved || v.default_improved_animations,
            },
            None => DatFormat {
                structure: spec_structure(vid),
                is_extended: extended,
                has_frame_groups: frame_groups,
                has_improved_animations: improved,
            },
        }
    } else {
        let (dat_sig, spr_sig, ext) = detected;
        match spec_detect_version(dat_sig, spr_sig) {
            Some(v) => DatFormat {
                structure: v.structure,
                is_extended: extended || ext || v.default_extended,
                has_frame_groups: frame_groups || v.default_frame_groups,
                has_improved_animations: improved || v.default_improved_animations,
            },
            None => DatFormat {
                structure: if extended || ext { 6 } else { 5 },
                is_extended: extended || ext,
                has_frame_groups: frame_groups,
                has_improved_animations: improved,
            },
        }
    }
}

/// Resolve the format of a conversion (see `spec_resolve`); `detected` is
/// only read when no version id is given.
pub fn resolve_format(options: &LegacyConvertOptions, detected: (u32, u32, bool)) -> (r: DatFormat)
    ensures
        r == spec_resolve(options.version_id, options.extended_sprites, options.frame_groups, options.improved_animations, detected),
{
    let version_id = match options.version_id {
        Some(v) => v,
        None => 0,
    };
    if version_id > 0 {
        match get_version_by_id(version_id) {
            Some(v) => DatFormat {
                structure: v.structure,
                is_extended: options.extended_sprites || v.default_extended,
                has_frame_groups: options.frame_groups || v.default_frame_groups,
                has_improved_animations: options.improved_animations || v.default_improved_animations,
            },
            None => DatFormat {
                structure: get_structure_for_version(version_id),
                is_extended: options.extended_sprites,
                has_frame_groups: options.frame_groups,
                has_improved_animations: options.improved_animations,
            },
        }
    } else {
        let (dat_sig, spr_sig, ext) = detected;
        match detect_version_from_signatures(dat_sig, spr_sig) {
            Some(v) => DatFormat {
                structure: v.structure,
                is_extended: options.extended_sprites || ext || v.default_extended,
                has_frame_groups: options.frame_groups || v.default_frame_groups,
                has_improved_animations: options.improved_animations || v.default_improved_animations,
            },
            None => DatFormat {
                structure: if options.extended_sprites || ext { 6 } else { 5 },
                is_extended: options.extended_sprites || ext,
                has_frame_groups: options.frame_groups,
                has_improved_animations: options.improved_animations,
            },
        }
    }
}

fn map_list(things: &Vec<LegacyThingType>) -> (r: Vec<Appearance>)
    ensures
        appearance_views(r@) == things@.map_values(|t: LegacyThingType| spec_appearance(t)),
{
    let mut r: Vec<Appearance> = Vec::new();
    let mut i: usize = 0;
    while i < things.len()
        invariant
            i <= things@.len(),
            r@.len() == i,
            forall|j: int| 0 <= j < i ==> (#[trigger] r@[j])@ == spec_appearance(things@[j]),
        decreases things@.len() - i,
    {
        r.push(map_legacy_thing_to_appearance(&things[i]));
        i = i + 1;
    }
    proof {
        assert(appearance_views(r@) =~= things@.map_values(|t: LegacyThingType| spec_appearance(t)));
    }
    r
}

/// The appearances of every thing of a `.dat`, in order, by category.
pub fn map_things(reader: &LegacyDatReader) -> (r: Appearances)
    ensures
        r@.object == reader.objects@.map_values(|t: LegacyThingType| spec_appearance(t)),
        r@.outfit == reader.outfits@.map_values(|t: LegacyThingType| spec_appearance(t)),
        r@.effect == reader.effects@.map_values(|t: LegacyThingType| spec_appearance(t)),
        r@.missile == reader.missiles@.map_values(|t: LegacyThingType| spec_appearance(t)),
        r@.special_meaning_appearance_ids is None,
{
    Appearances {
        object: map_list(&reader.objects),
        outfit: map_list(&reader.outfits),
        effect: map_list(&reader.effects),
        missile: map_list(&reader.missiles),
        special_meaning_appearance_ids: None,
    }
}

/// A file name that starts with `prefix` and ends with `.dat`.
pub open spec fn is_dat_named(name: Seq<char>, prefix: Seq<char>) -> bool {
    &&& prefix.len() <= name.len() && name.subrange(0, prefix.len() as int) == prefix
    &&& 4 <= name.len() && name.subrange(name.len() - 4, name.len() as int) == seq!['.', 'd', 'a', 't']
}

/// `name` starts with `prefix` and ends with `.dat`.
fn dat_named(name: &Vec<char>, prefix: &Vec<char>) -> (r: bool)
    ensures
        r == is_dat_named(name@, prefix@),
{
    let n = name.len();
    if prefix.len() > n || n < 4 {
        return false;
    }
    let mut i: usize = 0;
    while i < prefix.len()
        invariant
            prefix@.len() <= name@.len(),
            i <= prefix@.len(),
            forall|k: int| 0 <= k < i ==> name@[k] == prefix@[k],
        decreases prefix.len() - i,
    {
        if name[i] != prefix[i] {
            assert(name@.subrange(0, prefix@.len() as int)[i as int] != prefix@[i as int]);
            return false;
        }
        i = i + 1;
    }
    assert(name@.subrange(0, prefix@.len() as int) =~= prefix@);
    let ok = name[n - 4] == '.' && name[n - 3] == 'd' && name[n - 2] == 'a' && name[n - 1] == 't';
    proof {
        let t = name@.subrange(n - 4, n as int);
        if ok {
            assert(t =~= seq!['.', 'd', 'a', 't']);
        } else {
            assert(t[0] != '.' || t[1] != 'd' || t[2] != 'a' || t[3] != 't');
        }
    }
    ok
}

/// Among the files `names` with their `sizes`, the one to read as the
/// client's `.dat`: the first of the largest whose name starts with
/// `prefix` and ends with `.dat`; `None` when no name does.
pub fn pick_largest_dat(names: &Vec<String>, sizes: &Vec<u64>, prefix: &str) -> (r: Option<usize>)
    requires
        names@.len() == sizes@.len(),
    ensures
        r is None <==> (forall|j: int| 0 <= j < names@.len() ==> !is_dat_named((#[trigger] names@[j])@, prefix@)),
        r matches Some(i) ==> {
            &&& i < names@.len()
            &&& is_dat_named(names@[i as int]@, prefix@)
            &&& forall|j: int| 0 <= j < names@.len() && is_dat_named((#[trigger] names@[j])@, prefix@) ==> sizes@[j] <= sizes@[i as int]
            &&& forall|j: int| 0 <= j < i && is_dat_named((#[trigger] names@[j])@, prefix@) ==> sizes@[j] < sizes@[i as int]
        },
{
    let p = chars_of(prefix);
    let mut best: Option<usize> = None;
    let mut j: usize = 0;
    while j < names.len()
        invariant
            names@.len() == sizes@.len(),
            p@ == prefix@,
            j <= names@.len(),
            best is None <==> (forall|k: int| 0 <= k < j ==> !is_dat_named((#[trigger] names@[k])@, prefix@)),
            best matches Some(i) ==> {
                &&& i < j
                &&& is_dat_named(names@[i as int]@, prefix@)
                &&& forall|k: int| 0 <= k < j && is_dat_named((#[trigger] names@[k])@, prefix@) ==> sizes@[k] <= sizes@[i as int]
                &&& forall|k: int| 0 <= k < i && is_dat_named((#[trigger] names@[k])@, prefix@) ==> sizes@[k] < sizes@[i as int]
            },
        decreases names.len() - j,
    {
        let name = chars_of(names[j].as_str());
        if dat_named(&name, &p) {
            match best {
                Some(i) => {
                    if sizes[j] > sizes[i] {
                        best = Some(j);
                    }
                },
                None => {
                    best = Some(j);
                },
            }
        }
        j = j + 1;
    }
    best
}

/// The user's choices are kept: asking for extended sprites, frame groups or
/// improved animations gives a format with them, whatever version id or
/// signatures decide the rest.
pub proof fn lemma_resolve_keeps_choices(
    version_id: Option<u32>,
    extended: bool,
    frame_groups: bool,
    improved: bool,
    detected: (u32, u32, bool),
)
    ensures
        extended ==> spec_resolve(version_id, extended, frame_groups, improved, detected).is_extended,
        frame_groups ==> spec_resolve(version_id, extended, frame_groups, improved, detected).has_frame_groups,
        improved ==> spec_resolve(version_id, extended, frame_groups, improved, detected).has_improved_animations,
        (version_id is None || version_id == Some(0u32)) && detected.2 ==> spec_resolve(
            version_id,
            extended,
            frame_groups,
            improved,
            detected,
        ).is_extended,
{
}

} // verus!
