//! The legacy client versions the converter knows, and how a version is
//! found by id or by file signatures.
use vstd::prelude::*;

verus! {

/// A client version the converter supports: its id (e.g. 860), name, the
/// signatures of its `.dat` and `.spr`, its metadata structure (1 to 6) and
/// the format options it uses by default.
pub struct SupportedLegacyVersion {
    pub id: u32,
    pub name: String,
    pub dat_signature: u32,
    pub spr_signature: u32,
    pub structure: u8,
    pub default_extended: bool,
    pub default_frame_groups: bool,
    pub default_improved_animations: bool,
}

/// The mathematical value of a `SupportedLegacyVersion`.
pub struct VersionView {
    pub id: u32,
    pub name: Seq<char>,
    pub dat_signature: u32,
    pub spr_signature: u32,
    pub structure: u8,
    pub default_extended: bool,
    pub default_frame_groups: bool,
    pub default_improved_animations: bool,
}

impl View for SupportedLegacyVersion {
    type V = VersionView;

    open spec fn view(&self) -> VersionView {
        VersionView {
            id: self.id,
            name: self.name@,
            dat_signature: self.dat_signature,
            spr_signature: self.spr_signature,
            structure: self.structure,
            default_extended: self.default_extended,
            default_frame_groups: self.default_frame_groups,
            default_improved_animations: self.default_improved_animations,
        }
    }
}

/// How many versions the table holds.
pub const VERSION_COUNT: usize = 26;

/// Row `i` of the version table, oldest client first.
pub open spec fn version_row(i: int) -> VersionView {
    if i == 0 {
        VersionView { id: 710, name: "Tibia 7.10"@, dat_signature: 0x3DFF4B2A, spr_signature: 0x3DFF4AEB, structure: 1, default_extended: false, default_frame_groups: false, default_improved_animations: false }
    } else if i == 1 {
        VersionView { id: 730, name: "Tibia 7.30"@, dat_signature: 0x411A6233, spr_signature: 0x411A6279, structure: 1, default_extended: false, default_frame_groups: false, default_improved_animations: false }
    } else if i == 2 {
        VersionView { id: 740, name: "Tibia 7.40"@, dat_signature: 0x41BF619C, spr_signature: 0x41B9EA86, structure: 2, default_extended: false, default_frame_groups: false, default_improved_animations: false }
    } else if i == 3 {
        VersionView { id: 750, name: "Tibia 7.50"@, dat_signature: 0x42F81973, spr_signature: 0x42F81949, structure: 2, default_extended: false, default_frame_groups: false, default_improved_animations: false }
    } else if i == 4 {
        VersionView { id: 755, name: "Tibia 7.55"@, dat_signature: 0x437B2B8F, spr_signature: 0x434F9CDE, structure: 3, default_extended: false, default_frame_groups: false, default_improved_animations: false }
    } else if i == 5 {
        VersionView { id: 760, name: "Tibia 7.60 / 7.70"@, dat_signature: 0x439D5A33, spr_signature: 0x439852BE, structure: 3, default_extended: false, default_frame_groups: false, default_improved_animations: false }
    } else if i == 6 {
        VersionView { id: 780, name: "Tibia 7.80"@, dat_signature: 0x44CE4743, spr_signature: 0x44CE4206, structure: 4, default_extended: false, default_frame_groups: false, default_improved_animations: false }
    } else if i == 7 {
        VersionView { id: 790, name: "Tibia 7.90"@, dat_signature: 0x457D854E, spr_signature: 0x457957C8, structure: 4, default_extended: false, default_frame_groups: false, default_improved_animations: false }
    } else if i == 8 {
        VersionView { id: 792, name: "Tibia 7.92"@, dat_signature: 0x459E7B73, spr_signature: 0x45880FE8, structure: 4, default_extended: false, default_frame_groups: false, default_improved_animations: false }
    } else if i == 9 {
        VersionView { id: 800, name: "Tibia 8.00"@, dat_signature: 0x467FD7E6, spr_signature: 0x467F9E74, structure: 4, default_extended: false, default_frame_groups: false, default_improved_animations: false }
    } else if i == 10 {
        VersionView { id: 810, name: "Tibia 8.10"@, dat_signature: 0x475D3747, spr_signature: 0x475D0B01, structure: 4, default_extended: false, default_frame_groups: false, default_improved_animations: false }
    } else if i == 11 {
        VersionView { id: 820, name: "Tibia 8.20"@, dat_signature: 0x486905AA, spr_signature: 0x4868ECC9, structure: 4, default_extended: false, default_frame_groups: false, default_improved_animations: false }
    } else if i == 12 {
        VersionView { id: 830, name: "Tibia 8.30"@, dat_signature: 0x48DA1FB6, spr_signature: 0x48C8E712, structure: 4, default_extended: false, default_frame_groups: false, default_improved_animations: false }
    } else if i == 13 {
        VersionView { id: 840, name: "Tibia 8.40"@, dat_signature: 0x493D607A, spr_signature: 0x493D4E7C, structure: 4, default_extended: false, default_frame_groups: false, default_improved_animations: false }
    } else if i == 14 {
        VersionView { id: 854, name: "Tibia 8.54"@, dat_signature: 0x4B1E2CAA, spr_signature: 0x4B1E2C87, structure: 4, default_extended: false, default_frame_groups: false, default_improved_animations: false }
    } else if i == 15 {
        VersionView { id: 860, name: "Tibia 8.60"@, dat_signature: 0x4C28B721, spr_signature: 0x4C220594, structure: 5, default_extended: false, default_frame_groups: false, default_improved_animations: false }
    } else if i == 16 {
        VersionView { id: 870, name: "Tibia 8.70"@, dat_signature: 0x4CFE22C5, spr_signature: 0x4CFD078A, structure: 5, default_extended: false, default_frame_groups: false, default_improved_animations: false }
    } else if i == 17 {
        VersionView { id: 910, name: "Tibia 9.10"@, dat_signature: 0x4E12DAFF, spr_signature: 0x4E12DB27, structure: 5, default_extended: false, default_frame_groups: false, default_improved_animations: false }
    } else if i == 18 {
        VersionView { id: 960, name: "Tibia 9.60"@, dat_signature: 0x4FFA74CC, spr_signature: 0x4FFA74F9, structure: 5, default_extended: true, default_frame_groups: true, default_improved_animations: false }
    } else if i == 19 {
        VersionView { id: 986, name: "Tibia 9.86"@, dat_signature: 0x5170E904, spr_signature: 0x5170E96F, structure: 5, default_extended: true, default_frame_groups: true, default_improved_animations: false }
    } else if i == 20 {
        VersionView { id: 1010, name: "Tibia 10.10"@, dat_signature: 0x51E3F8C3, spr_signature: 0x51E3F8E9, structure: 6, default_extended: true, default_frame_groups: true, default_improved_animations: true }
    } else if i == 21 {
        VersionView { id: 1035, name: "Tibia 10.35"@, dat_signature: 0x52FDFC2C, spr_signature: 0x52FDFC54, structure: 6, default_extended: true, default_frame_groups: true, default_improved_animations: true }
    } else if i == 22 {
        VersionView { id: 1070, name: "Tibia 10.70"@, dat_signature: 0x5481BB97, spr_signature: 0x5481BC06, structure: 6, default_extended: true, default_frame_groups: true, default_improved_animations: true }
    } else if i == 23 {
        VersionView { id: 1098, name: "Tibia 10.98"@, dat_signature: 0x42A3, spr_signature: 0x57BBD603, structure: 6, default_extended: true, default_frame_groups: true, default_improved_animations: true }
    } else if i == 24 {
        VersionView { id: 1099, name: "Tibia 10.99"@, dat_signature: 0x4347, spr_signature: 0x57FF106B, structure: 6, default_extended: true, default_frame_groups: true, default_improved_animations: true }
    } else {
        VersionView { id: 1310, name: "Tibia 13.10"@, dat_signature: 0x4A10, spr_signature: 0x59E48E02, structure: 6, default_extended: true, default_frame_groups: true, default_improved_animations: true }
    }
}

/// The version table.
pub open spec fn version_table() -> Seq<VersionView> {
    Seq::new(VERSION_COUNT as nat, |i: int| version_row(i))
}

fn version_at(i: usize) -> (r: SupportedLegacyVersion)
    requires
        i < VERSION_COUNT,
    ensures
        r@ == version_row(i as int),
{
    if i == 0 {
        SupportedLegacyVersion { id: 710, name: String::from_str("Tibia 7.10"), dat_signature: 0x3DFF4B2A, spr_signature: 0x3DFF4AEB, structure: 1, default_extended: false, default_frame_groups: false, default_improved_animations: false }
    } else if i == 1 {
        SupportedLegacyVersion { id: 730, name: String::from_str("Tibia 7.30"), dat_signature: 0x411A6233, spr_signature: 0x411A6279, structure: 1, default_extended: false, default_frame_groups: false, default_improved_animations: false }
    } else if i == 2 {
        SupportedLegacyVersion { id: 740, name: String::from_str("Tibia 7.40"), dat_signature: 0x41BF619C, spr_signature: 0x41B9EA86, structure: 2, default_extended: false, default_frame_groups: false, default_improved_animations: false }
    } else if i == 3 {
        SupportedLegacyVersion { id: 750, name: String::from_str("Tibia 7.50"), dat_signature: 0x42F81973, spr_signature: 0x42F81949, structure: 2, default_extended: false, default_frame_groups: false, default_improved_animations: false }
    } else if i == 4 {
        SupportedLegacyVersion { id: 755, name: String::from_str("Tibia 7.55"), dat_signature: 0x437B2B8F, spr_signature: 0x434F9CDE, structure: 3, default_extended: false, default_frame_groups: false, default_improved_animations: false }
    } else if i == 5 {
        SupportedLegacyVersion { id: 760, name: String::from_str("Tibia 7.60 / 7.70"), dat_signature: 0x439D5A33, spr_signature: 0x439852BE, structure: 3, default_extended: false, default_frame_groups: false, default_improved_animations: false }
    } else if i == 6 {
        SupportedLegacyVersion { id: 780, name: String::from_str("Tibia 7.80"), dat_signature: 0x44CE4743, spr_signature: 0x44CE4206, structure: 4, default_extended: false, default_frame_groups: false, default_improved_animations: false }
    } else if i == 7 {
        SupportedLegacyVersion { id: 790, name: String::from_str("Tibia 7.90"), dat_signature: 0x457D854E, spr_signature: 0x457957C8, structure: 4, default_extended: false, default_frame_groups: false, default_improved_animations: false }
    } else if i == 8 {
        SupportedLegacyVersion { id: 792, name: String::from_str("Tibia 7.92"), dat_signature: 0x459E7B73, spr_signature: 0x45880FE8, structure: 4, default_extended: false, default_frame_groups: false, default_improved_animations: false }
    } else if i == 9 {
        SupportedLegacyVersion { id: 800, name: String::from_str("Tibia 8.00"), dat_signature: 0x467FD7E6, spr_signature: 0x467F9E74, structure: 4, default_extended: false, default_frame_groups: false, default_improved_animations: false }
    } else if i == 10 {
        SupportedLegacyVersion { id: 810, name: String::from_str("Tibia 8.10"), dat_signature: 0x475D3747, spr_signature: 0x475D0B01, structure: 4, default_extended: false, default_frame_groups: false, default_improved_animations: false }
    } else if i == 11 {
        SupportedLegacyVersion { id: 820, name: String::from_str("Tibia 8.20"), dat_signature: 0x486905AA, spr_signature: 0x4868ECC9, structure: 4, default_extended: false, default_frame_groups: false, default_improved_animations: false }
    } else if i == 12 {
        SupportedLegacyVersion { id: 830, name: String::from_str("Tibia 8.30"), dat_signature: 0x48DA1FB6, spr_signature: 0x48C8E712, structure: 4, default_extended: false, default_frame_groups: false, default_improved_animations: false }
    } else if i == 13 {
        SupportedLegacyVersion { id: 840, name: String::from_str("Tibia 8.40"), dat_signature: 0x493D607A, spr_signature: 0x493D4E7C, structure: 4, default_extended: false, default_frame_groups: false, default_improved_animations: false }
    } else if i == 14 {
        SupportedLegacyVersion { id: 854, name: String::from_str("Tibia 8.54"), dat_signature: 0x4B1E2CAA, spr_signature: 0x4B1E2C87, structure: 4, default_extended: false, default_frame_groups: false, default_improved_animations: false }
    } else if i == 15 {
        SupportedLegacyVersion { id: 860, name: String::from_str("Tibia 8.60"), dat_signature: 0x4C28B721, spr_signature: 0x4C220594, structure: 5, default_extended: false, default_frame_groups: false, default_improved_animations: false }
    } else if i == 16 {
        SupportedLegacyVersion { id: 870, name: String::from_str("Tibia 8.70"), dat_signature: 0x4CFE22C5, spr_signature: 0x4CFD078A, structure: 5, default_extended: false, default_frame_groups: false, default_improved_animations: false }
    } else if i == 17 {
        SupportedLegacyVersion { id: 910, name: String::from_str("Tibia 9.10"), dat_signature: 0x4E12DAFF, spr_signature: 0x4E12DB27, structure: 5, default_extended: false, default_frame_groups: false, default_improved_animations: false }
    } else if i == 18 {
        SupportedLegacyVersion { id: 960, name: String::from_str("Tibia 9.60"), dat_signature: 0x4FFA74CC, spr_signature: 0x4FFA74F9, structure: 5, default_extended: true, default_frame_groups: true, default_improved_animations: false }
    } else if i == 19 {
        SupportedLegacyVersion { id: 986, name: String::from_str("Tibia 9.86"), dat_signature: 0x5170E904, spr_signature: 0x5170E96F, structure: 5, default_extended: true, default_frame_groups: true, default_improved_animations: false }
    } else if i == 20 {
        SupportedLegacyVersion { id: 1010, name: String::from_str("Tibia 10.10"), dat_signature: 0x51E3F8C3, spr_signature: 0x51E3F8E9, structure: 6, default_extended: true, default_frame_groups: true, default_improved_animations: true }
    } else if i == 21 {
        SupportedLegacyVersion { id: 1035, name: String::from_str("Tibia 10.35"), dat_signature: 0x52FDFC2C, spr_signature: 0x52FDFC54, structure: 6, default_extended: true, default_frame_groups: true, default_improved_animations: true }
    } else if i == 22 {
        SupportedLegacyVersion { id: 1070, name: String::from_str("Tibia 10.70"), dat_signature: 0x5481BB97, spr_signature: 0x5481BC06, structure: 6, default_extended: true, default_frame_groups: true, default_improved_animations: true }
    } else if i == 23 {
        SupportedLegacyVersion { id: 1098, name: String::from_str("Tibia 10.98"), dat_signature: 0x42A3, spr_signature: 0x57BBD603, structure: 6, default_extended: true, default_frame_groups: true, default_improved_animations: true }
    } else if i == 24 {
        SupportedLegacyVersion { id: 1099, name: String::from_str("Tibia 10.99"), dat_signature: 0x4347, spr_signature: 0x57FF106B, structure: 6, default_extended: true, default_frame_groups: true, default_improved_animations: true }
    } else {
        SupportedLegacyVersion { id: 1310, name: String::from_str("Tibia 13.10"), dat_signature: 0x4A10, spr_signature: 0x59E48E02, structure: 6, default_extended: true, default_frame_groups: true, default_improved_animations: true }
    }
}

/// All supported versions, oldest first.
pub fn supported_versions() -> (r: Vec<SupportedLegacyVersion>)
    ensures
        r@.map_values(|v: SupportedLegacyVersion| v@) == version_table(),
{
    let mut r: Vec<SupportedLegacyVersion> = Vec::new();
    let mut i: usize = 0;
    while i < VERSION_COUNT
        invariant
            i <= VERSION_COUNT,
            r@.len() == i,
            forall|j: int| 0 <= j < i ==> r@[j]@ == version_row(j),
        decreases VERSION_COUNT - i,
    {
        r.push(version_at(i));
        i = i + 1;
    }
    proof {
        assert(r@.map_values(|v: SupportedLegacyVersion| v@) =~= version_table());
    }
    r
}

/// The first row of the table from row `i` on that satisfies `p`.
pub open spec fn first_match(p: spec_fn(VersionView) -> bool, i: nat) -> Option<VersionView>
    decreases VERSION_COUNT - i,
{
    if i >= VERSION_COUNT {
        None
    } else if p(version_row(i as int)) {
        Some(version_row(i as int))
    } else {
        first_match(p, i + 1)
    }
}

/// The version has id `id`.
pub open spec fn with_id(id: u32) -> spec_fn(VersionView) -> bool {
    |v: VersionView| v.id == id
}

/// The version has both signatures.
pub open spec fn with_signatures(dat_sig: u32, spr_sig: u32) -> spec_fn(VersionView) -> bool {
    |v: VersionView| v.dat_signature == dat_sig && v.spr_signature == spr_sig
}

/// The version has this `.dat` signature.
pub open spec fn with_dat_signature(dat_sig: u32) -> spec_fn(VersionView) -> bool {
    |v: VersionView| v.dat_signature == dat_sig
}

/// The version has this `.spr` signature.
pub open spec fn with_spr_signature(spr_sig: u32) -> spec_fn(VersionView) -> bool {
    |v: VersionView| v.spr_signature == spr_sig
}

/// The view of an optional version.
pub open spec fn opt_version(r: Option<SupportedLegacyVersion>) -> Option<VersionView> {
    match r {
        Some(v) => Some(v@),
        None => None,
    }
}

/// Which predicate a search uses.
#[derive(Clone, Copy, PartialEq, Eq, Structural, Debug)]
enum Search {
    Id(u32),
    Signatures(u32, u32),
    Dat(u32),
    Spr(u32),
}

spec fn search_pred(s: Search) -> spec_fn(VersionView) -> bool {
    match s {
        Search::Id(id) => with_id(id),
        Search::Signatures(d, p) => with_signatures(d, p),
        Search::Dat(d) => with_dat_signature(d),
        Search::Spr(p) => with_spr_signature(p),
    }
}

fn matches_search(s: Search, v: &SupportedLegacyVersion) -> (r: bool)
    ensures
        r == (search_pred(s))(v@),
{
    match s {
        Search::Id(id) => v.id == id,
        Search::Signatures(d, p) => v.dat_signature == d && v.spr_signature == p,
        Search::Dat(d) => v.dat_signature == d,
        Search::Spr(p) => v.spr_signature == p,
    }
}

fn find_version(s: Search) -> (r: Option<SupportedLegacyVersion>)
    ensures
        opt_version(r) == first_match(search_pred(s), 0),
{
    let mut i: usize = 0;
    while i < VERSION_COUNT
        invariant
            i <= VERSION_COUNT,
            first_match(search_pred(s), 0) == first_match(search_pred(s), i as nat),
        decreases VERSION_COUNT - i,
    {
        let v = version_at(i);
        if matches_search(s, &v) {
            return Some(v);
        }
        i = i + 1;
    }
    None
}

/// The first version with this id.
pub fn get_version_by_id(id: u32) -> (r: Option<SupportedLegacyVersion>)
    ensures
        opt_version(r) == first_match(with_id(id), 0),
{
    find_version(Search::Id(id))
}

/// The version whose `.dat` and `.spr` signatures are both these; failing
/// that, the first with this `.dat` signature; failing that, the first with
/// this `.spr` signature.
pub open spec fn spec_detect_version(dat_sig: u32, spr_sig: u32) -> Option<VersionView> {
    match first_match(with_signatures(dat_sig, spr_sig), 0) {
        Some(v) => Some(v),
        None => match first_match(with_dat_signature(dat_sig), 0) {
            Some(v) => Some(v),
            None => first_match(with_spr_signature(spr_sig), 0),
        },
    }
}

/// Find the version that matches a pair of file signatures.
pub fn detect_version_from_signatures(dat_sig: u32, spr_sig: u32) -> (r: Option<SupportedLegacyVersion>)
    ensures
        opt_version(r) == spec_detect_version(dat_sig, spr_sig),
{
    if let Some(v) = find_version(Search::Signatures(dat_sig, spr_sig)) {
        return Some(v);
    }
    if let Some(v) = find_version(Search::Dat(dat_sig)) {
        return Some(v);
    }
    find_version(Search::Spr(spr_sig))
}

/// The metadata structure of a version: the table's, else by id range
/// (up to 730: 1, 750: 2, 772: 3, 854: 4, 986: 5, beyond: 6).
pub open spec fn spec_structure(version_id: u32) -> u8 {
    match first_match(with_id(version_id), 0) {
        Some(v) => v.structure,
        None => if version_id <= 730 {
            1
        } else if version_id <= 750 {
            2
        } else if version_id <= 772 {
            3
        } else if version_id <= 854 {
            4
        } else if version_id <= 986 {
            5
        } else {
            6
        },
    }
}

/// Determine the metadata structure (1 to 6) of a client version.
pub fn get_structure_for_version(version_id: u32) -> (r: u8)
    ensures
        r == spec_structure(version_id),
{
    if let Some(v) = get_version_by_id(version_id) {
        return v.structure;
    }
    if version_id <= 730 {
        1
    } else if version_id <= 750 {
        2
    } else if version_id <= 772 {
        3
    } else if version_id <= 854 {
        4
    } else if version_id <= 986 {
        5
    } else {
        6
    }
}

/// Every structure is between 1 and 6.
pub proof fn lemma_structure_in_range(version_id: u32)
    ensures
        1 <= spec_structure(version_id) <= 6,
{
    lemma_first_match_in_table(with_id(version_id), 0);
}

/// A match is a row of the table that satisfies the predicate.
pub proof fn lemma_first_match_in_table(p: spec_fn(VersionView) -> bool, i: nat)
    ensures
        first_match(p, i) matches Some(v) ==> p(v) && exists|j: int| 0 <= j < VERSION_COUNT && version_row(j) == v,
        first_match(p, i) matches Some(v) ==> 1 <= v.structure <= 6,
    decreases VERSION_COUNT - i,
{
    if i < VERSION_COUNT {
        lemma_first_match_in_table(p, i + 1);
        if p(version_row(i as int)) {
            assert(version_row(i as int) == version_row(i as int));
        }
    }
}

/// The metadata structure the ranges of client versions give: up to 7.30
/// structure 1, up to 7.50 structure 2, up to 7.72 structure 3, up to 8.54
/// structure 4, up to 9.86 structure 5, and 6 after.
pub open spec fn structure_by_range(version_id: u32) -> u8 {
    if version_id <= 730 { 1 } else if version_id <= 750 { 2 } else if version_id <= 772 { 3 } else if version_id
        <= 854 { 4 } else if version_id <= 986 { 5 } else { 6 }
}

proof fn lemma_rows_follow_ranges(j: int)
    requires
        0 <= j < VERSION_COUNT,
    ensures
        version_row(j).structure == structure_by_range(version_row(j).id),
        version_row(j).default_extended == (version_row(j).id >= 960),
        version_row(j).default_frame_groups == (version_row(j).id >= 960),
        version_row(j).default_improved_animations == (version_row(j).id >= 1010),
{
}

/// Every supported version's metadata structure is the one its version
/// range gives, whether the version is in the table or not; and a version
/// of the table uses extended sprites and frame groups by default exactly
/// from 9.60 on, and improved animations from 10.10 on.
pub proof fn lemma_structure_by_range(version_id: u32)
    ensures
        spec_structure(version_id) == structure_by_range(version_id),
        first_match(with_id(version_id), 0) matches Some(v) ==> v.id == version_id && v.default_extended == (version_id
            >= 960) && v.default_frame_groups == (version_id >= 960) && v.default_improved_animations == (version_id >= 1010),
{
    lemma_first_match_in_table(with_id(version_id), 0);
    if let Some(v) = first_match(with_id(version_id), 0) {
        let j = choose|j: int| 0 <= j < VERSION_COUNT && version_row(j) == v;
        lemma_rows_follow_ranges(j);
    }
}

} // verus!
