//! Portable map identity metadata, the game modes a map advertises, and
//! which maps host which mode. Paths and executable scripts are not
//! metadata.
use vstd::prelude::*;
use vstd::string::StringSliceAdditionalSpecFns;

use crate::terrain::{menu, menu_maps, MapId};
use crate::text::{same_text, trim, trimmed};

verus! {

/// Only implemented rules can be advertised. Deathmatch is every player for
/// themselves; Team Deathmatch scores each enemy frag for the team.
#[derive(Clone, Copy, Debug, PartialEq, Eq, Structural)]
pub enum SupportedMode {
    Ctf,
    CaptureAndHold,
    Football,
    Deathmatch,
    TeamDeathmatch,
}

pub open spec fn label_text(m: SupportedMode) -> Seq<char> {
    match m {
        SupportedMode::Ctf => "Capture the Flag"@,
        SupportedMode::CaptureAndHold => "Capture & Hold"@,
        SupportedMode::Football => "Football"@,
        SupportedMode::Deathmatch => "Deathmatch"@,
        SupportedMode::TeamDeathmatch => "Team Deathmatch"@,
    }
}

pub open spec fn mode_key_text(m: SupportedMode) -> Seq<char> {
    match m {
        SupportedMode::Ctf => "ctf"@,
        SupportedMode::CaptureAndHold => "capture_and_hold"@,
        SupportedMode::Football => "football"@,
        SupportedMode::Deathmatch => "deathmatch"@,
        SupportedMode::TeamDeathmatch => "team_deathmatch"@,
    }
}

impl SupportedMode {
    pub const ALL: [SupportedMode; 5] = [
        SupportedMode::Ctf,
        SupportedMode::CaptureAndHold,
        SupportedMode::Football,
        SupportedMode::Deathmatch,
        SupportedMode::TeamDeathmatch,
    ];

    pub fn label(self) -> (r: &'static str)
        ensures
            r@ == label_text(self),
    {
        match self {
            SupportedMode::Ctf => "Capture the Flag",
            SupportedMode::CaptureAndHold => "Capture & Hold",
            SupportedMode::Football => "Football",
            SupportedMode::Deathmatch => "Deathmatch",
            SupportedMode::TeamDeathmatch => "Team Deathmatch",
        }
    }

    pub fn key(self) -> (r: &'static str)
        ensures
            r@ == mode_key_text(self),
    {
        match self {
            SupportedMode::Ctf => "ctf",
            SupportedMode::CaptureAndHold => "capture_and_hold",
            SupportedMode::Football => "football",
            SupportedMode::Deathmatch => "deathmatch",
            SupportedMode::TeamDeathmatch => "team_deathmatch",
        }
    }

    /// Modes the menus and server rotations offer. Free-for-all Deathmatch
    /// is held back for now.
    pub fn offered(self) -> (r: bool)
        ensures
            r <==> self != SupportedMode::Deathmatch,
    {
        self != SupportedMode::Deathmatch
    }

    /// Either deathmatch mode: frags score, no flags, random conditions.
    pub fn deathmatch(self) -> (r: bool)
        ensures
            r <==> (self == SupportedMode::Deathmatch || self == SupportedMode::TeamDeathmatch),
    {
        match self {
            SupportedMode::Deathmatch | SupportedMode::TeamDeathmatch => true,
            _ => false,
        }
    }
}

/// What a map's pack declares that decides its modes.
#[derive(Clone, Copy, Debug, PartialEq, Eq, Structural)]
pub struct PackInfo {
    /// The manifest declares a football field: the map is a stadium.
    pub football: bool,
    /// Capture points the manifest places.
    pub control_points: usize,
}

/// Whether a map with `pack` (None: no pack) can host `mode`: stadiums host
/// Football; other maps host CTF, Capture & Hold when they place at least
/// two capture points, and both deathmatch modes.
pub open spec fn hosts(pack: Option<PackInfo>, mode: SupportedMode) -> bool {
    let stadium = pack matches Some(p) && p.football;
    match mode {
        SupportedMode::Football => stadium,
        SupportedMode::Ctf => !stadium,
        SupportedMode::CaptureAndHold => !stadium && (pack matches Some(p) && p.control_points
            >= 2),
        SupportedMode::Deathmatch | SupportedMode::TeamDeathmatch => !stadium,
    }
}

pub fn supports(pack: Option<PackInfo>, mode: SupportedMode) -> (r: bool)
    ensures
        r == hosts(pack, mode),
        pack matches Some(p) ==> (!p.football && mode == SupportedMode::CaptureAndHold ==> (r
            <==> p.control_points >= 2)),
        pack matches Some(p) ==> (p.football ==> (r <==> mode == SupportedMode::Football)),
        pack is None ==> (r <==> (mode == SupportedMode::Ctf || mode == SupportedMode::Deathmatch
            || mode == SupportedMode::TeamDeathmatch)),
{
    proof {
        lemma_hosting_rules(pack, mode);
    }
    let stadium = match pack {
        Some(p) => p.football,
        None => false,
    };
    match mode {
        SupportedMode::Football => stadium,
        SupportedMode::Ctf => !stadium,
        SupportedMode::CaptureAndHold => !stadium && match pack {
            Some(p) => p.control_points >= 2,
            None => false,
        },
        SupportedMode::Deathmatch | SupportedMode::TeamDeathmatch => !stadium,
    }
}

/// Which maps host which mode, rule by rule: a map whose pack declares a
/// football field hosts Football and nothing else; any other map hosts CTF
/// and both deathmatch modes, and hosts Capture & Hold exactly when its pack
/// places at least two capture points; a map with no pack is no stadium and
/// places no points.
pub proof fn lemma_hosting_rules(pack: Option<PackInfo>, mode: SupportedMode)
    ensures
        pack matches Some(p) ==> (p.football ==> (hosts(pack, mode) <==> mode
            == SupportedMode::Football)),
        pack matches Some(p) ==> (!p.football ==> (hosts(pack, SupportedMode::CaptureAndHold)
            <==> p.control_points >= 2)),
        pack matches Some(p) ==> (!p.football ==> hosts(pack, SupportedMode::Ctf) && hosts(
            pack,
            SupportedMode::Deathmatch,
        ) && hosts(pack, SupportedMode::TeamDeathmatch) && !hosts(pack, SupportedMode::Football)),
        pack is None ==> (hosts(pack, mode) <==> (mode == SupportedMode::Ctf || mode
            == SupportedMode::Deathmatch || mode == SupportedMode::TeamDeathmatch)),
{
}

/// A map is offered for a mode exactly when it is listed with a pack that
/// hosts that mode: every map `maps_for` returns is listed and hosts the
/// mode, and every listed map that hosts the mode is returned.
pub proof fn lemma_hosting_members(listed: Seq<Listed>, mode: SupportedMode, id: MapId)
    ensures
        hosting(listed, mode).contains(id) <==> exists|i: int|
            0 <= i < listed.len() && (#[trigger] listed[i]).id == id && hosts(listed[i].pack, mode),
    decreases listed.len(),
{
    if listed.len() > 0 {
        let init = listed.drop_last();
        let last = listed.last();
        lemma_hosting_members(init, mode, id);
        let rest = hosting(init, mode);
        let all = hosting(listed, mode);
        assert forall|i: int| 0 <= i < init.len() implies #[trigger] init[i] == listed[i] by {}
        if all.contains(id) {
            if hosts(last.pack, mode) && last.id == id {
                assert(listed[listed.len() - 1] == last);
            } else if hosts(last.pack, mode) {
                assert(all == rest.push(last.id));
                let j = choose|j: int| 0 <= j < all.len() && all[j] == id;
                assert(j < rest.len());
                assert(rest[j] == id);
                assert(rest.contains(id));
                let i = choose|i: int|
                    0 <= i < init.len() && (#[trigger] init[i]).id == id && hosts(init[i].pack, mode);
                assert(listed[i] == init[i]);
            } else {
                assert(all == rest);
                let i = choose|i: int|
                    0 <= i < init.len() && (#[trigger] init[i]).id == id && hosts(init[i].pack, mode);
                assert(listed[i] == init[i]);
            }
        }
        if exists|i: int|
            0 <= i < listed.len() && (#[trigger] listed[i]).id == id && hosts(listed[i].pack, mode) {
            let i = choose|i: int|
                0 <= i < listed.len() && (#[trigger] listed[i]).id == id && hosts(listed[i].pack, mode);
            if i < listed.len() - 1 {
                assert(init[i] == listed[i]);
                assert(rest.contains(id));
                let j = choose|j: int| 0 <= j < rest.len() && rest[j] == id;
                if hosts(last.pack, mode) {
                    assert(all == rest.push(last.id));
                    assert(all[j] == id);
                } else {
                    assert(all == rest);
                }
                assert(all.contains(id));
            } else {
                assert(listed[i] == last);
                assert(all == rest.push(id));
                assert(all[rest.len() as int] == id);
            }
        }
    }
}

/// A listed map and what its pack declares.
#[derive(Clone, Copy, Debug, PartialEq, Eq, Structural)]
pub struct Listed {
    pub id: MapId,
    pub pack: Option<PackInfo>,
}

/// The maps of `listed` that host `mode`, in menu order.
pub open spec fn hosting(listed: Seq<Listed>, mode: SupportedMode) -> Seq<MapId>
    decreases listed.len(),
{
    if listed.len() == 0 {
        Seq::empty()
    } else {
        let rest = hosting(listed.drop_last(), mode);
        if hosts(listed.last().pack, mode) {
            rest.push(listed.last().id)
        } else {
            rest
        }
    }
}

/// The menu's maps with what each one's pack declares: `packs[i]` is the
/// pack of the `i`-th menu map (a map past the end of `packs` has none).
pub fn listed(packs: &[Option<PackInfo>]) -> (r: Vec<Listed>)
    ensures
        r@.len() == menu_maps().len(),
        forall|i: int|
            0 <= i < r@.len() ==> #[trigger] r@[i] == (Listed {
                id: menu_maps()[i],
                pack: if i < packs@.len() {
                    packs@[i]
                } else {
                    None
                },
            }),
{
    let maps = menu();
    let mut out: Vec<Listed> = Vec::new();
    let mut i: usize = 0;
    while i < maps.len()
        invariant
            maps@ == menu_maps(),
            i <= maps@.len(),
            out@.len() == i,
            forall|k: int|
                0 <= k < i ==> #[trigger] out@[k] == (Listed {
                    id: menu_maps()[k],
                    pack: if k < packs@.len() {
                        packs@[k]
                    } else {
                        None
                    },
                }),
        decreases maps.len() - i,
    {
        let pack = if i < packs.len() {
            packs[i]
        } else {
            None
        };
        out.push(Listed { id: maps[i], pack });
        i = i + 1;
    }
    out
}

/// Every listed map that hosts `mode`, in menu order.
pub fn maps_for(mode: SupportedMode, listed: &[Listed]) -> (r: Vec<MapId>)
    ensures
        r@ == hosting(listed@, mode),
{
    let mut out: Vec<MapId> = Vec::new();
    let mut i: usize = 0;
    while i < listed.len()
        invariant
            i <= listed@.len(),
            out@ == hosting(listed@.take(i as int), mode),
        decreases listed.len() - i,
    {
        assert(listed@.take(i + 1).drop_last() =~= listed@.take(i as int));
        let m = listed[i];
        if supports(m.pack, mode) {
            out.push(m.id);
        }
        i = i + 1;
    }
    assert(listed@.take(listed@.len() as int) =~= listed@);
    out
}

/// A map identity: lower-case ASCII letters, digits and single inner
/// hyphens, 1 to 48 bytes.
pub open spec fn valid_id_bytes(b: Seq<u8>) -> bool {
    &&& 0 < b.len() <= 48
    &&& forall|i: int| 0 <= i < b.len() ==> id_byte(#[trigger] b[i])
    &&& b[0] != 0x2d
    &&& b.last() != 0x2d
    &&& forall|i: int| 0 <= i < b.len() - 1 ==> !(#[trigger] b[i] == 0x2d && b[i + 1] == 0x2d)
}

pub open spec fn id_byte(c: u8) -> bool {
    (0x61 <= c && c <= 0x7a) || (0x30 <= c && c <= 0x39) || c == 0x2d
}

pub fn valid_id(id: &str) -> (r: bool)
    ensures
        r == valid_id_bytes(id.spec_bytes()),
{
    let b = id.as_bytes();
    let n = b.len();
    if n == 0 || n > 48 {
        return false;
    }
    let mut i: usize = 0;
    while i < n
        invariant
            n == b@.len(),
            b@ == id.spec_bytes(),
            0 < n <= 48,
            i <= n,
            forall|j: int| 0 <= j < i ==> id_byte(#[trigger] b@[j]),
            forall|j: int| 0 <= j < i - 1 ==> !(#[trigger] b@[j] == 0x2d && b@[j + 1] == 0x2d),
        decreases n - i,
    {
        let c = b[i];
        if !((0x61 <= c && c <= 0x7a) || (0x30 <= c && c <= 0x39) || c == 0x2d) {
            assert(!id_byte(b@[i as int]));
            return false;
        }
        if i > 0 && c == 0x2d && b[i - 1] == 0x2d {
            assert(b@[i - 1] == 0x2d && b@[(i - 1) + 1] == 0x2d);
            return false;
        }
        i = i + 1;
    }
    b[0] != 0x2d && b[n - 1] != 0x2d
}

/// Why a map descriptor is refused.
#[derive(Clone, Copy, Debug, PartialEq, Eq, Structural)]
pub enum DescriptorError {
    Identity,
    DisplayName,
    Modes,
    Dimensions,
    SpawnRegion,
}

impl DescriptorError {
    pub open spec fn message_text(self) -> Seq<char> {
        match self {
            DescriptorError::Identity => "invalid map identity/schema"@,
            DescriptorError::DisplayName => "invalid map display name"@,
            DescriptorError::Modes => "invalid supported modes"@,
            DescriptorError::Dimensions => "invalid map dimensions"@,
            DescriptorError::SpawnRegion => "invalid team spawn region"@,
        }
    }

    pub fn message(self) -> (r: &'static str)
        ensures
            r@ == self.message_text(),
    {
        match self {
            DescriptorError::Identity => "invalid map identity/schema",
            DescriptorError::DisplayName => "invalid map display name",
            DescriptorError::Modes => "invalid supported modes",
            DescriptorError::Dimensions => "invalid map dimensions",
            DescriptorError::SpawnRegion => "invalid team spawn region",
        }
    }
}

/// A map's identity metadata. The extent and the team spawn regions are
/// measured by whoever reads the descriptor: `extent_in_range` says the
/// extent is finite and 64..=8192 metres, `spawns_in_region` that every
/// spawn coordinate is finite, horizontally within the extent and at most
/// 10000 m from the datum vertically.
#[derive(Debug)]
pub struct Descriptor {
    pub schema: u32,
    pub id: String,
    pub name: String,
    pub revision: u32,
    pub modes: Vec<SupportedMode>,
    pub resolution: u16,
    pub extent_in_range: bool,
    pub spawns_in_region: bool,
}

/// A display name: no surrounding white space, 1 to 80 bytes, printable
/// ASCII only.
pub open spec fn valid_name_text(name: Seq<char>) -> bool {
    &&& trimmed(name) == name
    &&& name.len() > 0
    &&& (vstd::utf8::encode_utf8(name).len() as usize) <= 80
    &&& forall|i: int| 0 <= i < name.len() ==> 0x20 <= (#[trigger] name[i] as u32) && (name[i] as u32) < 0x7f
}

/// Some mode is listed twice.
pub open spec fn repeats(modes: Seq<SupportedMode>) -> bool {
    exists|i: int, j: int| 0 <= i < j < modes.len() && #[trigger] modes[i] == #[trigger] modes[j]
}

/// The first problem with a descriptor, in the order the fields are checked.
pub open spec fn descriptor_check(d: Descriptor) -> Result<(), DescriptorError> {
    if d.schema != 1 || !valid_id_bytes(vstd::utf8::encode_utf8(d.id@)) || d.revision == 0 {
        Err(DescriptorError::Identity)
    } else if !valid_name_text(d.name@) {
        Err(DescriptorError::DisplayName)
    } else if d.modes@.len() == 0 || d.modes@.len() > 8 || repeats(d.modes@) {
        Err(DescriptorError::Modes)
    } else if !d.extent_in_range || !(2 <= d.resolution && d.resolution <= 256) {
        Err(DescriptorError::Dimensions)
    } else if !d.spawns_in_region {
        Err(DescriptorError::SpawnRegion)
    } else {
        Ok(())
    }
}

fn printable_ascii(name: &str) -> (r: bool)
    ensures
        r == forall|i: int| 0 <= i < name@.len() ==> 0x20 <= (#[trigger] name@[i] as u32) && (name@[i] as u32) < 0x7f,
{
    let n = name.unicode_len();
    let mut i: usize = 0;
    while i < n
        invariant
            n == name@.len(),
            i <= n,
            forall|j: int| 0 <= j < i ==> 0x20 <= (#[trigger] name@[j] as u32) && (name@[j] as u32) < 0x7f,
        decreases n - i,
    {
        let v = name.get_char(i) as u32;
        if v < 0x20 || v >= 0x7f {
            return false;
        }
        i = i + 1;
    }
    true
}

fn has_repeat(modes: &Vec<SupportedMode>) -> (r: bool)
    ensures
        r == repeats(modes@),
{
    let n = modes.len();
    let mut j: usize = 0;
    while j < n
        invariant
            n == modes@.len(),
            j <= n,
            forall|a: int, b: int| 0 <= a < b < j ==> modes@[a] != modes@[b],
        decreases n - j,
    {
        let mut i: usize = 0;
        while i < j
            invariant
                n == modes@.len(),
                i <= j < n,
                forall|a: int, b: int| 0 <= a < b < j ==> modes@[a] != modes@[b],
                forall|a: int| 0 <= a < i ==> modes@[a] != modes@[j as int],
            decreases j - i,
        {
            if modes[i] == modes[j] {
                assert(modes@[i as int] == modes@[j as int]);
                return true;
            }
            i = i + 1;
        }
        j = j + 1;
    }
    false
}

impl Descriptor {
    pub fn validate(&self) -> (r: Result<(), DescriptorError>)
        ensures
            r == descriptor_check(*self),
    {
        if self.schema != 1 || !valid_id(self.id.as_str()) || self.revision == 0 {
            return Err(DescriptorError::Identity);
        }
        let name = self.name.as_str();
        if !same_text(trim(name), name) || name.unicode_len() == 0 || name.len() > 80
            || !printable_ascii(name) {
            return Err(DescriptorError::DisplayName);
        }
        if self.modes.len() == 0 || self.modes.len() > 8 || has_repeat(&self.modes) {
            return Err(DescriptorError::Modes);
        }
        if !self.extent_in_range || !(2 <= self.resolution && self.resolution <= 256) {
            return Err(DescriptorError::Dimensions);
        }
        if !self.spawns_in_region {
            return Err(DescriptorError::SpawnRegion);
        }
        Ok(())
    }
}

/// Why a catalog is refused.
#[derive(Clone, Copy, Debug, PartialEq, Eq, Structural)]
pub enum CatalogError {
    Size,
    Invalid(DescriptorError),
    Duplicate,
}

impl CatalogError {
    pub open spec fn message_text(self) -> Seq<char> {
        match self {
            CatalogError::Size => "invalid catalog size"@,
            CatalogError::Invalid(e) => e.message_text(),
            CatalogError::Duplicate => "duplicate map identity"@,
        }
    }

    pub fn message(self) -> (r: &'static str)
        ensures
            r@ == self.message_text(),
    {
        match self {
            CatalogError::Size => "invalid catalog size",
            CatalogError::Invalid(e) => e.message(),
            CatalogError::Duplicate => "duplicate map identity",
        }
    }
}

/// The first problem among `maps[i..]`, given that `maps[..i]` passed:
/// each map must be valid and must not repeat an earlier identity.
pub open spec fn catalog_scan(maps: Seq<Descriptor>, i: int) -> Result<(), CatalogError>
    decreases maps.len() - i,
{
    if i < 0 || i >= maps.len() {
        Ok(())
    } else if descriptor_check(maps[i]) is Err {
        Err(CatalogError::Invalid(descriptor_check(maps[i])->Err_0))
    } else if exists|j: int| 0 <= j < i && #[trigger] maps[j].id@ == maps[i].id@ {
        Err(CatalogError::Duplicate)
    } else {
        catalog_scan(maps, i + 1)
    }
}

pub open spec fn catalog_check(maps: Seq<Descriptor>) -> Result<(), CatalogError> {
    if maps.len() == 0 || maps.len() > 64 {
        Err(CatalogError::Size)
    } else {
        catalog_scan(maps, 0)
    }
}

/// Validate before installing a catalog: duplicate identities must never
/// shadow a map.
pub fn validate_catalog(maps: &[Descriptor]) -> (r: Result<(), CatalogError>)
    ensures
        r == catalog_check(maps@),
{
    let n = maps.len();
    if n == 0 || n > 64 {
        return Err(CatalogError::Size);
    }
    let mut i: usize = 0;
    while i < n
        invariant
            n == maps@.len(),
            0 < n <= 64,
            i <= n,
            catalog_scan(maps@, 0) == catalog_scan(maps@, i as int),
        decreases n - i,
    {
        match maps[i].validate() {
            Err(e) => {
                assert(catalog_scan(maps@, i as int) == Err::<(), CatalogError>(CatalogError::Invalid(e)));
                return Err(CatalogError::Invalid(e));
            },
            Ok(()) => {},
        }
        let mut j: usize = 0;
        while j < i
            invariant
                n == maps@.len(),
                0 < n <= 64,
                j <= i < n,
                catalog_scan(maps@, 0) == catalog_scan(maps@, i as int),
                descriptor_check(maps@[i as int]) is Ok,
                forall|k: int| 0 <= k < j ==> maps@[k].id@ != maps@[i as int].id@,
            decreases i - j,
        {
            if maps[j].id == maps[i].id {
                assert(maps@[j as int].id@ == maps@[i as int].id@);
                assert(catalog_scan(maps@, i as int) == Err::<(), CatalogError>(CatalogError::Duplicate));
                return Err(CatalogError::Duplicate);
            }
            j = j + 1;
        }
        assert(catalog_scan(maps@, i as int) == catalog_scan(maps@, i + 1));
        i = i + 1;
    }
    Ok(())
}

} // verus!
