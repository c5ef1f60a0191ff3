//! Armor classes, ammunition, inventory purchases and the ammo packs the
//! dead drop. Every weapon has limited ammunition, refilled at an
//! inventory station.
use vstd::prelude::*;

use crate::deploy::DeployKind;
use crate::throwables::{max_throwables, throwable_limit};

verus! {

/// Which armor a player wears. Chosen at an inventory station; kept across
/// deaths.
#[derive(Clone, Copy, Debug, PartialEq, Eq, Structural)]
pub enum ArmorClass {
    Light,
    Heavy,
}

/// Ammunition per weapon slot: disc, chaingun, grenades or mortar shells,
/// and the heavy armor's railgun.
pub open spec fn ammo_limit(class: ArmorClass) -> [u16; 4] {
    match class {
        ArmorClass::Light => [15, 100, 10, 0],
        ArmorClass::Heavy => [25, 200, 10, 20],
    }
}

pub fn max_ammo(class: ArmorClass) -> (r: [u16; 4])
    ensures
        r == ammo_limit(class),
{
    match class {
        ArmorClass::Light => [15, 100, 10, 0],
        ArmorClass::Heavy => [25, 200, 10, 20],
    }
}

/// Heavy armor's third weapon is the mortar instead of the grenade launcher.
pub open spec fn mortar(class: ArmorClass) -> bool {
    class == ArmorClass::Heavy
}

pub fn has_mortar(class: ArmorClass) -> (r: bool)
    ensures
        r == mortar(class),
{
    match class {
        ArmorClass::Heavy => true,
        ArmorClass::Light => false,
    }
}

/// Inventory purchases, sent as command intents.
pub const BUY_NONE: u8 = 0;
pub const BUY_LIGHT: u8 = 1;
pub const BUY_HEAVY: u8 = 2;
pub const BUY_TURRET: u8 = 3;
pub const BUY_WALL: u8 = 4;
pub const BUY_FIELD: u8 = 5;
pub const BUY_AMMO: u8 = 6;
/// The rifle for your armor: the laser in light, the railgun in heavy.
pub const BUY_RIFLE: u8 = 7;

/// What a purchase gives.
#[derive(Clone, Copy, Debug, PartialEq, Eq, Structural)]
pub enum Purchase {
    /// Change to this armor and refill every weapon.
    Armor(ArmorClass),
    /// Take the rifle and refill every weapon.
    Rifle,
    /// Carry this deployable pack.
    Pack(DeployKind),
}

pub open spec fn purchase_of(buy: u8) -> Option<Purchase> {
    if buy == BUY_LIGHT {
        Some(Purchase::Armor(ArmorClass::Light))
    } else if buy == BUY_HEAVY {
        Some(Purchase::Armor(ArmorClass::Heavy))
    } else if buy == BUY_RIFLE {
        Some(Purchase::Rifle)
    } else if buy == BUY_TURRET {
        Some(Purchase::Pack(DeployKind::Turret))
    } else if buy == BUY_WALL {
        Some(Purchase::Pack(DeployKind::Wall))
    } else if buy == BUY_FIELD {
        Some(Purchase::Pack(DeployKind::Field))
    } else if buy == BUY_AMMO {
        Some(Purchase::Pack(DeployKind::Ammo))
    } else {
        None
    }
}

/// The purchase a buy intent asks for; None for no purchase or an unknown code.
pub fn purchase(buy: u8) -> (r: Option<Purchase>)
    ensures
        r == purchase_of(buy),
{
    match buy {
        BUY_LIGHT => Some(Purchase::Armor(ArmorClass::Light)),
        BUY_HEAVY => Some(Purchase::Armor(ArmorClass::Heavy)),
        BUY_RIFLE => Some(Purchase::Rifle),
        BUY_TURRET => Some(Purchase::Pack(DeployKind::Turret)),
        BUY_WALL => Some(Purchase::Pack(DeployKind::Wall)),
        BUY_FIELD => Some(Purchase::Pack(DeployKind::Field)),
        BUY_AMMO => Some(Purchase::Pack(DeployKind::Ammo)),
        _ => None,
    }
}

/// The ammunition slot weapon `w` draws from: the third slot serves every
/// weapon beyond it.
pub open spec fn round_slot(w: u8) -> int {
    if w < 2 {
        w as int
    } else {
        2
    }
}

/// Spend one round for weapon `w`; false, with nothing spent, when its slot
/// is empty.
pub fn take_round(ammo: &mut [u16; 4], w: u8) -> (r: bool)
    ensures
        r == (old(ammo)@[round_slot(w)] > 0),
        r ==> final(ammo)@ == old(ammo)@.update(round_slot(w), (old(ammo)@[round_slot(w)] - 1) as u16),
        !r ==> final(ammo)@ == old(ammo)@,
{
    let slot: usize = if w < 2 {
        w as usize
    } else {
        2
    };
    if ammo[slot] == 0 {
        return false;
    }
    let v = ammo[slot] - 1;
    ammo[slot] = v;
    true
}

/// Loot draws 1..=LOOT_ROLL discs and third-weapon rounds, and up to this
/// many hand grenades (at least one), from what the dead carried.
pub const LOOT_ROLL: u16 = 5;

/// How many of `have` rounds a dead player's pack holds for a roll of
/// `roll` (0 for the lowest, LOOT_ROLL - 1 or more for the highest):
/// 1 + roll, at most LOOT_ROLL, never more than `have`.
pub open spec fn rolled(roll: u16, have: u16) -> u16 {
    let n: u16 = if roll < LOOT_ROLL - 1 {
        (1 + roll) as u16
    } else {
        LOOT_ROLL
    };
    if n < have {
        n
    } else {
        have
    }
}

pub fn roll_count(roll: u16, have: u16) -> (r: u16)
    ensures
        r == rolled(roll, have),
{
    let n: u16 = if roll < LOOT_ROLL - 1 {
        1 + roll
    } else {
        LOOT_ROLL
    };
    if n < have {
        n
    } else {
        have
    }
}

/// An ammo pack dropped where a player died. A picker takes only what
/// matches their own kit: the third weapon's rounds only when their armor
/// carries the same third weapon.
#[derive(Clone, Copy, Debug)]
pub struct LootPack {
    pub ammo: [u16; 4],
    /// The dead player's armor: says whether `ammo[2]` is grenade-launcher
    /// rounds or mortar shells.
    pub armor: ArmorClass,
    /// Hand grenades (never mines).
    pub grenades: u8,
}

/// The pack a dying player leaves: `rolls` for the discs, the third weapon
/// and the hand grenades; all their chaingun rounds; no railgun slugs; at
/// least one hand grenade even if they had none.
pub open spec fn dropped(ammo: [u16; 4], grenades: u8, armor: ArmorClass, rolls: [u16; 3]) -> LootPack {
    let carried: u16 = if grenades > 0 {
        grenades as u16
    } else {
        1
    };
    let g = rolled(rolls[2], carried);
    LootPack {
        ammo: [rolled(rolls[0], ammo[0]), ammo[1], rolled(rolls[1], ammo[2]), 0],
        armor,
        grenades: (if g > 0 {
            g
        } else {
            1
        }) as u8,
    }
}

pub fn drop_loot(ammo: [u16; 4], grenades: u8, armor: ArmorClass, rolls: [u16; 3]) -> (r: LootPack)
    ensures
        r == dropped(ammo, grenades, armor, rolls),
        1 <= r.grenades <= LOOT_ROLL,
        r.ammo[0] <= LOOT_ROLL && r.ammo[0] <= ammo[0],
        r.ammo[2] <= LOOT_ROLL && r.ammo[2] <= ammo[2],
        ammo[0] > 0 ==> r.ammo[0] >= 1,
        ammo[2] > 0 ==> r.ammo[2] >= 1,
        r.ammo[2] as int == min_int(1 + min_int(rolls[1] as int, LOOT_ROLL - 1), ammo[2] as int),
        r.ammo[0] as int == min_int(1 + min_int(rolls[0] as int, LOOT_ROLL - 1), ammo[0] as int),
        r.ammo[1] == ammo[1] && r.ammo[3] == 0 && r.armor == armor,
{
    proof {
        lemma_drop_contents(ammo, grenades, armor, rolls);
    }
    let carried: u16 = if grenades > 0 {
        grenades as u16
    } else {
        1
    };
    let g = roll_count(rolls[2], carried);
    let g = if g > 0 {
        g
    } else {
        1
    };
    LootPack {
        ammo: [roll_count(rolls[0], ammo[0]), ammo[1], roll_count(rolls[1], ammo[2]), 0],
        armor,
        grenades: g as u8,
    }
}

/// The smaller of two integers.
pub open spec fn min_int(a: int, b: int) -> int {
    if a <= b {
        a
    } else {
        b
    }
}

/// What a dying player's pack holds, stated by the numbers: discs and
/// third-weapon rounds are each one more than their roll, the roll taken at
/// most LOOT_ROLL - 1, and never more than the dead carried, so at most
/// LOOT_ROLL and at least one of whatever they had; all their chaingun
/// rounds; no railgun slugs; their armor; between one and LOOT_ROLL hand
/// grenades, never more than they carried when they carried any.
pub proof fn lemma_drop_contents(ammo: [u16; 4], grenades: u8, armor: ArmorClass, rolls: [u16; 3])
    ensures
        ({
            let r = dropped(ammo, grenades, armor, rolls);
            &&& r.ammo[0] as int == min_int(1 + min_int(rolls[0] as int, LOOT_ROLL - 1), ammo[0] as int)
            &&& r.ammo[2] as int == min_int(1 + min_int(rolls[1] as int, LOOT_ROLL - 1), ammo[2] as int)
            &&& r.ammo[0] <= LOOT_ROLL && r.ammo[0] <= ammo[0]
            &&& r.ammo[2] <= LOOT_ROLL && r.ammo[2] <= ammo[2]
            &&& (ammo[0] > 0 ==> r.ammo[0] >= 1)
            &&& (ammo[2] > 0 ==> r.ammo[2] >= 1)
            &&& r.ammo[1] == ammo[1]
            &&& r.ammo[3] == 0
            &&& r.armor == armor
            &&& 1 <= r.grenades <= LOOT_ROLL
            &&& (grenades > 0 ==> r.grenades <= grenades)
        }),
{
}

/// What a player carries that a pack can refill.
#[derive(Clone, Copy, Debug)]
pub struct Kit {
    pub armor: ArmorClass,
    pub ammo: [u16; 4],
    /// Hand grenades carried.
    pub grenades: u8,
}

/// How much of `offered` fits beside `have` under `max`.
pub open spec fn fits(have: int, max: int, offered: int) -> int {
    let room = if max > have {
        max - have
    } else {
        0
    };
    if room < offered {
        room
    } else {
        offered
    }
}

fn fitting(have: u16, max: u16, offered: u16) -> (r: u16)
    ensures
        r == fits(have as int, max as int, offered as int),
{
    let room = if max > have {
        max - have
    } else {
        0
    };
    if room < offered {
        room
    } else {
        offered
    }
}

/// Rounds of slot `w` that move from `loot` to `kit`.
pub open spec fn taken(kit: Kit, loot: LootPack, w: int) -> int {
    if w == 2 && mortar(kit.armor) != mortar(loot.armor) {
        0
    } else if 0 <= w < 3 {
        fits(kit.ammo[w] as int, ammo_limit(kit.armor)[w] as int, loot.ammo[w] as int)
    } else {
        0
    }
}

/// Hand grenades that move from `loot` to `kit`.
pub open spec fn grenades_taken(kit: Kit, loot: LootPack) -> int {
    fits(kit.grenades as int, throwable_limit(kit.armor)[0] as int, loot.grenades as int)
}

/// A player running over a pack takes what fits their kit: hand grenades up
/// to their armor's limit, and discs, chaingun and third-weapon rounds up to
/// their armor's limits (third-weapon rounds only for the same weapon).
/// Returns whether anything was taken.
pub fn take_loot(kit: &mut Kit, loot: &mut LootPack) -> (took: bool)
    ensures
        final(kit).armor == old(kit).armor,
        final(loot).armor == old(loot).armor,
        final(kit).grenades == old(kit).grenades + grenades_taken(*old(kit), *old(loot)),
        final(loot).grenades == old(loot).grenades - grenades_taken(*old(kit), *old(loot)),
        forall|w: int|
            0 <= w < 3 ==> #[trigger] final(kit).ammo[w] == old(kit).ammo[w] + taken(*old(kit), *old(loot), w)
                && final(loot).ammo[w] == old(loot).ammo[w] - taken(*old(kit), *old(loot), w),
        final(kit).ammo[3] == old(kit).ammo[3],
        final(loot).ammo[3] == old(loot).ammo[3],
        took == (grenades_taken(*old(kit), *old(loot)) > 0 || taken(*old(kit), *old(loot), 0) > 0
            || taken(*old(kit), *old(loot), 1) > 0 || taken(*old(kit), *old(loot), 2) > 0),
{
    let max = max_ammo(kit.armor);
    let limits = max_throwables(kit.armor);
    let g = fitting(kit.grenades as u16, limits[0] as u16, loot.grenades as u16);
    kit.grenades = kit.grenades + g as u8;
    loot.grenades = loot.grenades - g as u8;
    let same_third = has_mortar(kit.armor) == has_mortar(loot.armor);
    let t0 = fitting(kit.ammo[0], max[0], loot.ammo[0]);
    let t1 = fitting(kit.ammo[1], max[1], loot.ammo[1]);
    let t2 = if same_third {
        fitting(kit.ammo[2], max[2], loot.ammo[2])
    } else {
        0
    };
    kit.ammo = [kit.ammo[0] + t0, kit.ammo[1] + t1, kit.ammo[2] + t2, kit.ammo[3]];
    loot.ammo = [loot.ammo[0] - t0, loot.ammo[1] - t1, loot.ammo[2] - t2, loot.ammo[3]];
    g > 0 || t0 > 0 || t1 > 0 || t2 > 0
}

/// A pack with nothing left in it disappears.
pub fn exhausted(loot: &LootPack) -> (r: bool)
    ensures
        r == (loot.ammo[0] == 0 && loot.ammo[1] == 0 && loot.ammo[2] == 0 && loot.ammo[3] == 0
            && loot.grenades == 0),
{
    loot.ammo[0] == 0 && loot.ammo[1] == 0 && loot.ammo[2] == 0 && loot.ammo[3] == 0
        && loot.grenades == 0
}

/// Picking up loot moves rounds without creating any: what a kit gains of
/// a slot, the pack loses, and a kit within its armor's limit stays within
/// it. Hand grenades likewise.
pub proof fn lemma_loot_conserved(kit: Kit, loot: LootPack, w: int)
    requires
        0 <= w < 3,
        kit.ammo[w] <= ammo_limit(kit.armor)[w],
        kit.grenades <= throwable_limit(kit.armor)[0],
    ensures
        0 <= taken(kit, loot, w) <= loot.ammo[w],
        kit.ammo[w] + taken(kit, loot, w) <= ammo_limit(kit.armor)[w],
        0 <= grenades_taken(kit, loot) <= loot.grenades,
        kit.grenades + grenades_taken(kit, loot) <= throwable_limit(kit.armor)[0],
{
}

/// The weapon slot of the rifle: the laser in light armor, the railgun in
/// heavy.
pub const RIFLE_SLOT: u8 = 3;
pub const LASER_KIND: u8 = 8;
pub const RAIL_KIND: u8 = 9;

/// The weapon slot a player may hold when they ask for `wanted`: the rifle
/// slot only once they have bought a rifle (else they keep their current
/// weapon, at most the third), and never beyond the rifle slot.
pub fn allowed_weapon(wanted: u8, has_rifle: bool, current: u8) -> (r: u8)
    ensures
        r == (if wanted == RIFLE_SLOT && !has_rifle {
            if current < 2 {
                current
            } else {
                2
            }
        } else if wanted < RIFLE_SLOT {
            wanted
        } else {
            RIFLE_SLOT
        }),
{
    if wanted == RIFLE_SLOT && !has_rifle {
        if current < 2 {
            current
        } else {
            2
        }
    } else if wanted < RIFLE_SLOT {
        wanted
    } else {
        RIFLE_SLOT
    }
}

/// Heavy armor's rifle is the railgun.
pub fn is_railgun(armor: ArmorClass) -> (r: bool)
    ensures
        r == (armor == ArmorClass::Heavy),
{
    armor == ArmorClass::Heavy
}

pub fn rifle_name(armor: ArmorClass) -> (r: &'static str)
    ensures
        r@ == (if armor == ArmorClass::Heavy {
            "Railgun"@
        } else {
            "Laser rifle"@
        }),
{
    if armor == ArmorClass::Heavy {
        "Railgun"
    } else {
        "Laser rifle"
    }
}

} // verus!
