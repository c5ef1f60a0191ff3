//! Map-authored equipment: which objects a map may declare, and which of
//! them are powered. Generators power their team's circuit; "always-on"
//! equipment needs none.
use vstd::prelude::*;
use vstd::string::StringSliceAdditionalSpecFns;

verus! {

#[derive(Clone, Copy, Debug, PartialEq, Eq, Structural)]
pub enum Kind {
    Inventory,
    Generator,
    Sensor,
    Turret,
    Repair,
}

#[derive(Clone, Copy, Debug, PartialEq, Eq, Structural)]
pub enum TurretWeapon {
    Bullet,
    Plasma,
}

/// A map-authored equipment object. Its placement is measured by whoever
/// reads the manifest: `placement_ok` says the radius is finite and
/// 0.5..=8 m and every position coordinate is finite and within 10000 m.
#[derive(Debug)]
pub struct Definition {
    pub id: String,
    pub kind: Kind,
    pub team: u8,
    pub circuit: String,
    pub weapon: TurretWeapon,
    pub placement_ok: bool,
}

/// The circuit that needs no generator.
pub open spec fn always_on(circuit: Seq<char>) -> bool {
    circuit == "always-on"@
}

/// A name of 1 to 64 UTF-8 bytes.
pub open spec fn short_name(s: Seq<char>) -> bool {
    0 < s.len() && (vstd::utf8::encode_utf8(s).len() as usize) <= 64
}

/// Some generator of the definition's team feeds its circuit.
pub open spec fn has_generator(defs: Seq<Definition>, d: Definition) -> bool {
    exists|g: int|
        0 <= g < defs.len() && (#[trigger] defs[g]).kind == Kind::Generator && defs[g].team == d.team
            && defs[g].circuit@ == d.circuit@
}

/// Why a map's equipment is refused.
#[derive(Debug, PartialEq, Eq)]
pub enum EquipmentError {
    TooMany,
    /// A definition with a bad identity, team, circuit or placement.
    Invalid,
    /// The definition with this identity has no same-team generator.
    NoGenerator(String),
}

impl EquipmentError {
    pub open spec fn message_text(&self) -> Seq<char> {
        match self {
            EquipmentError::TooMany => "Too many equipment objects"@,
            EquipmentError::Invalid => "Invalid equipment definition"@,
            EquipmentError::NoGenerator(id) => "Equipment "@ + id@ + " has no same-team generator"@,
        }
    }

    pub fn message(&self) -> (r: String)
        ensures
            r@ == self.message_text(),
    {
        match self {
            EquipmentError::TooMany => "Too many equipment objects".to_owned(),
            EquipmentError::Invalid => "Invalid equipment definition".to_owned(),
            EquipmentError::NoGenerator(id) => {
                let mut out = "Equipment ".to_owned();
                out.append(id.as_str());
                out.append(" has no same-team generator");
                out
            },
        }
    }
}

/// The first problem among `defs[i..]`, the earlier ones having passed.
pub open spec fn equipment_scan(defs: Seq<Definition>, i: int) -> Result<(), EquipmentError>
    decreases defs.len() - i,
{
    if i < 0 || i >= defs.len() {
        Ok(())
    } else if !short_name(defs[i].id@) || (exists|j: int| 0 <= j < i && #[trigger] defs[j].id@
        == defs[i].id@) || defs[i].team > 1 || !short_name(defs[i].circuit@)
        || !defs[i].placement_ok {
        Err(EquipmentError::Invalid)
    } else if !always_on(defs[i].circuit@) && !has_generator(defs, defs[i]) {
        Err(EquipmentError::NoGenerator(defs[i].id))
    } else {
        equipment_scan(defs, i + 1)
    }
}

pub open spec fn equipment_check(defs: Seq<Definition>) -> Result<(), EquipmentError> {
    if defs.len() > 128 {
        Err(EquipmentError::TooMany)
    } else {
        equipment_scan(defs, 0)
    }
}

fn name_ok(s: &String) -> (r: bool)
    ensures
        r == short_name(s@),
{
    let t = s.as_str();
    t.unicode_len() > 0 && t.len() <= 64
}

fn generator_for(defs: &[Definition], d: &Definition) -> (r: bool)
    ensures
        r == has_generator(defs@, *d),
{
    let mut g: usize = 0;
    while g < defs.len()
        invariant
            g <= defs@.len(),
            forall|k: int|
                0 <= k < g ==> !((#[trigger] defs@[k]).kind == Kind::Generator && defs@[k].team
                    == d.team && defs@[k].circuit@ == d.circuit@),
        decreases defs.len() - g,
    {
        let e = &defs[g];
        if e.kind == Kind::Generator && e.team == d.team && e.circuit == d.circuit {
            assert(defs@[g as int].kind == Kind::Generator);
            return true;
        }
        g = g + 1;
    }
    false
}

fn copy_string(s: &String) -> (r: String)
    ensures
        r == *s,
{
    s.clone()
}

/// Check a map's equipment before it is used: at most 128 objects, unique
/// identities and valid teams, circuits and placements, and a same-team
/// generator for every circuit other than "always-on".
pub fn validate(defs: &[Definition]) -> (r: Result<(), EquipmentError>)
    ensures
        r == equipment_check(defs@),
{
    if defs.len() > 128 {
        return Err(EquipmentError::TooMany);
    }
    let always = "always-on".to_owned();
    let mut i: usize = 0;
    while i < defs.len()
        invariant
            defs@.len() <= 128,
            i <= defs@.len(),
            always@ == "always-on"@,
            equipment_scan(defs@, 0) == equipment_scan(defs@, i as int),
        decreases defs.len() - i,
    {
        let d = &defs[i];
        let mut duplicate = false;
        let mut j: usize = 0;
        while j < i
            invariant
                i < defs@.len(),
                j <= i,
                d == defs@[i as int],
                duplicate == exists|k: int| 0 <= k < j && #[trigger] defs@[k].id@ == d.id@,
            decreases i - j,
        {
            if defs[j].id == d.id {
                assert(defs@[j as int].id@ == d.id@);
                duplicate = true;
            }
            j = j + 1;
        }
        if !name_ok(&d.id) || duplicate || d.team > 1 || !name_ok(&d.circuit) || !d.placement_ok {
            return Err(EquipmentError::Invalid);
        }
        if d.circuit != always && !generator_for(defs, d) {
            return Err(EquipmentError::NoGenerator(copy_string(&d.id)));
        }
        i = i + 1;
    }
    Ok(())
}

/// Whether equipment `i` is powered: it stands (`alive`) and its circuit is
/// "always-on" or fed by a standing generator of its team.
pub open spec fn powered_at(defs: Seq<Definition>, alive: Seq<bool>, i: int) -> bool {
    alive[i] && (always_on(defs[i].circuit@) || exists|g: int|
        0 <= g < defs.len() && (#[trigger] defs[g]).kind == Kind::Generator && alive[g]
            && defs[g].team == defs[i].team && defs[g].circuit@ == defs[i].circuit@)
}

/// Which equipment is powered, given which objects still stand.
pub fn power(defs: &[Definition], alive: &[bool]) -> (r: Vec<bool>)
    requires
        alive@.len() == defs@.len(),
    ensures
        r@.len() == defs@.len(),
        forall|i: int| 0 <= i < defs@.len() ==> #[trigger] r@[i] == powered_at(defs@, alive@, i),
{
    let always = "always-on".to_owned();
    let mut out: Vec<bool> = Vec::new();
    let mut i: usize = 0;
    while i < defs.len()
        invariant
            alive@.len() == defs@.len(),
            always@ == "always-on"@,
            i <= defs@.len(),
            out@.len() == i,
            forall|k: int| 0 <= k < i ==> #[trigger] out@[k] == powered_at(defs@, alive@, k),
        decreases defs.len() - i,
    {
        let d = &defs[i];
        let mut fed = false;
        let mut g: usize = 0;
        while g < defs.len()
            invariant
                alive@.len() == defs@.len(),
                i < defs@.len(),
                g <= defs@.len(),
                d == defs@[i as int],
                fed == exists|k: int|
                    0 <= k < g && (#[trigger] defs@[k]).kind == Kind::Generator && alive@[k]
                        && defs@[k].team == d.team && defs@[k].circuit@ == d.circuit@,
            decreases defs.len() - g,
        {
            let e = &defs[g];
            if e.kind == Kind::Generator && alive[g] && e.team == d.team && e.circuit == d.circuit {
                assert((defs@[g as int]).kind == Kind::Generator);
                fed = true;
            }
            g = g + 1;
        }
        out.push(alive[i] && (d.circuit == always || fed));
        i = i + 1;
    }
    out
}

/// Always-on equipment is powered exactly while it stands; no generator is
/// needed or consulted.
pub proof fn lemma_always_on_needs_no_generator(defs: Seq<Definition>, alive: Seq<bool>, i: int)
    requires
        0 <= i < defs.len(),
        always_on(defs[i].circuit@),
    ensures
        powered_at(defs, alive, i) == alive[i],
{
}

/// Losing generator `g` changes the power of nothing outside its own
/// team's circuit.
pub proof fn lemma_generator_loss_is_local(defs: Seq<Definition>, alive: Seq<bool>, g: int, i: int)
    requires
        alive.len() == defs.len(),
        0 <= g < defs.len(),
        0 <= i < defs.len(),
        i != g,
        defs[i].team != defs[g].team || defs[i].circuit@ != defs[g].circuit@,
    ensures
        powered_at(defs, alive.update(g, false), i) == powered_at(defs, alive, i),
{
    let after = alive.update(g, false);
    if powered_at(defs, alive, i) && !always_on(defs[i].circuit@) {
        let k = choose|k: int|
            0 <= k < defs.len() && (#[trigger] defs[k]).kind == Kind::Generator && alive[k]
                && defs[k].team == defs[i].team && defs[k].circuit@ == defs[i].circuit@;
        assert(after[k] == alive[k]);
        assert(defs[k].kind == Kind::Generator);
    }
    if powered_at(defs, after, i) && !always_on(defs[i].circuit@) {
        let k = choose|k: int|
            0 <= k < defs.len() && (#[trigger] defs[k]).kind == Kind::Generator && after[k]
                && defs[k].team == defs[i].team && defs[k].circuit@ == defs[i].circuit@;
        assert(defs[k].kind == Kind::Generator);
    }
}

} // verus!
