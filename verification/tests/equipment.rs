use peakrunner::control::{self, PointError};
use peakrunner::equipment::{power, validate, Definition, EquipmentError, Kind, TurretWeapon};

fn make(id: &str, kind: Kind, team: u8, circuit: &str) -> Definition {
    Definition { id: id.into(), kind, team, circuit: circuit.into(), weapon: TurretWeapon::Bullet, placement_ok: true }
}

#[test]
fn always_on_circuits_need_no_fabricated_generator() {
    let d = make("station", Kind::Inventory, 0, "always-on");
    assert!(validate(&[make("station", Kind::Inventory, 0, "always-on")]).is_ok());
    assert!(power(&[make("station", Kind::Inventory, 0, "always-on")], &[true])[0]);
    assert!(!power(&[make("station", Kind::Inventory, 0, "always-on")], &[false])[0]);
    let mut invalid = d;
    invalid.circuit = "missing-generator".into();
    assert!(validate(&[invalid]).is_err());
}

#[test]
fn generator_loss_only_disables_its_own_circuit() {
    let defs = vec![make("a", Kind::Generator, 0, "base0"), make("b", Kind::Inventory, 0, "base0"),
        make("c", Kind::Generator, 1, "base1")];
    assert!(validate(&defs).is_ok());
    let powered = power(&defs, &[false, true, true]);
    assert!(!powered[0] && !powered[1] && powered[2]);
    let powered = power(&defs, &[true, true, true]);
    assert!(powered[1]);
}

#[test]
fn rejects_missing_generator_and_duplicate_ids() {
    let d = make("station", Kind::Inventory, 0, "a");
    assert!(validate(&[make("station", Kind::Inventory, 0, "a")]).is_err());
    let mut g = make("station", Kind::Inventory, 0, "a");
    g.kind = Kind::Generator;
    assert!(validate(&[g, d]).is_err());
}

#[test]
fn equipment_errors_say_why() {
    assert_eq!(validate(&[make("s", Kind::Sensor, 0, "far")]), Err(EquipmentError::NoGenerator("s".into())));
    assert_eq!(EquipmentError::NoGenerator("s".into()).message(), "Equipment s has no same-team generator");
    assert_eq!(validate(&[make("s", Kind::Sensor, 2, "always-on")]), Err(EquipmentError::Invalid));
    assert_eq!(validate(&[make("", Kind::Sensor, 0, "always-on")]), Err(EquipmentError::Invalid));
    let mut misplaced = make("s", Kind::Sensor, 0, "always-on");
    misplaced.placement_ok = false;
    assert_eq!(validate(&[misplaced]), Err(EquipmentError::Invalid));
    let many: Vec<Definition> = (0..129).map(|i| make(&format!("e{i}"), Kind::Repair, 0, "always-on")).collect();
    assert_eq!(validate(&many), Err(EquipmentError::TooMany));
    assert_eq!(EquipmentError::TooMany.message(), "Too many equipment objects");
    // A generator of the other team does not feed the circuit.
    assert!(validate(&[make("g", Kind::Generator, 1, "base"), make("t", Kind::Turret, 0, "base")]).is_err());
}

#[test]
fn a_generator_powers_only_its_own_team_and_circuit() {
    let defs = vec![make("g", Kind::Generator, 0, "north"), make("t", Kind::Turret, 0, "north"),
        make("u", Kind::Turret, 1, "north"), make("v", Kind::Turret, 0, "south")];
    let powered = power(&defs, &[true, true, true, true]);
    assert_eq!(powered, vec![true, true, false, false]);
    // A wrecked unit is never powered, even on a live circuit.
    assert_eq!(power(&defs, &[true, false, true, true]), vec![true, false, false, false]);
}

fn point(id: &str, name: &str) -> control::Definition {
    control::Definition { id: id.into(), name: name.into(), ctf_active: true, placement_ok: true, drain_ok: true }
}

#[test]
fn manifest_entries_are_validated() {
    assert!(control::validate(&[point("beacon", "Beacon")]).is_ok());
    let mut small = point("a", "A");
    small.placement_ok = false;
    let mut short_drain = point("a", "A");
    short_drain.drain_ok = false;
    for bad in [vec![point("Bad Id", "Beacon")], vec![point("a", "<b>")], vec![small], vec![short_drain],
        vec![point("a", "A"), point("a", "B")]] {
        assert!(control::validate(&bad).is_err());
    }
}

#[test]
fn control_point_errors_come_in_check_order() {
    assert_eq!(control::validate(&[point("Bad Id", "<b>")]), Err(PointError::Id));
    assert_eq!(control::validate(&[point("a", " A")]), Err(PointError::Name));
    assert_eq!(control::validate(&[point("a", &"N".repeat(25))]), Err(PointError::Name));
    assert!(control::validate(&[point("a", &"N".repeat(24))]).is_ok());
    assert!(control::validate(&[point("mid-1", "Mid Point-1")]).is_ok());
    let nine: Vec<control::Definition> = (0..9).map(|i| point(&format!("p{i}"), "P")).collect();
    assert_eq!(control::validate(&nine), Err(PointError::TooMany));
    assert_eq!(PointError::Drain.message(), "Invalid control point drain");
    assert!(control::active(true, false) && control::active(false, true) && !control::active(false, false));
}
