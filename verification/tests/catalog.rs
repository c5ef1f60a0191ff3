use peakrunner::map_catalog::{listed, maps_for, supports, valid_id, validate_catalog, CatalogError, Descriptor,
    DescriptorError, PackInfo, SupportedMode};
use peakrunner::terrain::{menu, surface_style, MapId, Surface};

fn descriptor() -> Descriptor {
    Descriptor { schema: 1, id: "test-map".into(), name: "Test map".into(), revision: 1, modes: vec![SupportedMode::Ctf],
        resolution: 128, extent_in_range: true, spawns_in_region: true }
}

/// What the shipped packs declare, in menu order: the older five place no
/// control points, Longfield and Highgoal are stadiums. The packs themselves
/// are not part of this repository; the control points of the last two are
/// test data.
fn shipped() -> Vec<Option<PackInfo>> {
    let plain = |control_points| Some(PackInfo { football: false, control_points });
    let stadium = Some(PackInfo { football: true, control_points: 0 });
    vec![plain(0), plain(0), plain(0), plain(0), plain(0), stadium, stadium, plain(3), plain(0)]
}

#[test]
fn identities_are_safe_and_unambiguous() {
    for id in [MapId::Valley, MapId::Raindance, MapId::BroadsideClone, MapId::StonehengeClone, MapId::SnowblindClone,
        MapId::DesertOfDeathClone, MapId::Longfield, MapId::Highgoal, MapId::OzarkticBlast, MapId::Reefbreak] {
        assert_eq!(MapId::parse(id.key()), Some(id));
        assert!(valid_id(id.key()));
    }
    assert_eq!(MapId::parse("RAINDANCE"), Some(MapId::Raindance));
    assert_eq!(MapId::parse("../raindance"), None);
    assert_eq!(MapId::parse("skybreak-bastions"), None);
    for id in ["", "../raindance", "a/b", "A", "a\\b", "a b", "-a", "a-", "a--b", ".", "é"] {
        assert!(!valid_id(id), "{id}");
    }
    assert!(!valid_id(&"a".repeat(49)));
    assert!(valid_id("rift-crossing-2"));
    assert!(validate_catalog(&[descriptor()]).is_ok());
    assert!(validate_catalog(&[descriptor(), descriptor()]).is_err());
}

#[test]
fn reject_invalid_bounds_modes_and_versions() {
    let mut d = descriptor(); d.extent_in_range = false; assert!(d.validate().is_err());
    let mut d = descriptor(); d.spawns_in_region = false; assert!(d.validate().is_err());
    let mut d = descriptor(); d.resolution = 257; assert!(d.validate().is_err());
    let mut d = descriptor(); d.modes.clear(); assert!(d.validate().is_err());
    let mut d = descriptor(); d.modes.push(SupportedMode::Ctf); assert!(d.validate().is_err());
    let mut d = descriptor(); d.schema = 2; assert!(d.validate().is_err());
    let mut d = descriptor(); d.revision = 0; assert!(d.validate().is_err());
}

#[test]
fn each_mode_lists_only_maps_that_host_it() {
    let listed = listed(&shipped());
    let ctf = maps_for(SupportedMode::Ctf, &listed);
    assert_eq!(ctf, vec![MapId::Raindance, MapId::BroadsideClone, MapId::StonehengeClone, MapId::SnowblindClone,
        MapId::DesertOfDeathClone, MapId::OzarkticBlast, MapId::Reefbreak]);
    assert_eq!(maps_for(SupportedMode::Football, &listed), vec![MapId::Longfield, MapId::Highgoal]);
    let cnh = maps_for(SupportedMode::CaptureAndHold, &listed);
    assert!(!cnh.is_empty() && cnh.iter().all(|m| ctf.contains(m)));
}

#[test]
fn descriptor_errors_name_the_first_bad_field() {
    let mut d = descriptor(); d.id = "Bad Id".into();
    assert_eq!(d.validate(), Err(DescriptorError::Identity));
    let mut d = descriptor(); d.name = " Padded".into();
    assert_eq!(d.validate(), Err(DescriptorError::DisplayName));
    let mut d = descriptor(); d.name = "Caf\u{e9}".into();
    assert_eq!(d.validate(), Err(DescriptorError::DisplayName));
    let mut d = descriptor(); d.name = "x".repeat(81);
    assert_eq!(d.validate(), Err(DescriptorError::DisplayName));
    let mut d = descriptor(); d.modes = vec![SupportedMode::Ctf; 9];
    assert_eq!(d.validate(), Err(DescriptorError::Modes));
    let mut d = descriptor(); d.resolution = 1;
    assert_eq!(d.validate(), Err(DescriptorError::Dimensions));
    let mut d = descriptor(); d.spawns_in_region = false;
    assert_eq!(d.validate(), Err(DescriptorError::SpawnRegion));
    assert_eq!(DescriptorError::SpawnRegion.message(), "invalid team spawn region");
    assert_eq!(validate_catalog(&[]), Err(CatalogError::Size));
    let mut bad = descriptor(); bad.revision = 0;
    assert_eq!(validate_catalog(&[descriptor(), bad]), Err(CatalogError::Invalid(DescriptorError::Identity)));
    assert_eq!(validate_catalog(&[descriptor(), descriptor()]), Err(CatalogError::Duplicate));
    assert_eq!(CatalogError::Duplicate.message(), "duplicate map identity");
    assert_eq!(CatalogError::Invalid(DescriptorError::Modes).message(), "invalid supported modes");
}

#[test]
fn modes_have_labels_keys_and_offers() {
    assert_eq!(SupportedMode::ALL.len(), 5);
    assert_eq!(SupportedMode::CaptureAndHold.label(), "Capture & Hold");
    assert_eq!(SupportedMode::TeamDeathmatch.key(), "team_deathmatch");
    assert!(!SupportedMode::Deathmatch.offered());
    assert!(SupportedMode::TeamDeathmatch.offered());
    assert!(SupportedMode::Deathmatch.deathmatch() && SupportedMode::TeamDeathmatch.deathmatch());
    assert!(!SupportedMode::Football.deathmatch());
    assert!(supports(None, SupportedMode::Ctf));
    assert!(!supports(None, SupportedMode::CaptureAndHold));
    assert!(!supports(None, SupportedMode::Football));
    let one_point = Some(PackInfo { football: false, control_points: 1 });
    assert!(!supports(one_point, SupportedMode::CaptureAndHold));
    let stadium = Some(PackInfo { football: true, control_points: 4 });
    assert!(!supports(stadium, SupportedMode::CaptureAndHold) && !supports(stadium, SupportedMode::TeamDeathmatch));
}

#[test]
fn map_keys_parse_in_any_case_and_clones_are_marked() {
    for id in MapId::ALL {
        assert_eq!(MapId::parse(&id.key().to_uppercase()), Some(id));
    }
    assert_eq!(MapId::parse("Desert-Of-Death-Clone"), Some(MapId::DesertOfDeathClone));
    assert_eq!(MapId::parse("raindance "), None);
    assert!(MapId::SnowblindClone.is_private_clone() && MapId::DesertOfDeathClone.is_private_clone());
    assert!(!MapId::Raindance.is_private_clone());
    assert_eq!(surface_style(MapId::Valley), Surface::Valley);
    assert_eq!(surface_style(MapId::Reefbreak), Surface::Highland);
    assert!(!menu().contains(&MapId::Valley));
}

#[test]
fn every_rotation_slot_is_listed() {
    let listed = menu();
    let slots = [(MapId::Raindance, "raindance"), (MapId::BroadsideClone, "broadside-clone"),
        (MapId::StonehengeClone, "stonehenge-clone"), (MapId::SnowblindClone, "snowblind-clone"),
        (MapId::DesertOfDeathClone, "desert-of-death-clone"), (MapId::Longfield, "longfield"),
        (MapId::Highgoal, "highgoal"), (MapId::OzarkticBlast, "ozarktic-blast"), (MapId::Reefbreak, "reefbreak")];
    assert_eq!(listed.len(), slots.len());
    for (id, key) in slots {
        assert_eq!(MapId::parse(key), Some(id));
        assert!(listed.contains(&id), "{key} listed");
    }
    let short = peakrunner::map_catalog::listed(&[]);
    assert!(short.iter().all(|m| m.pack.is_none()));
}
