use peakrunner::equipment::{Definition, EquipmentError, Kind, TurretWeapon};
use peakrunner::map_pack::{check_asset_name, check_digest, check_geometry, check_layers, check_manifest, check_payload,
    check_reopened, collision_size_ok, content_hash, default_water, hex, hole_mask, inflate, lookup, payload_step,
    ManifestFacts, PackError, PayloadStep, Reading, TriangleReading, CELLS, HEIGHT_BYTES, TEXTURE_BYTES, WEIGHT_BYTES};

const EMPTY_SHA256: &str = "e3b0c44298fc1c149afbf4c8996fb92427ae41e4649b934ca495991b7852b855";
const ABC_SHA256: &str = "ba7816bf8f01cfea414140de5dae2223b00361a396177a9cb410ff61f20015ad";

fn files(entries: &[(&str, &str)]) -> Vec<(String, String)> {
    entries.iter().map(|(n, h)| (n.to_string(), h.to_string())).collect()
}

#[test]
fn content_hashes_are_lower_case_sha256() {
    assert_eq!(content_hash(&[]), EMPTY_SHA256);
    assert_eq!(content_hash(b"abc"), ABC_SHA256);
    assert_eq!(hex(&[0x00, 0x0f, 0xa0, 0xff]), "000fa0ff");
    assert_eq!(hex(&[]), "");
}

#[test]
fn omitted_ambience_requires_the_empty_content_hash() {
    let listed = files(&[("ambient.f32", EMPTY_SHA256)]);
    assert_eq!(check_payload("ambient.f32", &[], &listed, 1, true), Ok(()));
    assert_eq!(check_payload("ambient.f32", &[1, 2, 3, 4], &listed, 1, true),
        Err(PackError::Checksum("ambient.f32".into())));
    let unlisted = files(&[]);
    assert_eq!(check_payload("ambient.f32", &[], &unlisted, 1, true), Err(PackError::Checksum("ambient.f32".into())));
}

#[test]
fn embedded_payloads_inflate() {
    assert!(inflate(b"not a deflate stream").is_err());
    assert!(matches!(inflate(b"not a deflate stream"), Err(PackError::Corrupt(_))));
    let payload: Vec<u8> = (0..5000u32).map(|i| (i % 251) as u8).collect();
    let packed = miniz_oxide::deflate::compress_to_vec_zlib(&payload, 6);
    assert_ne!(packed, payload);
    assert_eq!(inflate(&packed).unwrap(), payload);
    assert_eq!(content_hash(&inflate(&packed).unwrap()), content_hash(&payload));
}

#[test]
fn payload_sizes_follow_their_formats() {
    let hash_of = |bytes: &[u8]| content_hash(bytes);
    let check = |name: &str, bytes: &[u8], count: u32, ok: bool| {
        let listed = vec![(name.to_string(), hash_of(bytes))];
        check_payload(name, bytes, &listed, count, ok)
    };
    assert_eq!(check("vertices.bin", &[0; 144], 1, true), Ok(()));
    assert_eq!(check("vertices.bin", &[0; 145], 1, true), Err(PackError::VertexStride));
    assert_eq!(check("vertices.bin", &[0; 288], 1, false), Err(PackError::VertexData));
    assert_eq!(check("height.bin", &vec![0; HEIGHT_BYTES], 1, true), Ok(()));
    assert_eq!(check("height.bin", &[0; 10], 1, true), Err(PackError::HeightDimensions));
    assert_eq!(check("weights.rgba", &vec![0; WEIGHT_BYTES - 1], 1, true), Err(PackError::LayerWeights));
    assert_eq!(check("textures.rgba", &vec![0; TEXTURE_BYTES * 2], 2, true), Ok(()));
    assert_eq!(check("textures.rgba", &vec![0; TEXTURE_BYTES * 2], 3, true), Err(PackError::Textures));
    assert_eq!(check("ambient.f32", &[0; 6], 1, true), Err(PackError::Ambience));
    assert_eq!(check("ambient.f32", &[0; 8], 1, false), Err(PackError::Ambience));
    assert_eq!(check("collision.bin", &[1, 2, 3], 1, false), Ok(()), "collision is checked on its own");
    let listed = files(&[("height.bin", "00")]);
    assert_eq!(check_digest("height.bin", "00", HEIGHT_BYTES, &listed, 1, true), Ok(()));
    assert_eq!(check_digest("height.bin", "01", HEIGHT_BYTES, &listed, 1, true),
        Err(PackError::Checksum("height.bin".into())));
    assert!(collision_size_ok(36 * 3) && collision_size_ok(0));
    assert!(!collision_size_ok(37) && !collision_size_ok(36 * 500_001));
}

#[test]
fn only_listed_plain_names_reopen() {
    let listed = files(&[("textures.rgba", "aa"), ("textures.rgba", "bb"), ("map.json", "cc")]);
    assert_eq!(lookup(&listed, "textures.rgba").map(|h| h.as_str()), Some("aa"), "the first entry counts");
    assert_eq!(lookup(&listed, "missing"), None);
    assert_eq!(check_asset_name(&listed, "map.json"), Ok(()));
    assert_eq!(check_asset_name(&listed, "../map.json"), Err(PackError::UnknownAsset));
    assert_eq!(check_asset_name(&listed, "a\\map.json"), Err(PackError::UnknownAsset));
    assert_eq!(check_asset_name(&listed, "ambient.f32"), Err(PackError::UnknownAsset));
    assert_eq!(PackError::UnknownAsset.message(), "Unknown map asset");
}

#[test]
fn texture_tables_and_holes_are_checked() {
    let sky = [0, 1, 2, 3, 4, 5];
    assert_eq!(check_layers(1, 6, [0, 1, 2, 3], &sky, 5), Ok(()));
    assert_eq!(check_layers(2, 6, [0, 1, 2, 3], &sky, 5), Err(PackError::Version));
    assert_eq!(check_layers(1, 0, [0, 0, 0, 0], &sky, 0), Err(PackError::Version));
    assert_eq!(check_layers(1, 257, [0, 0, 0, 0], &sky, 0), Err(PackError::Version));
    assert_eq!(check_layers(1, 6, [0, 1, 2, 6], &sky, 5), Err(PackError::TextureLayer));
    assert_eq!(check_layers(1, 6, [0, 1, 2, 3], &sky, 6), Err(PackError::TextureLayer));
    assert_eq!(check_layers(1, 6, [0, 1, 2, 3], &sky[..5], 5), Err(PackError::TextureLayer));
    assert_eq!(check_layers(1, 5, [0, 1, 2, 3], &sky, 4), Err(PackError::TextureLayer));
    let mask = hole_mask(&[0, 70, 70, CELLS - 1]).unwrap();
    assert_eq!(mask.len(), CELLS);
    assert_eq!(mask.iter().filter(|h| **h).count(), 3);
    assert!(mask[70] && mask[CELLS - 1] && !mask[1]);
    assert_eq!(hole_mask(&[CELLS]), Err(PackError::TerrainHole));
    assert_eq!(PackError::TerrainHole.message(), "Invalid terrain hole");
    assert_eq!(PackError::Checksum("height.bin".into()).message(), "Checksum mismatch: height.bin");
    assert_eq!(PackError::Corrupt("Failed".into()).message(), "Corrupt embedded map asset: Failed");
    assert!(default_water());
}

fn facts() -> ManifestFacts {
    ManifestFacts { name_bytes: 9, base_name_bytes: vec![4, 64], metadata_values_ok: true, version: 1, texture_count: 8,
        terrain_layers: [0, 1, 2, 3], sky_layers: vec![4, 5, 6, 7, 7, 7], water_layer: 0, visible: Reading::Valid,
        fog: Reading::Valid, fog_first: true, fog_colour_ok: true, positions_ok: true, spawn_team_sizes: vec![3, 3],
        spawn_values_ok: true, ambient_emitters: 2, ambient_values_ok: true, water_position: Reading::Valid,
        water_scale: Reading::Valid }
}

#[test]
fn manifests_are_checked_in_order() {
    assert_eq!(check_manifest(&facts()), Ok(()));
    let mut f = facts(); f.base_name_bytes.push(65);
    assert_eq!(check_manifest(&f), Err(PackError::Metadata));
    let mut f = facts(); f.base_name_bytes = vec![1; 17];
    assert_eq!(check_manifest(&f), Err(PackError::Metadata));
    let mut f = facts(); f.name_bytes = 129; f.version = 2;
    assert_eq!(check_manifest(&f), Err(PackError::Metadata), "metadata comes first");
    let mut f = facts(); f.version = 2;
    assert_eq!(check_manifest(&f), Err(PackError::Version));
    let mut f = facts(); f.sky_layers.pop();
    assert_eq!(check_manifest(&f), Err(PackError::TextureLayer));
    let mut f = facts(); f.visible = Reading::Missing; f.fog = Reading::Invalid;
    assert_eq!(check_manifest(&f), Err(PackError::SkyMissing));
    let mut f = facts(); f.fog = Reading::Invalid; f.fog_first = false;
    assert_eq!(check_manifest(&f), Err(PackError::SkyInvalid));
    let mut f = facts(); f.fog_first = false;
    assert_eq!(check_manifest(&f), Err(PackError::FogOrder));
    assert_eq!(PackError::FogOrder.message(), "Fog must start before visibility ends");
    let mut f = facts(); f.fog_colour_ok = false;
    assert_eq!(check_manifest(&f), Err(PackError::FogColour));
    let mut f = facts(); f.positions_ok = false;
    assert_eq!(check_manifest(&f), Err(PackError::Positions));
    let mut f = facts(); f.spawn_team_sizes = vec![3];
    assert_eq!(check_manifest(&f), Err(PackError::SpawnPoints));
    let mut f = facts(); f.spawn_team_sizes = vec![3, 33];
    assert_eq!(check_manifest(&f), Err(PackError::SpawnPoints));
    let mut f = facts(); f.spawn_team_sizes = vec![0, 3];
    assert_eq!(check_manifest(&f), Err(PackError::SpawnPoints));
    let mut f = facts(); f.spawn_team_sizes = vec![]; f.spawn_values_ok = false;
    assert_eq!(check_manifest(&f), Ok(()), "maps without spawn points keep the single spawns");
    let mut f = facts(); f.ambient_emitters = 33;
    assert_eq!(check_manifest(&f), Err(PackError::AmbientEmitter));
    let mut f = facts(); f.water_position = Reading::Invalid; f.water_scale = Reading::Missing;
    assert_eq!(check_manifest(&f), Err(PackError::WaterInvalid));
    let mut f = facts(); f.water_scale = Reading::Missing;
    assert_eq!(check_manifest(&f), Err(PackError::WaterMissing));
    assert_eq!(PackError::WaterMissing.message(), "Missing water bounds");
}

#[test]
fn collision_holes_and_equipment_close_the_checks() {
    let sound = [TriangleReading::Sound; 3];
    let mask = check_geometry(108, &sound, &[5], &[]).unwrap();
    assert_eq!(mask.len(), CELLS);
    assert!(mask[5] && !mask[6]);
    assert_eq!(check_geometry(100, &sound, &[5], &[]), Err(PackError::Collision));
    let tris = [TriangleReading::Sound, TriangleReading::Oversized, TriangleReading::Unsound];
    assert_eq!(check_geometry(108, &tris, &[], &[]), Err(PackError::OversizedTriangle));
    let tris = [TriangleReading::Unsound, TriangleReading::Oversized];
    assert_eq!(check_geometry(72, &tris, &[], &[]), Err(PackError::Triangle));
    assert_eq!(check_geometry(0, &[], &[CELLS], &[]), Err(PackError::TerrainHole));
    let orphan = Definition { id: "t".into(), kind: Kind::Turret, team: 0, circuit: "east".into(),
        weapon: TurretWeapon::Plasma, placement_ok: true };
    let err = check_geometry(0, &[], &[], &[orphan]).unwrap_err();
    assert_eq!(err, PackError::Equipment(EquipmentError::NoGenerator("t".into())));
    assert_eq!(err.message(), "Equipment t has no same-team generator");
}

#[test]
fn reopened_payloads_must_still_match() {
    let listed = files(&[("ambient.f32", EMPTY_SHA256), ("height.bin", ABC_SHA256)]);
    assert_eq!(check_reopened(&listed, "ambient.f32", &[]), Ok(()));
    assert_eq!(check_reopened(&listed, "height.bin", b"abc"), Ok(()));
    assert_eq!(check_reopened(&listed, "height.bin", b"abd"), Err(PackError::Changed("height.bin".into())));
    assert_eq!(PackError::Changed("height.bin".into()).message(), "Map asset changed: height.bin");
    assert_eq!(check_reopened(&listed, "../height.bin", b"abc"), Err(PackError::UnknownAsset));
    assert_eq!(check_reopened(&listed, "map.json", b"abc"), Err(PackError::UnknownAsset));
}

#[test]
fn payloads_are_read_in_a_fixed_order() {
    assert_eq!(peakrunner::map_pack::payload_names(),
        ["vertices.bin", "collision.bin", "height.bin", "weights.rgba", "textures.rgba", "ambient.f32"]);
}

#[test]
fn the_first_failing_payload_ends_loading() {
    assert_eq!(payload_step(0, Ok(())), PayloadStep::Next(1));
    assert_eq!(payload_step(4, Ok(())), PayloadStep::Next(5));
    assert_eq!(payload_step(5, Ok(())), PayloadStep::Done);
    assert_eq!(payload_step(2, Err(PackError::HeightDimensions)), PayloadStep::Failed(PackError::HeightDimensions));
}
