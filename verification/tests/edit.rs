use barotool::edit::edit_samples;
use barotool::sample::{ImmersiveSampleData, Sample, SampleData};

fn imm(dimension: i32, x: i32, z: i32, mineral: &str, liquid: &str, timestamp: u64) -> Sample {
    Sample {
        dimension,
        x,
        z,
        data: SampleData::Immersive(ImmersiveSampleData {
            mineral: mineral.to_owned(),
            liquid: liquid.to_owned(),
            timestamp,
        }),
    }
}

fn tfc(dimension: i32, x: i32, z: i32, ore: &str) -> Sample {
    Sample { dimension, x, z, data: SampleData::TerraFirmaCraft(ore.to_owned()) }
}

fn geo(dimension: i32, x: i32, z: i32, ore: &str) -> Sample {
    Sample { dimension, x, z, data: SampleData::Geolosys(ore.to_owned()) }
}

#[test]
fn ore_edit_targets_only_ore_variant() {
    let mut samples = vec![imm(1, 10, -5, "Quartz", "Water", 7), geo(1, 10, -5, "Limonite")];
    let found = edit_samples(&mut samples, 1, 10, -5, None, None, Some("Hematite"));
    assert!(found);
    assert_eq!(samples[0], imm(1, 10, -5, "Quartz", "Water", 7));
    assert_eq!(samples[1], geo(1, 10, -5, "Hematite"));
}

#[test]
fn mineral_edit_targets_only_immersive_variant() {
    let mut samples = vec![imm(1, 10, -5, "Quartz", "Water", 7), geo(1, 10, -5, "Limonite")];
    let found = edit_samples(&mut samples, 1, 10, -5, Some("Quartz II"), None, None);
    assert!(found);
    assert_eq!(samples[0], imm(1, 10, -5, "Quartz II", "Water", 7));
    assert_eq!(samples[1], geo(1, 10, -5, "Limonite"));
}

#[test]
fn edit_miss_reports_not_found_and_changes_nothing() {
    let samples0 = vec![imm(1, 10, -5, "Quartz", "Water", 7), tfc(3, 4, 5, "Cassiterite")];
    let mut bytes0: Vec<u8> = Vec::new();
    Sample::write_list_to(&mut bytes0, &samples0).expect("encodable list");

    let mut samples = samples0.clone();
    let found = edit_samples(&mut samples, 2, 0, 0, Some("X"), None, None);
    assert!(!found);
    assert_eq!(samples, samples0);

    let mut bytes1: Vec<u8> = Vec::new();
    Sample::write_list_to(&mut bytes1, &samples).expect("encodable list");
    assert_eq!(bytes1, bytes0);
}

#[test]
fn multi_match_updates_every_matching_record() {
    let mut samples = vec![
        imm(1, 2, 3, "Quartz", "Water", 7),
        tfc(0, 0, 0, "Native Copper"),
        imm(1, 2, 3, "Feldspar", "Oil", 9),
    ];
    let found = edit_samples(&mut samples, 1, 2, 3, Some("Gypsum"), None, None);
    assert!(found);
    assert_eq!(samples[0], imm(1, 2, 3, "Gypsum", "Water", 7));
    assert_eq!(samples[1], tfc(0, 0, 0, "Native Copper"));
    assert_eq!(samples[2], imm(1, 2, 3, "Gypsum", "Oil", 9));
}

#[test]
fn ore_edit_with_only_immersive_at_key_finds_nothing() {
    let mut samples = vec![imm(1, 10, -5, "Quartz", "Water", 7)];
    let found = edit_samples(&mut samples, 1, 10, -5, None, None, Some("Hematite"));
    assert!(!found);
    assert_eq!(samples[0], imm(1, 10, -5, "Quartz", "Water", 7));
}

#[test]
fn mineral_and_liquid_both_updated() {
    let mut samples = vec![imm(-4, 8, 15, "Quartz", "Water", 7)];
    let found = edit_samples(&mut samples, -4, 8, 15, Some("Gold"), Some("Lava"), None);
    assert!(found);
    assert_eq!(samples[0], imm(-4, 8, 15, "Gold", "Lava", 7));
}

#[test]
fn liquid_edit_alone_updates_liquid_only() {
    let mut samples = vec![imm(0, 0, 0, "Quartz", "Water", 7), tfc(0, 0, 0, "Copper")];
    let found = edit_samples(&mut samples, 0, 0, 0, None, Some("Brine"), None);
    assert!(found);
    assert_eq!(samples[0], imm(0, 0, 0, "Quartz", "Brine", 7));
    assert_eq!(samples[1], tfc(0, 0, 0, "Copper"));
}

#[test]
fn ore_edit_updates_both_ore_variants_at_key() {
    let mut samples = vec![tfc(1, 1, 1, "Copper"), geo(1, 1, 1, "Limonite")];
    let found = edit_samples(&mut samples, 1, 1, 1, None, None, Some("Hematite"));
    assert!(found);
    assert_eq!(samples[0], tfc(1, 1, 1, "Hematite"));
    assert_eq!(samples[1], geo(1, 1, 1, "Hematite"));
}
