use barotool::render::{i32_to_string, u64_to_string};
use barotool::sample::{ImmersiveSampleData, Sample, SampleData};

#[test]
fn renders_tfc_line() {
    let sample = Sample {
        dimension: 0,
        x: 3,
        z: 4,
        data: SampleData::TerraFirmaCraft("Native Copper".to_owned()),
    };
    let line = sample.render();
    assert_eq!(line, "Dimension 0, X=3, Z=4: TFC Native Copper");
    assert!(line.contains("Dimension 0, X=3, Z=4"));
    assert!(line.contains("TFC Native Copper"));
}

#[test]
fn renders_immersive_line() {
    let sample = Sample {
        dimension: -1,
        x: -10,
        z: 5,
        data: SampleData::Immersive(ImmersiveSampleData {
            mineral: "Quartz".to_owned(),
            liquid: "Water".to_owned(),
            timestamp: 12345,
        }),
    };
    assert_eq!(sample.render(), "Dimension -1, X=-10, Z=5: Immersive Quartz, Water, timestamp 12345");
}

#[test]
fn renders_geolosys_line() {
    let sample =
        Sample { dimension: 2, x: 0, z: -3, data: SampleData::Geolosys("Hematite".to_owned()) };
    assert_eq!(sample.render(), "Dimension 2, X=0, Z=-3: Geolosys Hematite");
}

#[test]
fn renders_decimal_extremes() {
    assert_eq!(u64_to_string(0), "0");
    assert_eq!(u64_to_string(10), "10");
    assert_eq!(u64_to_string(u64::MAX), "18446744073709551615");
    assert_eq!(i32_to_string(0), "0");
    assert_eq!(i32_to_string(-1), "-1");
    assert_eq!(i32_to_string(i32::MAX), "2147483647");
    assert_eq!(i32_to_string(i32::MIN), "-2147483648");
}
