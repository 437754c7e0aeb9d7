use barotool::codec::FormatError;
use barotool::sample::{ImmersiveSampleData, Sample, SampleData};

fn imm(dimension: i32, x: i32, z: i32, mineral: &str, liquid: &str, timestamp: u64) -> Sample {
    Sample {
        dimension,
        x,
        z,
        data: SampleData::Immersive(ImmersiveSampleData {
            mineral: mineral.to_owned(),
            liquid: liquid.to_owned(),
            timestamp,
        }),
    }
}

fn tfc(dimension: i32, x: i32, z: i32, ore: &str) -> Sample {
    Sample { dimension, x, z, data: SampleData::TerraFirmaCraft(ore.to_owned()) }
}

fn geo(dimension: i32, x: i32, z: i32, ore: &str) -> Sample {
    Sample { dimension, x, z, data: SampleData::Geolosys(ore.to_owned()) }
}

fn encode(samples: &[Sample]) -> Vec<u8> {
    let mut out: Vec<u8> = Vec::new();
    Sample::write_list_to(&mut out, samples).expect("encodable list");
    out
}

#[test]
fn round_trip_all_variants() {
    let samples = vec![
        imm(1, 10, -5, "Quartz", "Water", 123456789),
        tfc(0, 3, 4, "Native Copper"),
        geo(-7, 2147483647, -2147483648, "Hematite"),
        imm(-1, 0, 0, "", "", 0),
    ];
    let bytes = encode(&samples);
    let decoded = Sample::read_list_from(&bytes).expect("valid stream");
    assert_eq!(decoded, samples);
}

#[test]
fn round_trip_empty_list() {
    let samples: Vec<Sample> = Vec::new();
    let bytes = encode(&samples);
    assert_eq!(bytes, vec![0, 0, 0, 0]);
    let decoded = Sample::read_list_from(&bytes).expect("valid stream");
    assert!(decoded.is_empty());
}

#[test]
fn encode_exact_bytes() {
    let samples = vec![tfc(1, 2, -1, "Cu")];
    let bytes = encode(&samples);
    let mut expected: Vec<u8> = vec![
        0, 0, 0, 1, // count
        0, 0, 0, 1, // discriminant: TerraFirmaCraft
        0, 0, 0, 1, // dimension
        0, 0, 0, 2, // x
        0xFF, 0xFF, 0xFF, 0xFF, // z = -1
        0, 2, // ore length
    ];
    expected.extend_from_slice(b"Cu");
    assert_eq!(bytes, expected);
}

#[test]
fn encode_exact_bytes_immersive() {
    let samples = vec![imm(-2, 0, 16, "Fe", "Oil", 0x0102030405060708)];
    let bytes = encode(&samples);
    let mut expected: Vec<u8> = vec![
        0, 0, 0, 1, // count
        0, 0, 0, 0, // discriminant: Immersive
        0xFF, 0xFF, 0xFF, 0xFE, // dimension = -2
        0, 0, 0, 0, // x
        0, 0, 0, 16, // z
        0, 2, // mineral length
    ];
    expected.extend_from_slice(b"Fe");
    expected.extend_from_slice(&[0, 3]);
    expected.extend_from_slice(b"Oil");
    expected.extend_from_slice(&[1, 2, 3, 4, 5, 6, 7, 8]);
    assert_eq!(bytes, expected);
}

#[test]
fn truncated_anywhere_rejected() {
    let samples = vec![imm(1, 10, -5, "Quartz", "Water", 42), geo(2, 3, 4, "Hematite")];
    let bytes = encode(&samples);
    for cut in 0..bytes.len() {
        let r = Sample::read_list_from(&bytes[..cut]);
        assert!(r.is_err(), "prefix of {} bytes decoded", cut);
    }
}

#[test]
fn bad_discriminant_rejected() {
    let samples = vec![tfc(1, 2, 3, "Cu")];
    let mut bytes = encode(&samples);
    bytes[7] = 3; // discriminant 3
    assert_eq!(Sample::read_list_from(&bytes), Err(FormatError::InvalidDiscriminant));
    bytes[4] = 0xFF; // a huge discriminant
    assert_eq!(Sample::read_list_from(&bytes), Err(FormatError::InvalidDiscriminant));
}

#[test]
fn invalid_utf8_rejected() {
    let mut bytes: Vec<u8> = vec![
        0, 0, 0, 1, // count
        0, 0, 0, 1, // discriminant: TerraFirmaCraft
        0, 0, 0, 0, // dimension
        0, 0, 0, 0, // x
        0, 0, 0, 0, // z
        0, 2, // ore length
    ];
    bytes.extend_from_slice(&[0xFF, 0xFE]);
    assert_eq!(Sample::read_list_from(&bytes), Err(FormatError::InvalidUtf8));
}

#[test]
fn declared_string_length_beyond_stream_rejected() {
    let bytes: Vec<u8> = vec![
        0, 0, 0, 1, // count
        0, 0, 0, 2, // discriminant: Geolosys
        0, 0, 0, 0, // dimension
        0, 0, 0, 0, // x
        0, 0, 0, 0, // z
        0xFF, 0xFF, // ore length 65535, but no bytes follow
    ];
    assert_eq!(Sample::read_list_from(&bytes), Err(FormatError::Truncated));
}

#[test]
fn trailing_bytes_ignored() {
    let samples = vec![tfc(1, 2, 3, "Cu")];
    let mut bytes = encode(&samples);
    bytes.extend_from_slice(&[0xDE, 0xAD, 0xBE, 0xEF]);
    let decoded = Sample::read_list_from(&bytes).expect("trailing bytes are ignored");
    assert_eq!(decoded, samples);
}

#[test]
fn short_count_rejected() {
    assert_eq!(Sample::read_list_from(&[]), Err(FormatError::Truncated));
    assert_eq!(Sample::read_list_from(&[0, 0, 1]), Err(FormatError::Truncated));
}

#[test]
fn string_length_boundary() {
    let longest = "a".repeat(65535);
    let samples = vec![tfc(0, 0, 0, &longest)];
    let bytes = encode(&samples);
    let decoded = Sample::read_list_from(&bytes).expect("a 65535-byte string fits");
    assert_eq!(decoded, samples);

    let too_long = "a".repeat(65536);
    let mut out: Vec<u8> = Vec::new();
    let r = Sample::write_list_to(&mut out, &[tfc(0, 0, 0, &too_long)]);
    assert_eq!(r, Err(FormatError::StringTooLong));
    assert!(out.is_empty());
}

#[test]
fn string_codec_exact_bytes() {
    let mut out: Vec<u8> = Vec::new();
    barotool::codec::write_string(&mut out, "hi").expect("short string fits");
    assert_eq!(out, vec![0, 2, b'h', b'i']);
    let (s, end) = barotool::codec::read_string(&out, 0).expect("valid string");
    assert_eq!(s, "hi");
    assert_eq!(end, 4);
}

#[test]
fn empty_string_codec() {
    let mut out: Vec<u8> = Vec::new();
    barotool::codec::write_string(&mut out, "").expect("empty string fits");
    assert_eq!(out, vec![0, 0]);
    let (s, end) = barotool::codec::read_string(&out, 0).expect("valid string");
    assert_eq!(s, "");
    assert_eq!(end, 2);
}

#[test]
fn immersive_payload_codec() {
    let data = ImmersiveSampleData {
        mineral: "Quartz".to_owned(),
        liquid: "Water".to_owned(),
        timestamp: u64::MAX,
    };
    let mut out: Vec<u8> = Vec::new();
    data.write_to(&mut out).expect("encodable payload");
    let (back, end) = ImmersiveSampleData::read_from(&out, 0).expect("valid payload");
    assert_eq!(back, data);
    assert_eq!(end, out.len());
}

#[test]
fn sample_codec_mid_stream() {
    let sample = geo(5, -6, 7, "Malachite");
    let mut out: Vec<u8> = vec![9, 9, 9]; // unrelated leading bytes
    sample.write_to(&mut out).expect("encodable sample");
    let (back, end) = Sample::read_from(&out, 3).expect("valid record");
    assert_eq!(back, sample);
    assert_eq!(end, out.len());
}
