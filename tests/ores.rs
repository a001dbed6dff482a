use hitman_formats::ores::{parse_json_ores, serialise_json_ores, OresError};

#[test]
fn json_ores_round_trip() {
    let doc = "{\"a\": [1, 2, 3], \"é\": true}";
    let b = serialise_json_ores(doc).unwrap();
    assert_eq!(b.len(), 36 + doc.len() + 17);
    assert_eq!(&b[0..4], b"BIN1");
    assert_eq!(&b[8..12], &((doc.len() + 21) as i32).to_be_bytes());
    assert_eq!(&b[16..20], &((doc.len() as u32) | 0x4000_0000).to_le_bytes());
    assert_eq!(&b[32..36], &((doc.len() + 1) as i32).to_le_bytes());
    assert_eq!(parse_json_ores(&b).unwrap(), doc);
}

#[test]
fn json_ores_errors() {
    assert_eq!(parse_json_ores(&[0u8; 52]), Err(OresError::Truncated));
    let mut b = serialise_json_ores("ab").unwrap();
    b[36] = 0xFF;
    assert_eq!(parse_json_ores(&b), Err(OresError::InvalidString));
    assert_eq!(parse_json_ores(&[0u8; 53]).unwrap(), "");
}

use hitman_formats::ores::{parse_hashes_ores, serialise_hashes_ores};
use hitman_formats::refs::RuntimeID;
use indexmap::IndexMap;

#[test]
fn hashes_ores_round_trip() {
    let mut m = IndexMap::new();
    m.insert(RuntimeID(0x00AB_CDEF_0123_4567), "[assembly:/a.brick].pc_entitytype".to_owned());
    m.insert(RuntimeID(0x0011_2233_4455_6677), "abc".to_owned());
    m.insert(RuntimeID(0x0000_0000_0000_0001), "ünï".to_owned());
    let b = serialise_hashes_ores(&m).unwrap();
    assert_eq!(&b[0..8], b"BIN1\x00\x08\x01\x00");
    assert_eq!(u32::from_le_bytes(b[44..48].try_into().unwrap()), 3);
    // The first descriptor: the string's length, 0x40, then the hash halves.
    assert_eq!(b[48] as usize, "[assembly:/a.brick].pc_entitytype".len());
    assert_eq!(b[51], 0x40);
    assert_eq!(&b[64..68], &0x00AB_CDEFu32.to_le_bytes());
    assert_eq!(&b[68..72], &0x0123_4567u32.to_le_bytes());
    assert_eq!(parse_hashes_ores(&b).unwrap(), m);
}

#[test]
fn hashes_ores_errors() {
    let m: IndexMap<RuntimeID, String> = IndexMap::new();
    assert_eq!(serialise_hashes_ores(&m), Err(OresError::ValuesEmpty));
    assert_eq!(parse_hashes_ores(&[0u8; 11]), Err(OresError::Truncated));
    let mut b = vec![0u8; 12];
    b[8] = 0x80;
    assert_eq!(parse_hashes_ores(&b), Err(OresError::InvalidNumber));
    let mut one = IndexMap::new();
    one.insert(RuntimeID(5), "x".to_owned());
    let good = serialise_hashes_ores(&one).unwrap();
    assert_eq!(parse_hashes_ores(&good[..good.len() - 1]), Err(OresError::Truncated));
}
