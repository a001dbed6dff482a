use hitman_formats::entity::{MaterialEntity, MaterialOverride, MATB_REFERENCE, MATT_FIRST_REFERENCE};
use hitman_formats::error::MaterialError;
use hitman_formats::refs::RuntimeID;
use indexmap::IndexMap;

fn sample_entity() -> MaterialEntity {
    let mut overrides = IndexMap::new();
    overrides.insert("mapDiffuse".to_owned(), MaterialOverride::Texture(Some(RuntimeID(0x0055_0000_0000_0001))));
    overrides.insert("mapMask".to_owned(), MaterialOverride::Texture(None));
    overrides.insert("cTint".to_owned(), MaterialOverride::Color("#ff8000".to_owned()));
    overrides.insert("cGlow".to_owned(), MaterialOverride::Color("#102030ff".to_owned()));
    overrides.insert("fAlpha".to_owned(), MaterialOverride::Float(0.25f32.to_bits()));
    overrides.insert("vOffset".to_owned(), MaterialOverride::Vector(vec![1.0f32.to_bits(), 2.0f32.to_bits()]));
    overrides.insert("vScale".to_owned(), MaterialOverride::Vector(vec![0, 0, 0, 0]));
    MaterialEntity {
        factory: RuntimeID(0x0011_0000_0000_0001),
        blueprint: RuntimeID(0x0022_0000_0000_0002),
        material: RuntimeID(0x0033_0000_0000_0003),
        overrides,
    }
}

#[test]
fn entity_round_trip() {
    let ((matt, matt_refs), (matb, matb_refs)) = sample_entity().generate().unwrap();
    assert_eq!(matt_refs.len(), 4);
    assert_eq!(matt_refs[0].resource, RuntimeID(MATT_FIRST_REFERENCE));
    assert_eq!(matt_refs[1].resource, RuntimeID(0x0022_0000_0000_0002));
    assert_eq!(matt_refs[2].resource, RuntimeID(0x0033_0000_0000_0003));
    assert_eq!(matt_refs[3].resource, RuntimeID(0x0055_0000_0000_0001));
    assert_eq!(matb_refs[0].resource, RuntimeID(MATB_REFERENCE));
    assert_eq!(&matt[0..5], &[1, 3, 0, 0, 0]);
    let e = MaterialEntity::parse(&matt, RuntimeID(0x0011_0000_0000_0001), &matt_refs, &matb, RuntimeID(0x0022_0000_0000_0002))
        .unwrap();
    assert_eq!(e, sample_entity());
}

#[test]
fn entity_errors() {
    let ((matt, matt_refs), (matb, _)) = sample_entity().generate().unwrap();
    let f = RuntimeID(1);
    let b = RuntimeID(2);
    assert_eq!(MaterialEntity::parse(&[], f, &matt_refs[..2], &matb, b), Err(MaterialError::InvalidDependency(2)));
    assert_eq!(MaterialEntity::parse(&matt, f, &matt_refs[..3], &matb, b), Err(MaterialError::InvalidDependency(3)));
    assert_eq!(MaterialEntity::parse(&matt, f, &matt_refs, &[], b), Err(MaterialError::EntryCountMismatch));
    assert_eq!(MaterialEntity::parse(&[9, 0], f, &matt_refs, &matb, b), Err(MaterialError::UnrecognisedEntryType(9)));
    assert_eq!(MaterialEntity::parse(&[4, 0, 0], f, &matt_refs, &matb, b), Err(MaterialError::Truncated));
    let mut bad = sample_entity();
    bad.overrides.insert("v".to_owned(), MaterialOverride::Vector(vec![0]));
    assert!(matches!(bad.generate(), Err(MaterialError::InvalidVector)));
    let mut bad = sample_entity();
    bad.overrides.insert("c".to_owned(), MaterialOverride::Color("red".to_owned()));
    assert!(matches!(bad.generate(), Err(MaterialError::InvalidHex)));
}

#[test]
fn entity_names_with_repeats() {
    // Two MATB names "x", one float value each: the second value replaces the first.
    let mut matb = Vec::new();
    let mut matt = Vec::new();
    for v in [1u32, 2] {
        matb.push(4u8);
        matb.extend_from_slice(&2u32.to_le_bytes());
        matb.extend_from_slice(b"x\0");
        matt.push(4u8);
        matt.extend_from_slice(&v.to_le_bytes());
    }
    matt.push(0);
    matb.push(0);
    let refs: Vec<_> = (0..3u64)
        .map(|i| hitman_formats::refs::default_reference(RuntimeID(i), hitman_formats::refs::ReferenceType::Normal))
        .collect();
    let e = MaterialEntity::parse(&matt, RuntimeID(1), &refs, &matb, RuntimeID(2)).unwrap();
    assert_eq!(e.overrides.len(), 1);
    assert_eq!(e.overrides.get("x"), Some(&MaterialOverride::Float(2)));
    assert_eq!(e.material, RuntimeID(2));
}
