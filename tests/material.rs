use hitman_formats::colour::{channel_from_bits, channel_to_bits, colour_string, parse_colour};
use hitman_formats::encode::generate_property;
use hitman_formats::error::MaterialError;
use hitman_formats::flags::{ClassFlags, InstanceFlags};
use hitman_formats::mapper::{parse_instance, to_intermediate};
use hitman_formats::model::{default_renderstate, is_default_renderstate, Binder, MaterialInstance, MaterialPropertyValue, RenderState};
use hitman_formats::node::{parse_material_property, FloatVal, IntermediateMaterialProperty};
use hitman_formats::refs::{ReferenceFlags, ReferenceType, ResourceReference, RuntimeID, NO_REFERENCE};
use hitman_formats::tags::{FloatTag, IntTag, NestedTag, TextTag, TAG_TXID};
use hitman_formats::vocab::{BlendMode, CullingMode, MaterialType};
use indexmap::IndexMap;

fn bits(x: f32) -> u32 {
    x.to_bits()
}

fn record(code: u32, data: u32, count: u32, kind: u32) -> Vec<u8> {
    let mut v = Vec::new();
    v.extend_from_slice(&code.to_le_bytes());
    v.extend_from_slice(&data.to_le_bytes());
    v.extend_from_slice(&count.to_le_bytes());
    v.extend_from_slice(&kind.to_le_bytes());
    v
}

fn tag_code(s: &str) -> u32 {
    u32::from_be_bytes(s.as_bytes().try_into().unwrap())
}

fn render_state(culling_mode: CullingMode) -> RenderState {
    RenderState {
        name: Some("RenderState".to_owned()),
        enabled: Some(true),
        blend_enabled: Some(false),
        blend_mode: Some(BlendMode::TransOnOpaque),
        decal_blend_diffuse: Some(1),
        decal_blend_normal: None,
        decal_blend_specular: Some(0),
        decal_blend_roughness: None,
        decal_blend_emission: None,
        alpha_test_enabled: Some(true),
        alpha_reference: Some(128),
        fog_enabled: Some(false),
        opacity: Some(bits(0.75)),
        culling_mode,
        z_bias: Some(2),
        z_offset: Some(bits(-0.5)),
        subsurface_red: Some(bits(0.25)),
        subsurface_green: None,
        subsurface_blue: Some(bits(1.0)),
        subsurface_value: Some(bits(0.0)),
    }
}

fn sample_instance() -> MaterialInstance {
    let mut properties = IndexMap::new();
    properties.insert("mapDiffuse".to_owned(), MaterialPropertyValue::Texture {
        enabled: true,
        value: Some(RuntimeID(0x00AB_CDEF_0123_4567)),
        tiling_u: "TILED".to_owned(),
        tiling_v: "MIRRORED".to_owned(),
        texture_type: "Color".to_owned(),
    });
    properties.insert("fRoughness".to_owned(), MaterialPropertyValue::Float { enabled: true, value: bits(0.5) });
    properties.insert("vTiling".to_owned(), MaterialPropertyValue::Vector {
        enabled: false,
        value: vec![bits(1.0), bits(2.0), bits(3.5)],
    });
    properties.insert("cTint".to_owned(), MaterialPropertyValue::Colour { enabled: true, value: "#ff8000".to_owned() });
    properties.insert("cGlow".to_owned(), MaterialPropertyValue::Colour { enabled: false, value: "#0a1b2cff".to_owned() });
    properties.insert("mapNormal".to_owned(), MaterialPropertyValue::Texture {
        enabled: false,
        value: None,
        tiling_u: "".to_owned(),
        tiling_v: "".to_owned(),
        texture_type: "Normal".to_owned(),
    });
    MaterialInstance {
        id: RuntimeID(0x0012_3456_789A_BCDE),
        name: "metal_rusty".to_owned(),
        material_type: MaterialType::StandardLinked,
        tags: "Metal Rust".to_owned(),
        class: Some(RuntimeID(0x0011_2233_4455_6677)),
        descriptor: Some(RuntimeID(0x0077_6655_4433_2211)),
        class_flags: ClassFlags::from_u32(0x0002_4105),
        instance_flags: InstanceFlags::from_u32(0x8021),
        binder: Binder { render_state: render_state(CullingMode::TwoSided), properties },
    }
}

#[test]
fn class_flags_round_trip() {
    for x in [0u32, 1, 0x3F_FFFF, 0x2A_AAAA, 0x15_5555, 0x0002_4105] {
        assert_eq!(ClassFlags::from_u32(x).as_u32(), x);
    }
    assert_eq!(ClassFlags::from_u32(0xFFFF_FFFF).as_u32(), 0x3F_FFFF);
    let f = ClassFlags::from_u32(0x2001);
    assert!(f.reflection_2d && f.alpha && !f.lighting);
}

#[test]
fn instance_flags_round_trip() {
    for x in [0u32, 0xFFFF, 0x8021, 0x1234] {
        assert_eq!(InstanceFlags::from_u32(x).as_u32(), x);
    }
    assert_eq!(InstanceFlags::from_u32(0x1_0001).as_u32(), 1);
    assert!(InstanceFlags::from_u32(0x8000).exclude_global_shadows);
}

#[test]
fn names_of_vocabularies() {
    assert_eq!(MaterialType::SpriteParticleAO.as_str(), "SpriteParticle_AO");
    assert_eq!(MaterialType::from_name(&"StandardWeighted".to_owned()).unwrap(), MaterialType::StandardWeighted);
    assert_eq!(BlendMode::from_name(&"TRANS_PREMULTIPLIED_ALPHA".to_owned()).unwrap(), BlendMode::TransPremultipliedAlpha);
    assert_eq!(CullingMode::from_name(&"OneSided".to_owned()).unwrap(), CullingMode::OneSided);
    assert!(matches!(MaterialType::from_name(&"Standard ".to_owned()), Err(MaterialError::InvalidMaterialType(s)) if s == "Standard "));
    assert!(matches!(CullingMode::from_name(&"twosided".to_owned()), Err(MaterialError::InvalidCullingMode(_))));
    assert!(matches!(BlendMode::from_name(&"".to_owned()), Err(MaterialError::InvalidBlendMode(_))));
}

#[test]
fn channel_boundaries() {
    assert_eq!(channel_from_bits(bits(0.0)), 0);
    assert_eq!(channel_from_bits(bits(1.0)), 255);
    assert_eq!(channel_from_bits(bits(0.5)), 128);
    assert_eq!(channel_from_bits(bits(-0.0)), 0);
    assert_eq!(channel_from_bits(bits(-3.0)), 0);
    assert_eq!(channel_from_bits(bits(7.0)), 255);
    assert_eq!(channel_from_bits(bits(f32::INFINITY)), 255);
    assert_eq!(channel_from_bits(bits(f32::NAN)), 0);
    assert_eq!(channel_from_bits(bits(1.0e-30)), 0);
}

#[test]
fn channel_matches_float_arithmetic() {
    for b in 0..=255u8 {
        assert_eq!(channel_to_bits(b), (b as f32 / 255.0).to_bits());
        assert_eq!(channel_from_bits(channel_to_bits(b)), b);
    }
    for i in 0..2000u32 {
        let x = i as f32 / 1999.0;
        assert_eq!(channel_from_bits(x.to_bits()), (x * 255.0).round() as u8, "{}", x);
    }
}

#[test]
fn colour_strings() {
    assert_eq!(colour_string(&vec![bits(0.0), bits(0.0), bits(0.0)]), "#000000");
    assert_eq!(colour_string(&vec![bits(1.0), bits(1.0), bits(1.0)]), "#ffffff");
    assert_eq!(colour_string(&vec![bits(1.0), bits(0.5), bits(0.0), bits(1.0)]), "#ff8000ff");
    assert_eq!(parse_colour(&"#FF8000".to_owned()), Some(vec![255, 128, 0]));
    assert_eq!(parse_colour(&"#0a1b2cff".to_owned()), Some(vec![10, 27, 44, 255]));
    assert_eq!(parse_colour(&"ff8000".to_owned()), None);
    assert_eq!(parse_colour(&"#ff800".to_owned()), None);
    assert_eq!(parse_colour(&"#ff80zz".to_owned()), None);
    assert_eq!(parse_colour(&"#+f8000".to_owned()), None);
}

#[test]
fn tag_kind_mismatch_is_rejected() {
    let data = record(tag_code("OPAC"), 7, 1, 2);
    assert!(matches!(
        parse_material_property(&data, &[], 0),
        Err(MaterialError::IncorrectType(c, 2)) if c == tag_code("OPAC")
    ));
    let data = record(tag_code("NAME"), 0, 1, 3);
    assert!(matches!(parse_material_property(&data, &[], 0), Err(MaterialError::IncorrectType(_, 3))));
    let data = record(tag_code("ZZZZ"), 0, 1, 2);
    assert!(matches!(parse_material_property(&data, &[], 0), Err(MaterialError::UnrecognisedTag(_))));
    let data = record(tag_code("ENAB"), 0, 1, 9);
    assert!(matches!(parse_material_property(&data, &[], 0), Err(MaterialError::UnrecognisedEntryType(9))));
    let data = record(tag_code("ENAB"), 1, 1, 2);
    assert_eq!(
        parse_material_property(&data, &[], 0).unwrap(),
        IntermediateMaterialProperty::Int(IntTag::Enabled, 1)
    );
}

#[test]
fn reference_sentinel_and_range() {
    let table = vec![ResourceReference {
        resource: RuntimeID(42),
        flags: ReferenceFlags { reference_type: ReferenceType::Weak, acquired: true, language_code: 1 },
    }];
    let data = record(TAG_TXID, NO_REFERENCE, 1, 2);
    assert_eq!(parse_material_property(&data, &table, 0).unwrap(), IntermediateMaterialProperty::TextureID(None));
    let data = record(TAG_TXID, 0, 1, 2);
    assert_eq!(
        parse_material_property(&data, &table, 0).unwrap(),
        IntermediateMaterialProperty::TextureID(Some(RuntimeID(42)))
    );
    let data = record(TAG_TXID, 1, 1, 2);
    assert!(matches!(parse_material_property(&data, &table, 0), Err(MaterialError::InvalidDependency(1))));
}

#[test]
fn truncated_reads() {
    let data = record(tag_code("ENAB"), 1, 1, 2);
    assert!(matches!(parse_material_property(&data[..15], &[], 0), Err(MaterialError::Truncated)));
    assert!(matches!(parse_material_property(&data, &[], 1), Err(MaterialError::Truncated)));
    let data = record(tag_code("VALU"), 16, 3, 0);
    assert!(matches!(parse_material_property(&data, &[], 0), Err(MaterialError::Truncated)));
    let mut data = record(tag_code("NAME"), 16, 3, 1);
    data.extend_from_slice(b"ab");
    assert!(matches!(parse_material_property(&data, &[], 0), Err(MaterialError::Truncated)));
}

#[test]
fn node_layout_and_round_trip() {
    let node = IntermediateMaterialProperty::Nested(NestedTag::FloatValue, vec![
        IntermediateMaterialProperty::Text(TextTag::Name, "fAlpha".to_owned()),
        IntermediateMaterialProperty::Int(IntTag::Enabled, 1),
        IntermediateMaterialProperty::Value(FloatVal::Vector(vec![bits(1.0), bits(0.25)])),
        IntermediateMaterialProperty::Float(FloatTag::Opacity, bits(0.5)),
        IntermediateMaterialProperty::TextureID(Some(RuntimeID(9))),
    ]);
    let mut refs = Vec::new();
    let (rec, trailing) = generate_property(16, &mut refs, node).unwrap();
    let trailing = trailing.unwrap();
    // "fAlpha\0" padded to 16, the vector padded to 16, then five records.
    assert_eq!(trailing.len(), 16 + 16 + 5 * 16);
    assert_eq!(&rec[0..4], b"VTLF");
    assert_eq!(u32::from_le_bytes(rec[4..8].try_into().unwrap()), 16 + 32);
    assert_eq!(u32::from_le_bytes(rec[8..12].try_into().unwrap()), 5);
    assert_eq!(refs.len(), 1);
    assert_eq!(refs[0].resource, RuntimeID(9));
    assert_eq!(refs[0].flags.language_code, 0x1f);
    let mut buf = vec![0u8; 16];
    buf.extend_from_slice(&trailing);
    let at = buf.len() as u64;
    buf.extend_from_slice(&rec);
    let decoded = parse_material_property(&buf, &refs, at).unwrap();
    let again = IntermediateMaterialProperty::Nested(NestedTag::FloatValue, vec![
        IntermediateMaterialProperty::Text(TextTag::Name, "fAlpha".to_owned()),
        IntermediateMaterialProperty::Int(IntTag::Enabled, 1),
        IntermediateMaterialProperty::Value(FloatVal::Vector(vec![bits(1.0), bits(0.25)])),
        IntermediateMaterialProperty::Float(FloatTag::Opacity, bits(0.5)),
        IntermediateMaterialProperty::TextureID(Some(RuntimeID(9))),
    ]);
    assert_eq!(decoded, again);
}

#[test]
fn offsets_that_do_not_fit_are_refused() {
    let node = IntermediateMaterialProperty::Text(TextTag::Name, "abc".to_owned());
    let mut refs = Vec::new();
    assert!(matches!(generate_property(u32::MAX - 8, &mut refs, node), Err(MaterialError::InvalidNumber)));
    let node = IntermediateMaterialProperty::Int(IntTag::ZBias, 3);
    let (rec, trailing) = generate_property(u32::MAX, &mut refs, node).unwrap();
    assert_eq!(rec, record(tag_code("ZBIA"), 3, 1, 2));
    assert!(trailing.is_none());
}

#[test]
fn material_instance_round_trip() {
    let (bytes, refs) = sample_instance().generate().unwrap();
    assert_eq!(bytes.len() % 16, 0);
    assert_eq!(refs.len(), 3);
    assert_eq!(refs[0].resource, RuntimeID(0x00AB_CDEF_0123_4567));
    assert_eq!(refs[1].resource, RuntimeID(0x0011_2233_4455_6677));
    assert_eq!(refs[2].resource, RuntimeID(0x0077_6655_4433_2211));
    let decoded = MaterialInstance::parse(&bytes, RuntimeID(0x0012_3456_789A_BCDE), &refs).unwrap();
    assert_eq!(decoded, sample_instance());
}

#[test]
fn round_trip_without_optional_fields() {
    let mut m = sample_instance();
    m.class = None;
    m.descriptor = None;
    m.binder.render_state = RenderState {
        name: None,
        enabled: None,
        blend_enabled: None,
        blend_mode: None,
        decal_blend_diffuse: None,
        decal_blend_normal: None,
        decal_blend_specular: None,
        decal_blend_roughness: None,
        decal_blend_emission: None,
        alpha_test_enabled: None,
        alpha_reference: None,
        fog_enabled: None,
        opacity: None,
        culling_mode: CullingMode::DontCare,
        z_bias: None,
        z_offset: None,
        subsurface_red: None,
        subsurface_green: None,
        subsurface_blue: None,
        subsurface_value: None,
    };
    m.binder.properties = IndexMap::new();
    let (bytes, refs) = m.generate().unwrap();
    assert!(refs.is_empty());
    let decoded = MaterialInstance::parse(&bytes, RuntimeID(0x0012_3456_789A_BCDE), &refs).unwrap();
    let mut expected = sample_instance();
    expected.class = None;
    expected.descriptor = None;
    expected.binder.properties = IndexMap::new();
    assert_eq!(decoded.binder.render_state.culling_mode, CullingMode::DontCare);
    assert_eq!(decoded.binder.render_state.name, None);
    assert_eq!(decoded.class, None);
    assert!(decoded.binder.properties.is_empty());
    assert_eq!(decoded.name, expected.name);
}

#[test]
fn encoding_is_deterministic() {
    let a = sample_instance().generate().unwrap();
    let b = sample_instance().generate().unwrap();
    assert_eq!(a, b);
}

#[test]
fn vector_arity_is_checked() {
    for n in [0usize, 1, 5] {
        let mut m = sample_instance();
        m.binder.properties.insert("v".to_owned(), MaterialPropertyValue::Vector { enabled: true, value: vec![0; n] });
        assert!(matches!(m.generate(), Err(MaterialError::InvalidVector)));
    }
    for n in [2usize, 3, 4] {
        let mut m = sample_instance();
        let value: Vec<u32> = (0..n as u32).map(|i| bits(i as f32 + 0.5)).collect();
        m.binder.properties.insert("v".to_owned(), MaterialPropertyValue::Vector { enabled: true, value: value.clone() });
        let (bytes, refs) = m.generate().unwrap();
        let decoded = MaterialInstance::parse(&bytes, RuntimeID(0x0012_3456_789A_BCDE), &refs).unwrap();
        assert_eq!(decoded.binder.properties.get("v"), Some(&MaterialPropertyValue::Vector { enabled: true, value }));
    }
}

#[test]
fn malformed_colour_is_refused() {
    let mut m = sample_instance();
    m.binder.properties.insert("c".to_owned(), MaterialPropertyValue::Colour { enabled: true, value: "#12345g".to_owned() });
    assert!(matches!(m.generate(), Err(MaterialError::InvalidHex)));
}

#[test]
fn missing_culling_mode_is_reported() {
    let tree = IntermediateMaterialProperty::Nested(NestedTag::Instance, vec![
        IntermediateMaterialProperty::Text(TextTag::Name, "m".to_owned()),
        IntermediateMaterialProperty::Text(TextTag::Tags, "".to_owned()),
        IntermediateMaterialProperty::Nested(NestedTag::Binder, vec![IntermediateMaterialProperty::Nested(
            NestedTag::RenderState,
            vec![IntermediateMaterialProperty::Int(IntTag::Enabled, 1)],
        )]),
    ]);
    assert!(matches!(
        parse_instance(tree),
        Err(MaterialError::RequiredPropertyNotFound(c)) if c == tag_code("CULL")
    ));
}

#[test]
fn structural_errors() {
    let not_instance = IntermediateMaterialProperty::Int(IntTag::Enabled, 1);
    assert!(matches!(parse_instance(not_instance), Err(MaterialError::InstanceNotTopLevel)));
    let wrong_level = IntermediateMaterialProperty::Nested(NestedTag::Instance, vec![
        IntermediateMaterialProperty::Text(TextTag::Name, "m".to_owned()),
        IntermediateMaterialProperty::Text(TextTag::Tags, "".to_owned()),
        IntermediateMaterialProperty::Nested(NestedTag::Binder, vec![
            IntermediateMaterialProperty::Nested(NestedTag::RenderState, vec![IntermediateMaterialProperty::Text(
                TextTag::CullingMode,
                "OneSided".to_owned(),
            )]),
            IntermediateMaterialProperty::Int(IntTag::ZBias, 1),
        ]),
    ]);
    assert!(matches!(
        parse_instance(wrong_level),
        Err(MaterialError::PropertyAtWrongLevel(IntermediateMaterialProperty::Int(IntTag::ZBias, 1)))
    ));
    let bad_colour = IntermediateMaterialProperty::Nested(NestedTag::Instance, vec![
        IntermediateMaterialProperty::Text(TextTag::Name, "m".to_owned()),
        IntermediateMaterialProperty::Text(TextTag::Tags, "".to_owned()),
        IntermediateMaterialProperty::Nested(NestedTag::Binder, vec![
            IntermediateMaterialProperty::Nested(NestedTag::RenderState, vec![IntermediateMaterialProperty::Text(
                TextTag::CullingMode,
                "OneSided".to_owned(),
            )]),
            IntermediateMaterialProperty::Nested(NestedTag::Color4, vec![
                IntermediateMaterialProperty::Text(TextTag::Name, "cTint".to_owned()),
                IntermediateMaterialProperty::Int(IntTag::Enabled, 1),
                IntermediateMaterialProperty::Value(FloatVal::Vector(vec![0, 0, 0])),
            ]),
        ]),
    ]);
    assert!(matches!(parse_instance(bad_colour), Err(MaterialError::InvalidColor(n)) if n == "cTint"));
}

#[test]
fn binder_to_tree() {
    let mut properties = IndexMap::new();
    properties.insert("cTint".to_owned(), MaterialPropertyValue::Colour { enabled: true, value: "#ffffff".to_owned() });
    let b = Binder { render_state: render_state(CullingMode::OneSided), properties };
    match to_intermediate(b).unwrap() {
        IntermediateMaterialProperty::Nested(NestedTag::Binder, c) => {
            assert_eq!(c.len(), 2);
            assert!(matches!(&c[0], IntermediateMaterialProperty::Nested(NestedTag::RenderState, r) if r.len() == 16));
            assert_eq!(c[1], IntermediateMaterialProperty::Nested(NestedTag::Color, vec![
                IntermediateMaterialProperty::Text(TextTag::Name, "cTint".to_owned()),
                IntermediateMaterialProperty::Int(IntTag::Enabled, 1),
                IntermediateMaterialProperty::Value(FloatVal::Vector(vec![bits(1.0), bits(1.0), bits(1.0)])),
            ]));
        },
        _ => panic!("not a binder node"),
    }
}

#[test]
fn repeated_property_names_keep_their_first_place() {
    let prop = |name: &str, v: u32| {
        IntermediateMaterialProperty::Nested(NestedTag::FloatValue, vec![
            IntermediateMaterialProperty::Text(TextTag::Name, name.to_owned()),
            IntermediateMaterialProperty::Int(IntTag::Enabled, 1),
            IntermediateMaterialProperty::Value(FloatVal::Single(v)),
        ])
    };
    let tree = IntermediateMaterialProperty::Nested(NestedTag::Instance, vec![
        IntermediateMaterialProperty::Text(TextTag::Name, "m".to_owned()),
        IntermediateMaterialProperty::Text(TextTag::Tags, "t".to_owned()),
        IntermediateMaterialProperty::Nested(NestedTag::Binder, vec![
            prop("a", 1),
            IntermediateMaterialProperty::Nested(NestedTag::RenderState, vec![IntermediateMaterialProperty::Text(
                TextTag::CullingMode,
                "OneSided".to_owned(),
            )]),
            prop("b", 2),
            prop("a", 3),
        ]),
    ]);
    let (name, tags, binder) = parse_instance(tree).unwrap();
    assert_eq!(name, "m");
    assert_eq!(tags, "t");
    let entries: Vec<(String, MaterialPropertyValue)> = binder.properties.into_iter().collect();
    assert_eq!(entries, vec![
        ("a".to_owned(), MaterialPropertyValue::Float { enabled: true, value: 3 }),
        ("b".to_owned(), MaterialPropertyValue::Float { enabled: true, value: 2 }),
    ]);
}

#[test]
fn default_render_state_name() {
    assert_eq!(default_renderstate(), Some("RenderState".to_owned()));
    assert!(is_default_renderstate(&None));
    assert!(is_default_renderstate(&Some("RenderState".to_owned())));
    assert!(!is_default_renderstate(&Some("Other".to_owned())));
}

#[test]
fn instance_header_errors() {
    let (bytes, refs) = sample_instance().generate().unwrap();
    let id = RuntimeID(0x0012_3456_789A_BCDE);
    assert!(matches!(MaterialInstance::parse(&bytes[..3], id, &refs), Err(MaterialError::Truncated)));
    let h = u32::from_le_bytes(bytes[0..4].try_into().unwrap()) as usize;
    assert_eq!(h + 48, bytes.len());
    assert!(matches!(MaterialInstance::parse(&bytes[..h + 31], id, &refs), Err(MaterialError::Truncated)));
    // The class index is the second header field; the table has three entries.
    let mut bad = bytes.clone();
    bad[h + 4..h + 8].copy_from_slice(&7u32.to_le_bytes());
    assert!(matches!(MaterialInstance::parse(&bad, id, &refs), Err(MaterialError::InvalidDependency(7))));
    let mut none = bytes.clone();
    none[h + 4..h + 8].copy_from_slice(&NO_REFERENCE.to_le_bytes());
    assert_eq!(MaterialInstance::parse(&none, id, &refs).unwrap().class, None);
    // The type name is "StandardLinked"; change one letter.
    let t = u32::from_le_bytes(bytes[h..h + 4].try_into().unwrap()) as usize;
    assert_eq!(&bytes[t..t + 14], b"StandardLinked");
    let mut renamed = bytes.clone();
    renamed[t] = b'X';
    assert!(matches!(
        MaterialInstance::parse(&renamed, id, &refs),
        Err(MaterialError::InvalidMaterialType(s)) if s == "XtandardLinked"
    ));
    // Header: type offset, class, class flags, instance flags, descriptor, 8 reserved, root, 3.
    assert_eq!(u32::from_le_bytes(bytes[h + 8..h + 12].try_into().unwrap()), 0x0002_4105);
    assert_eq!(u32::from_le_bytes(bytes[h + 12..h + 16].try_into().unwrap()), 0x8021);
    assert_eq!(u32::from_le_bytes(bytes[h + 32..h + 36].try_into().unwrap()), 3);
}

#[test]
fn class_and_descriptor_reference_flags() {
    let (_, refs) = sample_instance().generate().unwrap();
    assert_eq!(refs[1].flags, ReferenceFlags { reference_type: ReferenceType::Normal, acquired: false, language_code: 0 });
    assert_eq!(refs[2].flags, ReferenceFlags { reference_type: ReferenceType::Normal, acquired: false, language_code: 0x1f });
}

fn nested(depth: usize) -> IntermediateMaterialProperty {
    let mut n = IntermediateMaterialProperty::Int(IntTag::Enabled, 1);
    for _ in 0..depth {
        n = IntermediateMaterialProperty::Nested(NestedTag::Texture, vec![n]);
    }
    n
}

#[test]
fn nesting_limit_is_shared_by_both_directions() {
    let mut refs = Vec::new();
    assert!(matches!(generate_property(16, &mut refs, nested(33)), Err(MaterialError::NestingTooDeep)));
    let (rec, trailing) = generate_property(16, &mut refs, nested(32)).unwrap();
    let mut buf = vec![0u8; 16];
    buf.extend_from_slice(&trailing.unwrap());
    let at = buf.len() as u64;
    buf.extend_from_slice(&rec);
    assert_eq!(parse_material_property(&buf, &refs, at).unwrap(), nested(32));
    assert_eq!(nested(3).clone(), nested(3));
    let m = sample_instance();
    assert_eq!(m.clone(), m);
}
