use hitman_formats::refs::{ReferenceType, RuntimeID};
use hitman_formats::wwev::{GameVersion, WwevError, WwiseEvent, WwiseNonStreamedAudioObject, WwiseStreamedAudioObject};

fn sample_event() -> WwiseEvent {
    WwiseEvent {
        id: RuntimeID(0x0010_0000_0000_0001),
        soundbank: RuntimeID(0x0020_0000_0000_0002),
        name: "Play_Footstep".to_owned(),
        max_attenuation_radius: (-1.0f32).to_bits(),
        non_streamed: vec![
            WwiseNonStreamedAudioObject { wem_id: 7, data: vec![1, 2, 3] },
            WwiseNonStreamedAudioObject { wem_id: 8, data: vec![] },
        ],
        streamed: vec![
            WwiseStreamedAudioObject { wem_id: 9, source: RuntimeID(0x0030_0000_0000_0003), prefetched_data: Some(vec![9, 9]) },
            WwiseStreamedAudioObject { wem_id: 10, source: RuntimeID(0x0040_0000_0000_0004), prefetched_data: None },
        ],
    }
}

#[test]
fn wwev_round_trip_h3() {
    let (bytes, refs) = sample_event().generate(GameVersion::H3);
    assert_eq!(refs.len(), 3);
    assert_eq!(refs[0].resource, RuntimeID(0x0020_0000_0000_0002));
    assert_eq!(refs[0].flags.reference_type, ReferenceType::Normal);
    assert_eq!(refs[2].flags.reference_type, ReferenceType::Weak);
    assert_eq!(&bytes[0..4], &14u32.to_le_bytes());
    let e = WwiseEvent::parse(&bytes, RuntimeID(0x0010_0000_0000_0001), &refs).unwrap();
    assert_eq!(e, sample_event());
}

#[test]
fn wwev_round_trip_h1() {
    let (bytes, refs) = sample_event().generate(GameVersion::H1);
    let (h3, _) = sample_event().generate(GameVersion::H3);
    assert_eq!(bytes.len(), h3.len() + 4);
    let e = WwiseEvent::parse(&bytes, RuntimeID(0x0010_0000_0000_0001), &refs).unwrap();
    assert_eq!(e, sample_event());
}

#[test]
fn wwev_errors() {
    let (bytes, refs) = sample_event().generate(GameVersion::H3);
    assert_eq!(WwiseEvent::parse(&bytes[..bytes.len() - 1], RuntimeID(1), &refs), Err(WwevError::Truncated));
    let mut longer = bytes.clone();
    longer.push(0);
    assert_eq!(WwiseEvent::parse(&longer, RuntimeID(1), &refs), Err(WwevError::DidNotReadEntireFile));
    assert_eq!(WwiseEvent::parse(&bytes, RuntimeID(1), &refs[..1]), Err(WwevError::InvalidReference(1)));
    assert_eq!(WwiseEvent::parse(&[0, 0, 0, 0], RuntimeID(1), &refs), Err(WwevError::InvalidString));
    let mut bad = bytes.clone();
    bad[4] = 0xFF;
    assert_eq!(WwiseEvent::parse(&bad, RuntimeID(1), &refs), Err(WwevError::InvalidString));
}
