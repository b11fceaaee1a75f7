use can_iso_tp::id::{ExtendedId, Id, IdMask, StandardId};
use can_iso_tp::uds29;
use can_iso_tp::uds29::{Uds29Id, Uds29Kind};

#[test]
fn uds29_round_trip_raw() {
    let (ta, sa) = (0xF1u8, 0x33u8);
    let raw = uds29::encode_phys_id_raw(ta, sa);
    assert_eq!(raw, 0x18DA_F133);
    assert_eq!(uds29::decode_phys_id_raw(raw), Some((ta, sa)));
}

#[test]
fn uds29_functional_round_trip_raw() {
    let (ta, sa) = (0x33u8, 0xF1u8);
    let raw = uds29::encode_func_id_raw(ta, sa);
    assert_eq!(raw, 0x18DB_33F1);
    assert_eq!(uds29::decode_func_id_raw(raw), Some((ta, sa)));
}

#[test]
fn uds29_decode_rejects_non_extended_range() {
    let raw = 0xFFFF_FFFF;
    assert_eq!(uds29::decode_phys_id_raw(raw), None);
}

#[test]
fn uds29_decode_rejects_wrong_base() {
    let raw = 0x18DB_0000 | (0x12u32 << 8) | 0x34;
    // This is functional, so physical decode must reject it.
    assert_eq!(uds29::decode_phys_id_raw(raw), None);
    assert_eq!(uds29::decode_func_id_raw(raw), Some((0x12, 0x34)));
}

#[test]
fn uds29_decode_from_embedded_can_id() {
    let raw = uds29::encode_phys_id_raw(0xAA, 0x55);
    let id = Id::Extended(ExtendedId::new(raw).unwrap());
    assert_eq!(uds29::decode_phys_id(id), Some((0xAA, 0x55)));
}

#[test]
fn identifiers_of_different_addresses_differ() {
    let mut seen = Vec::new();
    for kind in [Uds29Kind::Physical, Uds29Kind::Functional] {
        for target in [0u8, 1, 0x7F, 0xFF] {
            for source in [0u8, 1, 0x7F, 0xFF] {
                let raw = uds29::encode_id_raw(kind, target, source);
                assert!(!seen.contains(&raw));
                seen.push(raw);
                assert_eq!(
                    uds29::decode_id_raw(raw),
                    Some(Uds29Id {
                        kind,
                        target,
                        source
                    })
                );
                assert_eq!(
                    uds29::decode_id(uds29::encode_id(kind, target, source)),
                    Some(Uds29Id {
                        kind,
                        target,
                        source
                    })
                );
            }
        }
    }
    assert_eq!(seen.len(), 32);
}

#[test]
fn standard_identifiers_carry_no_address() {
    let id = Id::Standard(StandardId::new(0x7DF).unwrap());
    assert_eq!(uds29::decode_id(id), None);
    assert_eq!(uds29::decode_phys_id(id), None);
    assert_eq!(uds29::decode_func_id(id), None);
}

#[test]
fn kind_codes() {
    assert_eq!(uds29::uds_kind_code(Uds29Kind::Physical), 0);
    assert_eq!(uds29::uds_kind_code(Uds29Kind::Functional), 1);
}

#[test]
fn target_filters_ignore_the_source() {
    let phys = uds29::filter_phys_for_target(0x10);
    assert_eq!(phys.id, uds29::encode_phys_id(0x10, 0));
    assert_eq!(phys.mask, IdMask::Extended(0x1FFF_FF00));
    let func = uds29::filter_func_for_target(0x33);
    assert_eq!(func.id, uds29::encode_func_id(0x33, 0));
    assert_eq!(func.mask, IdMask::Extended(0x1FFF_FF00));

    let both = uds29::filters_for_targets(0x10, Some(0x33));
    assert_eq!(both.as_slice(), &[phys, func]);
    let one = uds29::filters_for_targets(0x10, None);
    assert_eq!(one.as_slice(), &[phys]);
}

#[test]
fn identifiers_are_range_checked() {
    assert_eq!(StandardId::new(0x7FF).unwrap().as_raw(), 0x7FF);
    assert!(StandardId::new(0x800).is_none());
    assert_eq!(ExtendedId::new(0x1FFF_FFFF).unwrap().as_raw(), 0x1FFF_FFFF);
    assert!(ExtendedId::new(0x2000_0000).is_none());
}
