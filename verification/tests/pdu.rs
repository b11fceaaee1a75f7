use can_iso_tp::id::{Id, StandardId};
use can_iso_tp::pdu::{
    decode, decode_with_offset, duration_to_st_min, encode, encode_with_prefix,
    encode_with_prefix_sized, flow_status_code, pci_offset_from_prefix, st_min_to_duration,
    FlowStatus, Pdu,
};
use can_iso_tp::time::Duration;
use can_iso_tp::IsoTpError;

fn sid(id: u16) -> Id {
    Id::Standard(StandardId::new(id).unwrap())
}

#[test]
fn encode_and_decode_single_frame() {
    let pdu = Pdu::SingleFrame {
        len: 3,
        data: &[0xAA, 0xBB, 0xCC],
    };
    let frame = encode(sid(0x123), &pdu, None).unwrap();
    assert_eq!(frame.id, sid(0x123));
    assert_eq!(frame.data[0], 0x03);
    let parsed = decode(&frame.data).unwrap();
    match parsed {
        Pdu::SingleFrame { len, data } => {
            assert_eq!(len, 3);
            assert_eq!(data, &[0xAA, 0xBB, 0xCC]);
        }
        _ => panic!("wrong PDU decoded"),
    }
}

#[test]
fn encode_and_decode_first_and_consecutive() {
    let payload = [1u8, 2, 3, 4, 5, 6, 7, 8];
    let ff = encode(
        sid(0x201),
        &Pdu::FirstFrame {
            len: payload.len() as u16,
            data: &payload,
        },
        Some(0xAA),
    )
    .unwrap();
    let parsed = decode(&ff.data).unwrap();
    match parsed {
        Pdu::FirstFrame { len, data } => {
            assert_eq!(len, payload.len() as u16);
            assert_eq!(data, &payload[..6]);
        }
        _ => panic!("unexpected PDU"),
    }

    let cf = encode(
        sid(0x201),
        &Pdu::ConsecutiveFrame {
            sn: 1,
            data: &payload[6..],
        },
        None,
    )
    .unwrap();
    let parsed_cf = decode(&cf.data).unwrap();
    match parsed_cf {
        Pdu::ConsecutiveFrame { sn, data } => {
            assert_eq!(sn, 1);
            assert_eq!(data, &payload[6..]);
        }
        _ => panic!("unexpected PDU"),
    }
}

#[test]
fn flow_control_roundtrip() {
    let frame = encode(
        sid(0x333),
        &Pdu::FlowControl {
            status: FlowStatus::ClearToSend,
            block_size: 4,
            st_min: 10,
        },
        None,
    )
    .unwrap();
    let parsed = decode(&frame.data).unwrap();
    match parsed {
        Pdu::FlowControl {
            status,
            block_size,
            st_min,
        } => {
            assert_eq!(status, FlowStatus::ClearToSend);
            assert_eq!(block_size, 4);
            assert_eq!(st_min, 10);
        }
        _ => panic!("unexpected PDU"),
    }
}

#[test]
fn decode_rejects_short_first_frame() {
    let data = [0x10, 0x00];
    assert!(decode(&data).is_err());
}

#[test]
fn st_min_reserved_values_return_none() {
    assert!(st_min_to_duration(0x80).is_none());
    assert!(st_min_to_duration(0xF0).is_none());
}

#[test]
fn every_st_min_byte_survives_the_round_trip() {
    for raw in 0u8..=255 {
        match st_min_to_duration(raw) {
            Some(d) => assert_eq!(duration_to_st_min(d), raw),
            None => assert!((0x80..=0xF0).contains(&raw) || raw >= 0xFA),
        }
    }
    assert_eq!(st_min_to_duration(0x7F), Some(Duration::from_millis(127)));
    assert_eq!(st_min_to_duration(0xF9), Some(Duration::from_micros(900)));
    assert!(st_min_to_duration(0xFA).is_none());
}

#[test]
fn separation_times_round_down() {
    assert_eq!(duration_to_st_min(Duration::from_micros(99)), 0);
    assert_eq!(duration_to_st_min(Duration::from_micros(950)), 0);
    assert_eq!(duration_to_st_min(Duration::from_micros(1999)), 1);
    assert_eq!(duration_to_st_min(Duration::from_secs(60)), 0x7F);
}

#[test]
fn frames_are_laid_out_byte_by_byte() {
    let sf = encode_with_prefix(
        sid(1),
        &Pdu::SingleFrame {
            len: 2,
            data: &[7, 8],
        },
        Some(0xCC),
        Some(0x55),
    )
    .unwrap();
    assert_eq!(sf.data, vec![0x55, 0x02, 7, 8, 0xCC, 0xCC, 0xCC, 0xCC]);

    let ff = encode(
        sid(1),
        &Pdu::FirstFrame {
            len: 0x123,
            data: &[1, 2, 3, 4, 5, 6],
        },
        None,
    )
    .unwrap();
    assert_eq!(ff.data, vec![0x11, 0x23, 1, 2, 3, 4, 5, 6]);

    let cf = encode(
        sid(1),
        &Pdu::ConsecutiveFrame {
            sn: 0x1F,
            data: &[9],
        },
        None,
    )
    .unwrap();
    assert_eq!(cf.data, vec![0x2F, 9]);

    let fc = encode(
        sid(1),
        &Pdu::FlowControl {
            status: FlowStatus::Overflow,
            block_size: 1,
            st_min: 2,
        },
        None,
    )
    .unwrap();
    assert_eq!(fc.data, vec![0x32, 1, 2]);
}

#[test]
fn long_single_frames_use_the_escape_length() {
    let payload: Vec<u8> = (0..40).collect();
    let frame = encode_with_prefix_sized(
        sid(1),
        &Pdu::SingleFrame {
            len: 40,
            data: &payload,
        },
        None,
        None,
        64,
    )
    .unwrap();
    assert_eq!(frame.data[0], 0x00);
    assert_eq!(frame.data[1], 40);
    match decode(&frame.data).unwrap() {
        Pdu::SingleFrame { len, data } => {
            assert_eq!(len, 40);
            assert_eq!(data, payload.as_slice());
        }
        _ => panic!("unexpected PDU"),
    }
}

#[test]
fn decode_skips_the_addressing_byte() {
    assert_eq!(pci_offset_from_prefix(None), 0);
    assert_eq!(pci_offset_from_prefix(Some(0)), 1);
    match decode_with_offset(&[0xAA, 0x21, 5, 6], 1).unwrap() {
        Pdu::ConsecutiveFrame { sn, data } => {
            assert_eq!(sn, 1);
            assert_eq!(data, &[5, 6]);
        }
        _ => panic!("unexpected PDU"),
    }
}

#[test]
fn malformed_frames_are_invalid() {
    for bytes in [
        &[][..],
        &[0x05, 1, 2][..],
        &[0x31][..],
        &[0x33, 0, 0][..],
        &[0x40, 0][..],
        &[0xF0][..],
    ] {
        assert!(matches!(decode(bytes), Err(IsoTpError::InvalidFrame)));
    }
}

#[test]
fn flow_status_codes() {
    assert_eq!(flow_status_code(FlowStatus::ClearToSend), 0);
    assert_eq!(flow_status_code(FlowStatus::Wait), 1);
    assert_eq!(flow_status_code(FlowStatus::Overflow), 2);
}
