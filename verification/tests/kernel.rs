use can_iso_tp::flags;
use can_iso_tp::interface::RxFlowControl;
use can_iso_tp::kernel;
use can_iso_tp::kernel::{
    build_can_isotp_options, CallOutcome, CanIsotpFcOptions, CanIsotpLlOptions, CanIsotpOptions,
    Error, IsoTpFlowControlOptions, IsoTpKernelOptions, IsoTpLinkLayerOptions, IsoTpSocketOptions,
    KernelSetting, KernelUdsDemux, PeerSlot, PollEvents, PollStep, RecvNext, SendNext,
};
use can_iso_tp::time::Duration;
use can_iso_tp::uds29;
use core::mem::size_of;

#[test]
fn kernel_socketcan_raw_socketcan_talks_to_kernel_isotp() {}

#[test]
fn can_isotp_options_layout() {
    assert_eq!(size_of::<CanIsotpOptions>(), 12);
    assert_eq!(size_of::<CanIsotpFcOptions>(), 3);
    assert_eq!(size_of::<CanIsotpLlOptions>(), 3);
}

#[test]
fn duration_to_nanos_clamps() {
    let huge = Duration::from_secs(u32::MAX as u64 + 42);
    assert_eq!(kernel::duration_to_nanos_u32(huge), u32::MAX);
}

#[test]
fn stmin_duration_round_trips_common_values() {
    assert_eq!(
        kernel::duration_to_isotp_stmin(Duration::from_millis(0)),
        0x00
    );
    assert_eq!(
        kernel::duration_to_isotp_stmin(Duration::from_millis(10)),
        0x0A
    );
    assert_eq!(
        kernel::duration_to_isotp_stmin(Duration::from_micros(100)),
        0xF1
    );
    assert_eq!(
        kernel::duration_to_isotp_stmin(Duration::from_micros(900)),
        0xF9
    );
    assert_eq!(
        kernel::isotp_stmin_to_duration(0xF4),
        Some(Duration::from_micros(400))
    );
}

#[test]
fn options_flags_from_padding_and_ext_addr() {
    let opts = IsoTpSocketOptions {
        ext_address: Some(0x12),
        rx_ext_address: Some(0x34),
        tx_padding: Some(0xAA),
        rx_padding: Some(0xBB),
        ..IsoTpSocketOptions::default()
    };
    let c = build_can_isotp_options(&opts);
    assert_eq!(c.ext_address, 0x12);
    assert_eq!(c.rx_ext_address, 0x34);
    assert_eq!(c.txpad_content, 0xAA);
    assert_eq!(c.rxpad_content, 0xBB);
    assert!(c.flags & flags::CAN_ISOTP_EXTEND_ADDR != 0);
    assert!(c.flags & flags::CAN_ISOTP_RX_EXT_ADDR != 0);
    assert!(c.flags & flags::CAN_ISOTP_TX_PADDING != 0);
    assert!(c.flags & flags::CAN_ISOTP_RX_PADDING != 0);
}

#[test]
fn flags_hold_nothing_that_was_not_asked_for() {
    let opts = IsoTpSocketOptions {
        flags: flags::CAN_ISOTP_WAIT_TX_DONE,
        tx_padding: Some(0),
        ..IsoTpSocketOptions::default()
    };
    let c = build_can_isotp_options(&opts);
    assert_eq!(
        c.flags,
        flags::CAN_ISOTP_WAIT_TX_DONE | flags::CAN_ISOTP_TX_PADDING
    );
    assert_eq!(c.frame_txtime, 0);
}

#[test]
fn settings_come_in_order() {
    let plain = IsoTpKernelOptions::default();
    let base = build_can_isotp_options(&plain.socket);
    assert_eq!(
        kernel::apply_kernel_options(&plain),
        vec![KernelSetting::Base(base)]
    );

    let mut full = IsoTpKernelOptions::default();
    full.socket.frame_txtime = Some(Duration::from_micros(50));
    full.flow_control = Some(IsoTpFlowControlOptions::new(4, 5, 6));
    full.force_tx_stmin = Some(Duration::from_nanos(7));
    full.force_rx_stmin = Some(Duration::from_secs(10));
    full.link_layer = Some(IsoTpLinkLayerOptions::new(72, 64, 1));
    let settings = kernel::apply_kernel_options(&full);
    assert_eq!(
        settings,
        vec![
            KernelSetting::TxTime(50_000),
            KernelSetting::Base(build_can_isotp_options(&full.socket)),
            KernelSetting::RecvFc(CanIsotpFcOptions {
                bs: 4,
                stmin: 5,
                wftmax: 6
            }),
            KernelSetting::TxStMin(7),
            KernelSetting::RxStMin(u32::MAX),
            KernelSetting::LinkLayer(CanIsotpLlOptions {
                mtu: 72,
                tx_dl: 64,
                tx_flags: 1
            }),
        ]
    );
    let numbers: Vec<Option<i32>> = settings.iter().map(|s| s.isotp_option()).collect();
    assert_eq!(
        numbers,
        vec![None, Some(1), Some(2), Some(3), Some(4), Some(5)]
    );
}

#[test]
fn empty_receive_buffers_are_rejected() {
    let mut options = IsoTpKernelOptions::default();
    assert_eq!(options.max_rx_payload, 4095);
    assert!(options.check().is_ok());
    options.max_rx_payload = 0;
    assert!(matches!(
        options.check(),
        Err(Error::InvalidConfig("max_rx_payload must be > 0"))
    ));
}

#[test]
fn flow_control_of_a_socket() {
    let mut options = IsoTpKernelOptions::default();
    assert_eq!(options.wft_max(), 0);
    assert_eq!(
        options.rx_flow_control(),
        RxFlowControl {
            block_size: 0,
            st_min: Duration::from_millis(0)
        }
    );
    options.flow_control = Some(IsoTpFlowControlOptions::new(4, 0xF2, 6));
    assert_eq!(options.wft_max(), 6);
    let fc = options.rx_flow_control();
    assert_eq!(
        fc,
        RxFlowControl {
            block_size: 4,
            st_min: Duration::from_micros(200)
        }
    );
    assert_eq!(
        kernel::flow_control_setting(fc, 6),
        KernelSetting::RecvFc(CanIsotpFcOptions {
            bs: 4,
            stmin: 0xF2,
            wftmax: 6
        })
    );
    options.flow_control = Some(IsoTpFlowControlOptions::new(4, 0x80, 6));
    assert_eq!(options.rx_flow_control().st_min, Duration::from_millis(0));
}

#[test]
fn what_follows_each_call() {
    let left = Some(Duration::from_millis(30));
    assert_eq!(
        kernel::recv_next(CallOutcome::Moved(5), left),
        RecvNext::Deliver(5)
    );
    assert_eq!(kernel::recv_next(CallOutcome::Moved(0), left), RecvNext::Eof);
    assert_eq!(
        kernel::recv_next(CallOutcome::Interrupted, None),
        RecvNext::Retry
    );
    assert_eq!(
        kernel::recv_next(CallOutcome::WouldBlock, left),
        RecvNext::Wait(30)
    );
    assert_eq!(
        kernel::recv_next(CallOutcome::WouldBlock, None),
        RecvNext::TimedOut
    );
    assert_eq!(kernel::recv_next(CallOutcome::Failed, left), RecvNext::Fail);
    assert_eq!(
        kernel::recv_one_ready(CallOutcome::Interrupted),
        RecvNext::Fail
    );
    assert_eq!(
        kernel::recv_one_ready(CallOutcome::WouldBlock),
        RecvNext::TimedOut
    );
    assert_eq!(
        kernel::send_next(CallOutcome::Moved(0), None),
        SendNext::Done
    );
    assert_eq!(
        kernel::send_next(CallOutcome::WouldBlock, left),
        SendNext::Wait(30)
    );
    assert_eq!(
        kernel::send_next(CallOutcome::WouldBlock, None),
        SendNext::TimedOut
    );
    assert_eq!(
        kernel::duration_to_poll_timeout(Duration::from_secs(10_000_000)),
        i32::MAX
    );
}

#[test]
fn the_first_socket_with_news_decides() {
    let quiet = PollEvents {
        readable: false,
        failed: false,
    };
    let failed = PollEvents {
        readable: false,
        failed: true,
    };
    let readable = PollEvents {
        readable: true,
        failed: true,
    };
    assert_eq!(kernel::poll_step(&[]), PollStep::TimedOut);
    assert_eq!(kernel::poll_step(&[quiet, quiet]), PollStep::TimedOut);
    assert_eq!(
        kernel::poll_step(&[quiet, readable, failed]),
        PollStep::Receive(1)
    );
    assert_eq!(kernel::poll_step(&[failed, readable]), PollStep::Fail);
}

#[test]
fn peers_get_sockets_of_their_own() {
    let mut demux = KernelUdsDemux::new(0x10, &IsoTpKernelOptions::default());
    assert_eq!(demux.local_addr(), 0x10);
    assert!(matches!(
        demux.ensure_peer(0x10),
        Err(Error::InvalidConfig("peer address must differ from local_addr"))
    ));
    let a = demux.ensure_peer(0xA1).unwrap();
    assert_eq!(
        a,
        PeerSlot::Open {
            rx_id: uds29::encode_phys_id(0x10, 0xA1),
            tx_id: uds29::encode_phys_id(0xA1, 0x10)
        }
    );
    assert_eq!(demux.register_peer(0xA1), 0);
    let b = demux.ensure_peer(0xA2).unwrap();
    assert_ne!(a, b);
    assert_eq!(demux.register_peer(0xA2), 1);
    assert_eq!(demux.ensure_peer(0xA2).unwrap(), PeerSlot::Known(1));
    assert_eq!(demux.peer_count(), 2);
    assert_eq!(demux.peer_at(0), Some(0xA1));
    assert_eq!(demux.peer_at(2), None);
}

#[test]
fn io_errors_are_wrapped() {
    let err = Error::from(std::io::Error::from(std::io::ErrorKind::NotFound));
    match err {
        Error::Io(e) => assert_eq!(e.kind(), std::io::ErrorKind::NotFound),
        other => panic!("unexpected {other:?}"),
    }
}
