use can_iso_tp::async_send::{AsyncAction, AsyncSend, SendTimes};
use can_iso_tp::helpers::Uds29AsyncDemuxBuilder;
use can_iso_tp::id::{ExtendedId, Frame, Id, IdMask, IdMaskFilter};
use can_iso_tp::interface::{RecvError, RecvMeta, RecvMetaIntoStatus, RecvStatus, SendError};
use can_iso_tp::interface_impl::{
    app_recv_result, copy_payload, recv_into_result, recv_result, send_result,
};
use can_iso_tp::node::{replied, Deadline, RecvStep, SendStep};
use can_iso_tp::time::Duration;
use can_iso_tp::uds29;
use can_iso_tp::{
    rx_storages_from_buffers, AppRecvIntoError, AsyncWithRt, Clock, IsoTpAsyncDemux, IsoTpConfig,
    IsoTpDemux, IsoTpError, IsoTpNode, Progress, RxStorage, StdClock, TimeoutKind,
};
use std::collections::VecDeque;

fn accepts(filter: &IdMaskFilter, id: Id) -> bool {
    match (filter.id, filter.mask, id) {
        (Id::Extended(want), IdMask::Extended(mask), Id::Extended(got)) => {
            got.as_raw() & mask == want.as_raw() & mask
        }
        _ => false,
    }
}

/// A bus on which every frame reaches every interface whose filters let it through.
struct TestBus {
    queues: Vec<(Vec<IdMaskFilter>, VecDeque<Frame>)>,
}

impl TestBus {
    fn new(interfaces: usize) -> Self {
        TestBus {
            queues: (0..interfaces)
                .map(|_| (Vec::new(), VecDeque::new()))
                .collect(),
        }
    }

    fn set_filters(&mut self, interface: usize, filters: &[IdMaskFilter]) {
        self.queues[interface].0 = filters.to_vec();
    }

    fn transmit(&mut self, frame: Frame) {
        for (filters, queue) in self.queues.iter_mut() {
            if filters.is_empty() || filters.iter().any(|f| accepts(f, frame.id)) {
                queue.push_back(frame.clone());
            }
        }
    }

    fn try_recv(&mut self, interface: usize) -> Option<Frame> {
        self.queues[interface].1.pop_front()
    }
}

fn base_cfg(max_payload_len: usize) -> IsoTpConfig {
    IsoTpConfig {
        // IDs are filled per-peer by the demux/node.
        tx_id: Id::Extended(ExtendedId::new(1).unwrap()),
        rx_id: Id::Extended(ExtendedId::new(2).unwrap()),
        tx_addr: None,
        rx_addr: None,
        block_size: 2,
        st_min: Duration::from_millis(0),
        wft_max: 5,
        padding: None,
        max_payload_len,
        n_as: Duration::from_millis(1000),
        n_ar: Duration::from_millis(1000),
        n_bs: Duration::from_millis(1000),
        n_br: Duration::from_millis(1000),
        n_cs: Duration::from_millis(1000),
        frame_len: 8,
    }
}

fn owned_storages(count: usize, len: usize) -> Vec<RxStorage<'static>> {
    (0..count).map(|_| RxStorage::Owned(vec![0u8; len])).collect()
}

fn node_poll_send(
    node: &mut IsoTpNode<'_, StdClock>,
    bus: &mut TestBus,
    interface: usize,
    payload: &[u8],
) -> Result<Progress, IsoTpError<()>> {
    let now = StdClock.now();
    let mut step = node.poll_send(payload, now)?;
    loop {
        match step {
            SendStep::Report(p) => return Ok(p),
            SendStep::Transmit(plan) => {
                bus.transmit(plan.frame().clone());
                return node.sent(plan, Ok(()), now);
            }
            SendStep::AwaitFrame => {
                let frame = bus.try_recv(interface);
                step = node.poll_send_frame(payload, frame.as_ref(), now)?;
            }
        }
    }
}

fn node_poll_recv(
    node: &mut IsoTpNode<'_, StdClock>,
    bus: &mut TestBus,
    interface: usize,
    deliver: &mut dyn FnMut(&[u8]),
) -> Result<Progress, IsoTpError<()>> {
    loop {
        let frame = bus.try_recv(interface);
        let step = node.poll_recv(StdClock.now(), frame.as_ref())?;
        match &step {
            RecvStep::Ignored => continue,
            RecvStep::Report(Progress::Completed) => deliver(node.received()),
            RecvStep::Report(_) | RecvStep::Refuse(None) => {}
            RecvStep::Reply(reply) | RecvStep::Refuse(Some(reply)) => bus.transmit(reply.clone()),
        }
        return replied(&step, Ok(()));
    }
}

/// Take in one frame.
fn ingest<C: Clock, const N: usize>(
    demux: &mut IsoTpDemux<'_, C, N>,
    bus: &mut TestBus,
    interface: usize,
) -> Result<Progress, IsoTpError<()>> {
    loop {
        let frame = bus.try_recv(interface);
        let step = demux.ingest_one(frame.as_ref())?;
        match &step {
            RecvStep::Ignored => continue,
            RecvStep::Report(_) | RecvStep::Refuse(None) => {}
            RecvStep::Reply(reply) | RecvStep::Refuse(Some(reply)) => bus.transmit(reply.clone()),
        }
        return replied(&step, Ok(()));
    }
}

fn demux_poll_recv<C: Clock, const N: usize>(
    demux: &mut IsoTpDemux<'_, C, N>,
    bus: &mut TestBus,
    interface: usize,
    deliver: &mut dyn FnMut(u8, &[u8]),
) -> Result<Progress, IsoTpError<()>> {
    loop {
        if let Some((from, payload)) = demux.poll_recv() {
            deliver(from, payload);
            return Ok(Progress::Completed);
        }
        if ingest(demux, bus, interface)? == Progress::WouldBlock {
            return Ok(Progress::WouldBlock);
        }
    }
}

fn demux_recv<C: Clock, const N: usize>(
    demux: &mut IsoTpDemux<'_, C, N>,
    bus: &mut TestBus,
    interface: usize,
    timeout: Duration,
    deliver: &mut dyn FnMut(u8, &[u8]),
) -> Result<(), IsoTpError<()>> {
    let deadline = Deadline::start(demux.clock(), timeout, TimeoutKind::NAr);
    loop {
        deadline.check(demux.clock().now())?;
        if demux_poll_recv(demux, bus, interface, deliver)? == Progress::Completed {
            return Ok(());
        }
    }
}

fn demux_poll_send_to<C: Clock, const N: usize>(
    demux: &mut IsoTpDemux<'_, C, N>,
    bus: &mut TestBus,
    interface: usize,
    remote: u8,
    payload: &[u8],
    now: C::Instant,
) -> Result<Progress, IsoTpError<()>> {
    if demux.wants_frame(remote) {
        ingest(demux, bus, interface)?;
    }
    match demux.poll_send_to(remote, payload, now)? {
        SendStep::Report(p) => Ok(p),
        SendStep::Transmit(plan) => {
            bus.transmit(plan.frame().clone());
            demux.sent(remote, plan, Ok(()), now)
        }
        SendStep::AwaitFrame => Ok(Progress::WaitingForFlowControl),
    }
}

#[test]
fn demux_receives_two_sources_without_mixing() {
    const MAX_PEERS: usize = 4;
    const BUF: usize = 512;

    let mut bus = TestBus::new(3);
    let mut rx_bufs = [[0u8; BUF]; MAX_PEERS];
    let storages = rx_storages_from_buffers(&mut rx_bufs);

    let local = 0x10u8;
    let sa1 = 0xA1u8;
    let sa2 = 0xA2u8;

    // Ensure the receiver only gets frames addressed to `local` (prevents self-transmit echo).
    bus.set_filters(0, &[uds29::filter_phys_for_target(local)]);
    let mut demux =
        IsoTpDemux::<_, MAX_PEERS>::new(base_cfg(BUF), StdClock, local, storages).unwrap();

    let cfg1 = IsoTpConfig {
        tx_id: uds29::encode_phys_id(local, sa1),
        rx_id: uds29::encode_phys_id(sa1, local),
        ..base_cfg(BUF)
    };
    let cfg2 = IsoTpConfig {
        tx_id: uds29::encode_phys_id(local, sa2),
        rx_id: uds29::encode_phys_id(sa2, local),
        ..base_cfg(BUF)
    };

    let mut s1_rx_buf = [0u8; BUF];
    let mut s2_rx_buf = [0u8; BUF];
    let mut n1 = IsoTpNode::with_clock(cfg1, StdClock, &mut s1_rx_buf).unwrap();
    let mut n2 = IsoTpNode::with_clock(cfg2, StdClock, &mut s2_rx_buf).unwrap();

    let p1: Vec<u8> = (0..200).map(|i| (i as u8).wrapping_add(1)).collect();
    let p2: Vec<u8> = (0..200).map(|i| (i as u8).wrapping_add(101)).collect();

    let mut s1_done = false;
    let mut s2_done = false;
    let mut got1: Option<Vec<u8>> = None;
    let mut got2: Option<Vec<u8>> = None;

    for _ in 0..10_000 {
        if !s1_done {
            s1_done = node_poll_send(&mut n1, &mut bus, 1, &p1).unwrap() == Progress::Completed;
        }
        if !s2_done {
            s2_done = node_poll_send(&mut n2, &mut bus, 2, &p2).unwrap() == Progress::Completed;
        }
        let _ = demux_poll_recv(&mut demux, &mut bus, 0, &mut |reply_to, payload| {
            if reply_to == sa1 {
                got1 = Some(payload.to_vec());
            } else if reply_to == sa2 {
                got2 = Some(payload.to_vec());
            }
        });
        if s1_done && s2_done && got1.is_some() && got2.is_some() {
            break;
        }
    }

    assert!(s1_done, "sender 1 did not complete in time");
    assert!(s2_done, "sender 2 did not complete in time");
    assert_eq!(got1.as_deref(), Some(p1.as_slice()));
    assert_eq!(got2.as_deref(), Some(p2.as_slice()));
}

#[test]
fn demux_can_send_to_and_peer_can_receive() {
    const MAX_PEERS: usize = 2;
    const BUF: usize = 512;

    let mut bus = TestBus::new(2);
    let mut rx_bufs = [[0u8; BUF]; MAX_PEERS];
    let storages = rx_storages_from_buffers(&mut rx_bufs);

    let local = 0x10u8;
    let remote = 0xA1u8;

    let mut demux =
        IsoTpDemux::<_, MAX_PEERS>::new(base_cfg(BUF), StdClock, local, storages).unwrap();

    let mut s_rx_buf = [0u8; BUF];
    let sender_cfg = IsoTpConfig {
        tx_id: uds29::encode_phys_id(local, remote),
        rx_id: uds29::encode_phys_id(remote, local),
        ..base_cfg(BUF)
    };
    let mut peer = IsoTpNode::with_clock(sender_cfg, StdClock, &mut s_rx_buf).unwrap();

    let payload: Vec<u8> = (0..200).map(|i| i as u8).collect();

    let mut send_done = false;
    let mut got: Option<Vec<u8>> = None;

    for _ in 0..10_000 {
        if !send_done {
            let now = StdClock.now();
            send_done = demux_poll_send_to(&mut demux, &mut bus, 0, remote, &payload, now).unwrap()
                == Progress::Completed;
        }
        let _ = node_poll_recv(&mut peer, &mut bus, 1, &mut |data| got = Some(data.to_vec()));
        if send_done && got.is_some() {
            break;
        }
    }

    assert!(send_done, "demux send did not complete in time");
    assert_eq!(got.as_deref(), Some(payload.as_slice()));
}

fn single_frame(id: u32, payload: &[u8]) -> Frame {
    let mut data = vec![payload.len() as u8]; // ISO-TP single-frame PCI (len)
    data.extend_from_slice(payload);
    Frame {
        id: Id::Extended(ExtendedId::new(id).unwrap()),
        data,
    }
}

#[test]
fn demux_receives_functional_single_frame() {
    const MAX_PEERS: usize = 2;
    const BUF: usize = 64;

    let mut bus = TestBus::new(2);
    let mut rx_bufs = [[0u8; BUF]; MAX_PEERS];
    let storages = rx_storages_from_buffers(&mut rx_bufs);

    let local_phys = 0x10u8;
    let local_func = 0x33u8;
    let tester = 0xF1u8;

    bus.set_filters(
        0,
        uds29::filters_for_targets(local_phys, Some(local_func)).as_slice(),
    );
    let mut demux = IsoTpDemux::<_, MAX_PEERS>::new(base_cfg(BUF), StdClock, local_phys, storages)
        .unwrap()
        .with_functional_addr(local_func);

    let payload = b"ping";
    let can_id = uds29::encode_func_id_raw(local_func, tester);
    bus.transmit(single_frame(can_id, payload));

    let mut got: Option<(u8, Vec<u8>)> = None;
    demux_recv(
        &mut demux,
        &mut bus,
        0,
        Duration::from_millis(50),
        &mut |reply_to, bytes| got = Some((reply_to, bytes.to_vec())),
    )
    .unwrap();

    let (reply_to, bytes) = got.expect("expected a delivered payload");
    assert_eq!(reply_to, tester);
    assert_eq!(bytes, payload);
}

#[test]
fn demux_ignores_functional_multi_frame() {
    const MAX_PEERS: usize = 2;
    const BUF: usize = 64;

    let mut bus = TestBus::new(2);
    let mut rx_bufs = [[0u8; BUF]; MAX_PEERS];
    let storages = rx_storages_from_buffers(&mut rx_bufs);

    let local_phys = 0x10u8;
    let local_func = 0x33u8;
    let tester = 0xF1u8;

    bus.set_filters(
        0,
        uds29::filters_for_targets(local_phys, Some(local_func)).as_slice(),
    );
    let mut demux = IsoTpDemux::<_, MAX_PEERS>::new(base_cfg(BUF), StdClock, local_phys, storages)
        .unwrap()
        .with_functional_addr(local_func);

    // Craft a First Frame on a functional ID (should be ignored).
    let mut data = [0u8; 8];
    data[0] = 0x10; // First Frame, high nibble 1
    data[1] = 0x14; // total len 0x014

    let can_id = uds29::encode_func_id_raw(local_func, tester);
    bus.transmit(Frame {
        id: Id::Extended(ExtendedId::new(can_id).unwrap()),
        data: data.to_vec(),
    });

    let mut delivered = false;
    loop {
        match demux_poll_recv(&mut demux, &mut bus, 0, &mut |_reply_to, _payload| {
            delivered = true
        })
        .unwrap()
        {
            Progress::WouldBlock => break,
            Progress::Completed | Progress::InFlight | Progress::WaitingForFlowControl => continue,
        }
    }
    assert!(!delivered, "functional multi-frame should be ignored");
}

#[test]
fn demux_can_send_functional_single_frame() {
    const MAX_PEERS: usize = 4;
    const BUF: usize = 64;

    let local_ecu = 0x10u8;
    let functional = 0x33u8;
    let tester = 0xF1u8;

    let mut bus = TestBus::new(2);
    bus.set_filters(
        0,
        uds29::filters_for_targets(local_ecu, Some(functional)).as_slice(),
    );
    let mut ecu_bufs = [[0u8; BUF]; MAX_PEERS];
    let ecu_storages = rx_storages_from_buffers(&mut ecu_bufs);
    let mut ecu =
        IsoTpDemux::<_, MAX_PEERS>::new(base_cfg(BUF), StdClock, local_ecu, ecu_storages)
            .unwrap()
            .with_functional_addr(functional);

    bus.set_filters(1, &[uds29::filter_phys_for_target(tester)]);
    let mut tester_bufs = [[0u8; BUF]; MAX_PEERS];
    let tester_storages = rx_storages_from_buffers(&mut tester_bufs);
    let tester_demux =
        IsoTpDemux::<_, MAX_PEERS>::new(base_cfg(BUF), StdClock, tester, tester_storages).unwrap();

    let payload = b"hello";
    bus.transmit(tester_demux.send_functional_to(functional, payload).unwrap());

    let mut got: Option<(u8, Vec<u8>)> = None;
    demux_recv(
        &mut ecu,
        &mut bus,
        0,
        Duration::from_millis(50),
        &mut |reply_to, bytes| got = Some((reply_to, bytes.to_vec())),
    )
    .unwrap();

    let (reply_to, bytes) = got.expect("expected a delivered payload");
    assert_eq!(reply_to, tester);
    assert_eq!(bytes, payload);

    assert!(matches!(
        tester_demux.send_functional_to(functional, &[0u8; 8]),
        Err(IsoTpError::Overflow)
    ));
}

#[test]
fn demux_send_and_recv_single_frame() {
    let mut bus = TestBus::new(2);
    let mut cfg = IsoTpConfig::default();
    cfg.block_size = 0;
    cfg.st_min = Duration::from_millis(0);
    cfg.frame_len = 8;

    const MAX: usize = 2;
    let mut demux_a =
        IsoTpDemux::<_, MAX>::new(cfg, StdClock, 0x10, owned_storages(MAX, 4095)).unwrap();
    let mut demux_b =
        IsoTpDemux::<_, MAX>::new(cfg, StdClock, 0x20, owned_storages(MAX, 4095)).unwrap();

    let now = StdClock.now();
    let sent = demux_poll_send_to(&mut demux_a, &mut bus, 0, 0x20, b"yo", now);
    assert_eq!(sent.unwrap(), Progress::Completed);
    assert!(send_result::<()>(Ok(())).is_ok());

    let mut reply_to = None;
    let mut got = Vec::new();
    let mut delivered = false;
    let received = demux_recv(
        &mut demux_b,
        &mut bus,
        1,
        Duration::from_millis(10),
        &mut |from, payload| {
            delivered = true;
            reply_to = Some(from);
            got.extend_from_slice(payload);
        },
    );
    let status = recv_result(received, delivered, None).unwrap();

    assert_eq!(status, RecvStatus::DeliveredOne);
    assert_eq!(reply_to, Some(0x10));
    assert_eq!(got, b"yo");
}

#[test]
fn a_new_source_needs_a_free_buffer() {
    let mut bus = TestBus::new(1);
    let mut demux =
        IsoTpDemux::<_, 1>::new(base_cfg(64), StdClock, 0x10, owned_storages(1, 64)).unwrap();
    bus.transmit(single_frame(uds29::encode_phys_id_raw(0x10, 0xA1), b"one"));
    assert_eq!(ingest(&mut demux, &mut bus, 0).unwrap(), Progress::Completed);
    bus.transmit(single_frame(uds29::encode_phys_id_raw(0x10, 0xA2), b"two"));
    assert!(matches!(
        ingest(&mut demux, &mut bus, 0),
        Err(IsoTpError::RxOverflow)
    ));
    // The payload that waits is untouched.
    assert_eq!(demux.poll_recv(), Some((0xA1, &b"one"[..])));
    assert_eq!(demux.poll_recv(), None);
}

#[test]
fn frames_for_others_change_nothing() {
    let mut bus = TestBus::new(1);
    let mut demux =
        IsoTpDemux::<_, 2>::new(base_cfg(64), StdClock, 0x10, owned_storages(2, 64)).unwrap();
    bus.transmit(single_frame(uds29::encode_phys_id_raw(0x11, 0xA1), b"no"));
    bus.transmit(single_frame(uds29::encode_func_id_raw(0x33, 0xA1), b"no"));
    bus.transmit(single_frame(0x123, b"no"));
    while ingest(&mut demux, &mut bus, 0).unwrap() != Progress::WouldBlock {}
    assert_eq!(demux.poll_recv(), None);
}

#[test]
fn demux_rejects_short_buffers_and_its_own_address() {
    assert!(matches!(
        IsoTpDemux::<_, 2>::new(base_cfg(64), StdClock, 0x10, owned_storages(2, 63)),
        Err(IsoTpError::InvalidConfig)
    ));
    let mut demux =
        IsoTpDemux::<_, 2>::new(base_cfg(64), StdClock, 0x10, owned_storages(2, 64)).unwrap();
    assert_eq!(demux.local_addr(), 0x10);
    assert_eq!(
        demux.acceptance_filters().as_slice(),
        &[uds29::filter_phys_for_target(0x10)]
    );
    assert!(matches!(
        demux.poll_send_to(0x10, b"x", StdClock.now()),
        Err(IsoTpError::InvalidConfig)
    ));
}

// Asynchronous demux, under simulated time.

fn async_cfg(max_payload_len: usize) -> IsoTpConfig {
    IsoTpConfig {
        tx_id: Id::Extended(ExtendedId::new(1).unwrap()),
        rx_id: Id::Extended(ExtendedId::new(2).unwrap()),
        max_payload_len,
        block_size: 2,
        ..IsoTpConfig::default()
    }
}

/// Let an async demux take in everything that waits for it.
fn pump<C: Clock, const N: usize>(
    demux: &mut IsoTpAsyncDemux<'_, C, N>,
    bus: &mut TestBus,
    interface: usize,
) -> Result<(), IsoTpError<()>> {
    while let Some(frame) = bus.try_recv(interface) {
        let step = demux.ingest_frame(&frame);
        if let Some(reply) = &step.reply {
            bus.transmit(reply.clone());
        }
        step.conclude(Ok::<(), ()>(()))?;
    }
    Ok(())
}

#[test]
fn async_demux_receives_two_sources_without_mixing() {
    const MAX_PEERS: usize = 4;
    let mut bus = TestBus::new(3);
    let local = 0x10u8;
    let sa1 = 0xA1u8;
    let sa2 = 0xA2u8;

    let mut demux = IsoTpAsyncDemux::<_, MAX_PEERS>::with_std_clock(
        async_cfg(256),
        local,
        owned_storages(MAX_PEERS, 256),
    )
    .unwrap();

    let cfg1 = IsoTpConfig {
        tx_id: uds29::encode_phys_id(local, sa1),
        rx_id: uds29::encode_phys_id(sa1, local),
        ..async_cfg(256)
    };
    let cfg2 = IsoTpConfig {
        tx_id: uds29::encode_phys_id(local, sa2),
        rx_id: uds29::encode_phys_id(sa2, local),
        ..async_cfg(256)
    };
    let mut buf1 = [0u8; 256];
    let mut buf2 = [0u8; 256];
    let mut node1 = IsoTpNode::with_clock(cfg1, StdClock, &mut buf1).unwrap();
    let mut node2 = IsoTpNode::with_clock(cfg2, StdClock, &mut buf2).unwrap();

    let p1: Vec<u8> = (0..200).map(|i| (i as u8).wrapping_add(1)).collect();
    let p2: Vec<u8> = (0..200).map(|i| (i as u8).wrapping_add(101)).collect();

    let mut got: Vec<(u8, Vec<u8>)> = Vec::new();
    let mut done1 = false;
    let mut done2 = false;
    for _ in 0..10_000 {
        if !done1 {
            done1 = node_poll_send(&mut node1, &mut bus, 1, &p1).unwrap() == Progress::Completed;
        }
        if !done2 {
            done2 = node_poll_send(&mut node2, &mut bus, 2, &p2).unwrap() == Progress::Completed;
        }
        pump(&mut demux, &mut bus, 0).unwrap();
        let mut out = [0u8; 256];
        if let Some((reply_to, len)) = demux.deliver_ready_into(&mut out).unwrap() {
            got.push((reply_to, out[..len].to_vec()));
        }
        if got.len() == 2 {
            break;
        }
    }

    assert_eq!(got.len(), 2);
    for (reply_to, payload) in got {
        if reply_to == sa1 {
            assert_eq!(payload, p1);
        } else if reply_to == sa2 {
            assert_eq!(payload, p2);
        } else {
            panic!("unexpected reply_to {reply_to:#x}");
        }
    }
}

#[test]
fn interleaved_frames_arrive_under_their_sources() {
    let from = |source: u8, data: &[u8]| Frame {
        id: uds29::encode_phys_id(0x10, source),
        data: data.to_vec(),
    };
    let frames = [
        from(0xA1, &[0x10, 9, 1, 2, 3, 4, 5, 6]),
        from(0xA2, &[0x10, 10, 11, 12, 13, 14, 15, 16]),
        from(0xA3, &[2, 77, 78]),
        from(0xA2, &[0x21, 17, 18, 19, 20]),
        from(0xA1, &[0x21, 7, 8, 9, 0xCC, 0xCC, 0xCC, 0xCC]),
    ];
    let expected: [(u8, &[u8]); 3] = [
        (0xA3, &[77, 78]),
        (0xA2, &[11, 12, 13, 14, 15, 16, 17, 18, 19, 20]),
        (0xA1, &[1, 2, 3, 4, 5, 6, 7, 8, 9]),
    ];

    let mut demux =
        IsoTpAsyncDemux::<_, 4>::with_std_clock(async_cfg(64), 0x10, owned_storages(4, 64))
            .unwrap();
    let mut polled =
        IsoTpDemux::<_, 4>::new(base_cfg(64), StdClock, 0x10, owned_storages(4, 64)).unwrap();
    for frame in &frames {
        demux.ingest_frame(frame).result.unwrap();
        polled.ingest_one(Some(frame)).unwrap();
    }
    for (source, payload) in expected {
        let mut out = [0u8; 64];
        assert_eq!(
            demux.deliver_ready_into(&mut out).unwrap(),
            Some((source, payload.len()))
        );
        assert_eq!(&out[..payload.len()], payload);
        assert_eq!(polled.poll_recv(), Some((source, payload)));
    }

    // The node's own address is refused, whoever was met.
    assert!(matches!(
        demux.ingest_frame(&from(0x10, &[1, 1])).result,
        Err(IsoTpError::InvalidConfig)
    ));
    assert!(matches!(
        polled.ingest_one(Some(&from(0x10, &[1, 1]))),
        Err(IsoTpError::InvalidConfig)
    ));
}

#[test]
fn async_demux_receives_functional_single_frame() {
    const MAX_PEERS: usize = 2;
    let mut bus = TestBus::new(1);
    let local_phys = 0x10u8;
    let local_func = 0x33u8;
    let tester = 0xF1u8;

    let mut demux = IsoTpAsyncDemux::<_, MAX_PEERS>::with_std_clock(
        async_cfg(64),
        local_phys,
        owned_storages(MAX_PEERS, 64),
    )
    .unwrap()
    .with_functional_addr(local_func);

    let payload = b"ping";
    let can_id = uds29::encode_func_id_raw(local_func, tester);
    bus.transmit(single_frame(can_id, payload));
    pump(&mut demux, &mut bus, 0).unwrap();

    let mut out = [0u8; 64];
    let (reply_to, len) = demux
        .deliver_ready_into(&mut out)
        .unwrap()
        .expect("expected a delivered payload");
    assert_eq!(reply_to, tester);
    assert_eq!(&out[..len], payload);
}

#[test]
fn async_demux_sends_in_blocks() {
    const MAX_PEERS: usize = 2;
    let mut bus = TestBus::new(2);
    let local = 0x10u8;
    let remote = 0xA1u8;
    let mut demux = IsoTpAsyncDemux::<_, MAX_PEERS>::with_std_clock(
        async_cfg(256),
        local,
        owned_storages(MAX_PEERS, 256),
    )
    .unwrap();
    let peer_cfg = IsoTpConfig {
        tx_id: uds29::encode_phys_id(local, remote),
        rx_id: uds29::encode_phys_id(remote, local),
        ..async_cfg(256)
    };
    let mut buf = [0u8; 256];
    let mut peer = IsoTpNode::with_clock(peer_cfg, StdClock, &mut buf).unwrap();

    let payload: Vec<u8> = (0..100).collect();
    let timeout = Duration::from_millis(500);
    let zero = Duration::from_millis(0);
    let times = SendTimes {
        elapsed: zero,
        fc_elapsed: zero,
        cf_elapsed: Some(zero),
    };
    let mut got = None;
    let mut transfer = AsyncSend::Opening;
    let mut action = demux
        .start_send_to(remote, &payload, timeout, zero)
        .unwrap();
    loop {
        match action {
            AsyncAction::Finish => break,
            AsyncAction::Transmit(plan, _) => {
                bus.transmit(plan.frame().clone());
                transfer = AsyncSend::on_sent::<()>(&plan, Ok(Ok(()))).unwrap();
                while let Ok(p) =
                    node_poll_recv(&mut peer, &mut bus, 1, &mut |data| got = Some(data.to_vec()))
                {
                    if p == Progress::WouldBlock {
                        break;
                    }
                }
            }
            AsyncAction::Receive(..) => {
                let session = match transfer {
                    AsyncSend::Waiting(session) => session,
                    _ => panic!("only a waiting transfer receives"),
                };
                assert_eq!(
                    demux.flow_control_wait(timeout, &times).unwrap(),
                    Duration::from_millis(500)
                );
                pump(&mut demux, &mut bus, 0).unwrap();
                let (next, patience) = demux
                    .wait_for_flow_control(remote, session)
                    .unwrap()
                    .expect("flow control is there");
                assert!(!patience);
                transfer = next;
            }
            AsyncAction::Pause(_) => {
                transfer = transfer.on_paused::<()>(Ok(())).unwrap();
            }
        }
        action = demux
            .continue_send_to(remote, &transfer, &payload, timeout, &times)
            .unwrap();
    }
    assert_eq!(got.as_deref(), Some(payload.as_slice()));
}

/// A clock whose time the test sets.
struct SetClock<'t> {
    now: &'t std::cell::Cell<u64>,
}

impl<'t> Clock for SetClock<'t> {
    type Instant = u64;

    fn now(&self) -> u64 {
        self.now.get()
    }

    fn elapsed(&self, earlier: u64) -> Duration {
        Duration::from_millis(self.now.get() - earlier)
    }

    fn add(&self, instant: u64, dur: Duration) -> u64 {
        instant + dur.as_millis() as u64
    }
}

#[test]
fn stalled_transfers_expire_and_waiting_payloads_stay() {
    let now = std::cell::Cell::new(0);
    let mut bus = TestBus::new(1);
    let mut cfg = async_cfg(64);
    cfg.n_br = Duration::from_millis(100);
    let mut demux =
        IsoTpAsyncDemux::<_, 3>::new(cfg, SetClock { now: &now }, 0x10, None, owned_storages(3, 64))
            .unwrap();
    bus.transmit(single_frame(uds29::encode_phys_id_raw(0x10, 0xA1), b"one"));
    bus.transmit(Frame {
        id: uds29::encode_phys_id(0x10, 0xA2),
        data: vec![0x10, 20, 1, 2, 3, 4, 5, 6],
    });
    pump(&mut demux, &mut bus, 0).unwrap();
    assert_eq!(
        demux.next_rx_timeout_wait(),
        Some(Duration::from_millis(100))
    );
    now.set(40);
    assert_eq!(
        demux.next_rx_timeout_wait(),
        Some(Duration::from_millis(60))
    );
    assert_eq!(
        demux.recv_wait(Duration::from_millis(10), Duration::from_millis(4)),
        Some(Duration::from_millis(6))
    );
    now.set(100);
    demux.expire_peer_rx_timeouts();
    assert_eq!(demux.next_rx_timeout_wait(), None);
    // A consecutive frame of the expired transfer no longer counts.
    bus.transmit(Frame {
        id: uds29::encode_phys_id(0x10, 0xA2),
        data: vec![0x21, 7, 8, 9, 10, 11, 12, 13],
    });
    pump(&mut demux, &mut bus, 0).unwrap();
    let mut out = [0u8; 64];
    assert_eq!(demux.deliver_ready_into(&mut out).unwrap(), Some((0xA1, 3)));
    assert_eq!(demux.deliver_ready_into(&mut out).unwrap(), None);
}

#[test]
fn a_refused_delivery_can_be_repeated() {
    let mut bus = TestBus::new(1);
    let mut demux = IsoTpAsyncDemux::<_, 2>::with_std_clock(
        async_cfg(64),
        0x10,
        owned_storages(2, 64),
    )
    .unwrap();
    bus.transmit(single_frame(uds29::encode_phys_id_raw(0x10, 0xA1), b"abcd"));
    bus.transmit(single_frame(uds29::encode_phys_id_raw(0x10, 0xA1), b"ef"));
    pump(&mut demux, &mut bus, 0).unwrap();
    let mut small = [0u8; 3];
    match demux.deliver_ready_into(&mut small) {
        Err(AppRecvIntoError::BufferTooSmall { needed, got }) => {
            assert_eq!((needed, got), (4, 3));
        }
        _ => panic!("expected a refusal"),
    }
    let mut out = [0u8; 64];
    let mut payloads = Vec::new();
    while let Some((from, len)) = demux.deliver_ready_into(&mut out).unwrap() {
        assert_eq!(from, 0xA1);
        payloads.push(out[..len].to_vec());
    }
    payloads.sort();
    assert_eq!(payloads, vec![b"abcd".to_vec(), b"ef".to_vec()]);
}

#[test]
fn builder_builds_a_demux_with_its_settings() {
    let mut bufs = [[0u8; 128]; 2];
    let demux = Uds29AsyncDemuxBuilder::new(StdClock, 0x20)
        .max_payload_len(128)
        .block_size(4)
        .st_min(Duration::from_millis(2))
        .padding(Some(0xAA))
        .frame_len(8)
        .timeouts_all(Duration::from_millis(30))
        .build_with_borrowed_rx_buffers(&mut bufs)
        .unwrap();
    assert_eq!(demux.local_addr(), 0x20);
    assert_eq!(demux.rx_flow_control().block_size, 4);
    assert_eq!(demux.rx_flow_control().st_min, Duration::from_millis(2));
    let frame = demux.send_to_functional(0x33, b"hi").unwrap();
    assert_eq!(frame.data, vec![2, b'h', b'i', 0xAA, 0xAA, 0xAA, 0xAA, 0xAA]);

    let mut short = [[0u8; 100]; 2];
    assert!(matches!(
        Uds29AsyncDemuxBuilder::new(StdClock, 0x20)
            .max_payload_len(128)
            .build_with_borrowed_rx_buffers(&mut short),
        Err(IsoTpError::InvalidConfig)
    ));
}

#[test]
fn payloads_are_reassembled_in_the_callers_buffers() {
    let first = single_frame(uds29::encode_phys_id_raw(0x10, 0xA1), b"one");
    let second = single_frame(uds29::encode_phys_id_raw(0x10, 0xA2), b"two");

    let mut bufs = [[0u8; 64]; 2];
    let storages = rx_storages_from_buffers(&mut bufs);
    assert!(storages.iter().all(|s| matches!(s, RxStorage::Borrowed(_))));
    let mut demux = IsoTpDemux::<_, 2>::new(base_cfg(64), StdClock, 0x10, storages).unwrap();
    demux.ingest_one(Some(&first)).unwrap();
    demux.ingest_one(Some(&second)).unwrap();
    drop(demux);
    assert_eq!(&bufs[0][..4], b"one\0");
    assert_eq!(&bufs[1][..4], b"two\0");

    let mut bufs = [[0u8; 64]; 3];
    let mut demux = IsoTpAsyncDemux::<_, 3>::new(
        async_cfg(64),
        StdClock,
        0x10,
        None,
        rx_storages_from_buffers(&mut bufs),
    )
    .unwrap();
    demux.ingest_frame(&first).result.unwrap();
    demux.ingest_frame(&second).result.unwrap();
    drop(demux);
    assert!(bufs.iter().any(|b| b.starts_with(b"one")));
    assert!(bufs.iter().any(|b| b.starts_with(b"two")));

    let cfg = IsoTpConfig {
        rx_id: first.id,
        ..base_cfg(64)
    };
    let mut buf = [0u8; 64];
    let mut node = IsoTpNode::with_clock(cfg, StdClock, &mut buf).unwrap();
    node.poll_recv(StdClock.now(), Some(&first)).unwrap();
    assert_eq!(node.received(), b"one");
    drop(node);
    assert_eq!(&buf[..4], b"one\0");

    // A buffer that is refused is left as it was.
    let mut short = [7u8; 8];
    assert!(IsoTpNode::with_clock(cfg, StdClock, &mut short).is_err());
    assert_eq!(short, [7; 8]);
}

#[test]
fn transport_results_are_mapped() {
    assert!(matches!(
        send_result::<()>(Err(IsoTpError::Timeout(TimeoutKind::NAs))),
        Err(SendError::Timeout)
    ));
    assert!(matches!(
        send_result::<()>(Err(IsoTpError::Timeout(TimeoutKind::NBs))),
        Err(SendError::Backend(IsoTpError::Timeout(TimeoutKind::NBs)))
    ));
    assert_eq!(
        recv_result::<()>(Err(IsoTpError::Timeout(TimeoutKind::NAr)), false, None).unwrap(),
        RecvStatus::TimedOut
    );
    assert!(matches!(
        recv_result::<()>(Ok(()), true, Some(IsoTpError::Overflow)),
        Err(RecvError::Backend(IsoTpError::Overflow))
    ));
    assert!(matches!(
        recv_result::<()>(Err(IsoTpError::BadSequence), false, None),
        Err(RecvError::Backend(IsoTpError::BadSequence))
    ));

    let mut out = [0u8; 4];
    assert_eq!(copy_payload::<()>(&[1, 2], &mut out).unwrap(), 2);
    assert_eq!(out, [1, 2, 0, 0]);
    let refused = copy_payload::<IsoTpError<()>>(&[1; 5], &mut out);
    assert!(matches!(
        recv_into_result(Ok(()), Some(refused)),
        Err(RecvError::BufferTooSmall { needed: 5, got: 4 })
    ));
    assert_eq!(
        recv_into_result::<()>(Ok(()), Some(Ok(2))).unwrap(),
        RecvMetaIntoStatus::DeliveredOne {
            meta: RecvMeta { reply_to: 0 },
            len: 2
        }
    );
    assert_eq!(
        app_recv_result::<()>(Ok(Some((7, 9)))).unwrap(),
        RecvMetaIntoStatus::DeliveredOne {
            meta: RecvMeta { reply_to: 7 },
            len: 9
        }
    );
    assert_eq!(
        app_recv_result::<()>(Ok(None)).unwrap(),
        RecvMetaIntoStatus::TimedOut
    );
    assert!(matches!(
        app_recv_result::<()>(Err(AppRecvIntoError::BufferTooSmall { needed: 3, got: 1 })),
        Err(RecvError::BufferTooSmall { needed: 3, got: 1 })
    ));
}

#[test]
fn adapter_gives_back_what_it_holds() {
    let rt = 5u32;
    let mut adapter = AsyncWithRt::new(&rt, vec![1u8]);
    assert_eq!(*adapter.rt(), 5);
    adapter.inner_mut().push(2);
    assert_eq!(adapter.inner(), &vec![1, 2]);
    assert_eq!(adapter.into_inner(), vec![1, 2]);
}
