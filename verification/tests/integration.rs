use can_iso_tp::id::{Frame, Id, StandardId};
use can_iso_tp::node::{replied, Deadline, RecvStep, SendStep};
use can_iso_tp::pdu::{encode, Pdu};
use can_iso_tp::time::Duration;
use can_iso_tp::{
    Clock, IsoTpConfig, IsoTpError, IsoTpNode, Progress, RxStorage, StdClock, TimeoutKind,
};
use std::collections::VecDeque;

/// A bus on which every frame reaches every interface.
struct TestBus {
    queues: Vec<VecDeque<Frame>>,
}

impl TestBus {
    fn new(interfaces: usize) -> Self {
        TestBus {
            queues: (0..interfaces).map(|_| VecDeque::new()).collect(),
        }
    }

    fn transmit(&mut self, frame: Frame) {
        for queue in self.queues.iter_mut() {
            queue.push_back(frame.clone());
        }
    }

    fn try_recv(&mut self, interface: usize) -> Option<Frame> {
        self.queues[interface].pop_front()
    }
}

/// A node on an interface of the bus.
struct OnBus<C: Clock> {
    node: IsoTpNode<'static, C>,
    interface: usize,
}

impl<C: Clock> OnBus<C> {
    fn poll_send(
        &mut self,
        bus: &mut TestBus,
        payload: &[u8],
        now: C::Instant,
    ) -> Result<Progress, IsoTpError<()>> {
        let mut step = self.node.poll_send(payload, now)?;
        loop {
            match step {
                SendStep::Report(p) => return Ok(p),
                SendStep::Transmit(plan) => {
                    bus.transmit(plan.frame().clone());
                    return self.node.sent(plan, Ok(()), now);
                }
                SendStep::AwaitFrame => {
                    let frame = bus.try_recv(self.interface);
                    step = self.node.poll_send_frame(payload, frame.as_ref(), now)?;
                }
            }
        }
    }

    fn poll_recv(
        &mut self,
        bus: &mut TestBus,
        now: C::Instant,
        deliver: &mut dyn FnMut(&[u8]),
    ) -> Result<Progress, IsoTpError<()>> {
        loop {
            let frame = bus.try_recv(self.interface);
            let step = self.node.poll_recv(now, frame.as_ref())?;
            match &step {
                RecvStep::Ignored => continue,
                RecvStep::Report(Progress::Completed) => deliver(self.node.received()),
                RecvStep::Report(_) | RecvStep::Refuse(None) => {}
                RecvStep::Reply(reply) | RecvStep::Refuse(Some(reply)) => {
                    bus.transmit(reply.clone())
                }
            }
            return replied(&step, Ok(()));
        }
    }

    fn send(
        &mut self,
        bus: &mut TestBus,
        payload: &[u8],
        timeout: Duration,
    ) -> Result<(), IsoTpError<()>> {
        let deadline = Deadline::start(self.node.clock(), timeout, TimeoutKind::NAs);
        loop {
            let now = self.node.clock().now();
            deadline.check(now)?;
            if self.poll_send(bus, payload, now)? == Progress::Completed {
                return Ok(());
            }
        }
    }

    fn recv(
        &mut self,
        bus: &mut TestBus,
        timeout: Duration,
        deliver: &mut dyn FnMut(&[u8]),
    ) -> Result<(), IsoTpError<()>> {
        let deadline = Deadline::start(self.node.clock(), timeout, TimeoutKind::NAr);
        loop {
            let now = self.node.clock().now();
            deadline.check(now)?;
            if self.poll_recv(bus, now, deliver)? == Progress::Completed {
                return Ok(());
            }
        }
    }
}

fn sid(raw: u16) -> Id {
    Id::Standard(StandardId::new(raw).unwrap())
}

fn cfg(tx: u16, rx: u16, block_size: u8) -> IsoTpConfig {
    IsoTpConfig {
        tx_id: sid(tx),
        rx_id: sid(rx),
        tx_addr: None,
        rx_addr: None,
        block_size,
        st_min: Duration::from_millis(0),
        wft_max: 3,
        padding: None,
        max_payload_len: 256,
        n_as: Duration::from_millis(500),
        n_ar: Duration::from_millis(500),
        n_bs: Duration::from_millis(500),
        n_br: Duration::from_millis(500),
        n_cs: Duration::from_millis(500),
        frame_len: 8,
    }
}

fn node(interface: usize, cfg: IsoTpConfig) -> OnBus<StdClock> {
    let storage = RxStorage::Owned(vec![0u8; cfg.max_payload_len]);
    OnBus {
        node: IsoTpNode::with_clock_and_storage(cfg, StdClock, storage).unwrap(),
        interface,
    }
}

fn edge_cfg(tx: u16, rx: u16, block_size: u8, max_len: usize) -> IsoTpConfig {
    IsoTpConfig {
        wft_max: 2,
        max_payload_len: max_len,
        n_as: Duration::from_millis(200),
        n_ar: Duration::from_millis(200),
        n_bs: Duration::from_millis(200),
        n_br: Duration::from_millis(200),
        n_cs: Duration::from_millis(200),
        ..cfg(tx, rx, block_size)
    }
}

fn make_frame(id: u16, data: &[u8]) -> Frame {
    Frame {
        id: sid(id),
        data: data.to_vec(),
    }
}

#[test]
fn single_frame_roundtrip() {
    let mut bus = TestBus::new(2);
    let mut sender = node(0, cfg(0x100, 0x101, 0));
    let mut receiver = node(1, cfg(0x101, 0x100, 0));

    let payload = [1u8, 2, 3, 4];
    sender
        .send(&mut bus, &payload, Duration::from_millis(200))
        .expect("send");

    let mut delivered = Vec::new();
    receiver
        .recv(&mut bus, Duration::from_millis(200), &mut |data| {
            delivered = data.to_vec()
        })
        .expect("recv");

    assert_eq!(payload.to_vec(), delivered);
}

#[test]
fn extended_addressing_roundtrip_payload_len_7() {
    let mut bus = TestBus::new(2);
    let mut cfg_a = cfg(0x120, 0x121, 0);
    cfg_a.tx_addr = Some(0xAA);
    cfg_a.rx_addr = Some(0x55);
    let mut cfg_b = cfg(0x121, 0x120, 0);
    cfg_b.tx_addr = Some(0x55);
    cfg_b.rx_addr = Some(0xAA);

    let mut sender = node(0, cfg_a);
    let mut receiver = node(1, cfg_b);

    let payload = [1u8, 2, 3, 4, 5, 6, 7];
    let mut delivered = Vec::new();
    let mut send_done = false;
    let mut recv_done = false;
    let mut iterations = 0;

    while !(send_done && recv_done) {
        iterations += 1;
        assert!(iterations < 1000, "state machine stuck");
        let now = StdClock.now();

        if !send_done
            && matches!(
                sender.poll_send(&mut bus, &payload, now).expect("send progress"),
                Progress::Completed
            )
        {
            send_done = true;
        }

        match receiver.poll_recv(&mut bus, now, &mut |data| delivered = data.to_vec()) {
            Ok(Progress::Completed) => recv_done = true,
            Ok(_) => {}
            Err(err) => panic!("recv error: {:?}", err),
        }
    }

    assert_eq!(payload.to_vec(), delivered);
}

#[test]
fn multi_frame_flow_control_path() {
    let mut bus = TestBus::new(2);
    let mut sender = node(0, cfg(0x200, 0x201, 4));
    let mut receiver = node(1, cfg(0x201, 0x200, 4));

    let payload: Vec<u8> = (0u8..20).collect();
    let mut delivered = Vec::new();
    let mut send_done = false;
    let mut recv_done = false;
    let mut iterations = 0;

    while !(send_done && recv_done) {
        iterations += 1;
        assert!(iterations < 1000, "state machine stuck");
        let now = StdClock.now();
        if !send_done
            && matches!(
                sender.poll_send(&mut bus, &payload, now).expect("send progress"),
                Progress::Completed
            )
        {
            send_done = true;
        }
        match receiver.poll_recv(&mut bus, now, &mut |data| delivered = data.to_vec()) {
            Ok(Progress::Completed) => recv_done = true,
            Ok(_) => {}
            Err(err) => panic!("recv error: {:?}", err),
        }
    }

    assert_eq!(payload, delivered);
}

#[test]
fn long_payload_over_multiple_nodes() {
    let mut bus = TestBus::new(3);
    let mut sender = node(0, cfg(0x300, 0x301, 8));
    let mut receiver_b = node(1, cfg(0x301, 0x300, 8));
    let mut receiver_c = node(2, cfg(0x301, 0x300, 8));

    let payload: Vec<u8> = (0..200u16).map(|v| (v & 0xFF) as u8).collect();
    let mut delivered_b = Vec::new();
    let mut delivered_c = Vec::new();

    let mut send_done = false;
    let mut recv_b_done = false;
    let mut recv_c_done = false;
    let mut iterations = 0;

    while !(send_done && recv_b_done && recv_c_done) {
        iterations += 1;
        assert!(iterations < 5000, "state machine stuck");
        let now = StdClock.now();

        if !send_done
            && matches!(
                sender.poll_send(&mut bus, &payload, now).expect("send long progress"),
                Progress::Completed
            )
        {
            send_done = true;
        }
        if !recv_b_done {
            match receiver_b.poll_recv(&mut bus, now, &mut |data| delivered_b = data.to_vec()) {
                Ok(Progress::Completed) => recv_b_done = true,
                Ok(_) => {}
                Err(err) => panic!("recv b error: {:?}", err),
            }
        }
        if !recv_c_done {
            match receiver_c.poll_recv(&mut bus, now, &mut |data| delivered_c = data.to_vec()) {
                Ok(Progress::Completed) => recv_c_done = true,
                Ok(_) => {}
                Err(err) => panic!("recv c error: {:?}", err),
            }
        }
    }

    assert_eq!(payload, delivered_b);
    assert_eq!(payload, delivered_c);
}

#[test]
fn back_to_back_long_messages() {
    let mut bus = TestBus::new(2);
    let mut sender = node(0, cfg(0x400, 0x401, 4));
    let mut receiver = node(1, cfg(0x401, 0x400, 4));

    let payload1: Vec<u8> = (0..120u16).map(|v| (v & 0xFF) as u8).collect();
    let payload2: Vec<u8> = (120..260u16).map(|v| (v & 0xFF) as u8).collect();

    let mut send1_done = false;
    let mut send2_done = false;
    let mut delivered: Vec<Vec<u8>> = Vec::new();
    let mut iterations = 0;

    while !(send1_done && send2_done && delivered.len() == 2) {
        iterations += 1;
        assert!(iterations < 5000, "state machine stuck");
        let now = StdClock.now();

        if !send1_done {
            if matches!(
                sender.poll_send(&mut bus, &payload1, now).expect("send1 poll"),
                Progress::Completed
            ) {
                send1_done = true;
            }
        } else if !send2_done
            && matches!(
                sender.poll_send(&mut bus, &payload2, now).expect("send2 poll"),
                Progress::Completed
            )
        {
            send2_done = true;
        }

        match receiver.poll_recv(&mut bus, now, &mut |data| delivered.push(data.to_vec())) {
            Ok(_) => {}
            Err(err) => panic!("recv poll: {:?}", err),
        }
    }

    assert_eq!(payload1, delivered[0]);
    assert_eq!(payload2, delivered[1]);
}

#[test]
fn bus_contention_with_noise_frames() {
    let mut bus = TestBus::new(2);
    let mut sender = node(0, cfg(0x500, 0x501, 4));
    let mut receiver = node(1, cfg(0x501, 0x500, 4));

    let payload: Vec<u8> = (0..96u16).map(|v| (v & 0xFF) as u8).collect();
    let mut delivered = Vec::new();
    let mut send_done = false;
    let mut recv_done = false;
    let mut iterations = 0;

    while !(send_done && recv_done) {
        iterations += 1;
        assert!(iterations < 2000, "stuck during contention test");
        let now = StdClock.now();

        // Inject unrelated noise periodically.
        if iterations % 3 == 0 {
            bus.transmit(make_frame(0x777, &[0xDE, 0xAD, 0xBE, 0xEF]));
        }

        if !send_done
            && matches!(
                sender.poll_send(&mut bus, &payload, now).expect("send poll"),
                Progress::Completed
            )
        {
            send_done = true;
        }

        match receiver.poll_recv(&mut bus, now, &mut |data| delivered = data.to_vec()) {
            Ok(Progress::Completed) => recv_done = true,
            Ok(_) => {}
            Err(err) => panic!("recv failed under contention: {:?}", err),
        }
    }

    assert_eq!(payload, delivered);
}

#[test]
fn blocking_recv_times_out_without_sender() {
    let mut bus = TestBus::new(1);
    let mut receiver = node(0, cfg(0x682, 0x683, 0));

    let err = receiver.recv(&mut bus, Duration::from_millis(50), &mut |_| {});
    assert!(matches!(err, Err(IsoTpError::Timeout(TimeoutKind::NAr))));
}

#[test]
fn blocking_send_times_out_without_receiver_polling() {
    let mut bus = TestBus::new(2);
    let mut sender = node(0, cfg(0x684, 0x685, 4));

    let payload: Vec<u8> = (0..64u16).map(|v| (v & 0xFF) as u8).collect();
    let err = sender.send(&mut bus, &payload, Duration::from_millis(50));
    assert!(matches!(err, Err(IsoTpError::Timeout(TimeoutKind::NAs))));
}

#[test]
fn two_parallel_transfers_share_bus() {
    let mut bus = TestBus::new(4);
    let mut sender1 = node(0, cfg(0x600, 0x601, 4));
    let mut receiver1 = node(1, cfg(0x601, 0x600, 4));
    let mut sender2 = node(2, cfg(0x700, 0x701, 4));
    let mut receiver2 = node(3, cfg(0x701, 0x700, 4));

    let payload1: Vec<u8> = (0..80u16).map(|v| (v & 0xFF) as u8).collect();
    let payload2: Vec<u8> = (0..140u16).map(|v| (v & 0xFF) as u8).collect();

    let mut delivered1 = Vec::new();
    let mut delivered2 = Vec::new();
    let mut send1_done = false;
    let mut recv1_done = false;
    let mut send2_done = false;
    let mut recv2_done = false;
    let mut iterations = 0;

    while !(send1_done && recv1_done && send2_done && recv2_done) {
        iterations += 1;
        assert!(iterations < 5000, "parallel transfers stuck");
        let now = StdClock.now();

        if !send1_done
            && matches!(
                sender1.poll_send(&mut bus, &payload1, now).expect("sender1 poll"),
                Progress::Completed
            )
        {
            send1_done = true;
        }
        if !send2_done
            && matches!(
                sender2.poll_send(&mut bus, &payload2, now).expect("sender2 poll"),
                Progress::Completed
            )
        {
            send2_done = true;
        }

        match receiver1.poll_recv(&mut bus, now, &mut |data| delivered1 = data.to_vec()) {
            Ok(Progress::Completed) => recv1_done = true,
            Ok(_) => {}
            Err(err) => panic!("receiver1 failed: {:?}", err),
        }
        match receiver2.poll_recv(&mut bus, now, &mut |data| delivered2 = data.to_vec()) {
            Ok(Progress::Completed) => recv2_done = true,
            Ok(_) => {}
            Err(err) => panic!("receiver2 failed: {:?}", err),
        }
    }

    assert_eq!(payload1, delivered1);
    assert_eq!(payload2, delivered2);
}

#[test]
fn config_validation_rejects_mirrored_ids_and_bad_lengths() {
    let mut cfg = edge_cfg(0x100, 0x100, 0, 32);
    assert!(cfg.validate().is_err());
    cfg.tx_id = sid(0x101);
    cfg.max_payload_len = 0;
    assert!(cfg.validate().is_err());
    cfg.max_payload_len = 4096;
    assert!(cfg.validate().is_err());
}

#[test]
fn zero_length_payload_roundtrip() {
    let mut bus = TestBus::new(2);
    let mut sender = node(0, edge_cfg(0x200, 0x201, 0, 32));
    let mut receiver = node(1, edge_cfg(0x201, 0x200, 0, 32));

    sender
        .send(&mut bus, &[], Duration::from_millis(100))
        .expect("send empty");
    let mut delivered = Vec::new();
    receiver
        .recv(&mut bus, Duration::from_millis(100), &mut |data| {
            delivered = data.to_vec()
        })
        .expect("recv");
    assert!(delivered.is_empty());
}

#[test]
fn oversized_payload_triggers_overflow_on_both_sides() {
    let mut bus = TestBus::new(2);
    let mut sender = node(0, edge_cfg(0x300, 0x301, 0, 32));
    let mut receiver = node(1, edge_cfg(0x301, 0x300, 0, 8));

    let payload: Vec<u8> = (0..20u8).collect();
    let now = StdClock.now();
    assert_eq!(
        sender.poll_send(&mut bus, &payload, now).unwrap(),
        Progress::WaitingForFlowControl
    );

    let mut delivered = Vec::new();
    let recv_err = receiver.poll_recv(&mut bus, now, &mut |data| delivered = data.to_vec());
    assert!(matches!(recv_err, Err(IsoTpError::RxOverflow)));
    assert!(delivered.is_empty());

    let send_err = sender.poll_send(&mut bus, &payload, now);
    assert!(matches!(send_err, Err(IsoTpError::Overflow)));
}

#[test]
fn flow_control_wait_exceeds_wft_max() {
    let mut bus = TestBus::new(1);
    let mut sender = node(0, edge_cfg(0x400, 0x401, 0, 64));

    let payload: Vec<u8> = (0..24u8).collect();
    let now = StdClock.now();
    let first = sender.poll_send(&mut bus, &payload, now).expect("first ff");
    assert_eq!(first, Progress::WaitingForFlowControl);

    // Send Wait responses beyond wft_max.
    for _ in 0..=2 {
        bus.transmit(make_frame(0x401, &[0x31, 0x00, 0x00]));
        let res = sender.poll_send(&mut bus, &payload, now);
        if res.is_err() {
            break;
        }
    }

    let res = sender.poll_send(&mut bus, &payload, now);
    match res {
        Err(IsoTpError::Timeout(TimeoutKind::NBs)) => {}
        other => panic!("expected NBs timeout, got {:?}", other),
    }
}

#[test]
fn st_min_pacing_blocks_until_deadline() {
    let mut bus = TestBus::new(1);
    let mut sender = node(0, edge_cfg(0x500, 0x501, 0, 64));
    let payload: Vec<u8> = (0..16u8).collect();
    let t0 = StdClock.now();
    assert_eq!(
        sender.poll_send(&mut bus, &payload, t0).unwrap(),
        Progress::WaitingForFlowControl
    );
    bus.transmit(make_frame(0x501, &[0x30, 0x00, 0x7F]));
    assert_eq!(
        sender.poll_send(&mut bus, &payload, t0).unwrap(),
        Progress::InFlight
    );
    // Still before stmin deadline, should block.
    assert_eq!(
        sender.poll_send(&mut bus, &payload, t0).unwrap(),
        Progress::WouldBlock
    );
    // Advance beyond 127ms to allow next CF.
    let later = StdClock.add(t0, Duration::from_millis(200));
    assert_ne!(
        sender.poll_send(&mut bus, &payload, later).unwrap(),
        Progress::WouldBlock
    );
}

#[test]
fn bad_sequence_number_is_rejected() {
    let mut bus = TestBus::new(1);
    let mut receiver = node(0, edge_cfg(0x601, 0x600, 0, 64));

    // First frame claims total len 10 with six bytes in payload.
    let ff = encode(
        sid(0x600),
        &Pdu::FirstFrame {
            len: 10,
            data: &[1, 2, 3, 4, 5, 6],
        },
        None,
    )
    .unwrap();
    bus.transmit(ff);
    assert_eq!(
        receiver.poll_recv(&mut bus, StdClock.now(), &mut |_| {}).unwrap(),
        Progress::InFlight
    );
    // The receiver's own flow control comes back to it and is ignored.
    // Send CF with wrong sequence number.
    let cf_bad = encode(
        sid(0x600),
        &Pdu::ConsecutiveFrame {
            sn: 3,
            data: &[7, 8, 9, 10],
        },
        None,
    )
    .unwrap();
    bus.transmit(cf_bad);
    let err = receiver.poll_recv(&mut bus, StdClock.now(), &mut |_| {});
    assert!(matches!(err, Err(IsoTpError::BadSequence)));
}

/// A clock that stands still.
#[derive(Clone, Copy, Debug, Default)]
struct TestClock;

impl Clock for TestClock {
    type Instant = u64;

    fn now(&self) -> u64 {
        0
    }

    fn elapsed(&self, _earlier: u64) -> Duration {
        Duration::from_millis(0)
    }

    fn add(&self, instant: u64, dur: Duration) -> u64 {
        instant.saturating_add(dur.as_millis() as u64)
    }
}

fn cfg_pair(max_payload_len: usize) -> (IsoTpConfig, IsoTpConfig) {
    (
        IsoTpConfig {
            tx_id: sid(0x700),
            rx_id: sid(0x701),
            max_payload_len,
            ..IsoTpConfig::default()
        },
        IsoTpConfig {
            tx_id: sid(0x701),
            rx_id: sid(0x700),
            max_payload_len,
            ..IsoTpConfig::default()
        },
    )
}

#[test]
fn node_builder_requires_sufficient_borrowed_buffer() {
    let (cfg_a, _cfg_b) = cfg_pair(16);
    let mut rx_buf_too_small = [0u8; 8];
    let err = match IsoTpNode::builder(cfg_a, TestClock)
        .rx_buffer(&mut rx_buf_too_small)
        .build()
    {
        Ok(_) => panic!("expected InvalidConfig for insufficient rx buffer"),
        Err(err) => err,
    };
    assert!(matches!(err, IsoTpError::InvalidConfig));
}

#[test]
fn node_with_clock_borrowed_buffer_construction_and_poll_paths() {
    let (cfg_a, _cfg_b) = cfg_pair(16);
    let mut rx_buf = [0u8; 16];
    let mut node = IsoTpNode::with_clock(cfg_a, TestClock, &mut rx_buf).unwrap();

    // No RX frames available: should WouldBlock.
    let step = node.poll_recv(0, None).unwrap();
    let res = replied::<()>(&step, Ok(())).unwrap();
    assert_eq!(res, Progress::WouldBlock);
}

#[test]
fn link_errors_end_a_transfer() {
    let mut bus = TestBus::new(1);
    let (cfg_a, _cfg_b) = cfg_pair(64);
    let mut sender = OnBus {
        node: IsoTpNode::with_clock_and_storage(
            cfg_a,
            TestClock,
            RxStorage::Owned(vec![0u8; 64]),
        )
        .unwrap(),
        interface: 0,
    };
    let payload = [0u8; 20];
    let plan = match sender.node.poll_send(&payload, 0).unwrap() {
        SendStep::Transmit(plan) => plan,
        _ => panic!("expected a frame to transmit"),
    };
    assert_eq!(plan.frame().data, vec![0x10, 20, 0, 0, 0, 0, 0, 0]);
    let err = sender.node.sent(plan, Err("off"), 0);
    assert!(matches!(err, Err(IsoTpError::LinkError("off"))));

    // The next poll starts anew.
    assert_eq!(
        sender.poll_send(&mut bus, &payload, 0).unwrap(),
        Progress::WaitingForFlowControl
    );
    assert_eq!(bus.try_recv(0).unwrap().data[0], 0x10);
}

#[test]
fn a_payload_of_another_length_is_not_idle() {
    let mut bus = TestBus::new(1);
    let (cfg_a, _cfg_b) = cfg_pair(64);
    let mut sender = node(0, cfg_a);
    let now = StdClock.now();
    sender.poll_send(&mut bus, &[0u8; 20], now).unwrap();
    assert!(matches!(
        sender.poll_send(&mut bus, &[0u8; 21], now),
        Err(IsoTpError::NotIdle)
    ));
}

#[test]
fn payloads_over_the_limit_overflow() {
    let mut bus = TestBus::new(1);
    let (cfg_a, _cfg_b) = cfg_pair(16);
    let mut sender = node(0, cfg_a);
    assert!(matches!(
        sender.poll_send(&mut bus, &[0u8; 17], StdClock.now()),
        Err(IsoTpError::Overflow)
    ));
}

#[test]
fn flow_control_in_time_or_not_at_all() {
    let mut bus = TestBus::new(1);
    let mut sender = node(0, edge_cfg(0x400, 0x401, 0, 64));
    let payload = [0u8; 20];
    let t0 = StdClock.now();
    sender.poll_send(&mut bus, &payload, t0).unwrap();
    let in_time = StdClock.add(t0, Duration::from_millis(199));
    assert_eq!(
        sender.poll_send(&mut bus, &payload, in_time).unwrap(),
        Progress::WaitingForFlowControl
    );
    let too_late = StdClock.add(t0, Duration::from_millis(200));
    assert!(matches!(
        sender.poll_send(&mut bus, &payload, too_late),
        Err(IsoTpError::Timeout(TimeoutKind::NBs))
    ));
}

#[test]
fn malformed_frames_are_reported() {
    let mut bus = TestBus::new(1);
    let mut receiver = node(0, cfg(0x101, 0x100, 0));
    bus.transmit(make_frame(0x100, &[0x09, 1]));
    assert!(matches!(
        receiver.poll_recv(&mut bus, StdClock.now(), &mut |_| {}),
        Err(IsoTpError::InvalidFrame)
    ));
}

#[test]
fn advertised_flow_control_can_change() {
    let mut bus = TestBus::new(1);
    let mut receiver = node(0, cfg(0x101, 0x100, 0));
    let fc = can_iso_tp::RxFlowControl {
        block_size: 3,
        st_min: Duration::from_millis(7),
    };
    receiver.node.set_rx_flow_control(fc);
    assert_eq!(receiver.node.rx_flow_control(), fc);
    bus.transmit(make_frame(0x100, &[0x10, 20, 1, 2, 3, 4, 5, 6]));
    receiver
        .poll_recv(&mut bus, StdClock.now(), &mut |_| {})
        .unwrap();
    assert_eq!(bus.try_recv(0).unwrap().data, vec![0x30, 3, 7]);
}

#[test]
fn the_standard_clock_runs_forward() {
    let start = StdClock.now();
    assert_eq!(StdClock.add(start, Duration::from_millis(0)), start);
    assert!(StdClock.add(start, Duration::from_millis(1)) > start);
    assert!(StdClock.elapsed(start).shorter_than(Duration::from_secs(60)));
}

#[test]
fn sizes_around_every_frame_boundary_arrive() {
    for (addr, padding, frame_len) in [
        (None, None, 8),
        (Some(0x5A), Some(0xCC), 8),
        (None, Some(0), 64),
        (Some(1), None, 12),
    ] {
        for len in [1usize, 5, 6, 7, 8, 9, 12, 13, 14, 20, 61, 62, 63, 64, 65, 127, 200, 256] {
            let mut bus = TestBus::new(2);
            let shape = IsoTpConfig {
                tx_addr: addr,
                rx_addr: addr,
                padding,
                frame_len,
                ..cfg(0x10, 0x11, 3)
            };
            let mut sender = node(0, shape);
            let mut receiver = node(
                1,
                IsoTpConfig {
                    tx_id: shape.rx_id,
                    rx_id: shape.tx_id,
                    ..shape
                },
            );
            let payload: Vec<u8> = (0..len).map(|i| (i * 7 + 3) as u8).collect();
            let mut delivered = None;
            let mut sent = false;
            for _ in 0..200 {
                let now = StdClock.now();
                if !sent {
                    sent = sender.poll_send(&mut bus, &payload, now).unwrap()
                        == Progress::Completed;
                }
                receiver
                    .poll_recv(&mut bus, now, &mut |data| delivered = Some(data.to_vec()))
                    .unwrap();
                if sent && delivered.is_some() {
                    break;
                }
            }
            assert!(sent);
            assert_eq!(delivered.as_deref(), Some(payload.as_slice()));
        }
    }
}

#[test]
fn blocking_multi_frame_roundtrip() {
    let mut bus = TestBus::new(2);
    let mut sender = node(0, cfg(0x680, 0x681, 4));
    let mut receiver = node(1, cfg(0x681, 0x680, 4));

    let payload: Vec<u8> = (0..96u16).map(|v| (v & 0xFF) as u8).collect();
    let timeout = Duration::from_secs(2);
    let send_by = Deadline::start(sender.node.clock(), timeout, TimeoutKind::NAs);
    let recv_by = Deadline::start(receiver.node.clock(), timeout, TimeoutKind::NAr);

    let mut delivered = Vec::new();
    let mut sent = false;
    let mut received = false;
    while !sent || !received {
        let now = StdClock.now();
        if !sent {
            send_by.check(now).expect("blocking send");
            let progress = sender.poll_send(&mut bus, &payload, now);
            sent = progress.expect("blocking send") == Progress::Completed;
        }
        if !received {
            recv_by.check(now).expect("blocking recv");
            let progress =
                receiver.poll_recv(&mut bus, now, &mut |data| delivered = data.to_vec());
            received = progress.expect("blocking recv") == Progress::Completed;
        }
    }
    assert_eq!(payload, delivered);
}

#[test]
fn blocking_send_and_recv_report_overflow() {
    let mut bus = TestBus::new(2);
    let mut sender = node(0, cfg(0x686, 0x687, 4));
    let mut receiver = node(
        1,
        IsoTpConfig {
            max_payload_len: 8,
            ..cfg(0x687, 0x686, 4)
        },
    );

    let payload: Vec<u8> = (0..32u16).map(|v| (v & 0xFF) as u8).collect();
    let timeout = Duration::from_secs(1);
    let send_by = Deadline::start(sender.node.clock(), timeout, TimeoutKind::NAs);
    let recv_by = Deadline::start(receiver.node.clock(), timeout, TimeoutKind::NAr);

    let mut send_err = Ok(());
    let mut recv_err = Ok(());
    while send_err.is_ok() || recv_err.is_ok() {
        let now = StdClock.now();
        if send_err.is_ok() {
            send_err = send_by.check(now).and_then(|()| {
                sender.poll_send(&mut bus, &payload, now).map(|progress| {
                    assert_ne!(progress, Progress::Completed);
                })
            });
        }
        if recv_err.is_ok() {
            recv_err = recv_by.check(now).and_then(|()| {
                receiver.poll_recv(&mut bus, now, &mut |_| {}).map(|progress| {
                    assert_ne!(progress, Progress::Completed);
                })
            });
        }
    }
    assert!(matches!(send_err, Err(IsoTpError::Overflow)));
    assert!(matches!(recv_err, Err(IsoTpError::RxOverflow)));
}

#[test]
fn unlimited_clearance_needs_no_further_one() {
    // The sender has blocks of its own; the receiver asks for none.
    let mut bus = TestBus::new(2);
    let mut sender = node(0, cfg(0x690, 0x691, 1));
    let mut receiver = node(1, cfg(0x691, 0x690, 0));
    for len in [20u8, 21, 200] {
        let payload: Vec<u8> = (0..len).collect();
        let mut delivered = Vec::new();
        let mut waits = 0;
        let mut sent = Progress::InFlight;
        for _ in 0..64 {
            let now = StdClock.now();
            if sent != Progress::Completed {
                sent = sender.poll_send(&mut bus, &payload, now).unwrap();
                if sent == Progress::WaitingForFlowControl {
                    waits += 1;
                }
            }
            receiver
                .poll_recv(&mut bus, now, &mut |data| delivered = data.to_vec())
                .unwrap();
        }
        assert_eq!(sent, Progress::Completed);
        assert_eq!(waits, 1);
        assert_eq!(delivered, payload);
    }
}
