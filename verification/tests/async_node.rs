use can_iso_tp::async_io::{link_outcome, remaining, sleep_budget};
use can_iso_tp::async_send::{AsyncAction, AsyncSend, SendTimes};
use can_iso_tp::id::{Frame, Id, StandardId};
use can_iso_tp::node::RecvStep;
use can_iso_tp::pdu::{decode, decode_with_offset, encode, encode_with_prefix, FlowStatus, Pdu};
use can_iso_tp::time::Duration;
use can_iso_tp::tx::TxSession;
use can_iso_tp::{
    Clock, IsoTpAsyncNode, IsoTpConfig, IsoTpError, Progress, RxStorage, StdClock, TimedOut,
    TimeoutKind,
};
use std::collections::VecDeque;

fn ms(millis: u64) -> Duration {
    Duration::from_millis(millis)
}

fn since(now: u64, start: u64) -> Duration {
    ms(now - start)
}

fn sid(raw: u16) -> Id {
    Id::Standard(StandardId::new(raw).unwrap())
}

/// A clock that shows a time of its own choosing.
#[derive(Debug, Clone, Copy)]
struct TestClock {
    now_ms: u64,
}

impl Clock for TestClock {
    type Instant = u64;

    fn now(&self) -> u64 {
        self.now_ms
    }

    fn elapsed(&self, earlier: u64) -> Duration {
        ms(self.now_ms.saturating_sub(earlier))
    }

    fn add(&self, instant: u64, dur: Duration) -> u64 {
        instant.saturating_add(dur.as_millis() as u64)
    }
}

#[test]
fn remaining_handles_underflow() {
    assert_eq!(
        remaining(Duration::from_millis(10), Duration::from_millis(5)),
        Some(Duration::from_millis(5))
    );
    assert_eq!(
        remaining(Duration::from_millis(10), Duration::from_millis(10)),
        Some(Duration::from_millis(0))
    );
    assert_eq!(
        remaining(Duration::from_millis(10), Duration::from_millis(11)),
        None
    );
}

#[test]
fn test_clock_now_and_add_are_exercised() {
    let clock = TestClock { now_ms: 5 };
    assert_eq!(clock.now(), 5);
    assert_eq!(clock.add(10, Duration::from_millis(7)), 17);
}

#[test]
fn sleep_or_timeout_uses_min_of_requested_and_remaining() {
    let clock = TestClock { now_ms: 30 };
    let start = 0u64;
    let sleep = sleep_budget(
        Duration::from_millis(100),
        clock.elapsed(start),
        TimeoutKind::NAs,
        Duration::from_millis(200),
    );
    assert_eq!(sleep.unwrap(), Duration::from_millis(70));
}

#[test]
fn sleep_or_timeout_returns_timeout_when_elapsed_exceeds_deadline() {
    let clock = TestClock { now_ms: 100 };
    let start = 0u64;
    let err = sleep_budget(
        Duration::from_millis(50),
        clock.elapsed(start),
        TimeoutKind::NAs,
        Duration::from_millis(1),
    )
    .unwrap_err();
    assert!(matches!(err, IsoTpError::Timeout(TimeoutKind::NAs)));
}

/// A transfer out, with the clock readings it goes by.
struct Sending {
    transfer: AsyncSend,
    payload: Vec<u8>,
    timeout: Duration,
    start: u64,
    fc_start: u64,
    last_cf: Option<u64>,
}

impl Sending {
    fn new(payload: &[u8], timeout: Duration, start: u64) -> Self {
        Sending {
            transfer: AsyncSend::Opening,
            payload: payload.to_vec(),
            timeout,
            start,
            fc_start: start,
            last_cf: None,
        }
    }

    fn action<C: Clock>(
        &self,
        node: &IsoTpAsyncNode<'_, C>,
        now: u64,
    ) -> Result<AsyncAction, IsoTpError<()>> {
        let times = SendTimes {
            elapsed: since(now, self.start),
            fc_elapsed: since(now, self.fc_start),
            cf_elapsed: self.last_cf.map(|at| since(now, at)),
        };
        node.send(&self.transfer, &self.payload, self.timeout, &times)
    }
}

/// Two nodes on a wire, under simulated time.
struct Wire {
    now: u64,
    log: Vec<(u64, Frame)>,
    to_a: VecDeque<Frame>,
    to_b: VecDeque<Frame>,
}

impl Wire {
    fn new() -> Self {
        Wire {
            now: 0,
            log: Vec::new(),
            to_a: VecDeque::new(),
            to_b: VecDeque::new(),
        }
    }

    fn transmit(&mut self, frame: &Frame) {
        self.log.push((self.now, frame.clone()));
        self.to_a.push_back(frame.clone());
        self.to_b.push_back(frame.clone());
    }

    /// Let node `b` take in what waits for it.
    fn receive<C: Clock>(
        &mut self,
        b: &mut IsoTpAsyncNode<'_, C>,
        delivered: &mut Option<Vec<u8>>,
    ) -> Result<(), IsoTpError<()>> {
        while let Some(frame) = self.to_b.pop_front() {
            match b.on_frame(&frame)? {
                RecvStep::Report(Progress::Completed) => *delivered = Some(b.received().to_vec()),
                RecvStep::Report(_) | RecvStep::Ignored => {}
                RecvStep::Reply(reply) => self.transmit(&reply),
                RecvStep::Refuse(reply) => {
                    if let Some(reply) = reply {
                        self.transmit(&reply);
                    }
                    return Err(IsoTpError::RxOverflow);
                }
            }
        }
        Ok(())
    }

    /// Run a transfer from `a` to `b`, or to nobody.
    fn run<C: Clock>(
        &mut self,
        a: &IsoTpAsyncNode<'_, C>,
        mut b: Option<&mut IsoTpAsyncNode<'_, C>>,
        payload: &[u8],
        timeout: Duration,
    ) -> Result<Option<Vec<u8>>, IsoTpError<()>> {
        let mut delivered = None;
        let mut sending = Sending::new(payload, timeout, self.now);
        for _ in 0..10_000 {
            match sending.action(a, self.now)? {
                AsyncAction::Finish => {
                    if let Some(b) = b {
                        self.receive(b, &mut delivered)?;
                    }
                    return Ok(delivered);
                }
                AsyncAction::Transmit(plan, _within) => {
                    self.transmit(plan.frame());
                    let next = AsyncSend::on_sent(&plan, Ok(Ok(())))?;
                    let (consecutive, waits) = sending.transfer.restarts(&next);
                    if consecutive {
                        sending.last_cf = Some(self.now);
                    }
                    if waits {
                        sending.fc_start = self.now;
                    }
                    sending.transfer = next;
                    if let Some(b) = b.as_deref_mut() {
                        self.receive(b, &mut delivered)?;
                    }
                }
                AsyncAction::Receive(within, kind) => {
                    let outcome = match self.to_a.pop_front() {
                        Some(frame) => Ok(Ok(frame)),
                        None => {
                            self.now += within.as_millis() as u64;
                            Err(TimedOut)
                        }
                    };
                    let (next, patience) =
                        a.wait_for_flow_control(sending.transfer, outcome, kind)?;
                    sending.transfer = next;
                    if patience {
                        sending.fc_start = self.now;
                    }
                }
                AsyncAction::Pause(d) => {
                    self.now += d.as_millis() as u64;
                    sending.transfer = sending.transfer.on_paused(Ok(()))?;
                }
            }
        }
        panic!("transfer stuck");
    }
}

fn cfg_for(tx: u16, rx: u16) -> (IsoTpConfig, IsoTpConfig) {
    let a = IsoTpConfig {
        tx_id: sid(tx),
        rx_id: sid(rx),
        max_payload_len: 256,
        ..IsoTpConfig::default()
    };
    let b = IsoTpConfig {
        tx_id: sid(rx),
        rx_id: sid(tx),
        ..a
    };
    (a, b)
}

fn owned(cfg: IsoTpConfig) -> IsoTpAsyncNode<'static, StdClock> {
    let storage = RxStorage::Owned(vec![0u8; cfg.max_payload_len]);
    IsoTpAsyncNode::with_clock_and_storage(cfg, StdClock, storage).unwrap()
}

#[test]
fn async_single_frame_roundtrip() {
    let (cfg_a, cfg_b) = cfg_for(0x123, 0x321);
    let (a, mut b) = (owned(cfg_a), owned(cfg_b));
    let payload = b"hello";
    let delivered = Wire::new()
        .run(&a, Some(&mut b), payload, Duration::from_millis(200))
        .unwrap();
    assert_eq!(delivered.unwrap(), payload);
}

#[test]
fn async_multi_frame_roundtrip() {
    let (cfg_a, cfg_b) = cfg_for(0x700, 0x701);
    let (a, mut b) = (owned(cfg_a), owned(cfg_b));
    let payload: Vec<u8> = (0..100).collect();
    let delivered = Wire::new()
        .run(&a, Some(&mut b), &payload, Duration::from_millis(500))
        .unwrap();
    assert_eq!(delivered.unwrap(), payload);
}

#[test]
fn async_block_size_requires_multiple_flow_controls() {
    let (cfg_a, mut cfg_b) = cfg_for(0x600, 0x601);
    cfg_b.block_size = 1;
    let fc_id = cfg_b.tx_id;
    let (a, mut b) = (owned(cfg_a), owned(cfg_b));
    let payload: Vec<u8> = (0..25).collect();
    let mut wire = Wire::new();
    let delivered = wire
        .run(&a, Some(&mut b), &payload, Duration::from_millis(800))
        .unwrap();
    assert_eq!(delivered.unwrap(), payload);

    let mut fc_count = 0usize;
    for (_, frame) in wire.log.iter() {
        if frame.id != fc_id {
            continue;
        }
        if let Ok(Pdu::FlowControl { .. }) = decode(&frame.data) {
            fc_count += 1;
        }
    }
    assert_eq!(fc_count, 3, "expected initial FC + 2 mid-block FCs");
}

#[test]
fn async_st_min_enforced_between_consecutive_frames() {
    let (cfg_a, mut cfg_b) = cfg_for(0x610, 0x611);
    let tx_id_a = cfg_a.tx_id;
    let st_min = 100;
    cfg_b.st_min = Duration::from_millis(st_min);
    let (a, mut b) = (owned(cfg_a), owned(cfg_b));
    let payload: Vec<u8> = (0..20).collect();
    let mut wire = Wire::new();
    let delivered = wire
        .run(&a, Some(&mut b), &payload, Duration::from_secs(2))
        .unwrap();
    assert_eq!(delivered.unwrap(), payload);

    let mut consecutive_times = Vec::new();
    for (at, frame) in wire.log.iter() {
        if frame.id != tx_id_a {
            continue;
        }
        if let Ok(Pdu::ConsecutiveFrame { .. }) = decode(&frame.data) {
            consecutive_times.push(*at);
        }
    }
    assert_eq!(
        consecutive_times.len(),
        2,
        "expected exactly 2 CFs for 20-byte payload"
    );
    let delta = consecutive_times[1] - consecutive_times[0];
    assert!(delta >= st_min - 10);
    assert_eq!(delta, st_min);
}

#[test]
fn async_send_times_out_waiting_for_flow_control_nbs() {
    let (mut cfg_a, _cfg_b) = cfg_for(0x620, 0x621);
    cfg_a.n_bs = Duration::from_millis(120);
    let a = owned(cfg_a);
    let payload: Vec<u8> = (0..24).collect();
    let err = Wire::new()
        .run(&a, None, &payload, Duration::from_millis(800))
        .unwrap_err();
    assert!(matches!(err, IsoTpError::Timeout(TimeoutKind::NBs)));
}

#[test]
fn async_send_times_out_waiting_for_flow_control_nas() {
    let (mut cfg_a, _cfg_b) = cfg_for(0x630, 0x631);
    cfg_a.n_bs = Duration::from_millis(800);
    let a = owned(cfg_a);
    let payload: Vec<u8> = (0..24).collect();
    let err = Wire::new()
        .run(&a, None, &payload, Duration::from_millis(120))
        .unwrap_err();
    assert!(matches!(err, IsoTpError::Timeout(TimeoutKind::NAs)));
}

/// Receive from a script of link results, under a clock that stands still.
fn recv_script<C: Clock>(
    node: &mut IsoTpAsyncNode<'_, C>,
    script: Vec<Result<Result<Frame, ()>, TimedOut>>,
    sent: &mut Vec<Frame>,
) -> Result<Vec<u8>, IsoTpError<()>> {
    for outcome in script {
        let frame = link_outcome(outcome, TimeoutKind::NAr)?;
        match node.on_frame(&frame)? {
            RecvStep::Report(Progress::Completed) => return Ok(node.received().to_vec()),
            RecvStep::Report(_) | RecvStep::Ignored => {}
            RecvStep::Reply(reply) => sent.push(reply),
            RecvStep::Refuse(reply) => {
                sent.extend(reply);
                return Err(IsoTpError::RxOverflow);
            }
        }
    }
    panic!("script exhausted");
}

#[test]
fn async_recv_times_out_nar_even_with_noise_and_flow_control_frames() {
    let (cfg_a, _cfg_b) = cfg_for(0x640, 0x641);
    let mut a = owned(cfg_a);
    let noise = Frame {
        id: sid(0x7AA),
        data: vec![0xDE, 0xAD, 0xBE, 0xEF],
    };
    let fc = encode(
        cfg_a.rx_id,
        &Pdu::FlowControl {
            status: FlowStatus::ClearToSend,
            block_size: 0,
            st_min: 0,
        },
        None,
    )
    .unwrap();
    let script = vec![
        Ok(Ok(noise.clone())),
        Ok(Ok(noise)),
        Ok(Ok(fc)),
        Err(TimedOut),
    ];
    let err = recv_script(&mut a, script, &mut Vec::new()).unwrap_err();
    assert!(matches!(err, IsoTpError::Timeout(TimeoutKind::NAr)));
}

#[test]
fn async_recv_rejects_bad_sequence_number() {
    let mut cfg_b = IsoTpConfig {
        tx_id: sid(0x651),
        rx_id: sid(0x650),
        ..IsoTpConfig::default()
    };
    cfg_b.wft_max = 2;
    cfg_b.max_payload_len = 64;
    let mut b = owned(cfg_b);

    let ff = encode(
        cfg_b.rx_id,
        &Pdu::FirstFrame {
            len: 10,
            data: &[1, 2, 3, 4, 5, 6],
        },
        None,
    )
    .unwrap();
    let cf_bad = encode(
        cfg_b.rx_id,
        &Pdu::ConsecutiveFrame {
            sn: 3,
            data: &[7, 8, 9, 10],
        },
        None,
    )
    .unwrap();
    let err = recv_script(&mut b, vec![Ok(Ok(ff)), Ok(Ok(cf_bad))], &mut Vec::new()).unwrap_err();
    assert!(matches!(err, IsoTpError::BadSequence));
}

fn small_cfg(max_payload_len: usize) -> IsoTpConfig {
    IsoTpConfig {
        tx_id: sid(0x700),
        rx_id: sid(0x701),
        max_payload_len,
        ..IsoTpConfig::default()
    }
}

#[test]
fn async_send_rejects_oversized_payload_early() {
    let mut rx_buf = [0u8; 1];
    let node = IsoTpAsyncNode::with_clock(small_cfg(1), StdClock, &mut rx_buf).unwrap();
    let payload = [0u8; 2];
    let sending = Sending::new(&payload, Duration::from_millis(10), 0);
    let err = sending.action(&node, 0).err().unwrap();
    assert!(matches!(err, IsoTpError::Overflow));
}

#[test]
fn async_send_times_out_immediately_when_timeout_is_zero() {
    let mut rx_buf = [0u8; 8];
    let node = IsoTpAsyncNode::with_clock(small_cfg(8), StdClock, &mut rx_buf).unwrap();
    let payload = [0u8; 1];
    let sending = Sending::new(&payload, Duration::from_millis(0), 0);
    let err = sending.action(&node, 0).err().unwrap();
    assert!(matches!(err, IsoTpError::Timeout(TimeoutKind::NAs)));
}

#[test]
fn async_node_builder_with_borrowed_buffer_constructs() {
    let mut rx_buf = [0u8; 8];
    let node = IsoTpAsyncNode::builder(small_cfg(8), TestClock { now_ms: 0 })
        .rx_buffer(&mut rx_buf)
        .build()
        .unwrap();
    // Oversized send should fail before touching runtime or RX.
    let payload = [0u8; 16];
    let sending = Sending::new(&payload, Duration::from_millis(10), 0);
    let err = sending.action(&node, 0).err().unwrap();
    assert!(matches!(err, IsoTpError::Overflow));
}

fn cfg_with_addr(max_payload_len: usize, addr: u8) -> IsoTpConfig {
    IsoTpConfig {
        rx_addr: Some(addr),
        ..small_cfg(max_payload_len)
    }
}

#[test]
fn async_recv_skips_wrong_addr_then_ignores_unexpected_pdu_then_delivers() {
    let cfg = cfg_with_addr(64, 0xAA);
    let mut rx_buf = [0u8; 64];

    let wrong_addr = encode_with_prefix(
        cfg.rx_id,
        &Pdu::SingleFrame {
            len: 1,
            data: &[0x01],
        },
        None,
        Some(0xAB),
    )
    .unwrap();
    let unexpected_cf = encode_with_prefix(
        cfg.rx_id,
        &Pdu::ConsecutiveFrame {
            sn: 1,
            data: &[0xFF],
        },
        None,
        cfg.rx_addr,
    )
    .unwrap();
    let expected_payload = [0x11, 0x22];
    let good = encode_with_prefix(
        cfg.rx_id,
        &Pdu::SingleFrame {
            len: expected_payload.len() as u8,
            data: &expected_payload,
        },
        None,
        cfg.rx_addr,
    )
    .unwrap();

    let mut node =
        IsoTpAsyncNode::with_clock(cfg, TestClock { now_ms: 0 }, &mut rx_buf).unwrap();
    let script = vec![Ok(Ok(wrong_addr)), Ok(Ok(unexpected_cf)), Ok(Ok(good))];
    let delivered = recv_script(&mut node, script, &mut Vec::new()).unwrap();
    assert_eq!(delivered, expected_payload);
}

#[test]
fn async_recv_overflow_sends_overflow_flow_control() {
    let cfg = cfg_with_addr(8, 0xCC);
    let mut rx_buf = [0u8; 64];
    let tx_pci_offset = cfg.tx_pci_offset();
    let first = encode_with_prefix(
        cfg.rx_id,
        &Pdu::FirstFrame {
            len: 20,
            data: &[0x00, 0x01, 0x02, 0x03, 0x04, 0x05],
        },
        None,
        cfg.rx_addr,
    )
    .unwrap();

    let mut node =
        IsoTpAsyncNode::with_clock(cfg, TestClock { now_ms: 0 }, &mut rx_buf).unwrap();
    let mut sent = Vec::new();
    let err = recv_script(&mut node, vec![Ok(Ok(first))], &mut sent).unwrap_err();
    assert!(matches!(err, IsoTpError::RxOverflow));

    assert_eq!(sent.len(), 1);
    let fc = decode_with_offset(&sent[0].data, tx_pci_offset).unwrap();
    assert!(matches!(
        fc,
        Pdu::FlowControl {
            status: FlowStatus::Overflow,
            ..
        }
    ));
}

#[test]
fn async_recv_maps_link_error() {
    let cfg = cfg_with_addr(8, 0x01);
    let mut rx_buf = [0u8; 64];
    let mut node =
        IsoTpAsyncNode::with_clock(cfg, TestClock { now_ms: 0 }, &mut rx_buf).unwrap();
    let err = recv_script(&mut node, vec![Ok(Err(()))], &mut Vec::new()).unwrap_err();
    assert!(matches!(err, IsoTpError::LinkError(())));
}

#[test]
fn async_send_maps_link_error_and_timeout() {
    let mut cfg = cfg_with_addr(64, 0xDD);
    cfg.wft_max = 1;
    let fc = |status: FlowStatus, addr: u8| {
        encode_with_prefix(
            cfg.rx_id,
            &Pdu::FlowControl {
                status,
                block_size: 0,
                st_min: 0,
            },
            None,
            Some(addr),
        )
        .unwrap()
    };
    let non_fc_noise = encode_with_prefix(
        cfg.rx_id,
        &Pdu::SingleFrame {
            len: 1,
            data: &[0x00],
        },
        None,
        cfg.rx_addr,
    )
    .unwrap();

    let mut rx_buf = [0u8; 64];
    let node = IsoTpAsyncNode::with_clock(cfg, TestClock { now_ms: 0 }, &mut rx_buf).unwrap();
    let mut wire = Wire::new();
    wire.to_a.push_back(fc(FlowStatus::ClearToSend, 0xDE));
    wire.to_a.push_back(non_fc_noise);
    wire.to_a.push_back(fc(FlowStatus::Wait, 0xDD));
    wire.to_a.push_back(fc(FlowStatus::ClearToSend, 0xDD));
    wire.run(&node, None, &[0u8; 8], Duration::from_millis(10))
        .unwrap();
    assert_eq!(wire.log.len(), 2);

    let cfg = cfg_with_addr(8, 0x01);
    let mut rx_buf = [0u8; 8];
    let node = IsoTpAsyncNode::with_clock(cfg, TestClock { now_ms: 0 }, &mut rx_buf).unwrap();
    let sending = Sending::new(&[0x55], Duration::from_millis(10), 0);
    let plan = match sending.action(&node, 0).unwrap() {
        AsyncAction::Transmit(plan, within) => {
            assert_eq!(within, Duration::from_millis(10));
            plan
        }
        _ => panic!("expected a frame to transmit"),
    };
    let err = AsyncSend::on_sent(&plan, Ok(Err(()))).unwrap_err();
    assert!(matches!(err, IsoTpError::LinkError(())));
    let err = AsyncSend::on_sent::<()>(&plan, Err(TimedOut)).unwrap_err();
    assert!(matches!(err, IsoTpError::Timeout(TimeoutKind::NAs)));
}

#[test]
fn frames_restart_the_clock_readings_they_affect() {
    let session = TxSession::new(20, 2, Duration::from_millis(0));
    let (waiting, ready) = (AsyncSend::Waiting(session), AsyncSend::Ready(session));
    assert_eq!(AsyncSend::Opening.restarts(&waiting), (false, true));
    assert_eq!(AsyncSend::Opening.restarts(&AsyncSend::Done), (false, false));
    assert_eq!(ready.restarts(&ready), (true, false));
    assert_eq!(ready.restarts(&waiting), (true, true));
    assert_eq!(AsyncSend::Rested(session).restarts(&AsyncSend::Done), (true, false));
}

#[test]
fn too_many_waits_are_a_flow_control_timeout() {
    let mut cfg = small_cfg(64);
    cfg.wft_max = 1;
    let node = owned(cfg);
    let wait = encode(
        cfg.rx_id,
        &Pdu::FlowControl {
            status: FlowStatus::Wait,
            block_size: 0,
            st_min: 0,
        },
        None,
    )
    .unwrap();
    let mut wire = Wire::new();
    wire.to_a.push_back(wait.clone());
    wire.to_a.push_back(wait);
    let err = wire
        .run(&node, None, &[0u8; 20], Duration::from_millis(500))
        .unwrap_err();
    assert!(matches!(err, IsoTpError::Timeout(TimeoutKind::NBs)));
}

#[test]
fn an_overflow_ends_the_transfer() {
    let cfg = small_cfg(64);
    let node = owned(cfg);
    let refusal = encode(
        cfg.rx_id,
        &Pdu::FlowControl {
            status: FlowStatus::Overflow,
            block_size: 0,
            st_min: 0,
        },
        None,
    )
    .unwrap();
    let mut wire = Wire::new();
    wire.to_a.push_back(refusal);
    let err = wire
        .run(&node, None, &[0u8; 20], Duration::from_millis(500))
        .unwrap_err();
    assert!(matches!(err, IsoTpError::Overflow));
}
