use can_iso_tp::interface::{
    IsoTpEndpoint, RecvControl, RecvError, RecvMeta, RecvMetaIntoStatus, RecvStatus, SendError,
};
use can_iso_tp::queue::{
    check_payload, clamped_micros, map_tx_response, map_tx_result, on_recv_one, on_recv_one_into,
    queue_depth, reports_backpressure, tx_response, Actor, ActorConfig, ActorHooks, ActorStep,
    IsoTpRxEvent, IsoTpTxRequest, IsoTpTxResponse, NoopHooks, QueueIsoTpError, QueuedRxEvent,
    ReceiveStep,
};
use can_iso_tp::ready_queue::ReadyQueue;
use can_iso_tp::time::Duration;
use std::collections::VecDeque;

#[derive(Debug, Clone, PartialEq, Eq)]
enum FakeError {
    Backend(u8),
}

#[derive(Debug)]
enum RecvAction {
    TimedOut,
    Delivered { reply_to: u8, payload: Vec<u8> },
    Backend(FakeError),
}

/// A queue pair with an actor that is stepped by hand.
struct Rig {
    max_payload: usize,
    actor: Actor,
    cfg: ActorConfig,
    send_results: VecDeque<Result<(), SendError<FakeError>>>,
    recv_actions: VecDeque<RecvAction>,
    requests: VecDeque<Vec<u8>>,
    answers: VecDeque<Result<(), SendError<QueueIsoTpError<FakeError>>>>,
    events: VecDeque<QueuedRxEvent<FakeError>>,
    sent: usize,
}

impl Rig {
    fn new(
        max_payload: usize,
        cfg: ActorConfig,
        send_results: Vec<Result<(), SendError<FakeError>>>,
        recv_actions: Vec<RecvAction>,
    ) -> Self {
        Rig {
            max_payload,
            actor: Actor::new(cfg),
            cfg,
            send_results: send_results.into(),
            recv_actions: recv_actions.into(),
            requests: VecDeque::new(),
            answers: VecDeque::new(),
            events: VecDeque::new(),
            sent: 0,
        }
    }

    fn step(&mut self) {
        match self.actor.step() {
            ActorStep::TakeRequest => match self.requests.pop_front() {
                Some(_) => {
                    self.actor.on_request();
                    self.sent += 1;
                    let result = self.send_results.pop_front().unwrap_or(Ok(()));
                    self.answers.push_back(map_tx_result(result));
                }
                None => self.actor.on_no_request(),
            },
            ActorStep::Receive(_) => {
                let mut delivered = None;
                let received = match self.recv_actions.pop_front().unwrap_or(RecvAction::TimedOut) {
                    RecvAction::TimedOut => Ok(RecvStatus::TimedOut),
                    RecvAction::Delivered { reply_to, payload } => {
                        delivered = Some((reply_to, payload));
                        Ok(RecvStatus::DeliveredOne)
                    }
                    RecvAction::Backend(e) => Err(RecvError::Backend(e)),
                };
                let from = delivered.as_ref().map(|(from, _)| *from);
                match on_recv_one(&self.cfg, received, from) {
                    ReceiveStep::Deliver { from } => {
                        let payload = delivered.unwrap().1;
                        self.events
                            .push_back(QueuedRxEvent::Delivered { from, payload });
                    }
                    ReceiveStep::Backend(e) => self.events.push_back(QueuedRxEvent::Backend(e)),
                    ReceiveStep::BufferTooSmall { needed, got } => self
                        .events
                        .push_back(QueuedRxEvent::BufferTooSmall { needed, got }),
                    ReceiveStep::Yield | ReceiveStep::Skip | ReceiveStep::Filtered { .. } => {}
                }
                self.actor.on_received();
            }
        }
    }

    fn send_to(&mut self, payload: &[u8]) -> Result<(), SendError<QueueIsoTpError<FakeError>>> {
        check_payload(payload.len(), self.max_payload)?;
        self.requests.push_back(payload.to_vec());
        for _ in 0..100 {
            if let Some(answer) = self.answers.pop_front() {
                return answer;
            }
            self.step();
        }
        panic!("no answer");
    }

    fn recv_one_into(
        &mut self,
        out: &mut [u8],
    ) -> Result<RecvMetaIntoStatus, RecvError<QueueIsoTpError<FakeError>>> {
        for _ in 0..100 {
            if let Some(event) = self.events.pop_front() {
                return event.recv_into(out);
            }
            self.step();
        }
        Ok(RecvMetaIntoStatus::TimedOut)
    }
}

#[test]
fn send_maps_success() {
    let mut rig = Rig::new(64, ActorConfig::default(), vec![Ok(())], vec![]);
    let res = rig.send_to(&[1, 2, 3]);
    assert!(res.is_ok());
}

#[test]
fn send_maps_timeout() {
    let results = vec![Err(SendError::Timeout)];
    let mut rig = Rig::new(64, ActorConfig::default(), results, vec![]);
    let res = rig.send_to(&[1, 2, 3]);
    assert!(matches!(res, Err(SendError::Timeout)));
}

#[test]
fn send_maps_backend_error() {
    let results = vec![Err(SendError::Backend(FakeError::Backend(7)))];
    let mut rig = Rig::new(64, ActorConfig::default(), results, vec![]);
    let res = rig.send_to(&[1, 2, 3]);
    assert!(matches!(
        res,
        Err(SendError::Backend(QueueIsoTpError::Transport(
            FakeError::Backend(7)
        )))
    ));
}

#[test]
fn send_rejects_payload_too_large() {
    let mut rig = Rig::new(2, ActorConfig::default(), vec![], vec![]);
    let res = rig.send_to(&[1, 2, 3]);
    assert!(matches!(
        res,
        Err(SendError::Backend(QueueIsoTpError::PayloadTooLarge {
            needed: 3,
            capacity: 2
        }))
    ));
}

fn one_payload() -> Vec<RecvAction> {
    vec![RecvAction::Delivered {
        reply_to: 0x11,
        payload: vec![0xAA, 0xBB, 0xCC],
    }]
}

#[test]
fn recv_into_delivers_with_fixed_reply_to_override() {
    let cfg = ActorConfig::default().with_fixed_reply_to(Some(0x77));
    let mut rig = Rig::new(64, cfg, vec![], one_payload());
    let mut out = [0u8; 16];
    let recv = rig.recv_one_into(&mut out);
    match recv {
        Ok(RecvMetaIntoStatus::DeliveredOne { meta, len }) => {
            assert_eq!(meta.reply_to, 0x77);
            assert_eq!(len, 3);
            assert_eq!(&out[..3], &[0xAA, 0xBB, 0xCC]);
        }
        _ => panic!("unexpected recv result: {recv:?}"),
    }
}

#[test]
fn recv_drops_disallowed_source() {
    let cfg = ActorConfig::default().with_allowed_reply_from(Some(0x77));
    let mut rig = Rig::new(64, cfg, vec![], one_payload());
    let mut out = [0u8; 16];
    let recv = rig.recv_one_into(&mut out);
    assert!(matches!(recv, Ok(RecvMetaIntoStatus::TimedOut)));
}

#[test]
fn recv_into_returns_buffer_too_small() {
    let mut rig = Rig::new(64, ActorConfig::default(), vec![], one_payload());
    let mut out = [0u8; 2];
    let recv = rig.recv_one_into(&mut out);
    assert!(matches!(
        recv,
        Err(RecvError::BufferTooSmall { needed: 3, got: 2 })
    ));
}

#[test]
fn recv_maps_backend_error() {
    let actions = vec![RecvAction::Backend(FakeError::Backend(9))];
    let mut rig = Rig::new(64, ActorConfig::default(), vec![], actions);
    let mut out = [0u8; 8];
    let recv = rig.recv_one_into(&mut out);
    assert!(matches!(
        recv,
        Err(RecvError::Backend(QueueIsoTpError::Transport(
            FakeError::Backend(9)
        )))
    ));
}

#[test]
fn fairness_delivers_rx_with_tx_backlog() {
    let actions = vec![RecvAction::Delivered {
        reply_to: 0x44,
        payload: vec![0xFE],
    }];
    let cfg = ActorConfig::new(Duration::from_millis(1), 1, None);
    let mut rig = Rig::new(64, cfg, vec![], actions);
    for _ in 0..16 {
        rig.requests.push_back(vec![1, 2, 3]);
    }
    let mut out = [0u8; 8];
    let recv = rig.recv_one_into(&mut out);
    match recv {
        Ok(RecvMetaIntoStatus::DeliveredOne { meta, len }) => {
            assert_eq!(meta.reply_to, 0x44);
            assert_eq!(len, 1);
            assert_eq!(out[0], 0xFE);
        }
        _ => panic!("unexpected recv result: {recv:?}"),
    }
    // One request per round went out before the payload came in.
    assert_eq!(rig.sent, 1);
}

#[test]
fn a_round_sends_at_least_one_request() {
    let cfg = ActorConfig::new(Duration::from_millis(1), 0, None);
    assert_eq!(cfg.normalized_tx_burst_limit(), 1);
    assert_eq!(ActorConfig::default().normalized_tx_burst_limit(), 8);
    let mut actor = Actor::new(cfg);
    assert_eq!(actor.step(), ActorStep::TakeRequest);
    actor.on_request();
    assert_eq!(actor.step(), ActorStep::Receive(Duration::from_millis(1)));
    actor.on_received();
    assert_eq!(actor.step(), ActorStep::TakeRequest);
    actor.on_no_request();
    assert_eq!(actor.step(), ActorStep::Receive(Duration::from_millis(1)));
}

#[test]
fn answers_carry_results() {
    let timeout = tx_response::<u8>(Err(SendError::Timeout)).unwrap();
    assert!(matches!(map_tx_response(timeout), Err(SendError::Timeout)));
    let ok = tx_response::<u8>(Ok(())).unwrap();
    assert!(matches!(ok, IsoTpTxResponse::Sent));
    assert!(map_tx_response(ok).is_ok());
    let failed = tx_response(map_tx_result(Err(SendError::Backend(3u8)))).unwrap();
    assert!(matches!(
        map_tx_response(failed),
        Err(SendError::Backend(QueueIsoTpError::Transport(3)))
    ));
    assert!(tx_response::<u8>(Err(SendError::Backend(QueueIsoTpError::ChannelClosed))).is_none());
}

#[test]
fn requests_and_events_carry_payloads() {
    let req = IsoTpTxRequest::<8>::new::<()>(
        0x22,
        true,
        &[1, 2, 3],
        Duration::from_millis(20),
        [0u8; 8],
    )
    .unwrap();
    assert_eq!((req.to, req.is_functional, req.len), (0x22, true, 3));
    assert_eq!(req.data(), &[1, 2, 3]);
    assert!(matches!(
        IsoTpTxRequest::<2>::new::<()>(1, false, &[1, 2, 3], Duration::from_millis(1), [0u8; 2]),
        Err(SendError::Backend(QueueIsoTpError::PayloadTooLarge {
            needed: 3,
            capacity: 2
        }))
    ));

    let event = IsoTpRxEvent::<u8, 4>::delivered(9, &[5, 6], [0u8; 4]);
    let mut out = [0u8; 3];
    assert_eq!(
        event.recv_into(&mut out).unwrap(),
        RecvMetaIntoStatus::DeliveredOne {
            meta: RecvMeta { reply_to: 9 },
            len: 2
        }
    );
    assert_eq!(out, [5, 6, 0]);
    assert!(matches!(
        IsoTpRxEvent::<u8, 4>::Backend(3).recv_into(&mut out),
        Err(RecvError::Backend(QueueIsoTpError::Transport(3)))
    ));
    assert!(matches!(
        IsoTpRxEvent::<u8, 4>::BufferTooSmall { needed: 9, got: 4 }.recv_into(&mut out),
        Err(RecvError::BufferTooSmall { needed: 9, got: 4 })
    ));
}

#[test]
fn receives_into_the_buffer_are_sorted() {
    let cfg = ActorConfig::default().with_allowed_reply_from(Some(7));
    let from = |reply_to: u8| {
        Ok(RecvMetaIntoStatus::DeliveredOne {
            meta: RecvMeta { reply_to },
            len: 1,
        })
    };
    assert!(matches!(
        on_recv_one_into::<u8>(&cfg, from(7)),
        ReceiveStep::Deliver { from: 7 }
    ));
    assert!(matches!(
        on_recv_one_into::<u8>(&cfg, from(8)),
        ReceiveStep::Filtered {
            expected: 7,
            got: 8
        }
    ));
    assert!(matches!(
        on_recv_one_into::<u8>(&cfg, Ok(RecvMetaIntoStatus::TimedOut)),
        ReceiveStep::Yield
    ));
    assert!(matches!(
        on_recv_one::<u8>(&cfg, Ok(RecvStatus::DeliveredOne), None),
        ReceiveStep::Skip
    ));
}

#[test]
fn small_numbers_of_the_queues() {
    assert_eq!(queue_depth(0), 1);
    assert_eq!(queue_depth(5), 5);
    assert!(!reports_backpressure(Duration::from_micros(999)));
    assert!(reports_backpressure(Duration::from_millis(1)));
    assert_eq!(clamped_micros(Duration::from_nanos(1999)), 1);
    assert_eq!(clamped_micros(Duration::from_secs(u64::MAX)), u64::MAX);
    let hooks = NoopHooks;
    ActorHooks::<u8>::on_actor_started(&hooks);
}

#[test]
fn ready_queue_is_first_in_first_out() {
    let mut queue = ReadyQueue::<u8, 2>::new();
    assert!(queue.is_empty());
    assert!(queue.push(1).is_ok());
    assert!(queue.push(2).is_ok());
    assert!(queue.push(3).is_err());
    assert_eq!(queue.pop(), Some(1));
    assert!(queue.push(3).is_ok());
    assert_eq!(queue.pop(), Some(2));
    assert_eq!(queue.pop(), Some(3));
    assert_eq!(queue.pop(), None);
}

#[derive(Default)]
struct Dummy {
    sent_to: Vec<u8>,
    sent_payloads: Vec<Vec<u8>>,
    inbox: Vec<(u8, Vec<u8>)>,
}

impl IsoTpEndpoint for Dummy {
    type Error = ();

    fn send_to(
        &mut self,
        to: u8,
        payload: &[u8],
        _timeout: Duration,
    ) -> Result<(), SendError<Self::Error>> {
        self.sent_to.push(to);
        self.sent_payloads.push(payload.to_vec());
        Ok(())
    }

    fn recv_one<Cb>(
        &mut self,
        _timeout: Duration,
        mut on_payload: Cb,
    ) -> Result<RecvStatus, RecvError<Self::Error>>
    where
        Cb: FnMut(RecvMeta, &[u8]) -> Result<RecvControl, Self::Error>,
    {
        if let Some((reply_to, data)) = self.inbox.pop() {
            let _ = on_payload(RecvMeta { reply_to }, &data).map_err(RecvError::Backend)?;
            return Ok(RecvStatus::DeliveredOne);
        }
        Ok(RecvStatus::TimedOut)
    }
}

#[test]
fn sync_trait_is_addressed() {
    let mut d = Dummy::default();
    IsoTpEndpoint::send_to(&mut d, 0x33, b"abc", Duration::from_millis(1)).unwrap();
    assert_eq!(d.sent_to, vec![0x33]);
    assert_eq!(d.sent_payloads, vec![b"abc".to_vec()]);
}
