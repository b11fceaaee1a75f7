use can_iso_tp::bus::{on_client_msg, server_msg_bytes, Bus, BusCommand, Outgoing, ReaderStep};
use can_iso_tp::bus_client::{
    io_failure, remaining_ms, BusClient, DecodedMsg, IoFailure, UnixCanError,
};
use can_iso_tp::id::{ExtendedId, Id, IdMask, IdMaskFilter, StandardId};
use can_iso_tp::time::Duration;
use can_iso_tp::unix_frame::UnixFrame;
use can_iso_tp::wire;

fn sid(raw: u16) -> Id {
    Id::Standard(StandardId::new(raw).unwrap())
}

fn xid(raw: u32) -> Id {
    Id::Extended(ExtendedId::new(raw).unwrap())
}

/// A bus with its clients, connected by byte streams.
struct Net {
    bus: Bus,
    clients: Vec<BusClient>,
}

impl Net {
    fn new(clients: u64) -> Self {
        let mut net = Net {
            bus: Bus::new(),
            clients: Vec::new(),
        };
        for id in 0..clients {
            net.clients.push(BusClient::new());
            net.command(BusCommand::AddClient { id });
            let hello = net.clients[id as usize].next_decoded_msg().unwrap().unwrap();
            assert!(net.clients[id as usize].on_hello(hello));
        }
        net
    }

    fn command(&mut self, cmd: BusCommand) {
        let outgoing: Vec<Outgoing> = self.bus.handle_command(cmd);
        for out in outgoing {
            let bytes = server_msg_bytes(&out.msg).unwrap();
            // Streams may be cut anywhere.
            let (head, tail) = bytes.split_at(bytes.len() / 2);
            self.clients[out.to as usize].push_bytes(head);
            self.clients[out.to as usize].push_bytes(tail);
        }
    }

    /// Hand a client's bytes to the bus.
    fn deliver(&mut self, id: u64, bytes: &[u8]) {
        let mut payload = Vec::new();
        let msg_type = wire::read_msg_into(bytes, &mut payload).unwrap().unwrap();
        match on_client_msg(id, msg_type, &payload) {
            ReaderStep::Command(cmd) => self.command(cmd),
            ReaderStep::Disconnect => panic!("unexpected disconnect"),
            ReaderStep::Ignore => {}
        }
    }

    fn send(&mut self, id: u64, frame: &UnixFrame) -> Result<(), UnixCanError> {
        let (seq, bytes) = self.clients[id as usize].send_frame(frame, true);
        self.deliver(id, &bytes.unwrap());
        while let Some(msg) = self.clients[id as usize].next_decoded_msg()? {
            if let Some(outcome) = self.clients[id as usize].on_ack(seq, msg) {
                return outcome;
            }
        }
        panic!("no acknowledgement");
    }

    fn set_filters(&mut self, id: u64, filters: &[IdMaskFilter]) -> Result<(), UnixCanError> {
        let (seq, bytes) = self.clients[id as usize].set_filters(filters);
        self.deliver(id, &bytes.unwrap());
        while let Some(msg) = self.clients[id as usize].next_decoded_msg()? {
            if let Some(outcome) = self.clients[id as usize].on_filters_ack(seq, msg) {
                return outcome;
            }
        }
        panic!("no acknowledgement");
    }

    fn try_recv(&mut self, id: u64) -> Result<UnixFrame, UnixCanError> {
        if let Some(frame) = self.clients[id as usize].pop_frame() {
            return Ok(frame);
        }
        match self.clients[id as usize].next_frame()? {
            Some(frame) => Ok(frame),
            None => Err(UnixCanError::WouldBlock),
        }
    }

    fn recv_timeout(&mut self, id: u64, left: Option<Duration>) -> Result<UnixFrame, UnixCanError> {
        match self.try_recv(id) {
            Err(UnixCanError::WouldBlock) => {
                // Nothing else will arrive: wait until no time is left.
                assert!(remaining_ms(left)? > 0);
                match remaining_ms(Some(Duration::from_millis(0))) {
                    Err(err) => Err(err),
                    Ok(_) => panic!("no time is left"),
                }
            }
            other => other,
        }
    }
}

#[test]
fn broadcasts_to_all_clients() {
    let mut net = Net::new(2);
    let frame = UnixFrame::new(sid(0x100), &[1, 2]).unwrap();
    net.send(0, &frame).unwrap();

    let recv_b = net.try_recv(1).unwrap();
    assert_eq!(recv_b, frame);

    let recv_a = net.try_recv(0).unwrap();
    assert_eq!(recv_a, frame);
}

#[test]
fn filters_drop_non_matching_frames() {
    let mut net = Net::new(2);
    let filter = IdMaskFilter {
        id: sid(0x123),
        mask: IdMask::Standard(0x7FF),
    };
    net.set_filters(1, &[filter]).unwrap();

    let other = UnixFrame::new(sid(0x124), &[9]).unwrap();
    net.send(0, &other).unwrap();

    let err = net
        .recv_timeout(1, Some(Duration::from_millis(20)))
        .unwrap_err();
    assert!(matches!(err, UnixCanError::Timeout));

    let match_frame = UnixFrame::new(sid(0x123), &[7]).unwrap();
    net.send(0, &match_frame).unwrap();

    let recv = net.try_recv(1).unwrap();
    assert_eq!(recv, match_frame);
}

#[test]
fn send_requires_ack_from_another_client() {
    let mut net = Net::new(1);
    let frame = UnixFrame::new(sid(0x200), &[1]).unwrap();
    let err = net.send(0, &frame).unwrap_err();
    assert!(matches!(err, UnixCanError::NoAck));
}

#[test]
fn ack_ignores_filters() {
    let mut net = Net::new(2);
    let filter = IdMaskFilter {
        id: sid(0x7FF),
        mask: IdMask::Standard(0x7FF),
    };
    net.set_filters(1, &[filter]).unwrap();

    let frame = UnixFrame::new(sid(0x100), &[3]).unwrap();
    net.send(0, &frame).unwrap();

    let err = net
        .recv_timeout(1, Some(Duration::from_millis(20)))
        .unwrap_err();
    assert!(matches!(err, UnixCanError::Timeout));
}

#[test]
fn delivers_remote_frame() {
    let mut net = Net::new(2);
    let frame = UnixFrame::new_remote(sid(0x123), 1).unwrap();
    net.send(0, &frame).unwrap();

    let got = net.try_recv(1).unwrap();
    assert!(got.is_remote());
    assert_eq!(got.id(), frame.id());
    assert_eq!(got.dlc(), frame.dlc());
}

#[test]
fn try_recv_and_timeout_behaviors() {
    let mut net = Net::new(2);

    let err = net.try_recv(1).unwrap_err();
    assert!(matches!(err, UnixCanError::WouldBlock));

    let err = net
        .recv_timeout(1, Some(Duration::from_millis(10)))
        .unwrap_err();
    assert!(matches!(err, UnixCanError::Timeout));

    let frame = UnixFrame::new(sid(0x55), &[5]).unwrap();
    let (_, bytes) = net.clients[0].send_frame(&frame, false);
    net.deliver(0, &bytes.unwrap());

    let recv = net.try_recv(1).unwrap();
    assert_eq!(recv, frame);
}

#[test]
fn removed_clients_receive_nothing() {
    let mut net = Net::new(3);
    net.command(BusCommand::RemoveClient { id: 2 });
    let frame = UnixFrame::new(sid(0x55), &[5]).unwrap();
    net.send(0, &frame).unwrap();
    assert!(matches!(net.try_recv(2), Err(UnixCanError::WouldBlock)));
    assert_eq!(net.try_recv(1).unwrap(), frame);
}

#[test]
fn wire_messages_are_laid_out_byte_by_byte() {
    assert_eq!(
        wire::write_msg(wire::MSG_ACK, &[9, 8]).unwrap(),
        vec![3, 2, 0, 0, 0, 9, 8]
    );
    let mut ack = [0u8; 9];
    wire::encode_ack_into(&mut ack, 0x0102, wire::ACK_NO_ACK);
    assert_eq!(ack, [2, 1, 0, 0, 0, 0, 0, 0, 1]);
    assert_eq!(wire::decode_ack(&ack), Ok((0x0102, wire::ACK_NO_ACK)));
    assert!(wire::decode_ack(&ack[..8]).is_err());
}

#[test]
fn incomplete_messages_are_not_read() {
    let bytes = wire::write_msg(wire::MSG_HELLO, &[1, 2, 3]).unwrap();
    let mut payload = Vec::new();
    for cut in 0..bytes.len() {
        assert_eq!(wire::read_msg_into(&bytes[..cut], &mut payload), Ok(None));
    }
    assert_eq!(
        wire::read_msg_into(&bytes, &mut payload),
        Ok(Some(wire::MSG_HELLO))
    );
    assert_eq!(payload, vec![1, 2, 3]);
    assert!(wire::read_msg_into(&[1, 0xFF, 0xFF, 0, 0], &mut payload).is_err());
}

#[test]
fn frames_survive_the_wire() {
    for frame in [
        UnixFrame::new(sid(0x7FF), &[]).unwrap(),
        UnixFrame::new(xid(0x1FFF_FFFF), &[0xAB; 64]).unwrap(),
        UnixFrame::new_remote(xid(5), 8).unwrap(),
    ] {
        let mut buf = [0u8; 70];
        let len = wire::encode_frame_into(&mut buf, &frame);
        assert_eq!(wire::decode_frame(&buf[..len]), Ok(frame));

        let mut buf = [0u8; 78];
        let len = wire::encode_send_frame_into(&mut buf, 7, true, &frame);
        let send = wire::decode_send_frame(&buf[..len]).unwrap();
        assert_eq!((send.seq, send.expect_ack), (7, true));
        assert_eq!(send.frame, frame);
        assert!(wire::decode_send_frame(&buf[..13]).is_err());
    }
    assert!(UnixFrame::new(sid(1), &[0; 65]).is_none());
    assert!(UnixFrame::new_remote(sid(1), 65).is_none());
}

#[test]
fn filters_survive_the_wire() {
    let filters = vec![
        IdMaskFilter {
            id: sid(0x123),
            mask: IdMask::Standard(0x7F0),
        },
        IdMaskFilter {
            id: xid(0x18DA_1000),
            mask: IdMask::Extended(0x1FFF_FF00),
        },
    ];
    let bytes = wire::encode_filters(42, &filters);
    assert_eq!(wire::decode_filters(&bytes), Ok((42, filters)));
    assert!(wire::decode_filters(&bytes[..bytes.len() - 1]).is_err());
}

#[test]
fn malformed_requests_end_the_connection() {
    assert!(matches!(
        on_client_msg(1, wire::MSG_SEND_FRAME, &[0; 3]),
        ReaderStep::Disconnect
    ));
    assert!(matches!(
        on_client_msg(1, wire::MSG_SET_FILTERS, &[0; 3]),
        ReaderStep::Command(BusCommand::SetFilters { id: 1, seq: 0, .. })
    ));
    assert!(matches!(
        on_client_msg(1, 77, &[]),
        ReaderStep::Ignore
    ));
}

#[test]
fn acknowledgement_codes_are_reported() {
    let mut client = BusClient::new();
    assert!(client
        .on_ack(1, DecodedMsg::Ack { seq: 2, status: 0 })
        .is_none());
    assert!(matches!(
        client.on_ack(1, DecodedMsg::Ack { seq: 1, status: 0 }),
        Some(Ok(()))
    ));
    assert!(matches!(
        client.on_ack(1, DecodedMsg::Ack { seq: 1, status: 2 }),
        Some(Err(UnixCanError::Protocol("bad frame")))
    ));
    assert!(matches!(
        client.on_ack(1, DecodedMsg::Ack { seq: 1, status: 3 }),
        Some(Err(UnixCanError::Protocol("server error")))
    ));
    assert!(matches!(
        client.on_ack(1, DecodedMsg::Ack { seq: 1, status: 9 }),
        Some(Err(UnixCanError::Protocol("unknown ack status")))
    ));
}

#[test]
fn waiting_times_are_whole_milliseconds() {
    assert!(matches!(remaining_ms(None), Ok(-1)));
    assert!(matches!(
        remaining_ms(Some(Duration::from_micros(2500))),
        Ok(2)
    ));
    assert!(matches!(
        remaining_ms(Some(Duration::from_secs(10_000_000))),
        Ok(i32::MAX)
    ));
}

#[test]
fn socket_failures_are_sorted() {
    let err = || std::io::Error::from(std::io::ErrorKind::BrokenPipe);
    assert!(matches!(
        io_failure(IoFailure::WouldBlock, err()),
        UnixCanError::WouldBlock
    ));
    assert!(matches!(
        io_failure(IoFailure::TimedOut, err()),
        UnixCanError::Timeout
    ));
    match io_failure(IoFailure::Other, err()) {
        UnixCanError::Io(e) => assert_eq!(e.kind(), std::io::ErrorKind::BrokenPipe),
        other => panic!("unexpected {other:?}"),
    }
}
