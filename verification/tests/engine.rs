use pretty_ping::addr::IpAddress;
use pretty_ping::engine::{wait_reply, wait_step, RecvEvent, RecvOutcome, WaitStep};
use pretty_ping::error::PingError;
use pretty_ping::packet::v4::{IPv4EchoEncoder, ICMP_ECHO_REPLY};
use pretty_ping::packet::{EchoEncoder, EchoPacket};

fn v4_addr() -> IpAddress {
    IpAddress::V4(0xc0000201)
}

/// An IPv4 datagram carrying the echo reply the remote host would send for
/// (`ident`, `seq`): the encoded request, retyped, behind a minimal header.
fn reply_wire(ident: u16, seq: u16, size: usize) -> Vec<u8> {
    let p = EchoPacket { to_addr: v4_addr(), ident, seq, size };
    let mut icmp = IPv4EchoEncoder::encode(p).unwrap();
    icmp[0] = ICMP_ECHO_REPLY;
    let mut wire = vec![0u8; 20];
    wire[0] = 0x45;
    wire[8] = 64;
    wire.extend_from_slice(&icmp);
    wire
}

fn data_event(wire: Vec<u8>, elapsed_us: u64) -> RecvEvent {
    RecvEvent { outcome: RecvOutcome::Data(wire), elapsed_us }
}

#[test]
fn accepts_match_after_ignored_reply() {
    // identifier 0x1234, sequence 7: first a stale reply for sequence 6,
    // then the awaited one
    let events = vec![
        data_event(reply_wire(0x1234, 6, 56), 10_000),
        data_event(reply_wire(0x1234, 7, 56), 20_000),
    ];
    let (reply, spent) = wait_reply(v4_addr(), 0x1234, 7, 1_000_000, &events).unwrap();
    assert_eq!(reply.ident, 0x1234);
    assert_eq!(reply.seq, 7);
    assert_eq!(reply.ttl, Some(64));
    // the wait spans both receive attempts
    assert_eq!(spent, 30_000);
}

#[test]
fn ignores_wrong_identifier() {
    let events = vec![
        data_event(reply_wire(0xdead, 7, 56), 1_000),
        data_event(reply_wire(0x1234, 7, 56), 1_000),
    ];
    let (reply, _) = wait_reply(v4_addr(), 0x1234, 7, 1_000_000, &events).unwrap();
    assert_eq!(reply.ident, 0x1234);
}

#[test]
fn ignores_non_echo_reply_traffic() {
    // an unrelated destination-unreachable message on the shared socket
    let mut unreachable = vec![0u8; 20];
    unreachable[0] = 0x45;
    unreachable.extend_from_slice(&[3, 1, 0, 0, 0, 0, 0, 0]);
    let events = vec![
        data_event(unreachable, 5_000),
        data_event(reply_wire(0x1234, 7, 56), 5_000),
    ];
    let (reply, _) = wait_reply(v4_addr(), 0x1234, 7, 1_000_000, &events).unwrap();
    assert_eq!(reply.seq, 7);
}

#[test]
fn times_out_when_nothing_arrives() {
    // timeout 100 ms; the one receive attempt sleeps the deadline away
    let events = vec![RecvEvent { outcome: RecvOutcome::DeadlinePassed, elapsed_us: 100_000 }];
    let r = wait_reply(v4_addr(), 0x1234, 7, 100_000, &events);
    assert_eq!(r.unwrap_err(), PingError::Timeout(7));
}

#[test]
fn times_out_on_exhausted_events() {
    let r = wait_reply(v4_addr(), 0x1234, 7, 100_000, &Vec::new());
    assert_eq!(r.unwrap_err(), PingError::Timeout(7));
}

#[test]
fn zero_budget_times_out_at_once() {
    let events = vec![data_event(reply_wire(0x1234, 7, 56), 0)];
    let r = wait_reply(v4_addr(), 0x1234, 7, 0, &events);
    assert_eq!(r.unwrap_err(), PingError::Timeout(7));
}

#[test]
fn budget_spans_all_attempts() {
    // 100 ms in total; three ignorable replies eat 40 ms each, so the
    // budget dies during the third and a late match must not be accepted
    let events = vec![
        data_event(reply_wire(0x1234, 5, 56), 40_000),
        data_event(reply_wire(0x1234, 6, 56), 40_000),
        data_event(reply_wire(0xdead, 7, 56), 40_000),
        data_event(reply_wire(0x1234, 7, 56), 1_000),
    ];
    let r = wait_reply(v4_addr(), 0x1234, 7, 100_000, &events);
    assert_eq!(r.unwrap_err(), PingError::Timeout(7));
}

#[test]
fn match_arriving_as_budget_dies_is_a_timeout() {
    // the awaited reply arrives, but only once the budget is fully spent
    let events = vec![data_event(reply_wire(0x1234, 7, 56), 100_000)];
    let r = wait_reply(v4_addr(), 0x1234, 7, 100_000, &events);
    assert_eq!(r.unwrap_err(), PingError::Timeout(7));
}

#[test]
fn transport_failure_surfaces() {
    let events = vec![RecvEvent { outcome: RecvOutcome::TransportFailed, elapsed_us: 10 }];
    let r = wait_reply(v4_addr(), 0x1234, 7, 100_000, &events);
    assert_eq!(r.unwrap_err(), PingError::IOError);
}

#[test]
fn step_decisions() {
    let deadline = RecvEvent { outcome: RecvOutcome::DeadlinePassed, elapsed_us: 50 };
    assert!(matches!(
        wait_step(v4_addr(), 1, 2, 1_000, &deadline),
        WaitStep::Failed(PingError::Timeout(2))
    ));

    let failed = RecvEvent { outcome: RecvOutcome::TransportFailed, elapsed_us: 50 };
    assert!(matches!(
        wait_step(v4_addr(), 1, 2, 1_000, &failed),
        WaitStep::Failed(PingError::IOError)
    ));

    let stale = data_event(reply_wire(1, 1, 8), 100);
    match wait_step(v4_addr(), 1, 2, 1_000, &stale) {
        WaitStep::KeepWaiting(rem) => assert_eq!(rem, 900),
        other => panic!("expected to keep waiting, got {:?}", other),
    }

    let ours = data_event(reply_wire(1, 2, 8), 100);
    match wait_step(v4_addr(), 1, 2, 1_000, &ours) {
        WaitStep::Matched(reply) => assert_eq!((reply.ident, reply.seq), (1, 2)),
        other => panic!("expected a match, got {:?}", other),
    }
}
