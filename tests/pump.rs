use bytes::Bytes;
use net::frame::encode_frame;
use net::pump::{Pump, PumpEvent, PumpExit, PumpStep};

/// Writes whatever the pump has in flight, at most `chunk` bytes per write,
/// taking frames from `queue` whenever the pump is idle.
fn drain_outbound(pump: &mut Pump, queue: Vec<Bytes>, chunk: usize) -> Vec<u8> {
    let mut wire = Vec::new();
    let mut queue = queue.into_iter();
    loop {
        if pump.wants_outbound() {
            match queue.next() {
                Some(f) => {
                    assert!(matches!(pump.step(PumpEvent::Outbound(Some(f))), PumpStep::Continue));
                }
                None => return wire,
            }
        }
        if let Some(out) = pump.outgoing() {
            let n = out.len().min(chunk);
            wire.extend_from_slice(&out[..n]);
            assert!(matches!(pump.step(PumpEvent::Written(n)), PumpStep::Continue));
        }
    }
}

#[test]
fn frames_reach_the_peer_in_enqueue_order() {
    let a = encode_frame(1, &[0xA1, 0xA2]);
    let b = encode_frame(2, &[]);
    let c = encode_frame(3, &[0xC1, 0xC2, 0xC3, 0xC4, 0xC5]);
    let mut expected = Vec::new();
    expected.extend_from_slice(&a);
    expected.extend_from_slice(&b);
    expected.extend_from_slice(&c);
    for chunk in [1usize, 2, 3, 100] {
        let mut pump = Pump::new();
        let wire = drain_outbound(&mut pump, vec![a.clone(), b.clone(), c.clone()], chunk);
        assert_eq!(wire, expected);
        assert!(pump.wants_outbound());
        assert!(pump.outgoing().is_none());
    }
}

#[test]
fn partial_write_keeps_the_rest_in_flight() {
    let mut pump = Pump::new();
    let f = encode_frame(7, &[1, 2, 3]);
    assert!(matches!(pump.step(PumpEvent::Outbound(Some(f))), PumpStep::Continue));
    assert!(!pump.wants_outbound());
    assert_eq!(pump.outgoing().unwrap(), &[0, 7, 0, 3, 1, 2, 3]);
    assert!(matches!(pump.step(PumpEvent::Written(5)), PumpStep::Continue));
    assert_eq!(pump.outgoing().unwrap(), &[2, 3]);
    assert!(matches!(pump.step(PumpEvent::Written(2)), PumpStep::Continue));
    assert!(pump.outgoing().is_none());
    assert!(pump.wants_outbound());
}

#[test]
fn reads_progress_while_a_frame_is_in_flight() {
    let mut pump = Pump::new();
    let f = encode_frame(7, &[1, 2, 3]);
    assert!(matches!(pump.step(PumpEvent::Outbound(Some(f))), PumpStep::Continue));
    assert!(matches!(pump.step(PumpEvent::Written(3)), PumpStep::Continue));
    assert!(matches!(pump.step(PumpEvent::Read(vec![0, 9, 0])), PumpStep::Continue));
    assert!(matches!(pump.step(PumpEvent::Written(1)), PumpStep::Continue));
    match pump.step(PumpEvent::Read(vec![0])) {
        PumpStep::Deliver(p) => {
            let (code, payload) = p.freeze();
            assert_eq!(code, 9);
            assert!(payload.is_empty());
        }
        _ => panic!("expected a frame"),
    }
    assert_eq!(pump.outgoing().unwrap(), &[1, 2, 3]);
}

#[test]
fn empty_outbound_buffer_leaves_the_pump_idle() {
    let mut pump = Pump::new();
    assert!(matches!(pump.step(PumpEvent::Outbound(Some(Bytes::new()))), PumpStep::Continue));
    assert!(pump.wants_outbound());
    assert!(pump.outgoing().is_none());
}

#[test]
fn zero_byte_write_is_orderly_close() {
    let mut pump = Pump::new();
    pump.step(PumpEvent::Outbound(Some(encode_frame(1, &[]))));
    match pump.step(PumpEvent::Written(0)) {
        PumpStep::Exit(e) => assert_eq!(e, PumpExit::Closed),
        _ => panic!("expected the pump to end"),
    }
}

#[test]
fn zero_byte_read_is_orderly_close() {
    let mut pump = Pump::new();
    match pump.step(PumpEvent::Read(vec![])) {
        PumpStep::Exit(e) => assert_eq!(e, PumpExit::Closed),
        _ => panic!("expected the pump to end"),
    }
}

#[test]
fn cancellation_wins_over_partial_state() {
    let mut pump = Pump::new();
    pump.step(PumpEvent::Outbound(Some(encode_frame(1, &[1, 2, 3, 4]))));
    pump.step(PumpEvent::Written(2));
    pump.step(PumpEvent::Read(vec![0, 1, 0, 9, 5]));
    match pump.step(PumpEvent::Cancelled) {
        PumpStep::Exit(e) => assert_eq!(e, PumpExit::Cancelled),
        _ => panic!("expected the pump to end"),
    }
}

#[test]
fn dropped_outbound_queue_keeps_receiving() {
    let mut pump = Pump::new();
    assert!(matches!(pump.step(PumpEvent::Outbound(None)), PumpStep::Continue));
    assert!(!pump.wants_outbound());
    assert!(pump.outgoing().is_none());
    match pump.step(PumpEvent::Read(vec![0, 5, 0, 0])) {
        PumpStep::Deliver(p) => assert_eq!(p.code(), 5),
        _ => panic!("expected a frame"),
    }
}

#[test]
fn scenario_one_outbound_one_inbound_then_close() {
    let mut pump = Pump::new();
    let wire = drain_outbound(&mut pump, vec![encode_frame(1, &[])], 64);
    assert_eq!(wire, vec![0x00, 0x01, 0x00, 0x00]);
    let inbound = [0x00u8, 0x02, 0x00, 0x01, 0xFF];
    let mut got = Vec::new();
    let mut at = 0;
    while at < inbound.len() {
        let n = pump.read_limit().min(inbound.len() - at);
        if let PumpStep::Deliver(p) = pump.step(PumpEvent::Read(inbound[at..at + n].to_vec())) {
            let (code, payload) = p.freeze();
            got.push((code, payload.to_vec()));
        }
        at += n;
    }
    assert_eq!(got, vec![(2, vec![0xFF])]);
    match pump.step(PumpEvent::Read(vec![])) {
        PumpStep::Exit(e) => assert_eq!(e, PumpExit::Closed),
        _ => panic!("expected the pump to end"),
    }
}
