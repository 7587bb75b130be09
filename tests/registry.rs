use net::handle::Handle;
use net::registry::ClientManager;
use net::server::{Phase, ServerCore};

#[test]
fn registrations_receive_distinct_identities() {
    let mut m = ClientManager::new();
    let mut ids = Vec::new();
    for h in 0..10u32 {
        assert_eq!(m.peek_id(), Some(h as usize));
        ids.push(m.add_client(h).unwrap());
    }
    let mut sorted = ids.clone();
    sorted.sort();
    sorted.dedup();
    assert_eq!(sorted.len(), 10);
    assert_eq!(m.len(), 10);
    for (i, e) in m.clients().iter().enumerate() {
        assert_eq!(e.id, ids[i]);
        assert_eq!(e.handle, i as u32);
    }
}

#[test]
fn second_removal_is_not_found() {
    let mut m = ClientManager::new();
    let a = m.add_client("a").unwrap();
    let b = m.add_client("b").unwrap();
    assert!(m.remove_client(a));
    assert!(!m.remove_client(a));
    assert!(!m.contains_client(a));
    assert!(m.contains_client(b));
    assert_eq!(m.len(), 1);
}

#[test]
fn removing_an_unknown_identity_changes_nothing() {
    let mut m = ClientManager::new();
    let a = m.add_client(1u8).unwrap();
    assert!(!m.remove_client(a + 100));
    assert_eq!(m.len(), 1);
    assert!(m.contains_client(a));
}

#[test]
fn identities_are_not_reused_after_removal() {
    let mut m = ClientManager::new();
    let a = m.add_client(1u8).unwrap();
    assert!(m.remove_client(a));
    let b = m.add_client(2u8).unwrap();
    assert_ne!(a, b);
}

#[test]
fn removal_keeps_the_order_of_the_others() {
    let mut m = ClientManager::new();
    let ids: Vec<usize> = (0..4u8).map(|h| m.add_client(h).unwrap()).collect();
    assert!(m.remove_client(ids[1]));
    let left: Vec<u8> = m.clients().iter().map(|e| e.handle).collect();
    assert_eq!(left, vec![0, 2, 3]);
}

#[test]
fn termination_is_reported_once_even_if_signalled_twice() {
    let mut core = ServerCore::new();
    let id = core.accept_client(()).unwrap();
    let mut notified = 0;
    for _ in 0..2 {
        if core.reap(id) {
            notified += 1;
        }
    }
    assert_eq!(notified, 1);
}

#[test]
fn termination_of_unknown_identity_is_not_reported() {
    let mut core: ServerCore<()> = ServerCore::new();
    assert!(!core.reap(5));
}

#[test]
fn drain_refuses_new_connections_and_lists_the_live_ones() {
    let mut core = ServerCore::new();
    let a = core.accept_client('a').unwrap();
    assert!(core.begin_stop());
    assert_eq!(core.current_phase(), Phase::Draining);
    let b = core.accept_client('b').unwrap();
    core.close_listener();
    assert!(!core.is_accepting());
    assert_eq!(core.accept_client('c'), None);
    let live: Vec<usize> = core.clients().clients().iter().map(|e| e.id).collect();
    assert_eq!(live, vec![a, b]);
    core.finish();
    assert_eq!(core.current_phase(), Phase::Stopped);
    assert_eq!(core.accept_client('d'), None);
}

#[test]
fn second_stop_request_changes_nothing() {
    let mut core: ServerCore<u8> = ServerCore::new();
    assert_eq!(core.current_phase(), Phase::Running);
    assert!(core.is_accepting());
    assert!(core.begin_stop());
    assert!(!core.begin_stop());
    assert_eq!(core.current_phase(), Phase::Draining);
}

#[test]
fn server_core_peeks_the_identity_it_then_issues() {
    let mut core = ServerCore::new();
    let next = core.peek_id().unwrap();
    assert_eq!(core.accept_client(1u8), Some(next));
    assert_eq!(core.peek_id(), Some(next + 1));
}

#[test]
fn inbound_receiver_is_taken_once() {
    let mut h = Handle::new(3, "tx", "rx", "stop");
    assert_eq!(h.id(), 3);
    assert_eq!(*h.tx_sender(), "tx");
    assert_eq!(h.take_receiver(), Some("rx"));
    assert_eq!(h.take_receiver(), None);
    assert_eq!(h.id(), 3);
}

#[test]
fn stop_request_fires_once() {
    let mut h = Handle::new(0, 1u8, 2u8, 3u8);
    assert_eq!(h.take_stop(), Some(3));
    assert_eq!(h.take_stop(), None);
    assert_eq!(h.take_receiver(), Some(2));
}

#[test]
fn server_error_wraps_io_error() {
    let e = std::io::Error::new(std::io::ErrorKind::AddrInUse, "in use");
    let net::server::ServerError::IOError(inner) = net::server::ServerError::from(e);
    assert_eq!(inner.kind(), std::io::ErrorKind::AddrInUse);
}

#[test]
fn for_each_client_visits_every_entry_in_order() {
    let mut m = ClientManager::new();
    for h in [5u8, 6, 7] {
        m.add_client(h);
    }
    let seen = std::cell::RefCell::new(Vec::new());
    m.for_each_client(|h| seen.borrow_mut().push(*h));
    assert_eq!(seen.into_inner(), vec![5, 6, 7]);
}
