use raycasting_term::server::{AddrKey, Server, ServerEvent, ServerTick};

fn addr(n: u128) -> AddrKey {
    AddrKey { ip: n, port: 4242 }
}

#[test]
fn ids_are_assigned_in_strict_arrival_order() {
    let mut s = Server::new();
    let x = 3.0f64.to_bits();
    let y = 4.0f64.to_bits();
    let a = 0.0f64.to_bits();
    assert_eq!(s.handle_message(addr(10), x, y, a), Some(0));
    assert_eq!(s.handle_message(addr(20), x, y, a), Some(1));
    assert_eq!(s.handle_message(addr(30), x, y, a), Some(2));
    let roster = s.snapshot();
    assert_eq!(roster.len(), 3);
    for (i, w) in roster.iter().enumerate() {
        assert_eq!(w.id as usize, i);
    }
}

#[test]
fn a_known_address_never_gets_a_second_id() {
    let mut s = Server::new();
    let x = 3.0f64.to_bits();
    let y = 4.0f64.to_bits();
    let a = 0.5f64.to_bits();
    assert_eq!(s.handle_message(addr(10), x, y, a), Some(0));
    // A second datagram from the same address only updates the entry.
    let x2 = 5.5f64.to_bits();
    let a2 = 1.5f64.to_bits();
    assert_eq!(s.handle_message(addr(10), x2, y, a2), None);
    let roster = s.snapshot();
    assert_eq!(roster.len(), 1);
    assert_eq!(roster[0].id, 0);
    assert_eq!(roster[0].x_bits, x2);
    assert_eq!(roster[0].angle_bits, Some(a2));
    // A different port on the same IP is a different peer.
    assert_eq!(
        s.handle_message(AddrKey { ip: 10, port: 9 }, x, y, a),
        Some(1)
    );
}

#[test]
fn broadcast_bytes_round_trip_through_the_codec() {
    let mut s = Server::new();
    let x = 3.0f64.to_bits();
    let y = 4.0f64.to_bits();
    let a = 0.25f64.to_bits();
    s.handle_message(addr(1), x, y, a);
    s.handle_message(addr(2), x, y, a);
    let bytes = raycasting_term::codec::encode_roster(&s.snapshot());
    let back = raycasting_term::codec::decode_roster(&bytes).unwrap();
    assert_eq!(back.len(), 2);
    assert_eq!(back[0].id, 0);
    assert_eq!(back[1].id, 1);
    assert_eq!(back[0].angle_bits, Some(a));
}

#[test]
fn server_tick_applies_datagrams_and_flags_faults() {
    let mut s = Server::new();
    let update = raycasting_term::codec::encode_update(
        3.0f64.to_bits(),
        4.0f64.to_bits(),
        0.5f64.to_bits(),
    );
    // A new sender registers and is told its id.
    let r = s.server_tick(ServerEvent::Datagram(update.clone(), addr(1)));
    assert_eq!(r, ServerTick::Registered(0));
    // The same sender only updates from then on.
    let r = s.server_tick(ServerEvent::Datagram(update.clone(), addr(1)));
    assert_eq!(r, ServerTick::Updated);
    assert_eq!(s.snapshot().len(), 1);
    // Nothing waiting does nothing.
    assert_eq!(s.server_tick(ServerEvent::WouldBlock), ServerTick::Idle);
    // Garbage and transport failures are fatal.
    assert_eq!(
        s.server_tick(ServerEvent::Datagram(vec![1, 2, 3], addr(2))),
        ServerTick::Malformed
    );
    assert_eq!(s.server_tick(ServerEvent::TransportError), ServerTick::TransportFailed);
    assert_eq!(s.snapshot().len(), 1);
}
