use raycasting_term::client::{
    client_tick, handshake_reply, handshake_timeout, HandshakeState, RecvOutcome,
    MAX_HANDSHAKE_ATTEMPTS,
};
use raycasting_term::codec::{encode_id, encode_roster, WireSprite};

#[test]
fn a_valid_reply_registers_the_client() {
    let s = HandshakeState::Pending { attempts: 0 };
    let next = handshake_reply(s, &encode_id(3));
    assert!(matches!(next, HandshakeState::Registered { id: 3 }));
}

#[test]
fn a_malformed_reply_is_fatal() {
    let s = HandshakeState::Pending { attempts: 0 };
    let next = handshake_reply(s, &vec![1, 2, 3]);
    assert!(matches!(next, HandshakeState::Failed));
}

#[test]
fn timeouts_resend_until_the_budget_is_spent() {
    let mut s = HandshakeState::Pending { attempts: 0 };
    let mut sends = 0;
    loop {
        let (next, resend) = handshake_timeout(s);
        s = next;
        if !resend {
            break;
        }
        sends += 1;
    }
    assert!(matches!(s, HandshakeState::Failed));
    assert_eq!(sends, MAX_HANDSHAKE_ATTEMPTS - 1);
    // Further timeouts change nothing.
    let (next, resend) = handshake_timeout(s);
    assert!(matches!(next, HandshakeState::Failed));
    assert!(!resend);
}

#[test]
fn a_roster_broadcast_replaces_the_sprite_list() {
    let roster = vec![WireSprite {
        id: 4,
        x_bits: 1.0f64.to_bits(),
        y_bits: 2.0f64.to_bits(),
        sprite_sheet_index: 0,
        angle_bits: None,
    }];
    let r = client_tick(RecvOutcome::Datagram(encode_roster(&roster)));
    assert!(!r.fatal);
    let got = r.new_roster.unwrap();
    assert_eq!(got.len(), 1);
    assert_eq!(got[0].id, 4);
}

#[test]
fn would_block_is_not_an_error_and_garbage_is_fatal() {
    let r = client_tick(RecvOutcome::WouldBlock);
    assert!(!r.fatal);
    assert!(r.new_roster.is_none());
    let r = client_tick(RecvOutcome::Datagram(vec![0, 1, 2]));
    assert!(r.fatal);
    let r = client_tick(RecvOutcome::TransportError);
    assert!(r.fatal);
}
