//! The synchronization client's decisions: a bounded-retry registration
//! handshake, and what each steady-state tick does with what the socket
//! returned.
//!
//! The socket itself lives with the caller, which performs each action
//! this module decides and hands back what happened.
use vstd::prelude::*;
use crate::codec::{WireSprite, decode_id_val, decode_roster_val, decode_id, decode_roster};

verus! {

/// How many times the registration message is sent before the client
/// gives up on a silent server.
pub const MAX_HANDSHAKE_ATTEMPTS: u32 = 5;

/// Where the registration handshake stands.
#[derive(PartialEq, Eq, Structural, Clone, Copy)]
pub enum HandshakeState {
    /// Registration was sent; `attempts` sends have happened so far.
    Pending { attempts: u32 },
    /// The server assigned this session id.
    Registered { id: u32 },
    /// The handshake failed: a malformed reply, or the server stayed
    /// silent through every attempt.
    Failed,
}

/// Feeds a datagram received while registering.  A well-formed reply
/// carries the assigned id; a malformed one is fatal.  Replies arriving
/// in any other state change nothing.
pub fn handshake_reply(state: HandshakeState, buf: &Vec<u8>) -> (next: HandshakeState)
    ensures
        next == (match state {
            HandshakeState::Pending { attempts } => match decode_id_val(buf@) {
                Some(id) => HandshakeState::Registered { id },
                None => HandshakeState::Failed,
            },
            _ => state,
        }),
{
    match state {
        HandshakeState::Pending { attempts: _ } => match decode_id(buf) {
            Some(id) => HandshakeState::Registered { id },
            None => HandshakeState::Failed,
        },
        _ => state,
    }
}

/// Feeds a receive timeout while registering: the registration is resent
/// (the returned flag) until the attempt budget is spent, then the
/// handshake fails.  Timeouts in any other state change nothing.
pub fn handshake_timeout(state: HandshakeState) -> (r: (HandshakeState, bool))
    ensures
        r == (match state {
            HandshakeState::Pending { attempts } => if attempts + 1 < MAX_HANDSHAKE_ATTEMPTS {
                (HandshakeState::Pending { attempts: (attempts + 1) as u32 }, true)
            } else {
                (HandshakeState::Failed, false)
            },
            _ => (state, false),
        }),
{
    match state {
        HandshakeState::Pending { attempts } => {
            if attempts < MAX_HANDSHAKE_ATTEMPTS - 1 {
                (HandshakeState::Pending { attempts: attempts + 1 }, true)
            } else {
                (HandshakeState::Failed, false)
            }
        },
        _ => (state, false),
    }
}

/// What the socket yielded on a steady-state tick's receive attempt.
pub enum RecvOutcome {
    /// A whole datagram.
    Datagram(Vec<u8>),
    /// Nothing waiting: the expected idle case, not an error.
    WouldBlock,
    /// Any other transport error: fatal.
    TransportError,
}

/// What a steady-state tick decided.
pub struct TickResult {
    /// A replacement sprite list, when a roster broadcast arrived: the
    /// previous list is discarded wholesale.
    pub new_roster: Option<Vec<WireSprite>>,
    /// Whether the session must end: a transport error or a malformed
    /// datagram.
    pub fatal: bool,
}

/// Ingests one tick's receive outcome.  A roster broadcast replaces the
/// sprite list; nothing waiting is ignored; a malformed datagram or a
/// transport error is fatal.  (After this, the caller sends the current
/// position and angle unconditionally, encoded by the codec.)
pub fn client_tick(outcome: RecvOutcome) -> (r: TickResult)
    ensures
        match outcome {
            RecvOutcome::Datagram(b) => match decode_roster_val(b@) {
                Some(l) => {
                    &&& !r.fatal
                    &&& r.new_roster matches Some(v) && v@ == l
                },
                None => r.fatal && r.new_roster is None,
            },
            RecvOutcome::WouldBlock => !r.fatal && r.new_roster is None,
            RecvOutcome::TransportError => r.fatal && r.new_roster is None,
        },
{
    match outcome {
        RecvOutcome::Datagram(b) => match decode_roster(&b) {
            Some(v) => TickResult { new_roster: Some(v), fatal: false },
            None => TickResult { new_roster: None, fatal: true },
        },
        RecvOutcome::WouldBlock => TickResult { new_roster: None, fatal: false },
        RecvOutcome::TransportError => TickResult { new_roster: None, fatal: true },
    }
}

} // verus!
