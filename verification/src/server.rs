//! The synchronization server's roster: session ids assigned in strict
//! arrival order, keyed by sender address, with last-write-wins updates.
//!
//! The sockets live with the caller; this module owns every decision: what
//! a datagram does to the roster and what, if anything, is sent back.
use vstd::prelude::*;
use crate::codec::{WireSprite, decode_update, decode_update_val};

verus! {

/// A peer's transport address, as plain values.
#[derive(PartialEq, Eq, Structural, Clone, Copy)]
pub struct AddrKey {
    /// The IP address, as at most 128 bits.
    pub ip: u128,
    /// The UDP port.
    pub port: u16,
}

/// One known peer: its address and its last reported sprite.
#[derive(Clone, Copy)]
pub struct RosterEntry {
    /// Where the peer sends from, and where broadcasts go.
    pub addr: AddrKey,
    /// The peer's sprite as last reported.
    pub sprite: WireSprite,
}

/// The effect of a datagram from an already-known address: its entry's
/// position and angle are overwritten (last write wins), everything else
/// — ids, order, the other entries, the next id — stays.
pub open spec fn updates_known_peer(
    pre: Server,
    post: Server,
    addr: AddrKey,
    x_bits: u64,
    y_bits: u64,
    angle_bits: u64,
) -> bool {
    &&& post.next_id == pre.next_id
    &&& post.entries@.len() == pre.entries@.len()
    &&& forall|i: int|
        0 <= i < pre.entries@.len() ==> #[trigger] post.entries@[i] == (if pre.entries@[i].addr
            == addr {
            RosterEntry {
                addr,
                sprite: WireSprite {
                    id: pre.entries@[i].sprite.id,
                    x_bits,
                    y_bits,
                    sprite_sheet_index: pre.entries@[i].sprite.sprite_sheet_index,
                    angle_bits: Some(angle_bits),
                },
            }
        } else {
            pre.entries@[i]
        })
}

/// The effect of a datagram from a new address: an entry carrying the
/// next sequential id is appended, and the next id advances.
pub open spec fn registers_new_peer(
    pre: Server,
    post: Server,
    addr: AddrKey,
    x_bits: u64,
    y_bits: u64,
    angle_bits: u64,
) -> bool {
    &&& post.next_id == pre.next_id + 1
    &&& post.entries@ == pre.entries@.push(
        RosterEntry {
            addr,
            sprite: WireSprite {
                id: pre.next_id,
                x_bits,
                y_bits,
                sprite_sheet_index: 0,
                angle_bits: Some(angle_bits),
            },
        },
    )
}

/// The server's state.
pub struct Server {
    /// Known peers, in arrival order.
    pub entries: Vec<RosterEntry>,
    /// The next session id to assign.
    pub next_id: u32,
}

/// What the server's socket yielded on one poll.
pub enum ServerEvent {
    /// A whole datagram, and who sent it.
    Datagram(Vec<u8>, AddrKey),
    /// Nothing waiting: the expected idle case, not an error.
    WouldBlock,
    /// Any other transport error: fatal.
    TransportError,
}

/// What one server poll decided.
#[derive(Debug, PartialEq, Eq, Structural, Clone, Copy)]
pub enum ServerTick {
    /// Nothing to do.
    Idle,
    /// A known peer's position and angle were overwritten; no reply.
    Updated,
    /// A new peer was registered; this id is its registration reply.
    Registered(u32),
    /// The datagram was malformed: the session must end.
    Malformed,
    /// The transport failed: the session must end.
    TransportFailed,
}

impl Server {
    /// The roster invariant: the entry at position `i` holds session id
    /// `i` — ids are assigned 0, 1, 2, ... in arrival order and never
    /// reused — addresses are distinct, and the next id is the count.
    pub open spec fn well_formed(&self) -> bool {
        &&& self.next_id == self.entries@.len()
        &&& self.entries@.len() <= u32::MAX
        &&& forall|i: int|
            0 <= i < self.entries@.len() ==> (#[trigger] self.entries@[i]).sprite.id == i
        &&& forall|i: int, j: int|
            0 <= i < j < self.entries@.len() ==> self.entries@[i].addr != self.entries@[j].addr
    }

    /// Whether an address is already registered.
    pub open spec fn spec_knows(&self, addr: AddrKey) -> bool {
        exists|i: int| 0 <= i < self.entries@.len() && (#[trigger] self.entries@[i]).addr == addr
    }

    /// A fresh server with an empty roster.
    pub fn new() -> (s: Server)
        ensures
            s.well_formed(),
            s.entries@.len() == 0,
            s.next_id == 0,
    {
        Server { entries: Vec::new(), next_id: 0 }
    }

    /// Handles one position/angle datagram from `addr`.  A new address is
    /// appended with the next sequential id — which is returned, to be
    /// sent back as the registration reply — while a known address only
    /// has its position and angle overwritten (last write wins) and gets
    /// no reply and never a second id.
    #[verifier::loop_isolation(false)]
    pub fn handle_message(&mut self, addr: AddrKey, x_bits: u64, y_bits: u64, angle_bits: u64) -> (reply:
        Option<u32>)
        requires
            old(self).well_formed(),
            old(self).entries@.len() < u32::MAX,
        ensures
            final(self).well_formed(),
            old(self).spec_knows(addr) ==> reply is None && updates_known_peer(
                *old(self),
                *final(self),
                addr,
                x_bits,
                y_bits,
                angle_bits,
            ),
            !old(self).spec_knows(addr) ==> reply == Some(old(self).next_id)
                && registers_new_peer(*old(self), *final(self), addr, x_bits, y_bits, angle_bits),
    {
        let n = self.entries.len();
        let mut i: usize = 0;
        while i < n
            invariant
                0 <= i <= n,
                n == self.entries@.len(),
                self.entries@ == old(self).entries@,
                self.next_id == old(self).next_id,
                forall|j: int| 0 <= j < i ==> (#[trigger] self.entries@[j]).addr != addr,
            decreases n - i,
        {
            if self.entries[i].addr == addr {
                let e = self.entries[i];
                let updated = RosterEntry {
                    addr,
                    sprite: WireSprite {
                        id: e.sprite.id,
                        x_bits,
                        y_bits,
                        sprite_sheet_index: e.sprite.sprite_sheet_index,
                        angle_bits: Some(angle_bits),
                    },
                };
                self.entries.set(i, updated);
                proof {
                    assert(old(self).spec_knows(addr)) by {
                        assert(old(self).entries@[i as int].addr == addr);
                    };
                }
                return None;
            }
            i = i + 1;
        }
        proof {
            assert(!old(self).spec_knows(addr));
        }
        let id = self.next_id;
        let entry = RosterEntry {
            addr,
            sprite: WireSprite {
                id,
                x_bits,
                y_bits,
                sprite_sheet_index: 0,
                angle_bits: Some(angle_bits),
            },
        };
        self.entries.push(entry);
        self.next_id = self.next_id + 1;
        Some(id)
    }

    /// Feeds one receive outcome.  A well-formed position/angle datagram
    /// changes the roster exactly as `handle_message` says — a new sender
    /// is registered and the returned id is to be sent back, a known one
    /// is overwritten in place — while a malformed datagram or a
    /// transport error is fatal, and nothing waiting does nothing.
    pub fn server_tick(&mut self, event: ServerEvent) -> (r: ServerTick)
        requires
            old(self).well_formed(),
            old(self).entries@.len() < u32::MAX,
        ensures
            final(self).well_formed(),
            match event {
                ServerEvent::WouldBlock => r is Idle && *final(self) == *old(self),
                ServerEvent::TransportError => r is TransportFailed && *final(self) == *old(
                    self,
                ),
                ServerEvent::Datagram(b, addr) => match decode_update_val(b@) {
                    None => r is Malformed && *final(self) == *old(self),
                    Some(fields) => if old(self).spec_knows(addr) {
                        r is Updated && updates_known_peer(
                            *old(self),
                            *final(self),
                            addr,
                            fields.0,
                            fields.1,
                            fields.2,
                        )
                    } else {
                        r == ServerTick::Registered(old(self).next_id) && registers_new_peer(
                            *old(self),
                            *final(self),
                            addr,
                            fields.0,
                            fields.1,
                            fields.2,
                        )
                    },
                },
            },
    {
        match event {
            ServerEvent::WouldBlock => ServerTick::Idle,
            ServerEvent::TransportError => ServerTick::TransportFailed,
            ServerEvent::Datagram(b, addr) => match decode_update(&b) {
                None => ServerTick::Malformed,
                Some((x_bits, y_bits, angle_bits)) => match self.handle_message(
                    addr,
                    x_bits,
                    y_bits,
                    angle_bits,
                ) {
                    Some(id) => ServerTick::Registered(id),
                    None => ServerTick::Updated,
                },
            },
        }
    }

    /// The sprites of every known peer, in arrival order, for a roster
    /// broadcast.
    #[verifier::loop_isolation(false)]
    pub fn snapshot(&self) -> (r: Vec<WireSprite>)
        ensures
            r@.len() == self.entries@.len(),
            forall|i: int|
                0 <= i < self.entries@.len() ==> r@[i] == (#[trigger] self.entries@[i]).sprite,
    {
        let mut out: Vec<WireSprite> = Vec::new();
        let mut i: usize = 0;
        while i < self.entries.len()
            invariant
                0 <= i <= self.entries@.len(),
                out@.len() == i,
                forall|j: int|
                    0 <= j < i ==> out@[j] == (#[trigger] self.entries@[j]).sprite,
            decreases self.entries@.len() - i,
        {
            out.push(self.entries[i].sprite);
            i = i + 1;
        }
        out
    }
}

} // verus!
