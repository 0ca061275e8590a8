//! The wire protocol: little-endian binary encodings for the
//! registration, update and roster-broadcast datagrams.
//!
//! Positions and angles travel as the 8-byte patterns of IEEE doubles;
//! this module frames and parses those bytes without interpreting them.
//! A datagram either matches a message's exact shape or is rejected
//! whole: there is no partial recovery.
use vstd::prelude::*;

verus! {

/// One sprite record as the server broadcasts it.
#[derive(Clone, Copy)]
pub struct WireSprite {
    /// Session id.
    pub id: u32,
    /// Bit pattern of the x coordinate.
    pub x_bits: u64,
    /// Bit pattern of the y coordinate.
    pub y_bits: u64,
    /// Sprite sheet index.
    pub sprite_sheet_index: u64,
    /// Bit pattern of the facing angle, if the sprite reports one.
    pub angle_bits: Option<u64>,
}

/// The eight little-endian bytes of a 64-bit value.
pub open spec fn le_bytes_64(v: u64) -> Seq<u8> {
    seq![
        (v & 0xff) as u8,
        ((v >> 8) & 0xff) as u8,
        ((v >> 16) & 0xff) as u8,
        ((v >> 24) & 0xff) as u8,
        ((v >> 32) & 0xff) as u8,
        ((v >> 40) & 0xff) as u8,
        ((v >> 48) & 0xff) as u8,
        ((v >> 56) & 0xff) as u8,
    ]
}

/// The four little-endian bytes of a 32-bit value.
pub open spec fn le_bytes_32(v: u32) -> Seq<u8> {
    seq![(v & 0xff) as u8, ((v >> 8) & 0xff) as u8, ((v >> 16) & 0xff) as u8, ((v >> 24)
        & 0xff) as u8]
}

/// The 64-bit value eight little-endian bytes spell.
#[verifier::opaque]
pub open spec fn u64_of_le(s: Seq<u8>) -> u64
    recommends
        s.len() == 8,
{
    (s[0] as u64) | (s[1] as u64) << 8 | (s[2] as u64) << 16 | (s[3] as u64) << 24 | (
    s[4] as u64) << 32 | (s[5] as u64) << 40 | (s[6] as u64) << 48 | (s[7] as u64) << 56
}

/// The 32-bit value four little-endian bytes spell.
#[verifier::opaque]
pub open spec fn u32_of_le(s: Seq<u8>) -> u32
    recommends
        s.len() == 4,
{
    (s[0] as u32) | (s[1] as u32) << 8 | (s[2] as u32) << 16 | (s[3] as u32) << 24
}

/// Reading back the little-endian bytes of a value gives the value.
pub proof fn lemma_le_64_round_trip(v: u64)
    ensures
        u64_of_le(le_bytes_64(v)) == v,
{
    reveal(u64_of_le);
    assert((v & 0xff) | ((v >> 8) & 0xff) << 8 | ((v >> 16) & 0xff) << 16 | ((v >> 24)
        & 0xff) << 24 | ((v >> 32) & 0xff) << 32 | ((v >> 40) & 0xff) << 40 | ((v >> 48)
        & 0xff) << 48 | ((v >> 56) & 0xff) << 56 == v) by (bit_vector);
    assert(((v & 0xff) as u8) as u64 == v & 0xff) by (bit_vector);
    assert((((v >> 8) & 0xff) as u8) as u64 == (v >> 8) & 0xff) by (bit_vector);
    assert((((v >> 16) & 0xff) as u8) as u64 == (v >> 16) & 0xff) by (bit_vector);
    assert((((v >> 24) & 0xff) as u8) as u64 == (v >> 24) & 0xff) by (bit_vector);
    assert((((v >> 32) & 0xff) as u8) as u64 == (v >> 32) & 0xff) by (bit_vector);
    assert((((v >> 40) & 0xff) as u8) as u64 == (v >> 40) & 0xff) by (bit_vector);
    assert((((v >> 48) & 0xff) as u8) as u64 == (v >> 48) & 0xff) by (bit_vector);
    assert((((v >> 56) & 0xff) as u8) as u64 == (v >> 56) & 0xff) by (bit_vector);
}

/// Reading back the little-endian bytes of a 32-bit value gives the value.
pub proof fn lemma_le_32_round_trip(v: u32)
    ensures
        u32_of_le(le_bytes_32(v)) == v,
{
    reveal(u32_of_le);
    assert((v & 0xff) | ((v >> 8) & 0xff) << 8 | ((v >> 16) & 0xff) << 16 | ((v >> 24)
        & 0xff) << 24 == v) by (bit_vector);
    assert(((v & 0xff) as u8) as u32 == v & 0xff) by (bit_vector);
    assert((((v >> 8) & 0xff) as u8) as u32 == (v >> 8) & 0xff) by (bit_vector);
    assert((((v >> 16) & 0xff) as u8) as u32 == (v >> 16) & 0xff) by (bit_vector);
    assert((((v >> 24) & 0xff) as u8) as u32 == (v >> 24) & 0xff) by (bit_vector);
}

/// Appends the eight little-endian bytes of `v`.
fn push_le_64(out: &mut Vec<u8>, v: u64)
    ensures
        final(out)@ == old(out)@ + le_bytes_64(v),
{
    out.push((v & 0xff) as u8);
    out.push(((v >> 8) & 0xff) as u8);
    out.push(((v >> 16) & 0xff) as u8);
    out.push(((v >> 24) & 0xff) as u8);
    out.push(((v >> 32) & 0xff) as u8);
    out.push(((v >> 40) & 0xff) as u8);
    out.push(((v >> 48) & 0xff) as u8);
    out.push(((v >> 56) & 0xff) as u8);
    proof {
        assert(final(out)@ =~= old(out)@ + le_bytes_64(v));
    }
}

/// Appends the four little-endian bytes of `v`.
fn push_le_32(out: &mut Vec<u8>, v: u32)
    ensures
        final(out)@ == old(out)@ + le_bytes_32(v),
{
    out.push((v & 0xff) as u8);
    out.push(((v >> 8) & 0xff) as u8);
    out.push(((v >> 16) & 0xff) as u8);
    out.push(((v >> 24) & 0xff) as u8);
    proof {
        assert(final(out)@ =~= old(out)@ + le_bytes_32(v));
    }
}

/// Reads the 64-bit value at `off`.
fn read_le_64(buf: &Vec<u8>, off: usize) -> (r: u64)
    requires
        off + 8 <= buf@.len(),
    ensures
        r == u64_of_le(buf@.subrange(off as int, off + 8)),
{
    proof {
        reveal(u64_of_le);
    }
    let n = buf.len();
    let r = (buf[off] as u64) | (buf[off + 1] as u64) << 8 | (buf[off + 2] as u64) << 16 | (buf[off
        + 3] as u64) << 24 | (buf[off + 4] as u64) << 32 | (buf[off + 5] as u64) << 40 | (buf[off
        + 6] as u64) << 48 | (buf[off + 7] as u64) << 56;
    proof {
        assert(buf@.subrange(off as int, off + 8)[0] == buf@[off as int]);
    }
    r
}

/// Reads the 32-bit value at `off`.
fn read_le_32(buf: &Vec<u8>, off: usize) -> (r: u32)
    requires
        off + 4 <= buf@.len(),
    ensures
        r == u32_of_le(buf@.subrange(off as int, off + 4)),
{
    proof {
        reveal(u32_of_le);
    }
    let n = buf.len();
    let r = (buf[off] as u32) | (buf[off + 1] as u32) << 8 | (buf[off + 2] as u32) << 16 | (buf[off
        + 3] as u32) << 24;
    proof {
        assert(buf@.subrange(off as int, off + 4)[0] == buf@[off as int]);
    }
    r
}

/// A position/angle update message: the two coordinates then the angle,
/// each as 8 bytes.
pub open spec fn update_message(x_bits: u64, y_bits: u64, angle_bits: u64) -> Seq<u8> {
    le_bytes_64(x_bits) + le_bytes_64(y_bits) + le_bytes_64(angle_bits)
}

/// Encodes a position/angle update.
pub fn encode_update(x_bits: u64, y_bits: u64, angle_bits: u64) -> (r: Vec<u8>)
    ensures
        r@ == update_message(x_bits, y_bits, angle_bits),
        r@.len() == 24,
{
    let mut out: Vec<u8> = Vec::new();
    push_le_64(&mut out, x_bits);
    push_le_64(&mut out, y_bits);
    push_le_64(&mut out, angle_bits);
    proof {
        assert(out@ =~= update_message(x_bits, y_bits, angle_bits));
    }
    out
}

/// What an update datagram decodes to: exactly 24 bytes, read as three
/// 64-bit fields; anything else is malformed.
pub open spec fn decode_update_val(s: Seq<u8>) -> Option<(u64, u64, u64)> {
    if s.len() == 24 {
        Some(
            (
                u64_of_le(s.subrange(0, 8)),
                u64_of_le(s.subrange(8, 16)),
                u64_of_le(s.subrange(16, 24)),
            ),
        )
    } else {
        None
    }
}

/// Decodes a position/angle update datagram.
pub fn decode_update(buf: &Vec<u8>) -> (r: Option<(u64, u64, u64)>)
    ensures
        r == decode_update_val(buf@),
{
    if buf.len() != 24 {
        return None;
    }
    let x = read_le_64(buf, 0);
    let y = read_le_64(buf, 8);
    let a = read_le_64(buf, 16);
    Some((x, y, a))
}

/// Decoding an encoded update gives back the fields.
pub proof fn lemma_update_round_trip(x_bits: u64, y_bits: u64, angle_bits: u64)
    ensures
        decode_update_val(update_message(x_bits, y_bits, angle_bits)) == Some(
            (x_bits, y_bits, angle_bits),
        ),
{
    let m = update_message(x_bits, y_bits, angle_bits);
    assert(m.subrange(0, 8) =~= le_bytes_64(x_bits));
    assert(m.subrange(8, 16) =~= le_bytes_64(y_bits));
    assert(m.subrange(16, 24) =~= le_bytes_64(angle_bits));
    lemma_le_64_round_trip(x_bits);
    lemma_le_64_round_trip(y_bits);
    lemma_le_64_round_trip(angle_bits);
}

/// A registration reply: the assigned id as 4 bytes.
pub open spec fn id_message(id: u32) -> Seq<u8> {
    le_bytes_32(id)
}

/// Encodes a registration reply.
pub fn encode_id(id: u32) -> (r: Vec<u8>)
    ensures
        r@ == id_message(id),
        r@.len() == 4,
{
    let mut out: Vec<u8> = Vec::new();
    push_le_32(&mut out, id);
    proof {
        assert(out@ =~= id_message(id));
    }
    out
}

/// What a registration-reply datagram decodes to: exactly 4 bytes.
pub open spec fn decode_id_val(s: Seq<u8>) -> Option<u32> {
    if s.len() == 4 {
        Some(u32_of_le(s))
    } else {
        None
    }
}

/// Decodes a registration reply.
pub fn decode_id(buf: &Vec<u8>) -> (r: Option<u32>)
    ensures
        r == decode_id_val(buf@),
{
    if buf.len() != 4 {
        return None;
    }
    let v = read_le_32(buf, 0);
    proof {
        assert(buf@.subrange(0, 4) =~= buf@);
    }
    Some(v)
}

/// Decoding an encoded registration reply gives back the id.
pub proof fn lemma_id_round_trip(id: u32)
    ensures
        decode_id_val(id_message(id)) == Some(id),
{
    lemma_le_32_round_trip(id);
}

/// One sprite record: id, coordinates, sheet index, then an angle tag (0
/// or 1) and, when present, the angle.
pub open spec fn sprite_record_bytes(w: WireSprite) -> Seq<u8> {
    le_bytes_32(w.id) + le_bytes_64(w.x_bits) + le_bytes_64(w.y_bits) + le_bytes_64(
        w.sprite_sheet_index,
    ) + (match w.angle_bits {
        None => seq![0u8],
        Some(a) => seq![1u8] + le_bytes_64(a),
    })
}

/// The concatenated records of a roster.
pub open spec fn records_bytes(l: Seq<WireSprite>) -> Seq<u8>
    decreases l.len(),
{
    if l.len() == 0 {
        Seq::empty()
    } else {
        records_bytes(l.drop_last()) + sprite_record_bytes(l.last())
    }
}

/// A roster broadcast: the record count as 8 bytes, then the records.
pub open spec fn roster_message(l: Seq<WireSprite>) -> Seq<u8> {
    le_bytes_64(l.len() as u64) + records_bytes(l)
}

/// A nonempty roster's records start with the first record.
proof fn lemma_records_bytes_first(l: Seq<WireSprite>)
    requires
        l.len() > 0,
    ensures
        records_bytes(l) == sprite_record_bytes(l.first()) + records_bytes(l.drop_first()),
    decreases l.len(),
{
    if l.len() == 1 {
        assert(l.drop_last() =~= Seq::empty());
        assert(l.drop_first() =~= Seq::empty());
        assert(records_bytes(l) =~= sprite_record_bytes(l.first()) + records_bytes(
            l.drop_first(),
        ));
    } else {
        lemma_records_bytes_first(l.drop_last());
        assert(l.drop_last().first() == l.first());
        assert(l.drop_last().drop_first() =~= l.drop_first().drop_last());
        assert(l.drop_first().last() == l.last());
        assert(records_bytes(l.drop_first()) == records_bytes(l.drop_first().drop_last())
            + sprite_record_bytes(l.last()));
        assert(records_bytes(l) =~= sprite_record_bytes(l.first()) + records_bytes(
            l.drop_first(),
        ));
    }
}

/// Appends one sprite record.
fn push_record(out: &mut Vec<u8>, w: &WireSprite)
    ensures
        final(out)@ == old(out)@ + sprite_record_bytes(*w),
{
    push_le_32(out, w.id);
    push_le_64(out, w.x_bits);
    push_le_64(out, w.y_bits);
    push_le_64(out, w.sprite_sheet_index);
    match w.angle_bits {
        None => {
            out.push(0u8);
            proof {
                assert(final(out)@ =~= old(out)@ + sprite_record_bytes(*w));
            }
        },
        Some(a) => {
            out.push(1u8);
            push_le_64(out, a);
            proof {
                assert(final(out)@ =~= old(out)@ + sprite_record_bytes(*w));
            }
        },
    }
}

/// Encodes a roster broadcast.
pub fn encode_roster(l: &Vec<WireSprite>) -> (r: Vec<u8>)
    ensures
        r@ == roster_message(l@),
{
    let mut out: Vec<u8> = Vec::new();
    push_le_64(&mut out, l.len() as u64);
    let mut i: usize = 0;
    while i < l.len()
        invariant
            0 <= i <= l@.len(),
            out@ == le_bytes_64(l@.len() as u64) + records_bytes(l@.take(i as int)),
        decreases l@.len() - i,
    {
        push_record(&mut out, &l[i]);
        proof {
            assert(l@.take(i + 1).drop_last() =~= l@.take(i as int));
            assert(l@.take(i + 1).last() == l@[i as int]);
            assert(out@ =~= le_bytes_64(l@.len() as u64) + records_bytes(l@.take(i + 1)));
        }
        i = i + 1;
    }
    proof {
        assert(l@.take(i as int) =~= l@);
    }
    out
}

/// Parses `n` sprite records filling the whole of `s`: the record fields
/// in order, with an angle tag of 0 or 1; leftover bytes, a short buffer
/// or a bad tag are malformed.
pub open spec fn parse_records(s: Seq<u8>, n: nat) -> Option<Seq<WireSprite>>
    decreases n,
{
    if n == 0 {
        if s.len() == 0 {
            Some(Seq::empty())
        } else {
            None
        }
    } else if s.len() < 29 {
        None
    } else {
        let id = u32_of_le(s.subrange(0, 4));
        let x = u64_of_le(s.subrange(4, 12));
        let y = u64_of_le(s.subrange(12, 20));
        let idx = u64_of_le(s.subrange(20, 28));
        let tag = s[28];
        if tag == 0 {
            let w = WireSprite {
                id,
                x_bits: x,
                y_bits: y,
                sprite_sheet_index: idx,
                angle_bits: None,
            };
            match parse_records(s.skip(29), (n - 1) as nat) {
                None => None,
                Some(r) => Some(seq![w] + r),
            }
        } else if tag == 1 {
            if s.len() < 37 {
                None
            } else {
                let w = WireSprite {
                    id,
                    x_bits: x,
                    y_bits: y,
                    sprite_sheet_index: idx,
                    angle_bits: Some(u64_of_le(s.subrange(29, 37))),
                };
                match parse_records(s.skip(37), (n - 1) as nat) {
                    None => None,
                    Some(r) => Some(seq![w] + r),
                }
            }
        } else {
            None
        }
    }
}

/// What a roster datagram decodes to: the 8-byte count, then exactly that
/// many records filling the rest.
pub open spec fn decode_roster_val(s: Seq<u8>) -> Option<Seq<WireSprite>> {
    if s.len() < 8 {
        None
    } else {
        parse_records(s.skip(8), u64_of_le(s.subrange(0, 8)) as nat)
    }
}

/// Decodes a roster broadcast datagram.
#[verifier::rlimit(100)]
pub fn decode_roster(buf: &Vec<u8>) -> (r: Option<Vec<WireSprite>>)
    ensures
        match r {
            Some(v) => decode_roster_val(buf@) == Some(v@),
            None => decode_roster_val(buf@) is None,
        },
{
    if buf.len() < 8 {
        return None;
    }
    let n: u64 = read_le_64(buf, 0);
    let mut acc: Vec<WireSprite> = Vec::new();
    let mut off: usize = 8;
    let mut i: u64 = 0;
    while i < n
        invariant
            0 <= i <= n,
            8 <= off <= buf@.len(),
            buf@.len() >= 8,
            n == u64_of_le(buf@.subrange(0, 8)),
            match parse_records(buf@.skip(off as int), (n - i) as nat) {
                None => decode_roster_val(buf@) is None,
                Some(rest) => decode_roster_val(buf@) == Some(acc@ + rest),
            },
        decreases n - i,
    {
        if buf.len() - off < 29 {
            return None;
        }
        let ghost tail = buf@.skip(off as int);
        proof {
            assert(tail.subrange(0, 4) =~= buf@.subrange(off as int, off + 4));
            assert(tail.subrange(4, 12) =~= buf@.subrange(off + 4, off + 12));
            assert(tail.subrange(12, 20) =~= buf@.subrange(off + 12, off + 20));
            assert(tail.subrange(20, 28) =~= buf@.subrange(off + 20, off + 28));
            assert(tail[28] == buf@[off + 28]);
        }
        let id = read_le_32(buf, off);
        let x = read_le_64(buf, off + 4);
        let y = read_le_64(buf, off + 12);
        let idx = read_le_64(buf, off + 20);
        let tag = buf[off + 28];
        if tag == 0 {
            let w = WireSprite { id, x_bits: x, y_bits: y, sprite_sheet_index: idx, angle_bits: None };
            proof {
                assert(tail.skip(29) =~= buf@.skip(off + 29));
                assert(match parse_records(tail, (n - i) as nat) {
                    None => true,
                    Some(r) => r == seq![w] + parse_records(tail.skip(29), (n - i - 1) as nat)->Some_0,
                });
            }
            acc.push(w);
            off = off + 29;
            proof {
                match parse_records(buf@.skip(off as int), (n - i - 1) as nat) {
                    None => {},
                    Some(rest) => {
                        assert(acc@ + rest =~= acc@.drop_last() + (seq![w] + rest));
                    },
                }
            }
        } else if tag == 1 {
            if buf.len() - off < 37 {
                return None;
            }
            proof {
                assert(tail.subrange(29, 37) =~= buf@.subrange(off + 29, off + 37));
            }
            let a = read_le_64(buf, off + 29);
            let w = WireSprite {
                id,
                x_bits: x,
                y_bits: y,
                sprite_sheet_index: idx,
                angle_bits: Some(a),
            };
            proof {
                assert(tail.skip(37) =~= buf@.skip(off + 37));
            }
            acc.push(w);
            off = off + 37;
            proof {
                match parse_records(buf@.skip(off as int), (n - i - 1) as nat) {
                    None => {},
                    Some(rest) => {
                        assert(acc@ + rest =~= acc@.drop_last() + (seq![w] + rest));
                    },
                }
            }
        } else {
            return None;
        }
        i = i + 1;
    }
    if off != buf.len() {
        proof {
            assert(buf@.skip(off as int).len() != 0);
        }
        return None;
    }
    proof {
        assert(buf@.skip(off as int).len() == 0);
        assert(acc@ + Seq::<WireSprite>::empty() =~= acc@);
    }
    Some(acc)
}

/// Parsing the records of a roster gives back the roster.
#[verifier::rlimit(100)]
proof fn lemma_parse_records_round_trip(l: Seq<WireSprite>)
    ensures
        parse_records(records_bytes(l), l.len()) == Some(l),
    decreases l.len(),
{
    if l.len() == 0 {
        assert(records_bytes(l).len() == 0);
        assert(Some(Seq::<WireSprite>::empty()) =~= Some(l));
    } else {
        lemma_records_bytes_first(l);
        let w = l.first();
        let rb = sprite_record_bytes(w);
        let rest = records_bytes(l.drop_first());
        let s = records_bytes(l);
        assert(s == rb + rest);
        let head_len: int = if w.angle_bits is Some {
            37
        } else {
            29
        };
        assert(rb.len() == head_len);
        assert(s.subrange(0, 4) =~= le_bytes_32(w.id));
        assert(s.subrange(4, 12) =~= le_bytes_64(w.x_bits));
        assert(s.subrange(12, 20) =~= le_bytes_64(w.y_bits));
        assert(s.subrange(20, 28) =~= le_bytes_64(w.sprite_sheet_index));
        lemma_le_32_round_trip(w.id);
        lemma_le_64_round_trip(w.x_bits);
        lemma_le_64_round_trip(w.y_bits);
        lemma_le_64_round_trip(w.sprite_sheet_index);
        lemma_parse_records_round_trip(l.drop_first());
        match w.angle_bits {
            None => {
                assert(s[28] == 0);
                assert(s.skip(29) =~= rest);
                assert(seq![w] + l.drop_first() =~= l);
            },
            Some(a) => {
                assert(s[28] == 1);
                assert(s.subrange(29, 37) =~= le_bytes_64(a));
                lemma_le_64_round_trip(a);
                assert(s.skip(37) =~= rest);
                assert(seq![w] + l.drop_first() =~= l);
            },
        }
    }
}

/// The roster round trip: decoding an encoded roster gives back the
/// records, for any roster whose count fits the wire's 64-bit field.
pub proof fn lemma_roster_round_trip(l: Seq<WireSprite>)
    requires
        l.len() <= u64::MAX,
    ensures
        decode_roster_val(roster_message(l)) == Some(l),
{
    let m = roster_message(l);
    assert(m.subrange(0, 8) =~= le_bytes_64(l.len() as u64));
    lemma_le_64_round_trip(l.len() as u64);
    assert(m.skip(8) =~= records_bytes(l));
    lemma_parse_records_round_trip(l);
}

} // verus!
