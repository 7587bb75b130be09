//! The frame that tells a player who just joined what the world looks like:
//! the map, then every player, the newest first.

use vstd::prelude::*;
use crate::buffer::bytes_view;
use crate::frame::{frame_bytes, le_u32, le_u64, PacketBuilder, MAX_DECLARABLE};
use crate::player::Player;

verus! {

/// The code of the world frame.
pub const WORLD_CODE: u16 = 1;

/// The code of the frame that announces a player who joined.
pub const PLAYER_INCOME_CODE: u16 = 2;

/// The code of the frame that announces a player who left.
pub const PLAYER_EXIT_CODE: u16 = 3;

/// The code of the frame that announces a player's step.
pub const PLAYER_MOVE_CODE: u16 = 4;

/// Bytes in the description of one player.
pub const PLAYER_RECORD_LEN: usize = 24;

/// The UTF-8 encoding of `c`.
pub open spec fn utf8_encode(c: char) -> Seq<u8> {
    let v = c as u32;
    if v < 0x80 {
        seq![v as u8]
    } else if v < 0x800 {
        seq![(0xC0 | (v >> 6u32)) as u8, (0x80 | (v & 0x3F)) as u8]
    } else if v < 0x10000 {
        seq![(0xE0 | (v >> 12u32)) as u8, (0x80 | ((v >> 6u32) & 0x3F)) as u8, (0x80 | (v & 0x3F)) as u8]
    } else {
        seq![
            (0xF0 | (v >> 18u32)) as u8,
            (0x80 | ((v >> 12u32) & 0x3F)) as u8,
            (0x80 | ((v >> 6u32) & 0x3F)) as u8,
            (0x80 | (v & 0x3F)) as u8,
        ]
    }
}

/// A glyph in four bytes: its UTF-8 encoding, padded with zeros.
pub open spec fn glyph_field(c: char) -> Seq<u8> {
    utf8_encode(c) + Seq::new((4 - utf8_encode(c).len()) as nat, |_i: int| 0u8)
}

/// One player: identity, glyph, glyph length, colour, position.
pub open spec fn player_record(p: Player) -> Seq<u8> {
    le_u64(p.spec_id()) + glyph_field(p.spec_glyph()) + seq![
        utf8_encode(p.spec_glyph()).len() as u8,
        p.spec_color().0,
        p.spec_color().1,
        p.spec_color().2,
    ] + le_u32(p.spec_object().x as u32) + le_u32(p.spec_object().y as u32)
}

/// The records of `players`, one after another.
pub open spec fn player_records(players: Seq<Player>) -> Seq<u8>
    decreases players.len(),
{
    if players.len() == 0 {
        Seq::empty()
    } else {
        player_records(players.drop_last()) + player_record(players.last())
    }
}

/// The payload of the world frame: width, height, the tiles, the number of
/// players, then the newest player followed by the others in joining order.
pub open spec fn world_payload(width: u32, height: u32, data: Seq<u8>, players: Seq<Player>) -> Seq<u8> {
    le_u32(width) + le_u32(height) + data + le_u32(players.len() as u32) + (if players.len() == 0 {
        Seq::empty()
    } else {
        player_record(players.last()) + player_records(players.drop_last())
    })
}

proof fn lemma_record_len(p: Player)
    ensures
        player_record(p).len() == PLAYER_RECORD_LEN,
{
}

proof fn lemma_records_len(players: Seq<Player>)
    ensures
        player_records(players).len() == PLAYER_RECORD_LEN * players.len(),
    decreases players.len(),
{
    if players.len() > 0 {
        lemma_records_len(players.drop_last());
        lemma_record_len(players.last());
    }
}

proof fn lemma_records_step(players: Seq<Player>, i: int)
    requires
        0 <= i < players.len(),
    ensures
        player_records(players.subrange(0, i + 1)) == player_records(players.subrange(0, i)) + player_record(players[i]),
{
    let s = players.subrange(0, i + 1);
    assert(s.drop_last() =~= players.subrange(0, i));
    assert(s.last() == players[i]);
}

/// The glyph field of `c` and the length of its encoding.
fn encode_glyph(c: char) -> (r: (Vec<u8>, u8))
    ensures
        r.0@ == glyph_field(c),
        r.1 as nat == utf8_encode(c).len(),
{
    let v = c as u32;
    if v < 0x80 {
        let r = vec![v as u8, 0, 0, 0];
        assert(r@ =~= glyph_field(c));
        (r, 1)
    } else if v < 0x800 {
        let r = vec![(0xC0 | (v >> 6u32)) as u8, (0x80 | (v & 0x3F)) as u8, 0, 0];
        assert(r@ =~= glyph_field(c));
        (r, 2)
    } else if v < 0x10000 {
        let r = vec![(0xE0 | (v >> 12u32)) as u8, (0x80 | ((v >> 6u32) & 0x3F)) as u8, (0x80 | (v & 0x3F)) as u8, 0];
        assert(r@ =~= glyph_field(c));
        (r, 3)
    } else {
        let r = vec![
            (0xF0 | (v >> 18u32)) as u8,
            (0x80 | ((v >> 12u32) & 0x3F)) as u8,
            (0x80 | ((v >> 6u32) & 0x3F)) as u8,
            (0x80 | (v & 0x3F)) as u8,
        ];
        assert(r@ =~= glyph_field(c));
        (r, 4)
    }
}

/// Appends the record of `p`.
fn put_player(builder: &mut PacketBuilder, p: &Player)
    requires
        old(builder)@.len() + PLAYER_RECORD_LEN <= isize::MAX,
    ensures
        final(builder)@ == old(builder)@ + player_record(*p),
{
    let ghost start = builder@;
    builder.put_u64_le(p.id());
    let (glyph, glyph_len) = encode_glyph(p.glyph());
    builder.extend_from_slice(glyph.as_slice());
    builder.put_u8(glyph_len);
    let color = p.color();
    builder.put_u8(color.0);
    builder.put_u8(color.1);
    builder.put_u8(color.2);
    let object = p.object();
    builder.put_i32_le(object.x);
    builder.put_i32_le(object.y);
    assert(builder@ =~= start + player_record(*p));
}

/// The world frame, or `None` where its payload does not fit the 16-bit
/// length of a header.
pub fn inform_world(width: u32, height: u32, data: &Vec<u8>, players: &Vec<Player>) -> (r: Option<bytes::Bytes>)
    ensures
        r is Some <==> world_payload(width, height, data@, players@).len() <= MAX_DECLARABLE,
        r matches Some(b) ==> bytes_view(b) == frame_bytes(WORLD_CODE, world_payload(width, height, data@, players@)),
{
    let ghost payload = world_payload(width, height, data@, players@);
    let n = players.len();
    proof {
        lemma_records_len(players@);
        if n > 0 {
            lemma_records_len(players@.drop_last());
            lemma_record_len(players@.last());
        }
        assert(payload.len() == 12 + data@.len() + PLAYER_RECORD_LEN * n);
    }
    if data.len() > MAX_DECLARABLE || n > MAX_DECLARABLE / PLAYER_RECORD_LEN {
        return None;
    }
    let total = 12 + data.len() + PLAYER_RECORD_LEN * n;
    if total > MAX_DECLARABLE {
        return None;
    }
    let mut builder = PacketBuilder::new(WORLD_CODE, total);
    let ghost header = builder@;
    builder.put_u32_le(width);
    builder.put_u32_le(height);
    builder.extend_from_slice(data.as_slice());
    builder.put_u32_le(n as u32);
    let ghost front = le_u32(width) + le_u32(height) + data@ + le_u32(n as u32);
    assert(builder@ =~= header + front);
    if n > 0 {
        put_player(&mut builder, &players[n - 1]);
        let ghost lead = header + front + player_record(players@.last());
        assert(builder@ =~= lead);
        let mut i: usize = 0;
        while i < n - 1
            invariant
                n == players@.len(),
                n > 0,
                0 <= i <= n - 1,
                total == 12 + data@.len() + PLAYER_RECORD_LEN * n,
                total <= MAX_DECLARABLE,
                builder@ == lead + player_records(players@.subrange(0, i as int)),
                lead.len() == 4 + 12 + data@.len() + PLAYER_RECORD_LEN,
            decreases n - 1 - i,
        {
            proof {
                lemma_records_len(players@.subrange(0, i as int));
                assert(PLAYER_RECORD_LEN * i <= PLAYER_RECORD_LEN * n) by (nonlinear_arith)
                    requires i <= n;
            }
            put_player(&mut builder, &players[i]);
            proof {
                lemma_records_step(players@, i as int);
            }
            assert(builder@ =~= lead + player_records(players@.subrange(0, i + 1)));
            i = i + 1;
        }
        assert(players@.subrange(0, n - 1) =~= players@.drop_last());
        assert(builder@ =~= header + payload);
    } else {
        assert(builder@ =~= header + payload);
    }
    Some(builder.into_packet())
}

/// The frame that announces `player` to the others: its record.
pub fn player_income(player: &Player) -> (r: bytes::Bytes)
    ensures
        bytes_view(r) == frame_bytes(PLAYER_INCOME_CODE, player_record(*player)),
{
    let mut builder = PacketBuilder::new(PLAYER_INCOME_CODE, PLAYER_RECORD_LEN);
    put_player(&mut builder, player);
    builder.into_packet()
}

/// The frame that announces that the player with identity `player` left.
pub fn player_exit(player: u64) -> (r: bytes::Bytes)
    ensures
        bytes_view(r) == frame_bytes(PLAYER_EXIT_CODE, le_u64(player)),
{
    let mut builder = PacketBuilder::new(PLAYER_EXIT_CODE, 8);
    builder.put_u64_le(player);
    builder.into_packet()
}

/// The frame that announces that the player with identity `player` stepped
/// in `direction`.
pub fn player_move(player: u64, direction: u8) -> (r: bytes::Bytes)
    ensures
        bytes_view(r) == frame_bytes(PLAYER_MOVE_CODE, le_u64(player).push(direction)),
{
    let mut builder = PacketBuilder::new(PLAYER_MOVE_CODE, 9);
    let ghost header = builder@;
    builder.put_u64_le(player);
    builder.put_u8(direction);
    assert(builder@ =~= header + le_u64(player).push(direction));
    builder.into_packet()
}

} // verus!
