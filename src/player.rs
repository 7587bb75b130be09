//! A player of the world: an identity, how it is drawn, and where it stands.

use vstd::prelude::*;
use crate::frame::le_u64;

verus! {

/// A position on the map.
#[derive(PartialEq, Eq, Structural, Clone, Copy, Debug)]
pub struct Object {
    pub x: i32,
    pub y: i32,
}

impl Object {
    pub fn new(x: i32, y: i32) -> (r: Object)
        ensures
            r == (Object { x, y }),
    {
        Object { x, y }
    }
}

/// The glyph that every player is drawn with.
pub const PLAYER_GLYPH: char = '@';

/// A colour channel derived from one byte of an identity: lifted by 64 and
/// capped at 255, so that no player is drawn too dark.
pub open spec fn tint(b: u8) -> u8 {
    if b as int + 64 > 255 { 255 } else { (b + 64) as u8 }
}

/// The colour of the player with identity `id`, from its three least
/// significant bytes.
pub open spec fn player_color(id: u64) -> (u8, u8, u8) {
    (tint(le_u64(id)[0]), tint(le_u64(id)[1]), tint(le_u64(id)[2]))
}

/// Relies on byteorder's `WriteBytesExt::write_u64::<LittleEndian>` into a
/// `Vec<u8>`: it appends the eight bytes of `v`, least significant first, and
/// cannot fail on a `Vec`.
#[verifier::external_body]
fn u64_le_bytes(v: u64) -> (r: Vec<u8>)
    ensures
        r@ == le_u64(v),
{
    let mut bytes = Vec::with_capacity(8);
    byteorder::WriteBytesExt::write_u64::<byteorder::LittleEndian>(&mut bytes, v).unwrap();
    bytes
}

fn tint_of(b: u8) -> (r: u8)
    ensures
        r == tint(b),
{
    if b > 191 { 255 } else { b + 64 }
}

pub struct Player {
    id: u64,
    glyph: char,
    color: (u8, u8, u8),
    object: Object,
}

impl Player {
    pub closed spec fn spec_id(&self) -> u64 {
        self.id
    }

    pub closed spec fn spec_glyph(&self) -> char {
        self.glyph
    }

    pub closed spec fn spec_color(&self) -> (u8, u8, u8) {
        self.color
    }

    pub closed spec fn spec_object(&self) -> Object {
        self.object
    }

    /// A player standing at (`x`, `y`), drawn with `PLAYER_GLYPH` in the
    /// colour derived from its identity.
    pub fn new(id: u64, x: i32, y: i32) -> (r: Player)
        ensures
            r.spec_id() == id,
            r.spec_glyph() == PLAYER_GLYPH,
            r.spec_color() == player_color(id),
            r.spec_object() == (Object { x, y }),
    {
        let bytes = u64_le_bytes(id);
        Player {
            id,
            glyph: PLAYER_GLYPH,
            color: (tint_of(bytes[0]), tint_of(bytes[1]), tint_of(bytes[2])),
            object: Object::new(x, y),
        }
    }

    #[verifier::when_used_as_spec(spec_id)]
    pub fn id(&self) -> (r: u64)
        ensures
            r == self.spec_id(),
    {
        self.id
    }

    #[verifier::when_used_as_spec(spec_glyph)]
    pub fn glyph(&self) -> (r: char)
        ensures
            r == self.spec_glyph(),
    {
        self.glyph
    }

    #[verifier::when_used_as_spec(spec_color)]
    pub fn color(&self) -> (r: (u8, u8, u8))
        ensures
            r == self.spec_color(),
    {
        self.color
    }

    pub fn object(&self) -> (r: &Object)
        ensures
            *r == self.spec_object(),
    {
        &self.object
    }

    /// The player's position, to be moved in place; nothing else changes.
    pub fn object_mut(&mut self) -> (r: &mut Object)
        ensures
            *r == old(self).spec_object(),
            final(self).spec_object() == *final(r),
            final(self).spec_id() == old(self).spec_id(),
            final(self).spec_glyph() == old(self).spec_glyph(),
            final(self).spec_color() == old(self).spec_color(),
    {
        &mut self.object
    }
}

} // verus!
