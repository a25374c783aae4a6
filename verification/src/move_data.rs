//! Move data: the 14-byte record of one move.
//!
//! Layout, little-endian: battle effect (`u16`), split (byte 0, 1 or 2),
//! power, type, accuracy, PP, side effect chance (bytes), target (`u16`),
//! priority (`i8`), flags (byte, six defined bits), contest appeal and
//! contest condition (bytes).
use vstd::prelude::*;
use crate::bytes::{u16_at, i8_of, u8_of, enc_u16, read_u16, push_u16, to_i8, from_i8};
use crate::error::{UxieError, ErrorKind};

verus! {

pub const MOVE_DATA_SIZE: usize = 14;

/// Bit of `MoveFlags`: the move makes contact.
pub const MAKES_CONTACT: u8 = 0x01;

/// Bit of `MoveFlags`: Protect blocks the move.
pub const AFFECTED_BY_PROTECT: u8 = 0x02;

/// Bit of `MoveFlags`: Magic Coat reflects the move.
pub const AFFECTED_BY_MAGIC_COAT: u8 = 0x04;

/// Bit of `MoveFlags`: Snatch steals the move.
pub const AFFECTED_BY_SNATCH: u8 = 0x08;

/// Bit of `MoveFlags`: Mirror Move can copy the move.
pub const USABLE_BY_MIRROR_MOVE: u8 = 0x10;

/// Bit of `MoveFlags`: King's Rock applies to the move.
pub const AFFECTED_BY_KINGS_ROCK: u8 = 0x20;

/// The mask of the six defined flag bits.
pub const MOVE_FLAGS_ALL: u8 = 0x3F;

/// Physical, special or status move.
#[derive(Debug, Clone, Copy, PartialEq, Eq, Structural)]
pub enum MoveSplit {
    Physical,
    Special,
    Status,
}

/// The split a byte stands for when it is converted with `From`: 0 and 1
/// are physical and special, every other byte is status.
pub open spec fn split_from_byte(v: u8) -> MoveSplit {
    if v == 0 {
        MoveSplit::Physical
    } else if v == 1 {
        MoveSplit::Special
    } else {
        MoveSplit::Status
    }
}

/// The byte a split is stored as.
pub open spec fn split_byte(s: MoveSplit) -> u8 {
    match s {
        MoveSplit::Physical => 0,
        MoveSplit::Special => 1,
        MoveSplit::Status => 2,
    }
}

impl From<u8> for MoveSplit {
    fn from(v: u8) -> (s: Self) {
        if v == 0 {
            MoveSplit::Physical
        } else if v == 1 {
            MoveSplit::Special
        } else {
            MoveSplit::Status
        }
    }
}

impl vstd::std_specs::convert::FromSpecImpl<u8> for MoveSplit {
    open spec fn obeys_from_spec() -> bool {
        true
    }

    open spec fn from_spec(v: u8) -> MoveSplit {
        split_from_byte(v)
    }
}

impl MoveSplit {
    /// The byte this split is stored as.
    pub fn to_byte(&self) -> (b: u8)
        ensures
            b == split_byte(*self),
    {
        match self {
            MoveSplit::Physical => 0,
            MoveSplit::Special => 1,
            MoveSplit::Status => 2,
        }
    }
}

/// The flag bits of a move. Reading keeps the six defined bits; any byte
/// can be held and is written as it is.
#[derive(Debug, Clone, Copy, PartialEq, Eq, Structural)]
pub struct MoveFlags {
    pub bits: u8,
}

impl MoveFlags {
    /// No flag set.
    pub fn empty() -> (f: Self)
        ensures
            f.bits == 0,
    {
        MoveFlags { bits: 0 }
    }

    /// The defined bits of `bits`; the others are dropped.
    pub fn from_bits_truncate(bits: u8) -> (f: Self)
        ensures
            f.bits == bits % 64,
    {
        assert(bits & 0x3F == bits % 64) by (bit_vector);
        MoveFlags { bits: bits & MOVE_FLAGS_ALL }
    }

    /// `bits` as they are.
    pub fn from_bits_retain(bits: u8) -> (f: Self)
        ensures
            f.bits == bits,
    {
        MoveFlags { bits }
    }

    /// The stored byte.
    pub fn bits(&self) -> (b: u8)
        ensures
            b == self.bits,
    {
        self.bits
    }

    /// Every bit of `other` is set here.
    pub fn contains(&self, other: MoveFlags) -> (b: bool)
        ensures
            b == (self.bits & other.bits == other.bits),
    {
        self.bits & other.bits == other.bits
    }
}

/// One move.
#[derive(Debug, Clone, PartialEq, Eq, Structural)]
pub struct MoveData {
    pub battle_effect: u16,
    pub split: MoveSplit,
    pub power: u8,
    pub move_type: u8,
    pub accuracy: u8,
    pub pp: u8,
    pub side_effect_chance: u8,
    pub target: u16,
    pub priority: i8,
    pub flags: MoveFlags,
    pub contest_appeal: u8,
    pub contest_condition: u8,
}

/// The first 14 bytes hold a record: byte 2 is a valid split.
pub open spec fn move_bytes_ok(b: Seq<u8>) -> bool {
    b.len() >= 14 && b[2] <= 2
}

/// The move the first 14 bytes hold.
pub open spec fn move_decode(b: Seq<u8>) -> MoveData {
    MoveData {
        battle_effect: u16_at(b, 0),
        split: split_from_byte(b[2]),
        power: b[3],
        move_type: b[4],
        accuracy: b[5],
        pp: b[6],
        side_effect_chance: b[7],
        target: u16_at(b, 8),
        priority: i8_of(b[10]),
        flags: MoveFlags { bits: b[11] % 64 },
        contest_appeal: b[12],
        contest_condition: b[13],
    }
}

/// The 14 bytes of a move.
pub open spec fn move_encode(m: MoveData) -> Seq<u8> {
    enc_u16(m.battle_effect) + seq![
        split_byte(m.split),
        m.power,
        m.move_type,
        m.accuracy,
        m.pp,
        m.side_effect_chance,
    ] + enc_u16(m.target) + seq![u8_of(m.priority), m.flags.bits, m.contest_appeal, m.contest_condition]
}

/// The message of the error for a split byte above 2.
pub open spec fn bad_split_message() -> Seq<char> {
    "invalid move split"@
}

impl MoveData {
    /// Read a move from the start of `data`.
    pub fn from_binary(data: &[u8]) -> (r: Result<Self, UxieError>)
        ensures
            move_bytes_ok(data@) ==> r == Ok::<MoveData, UxieError>(move_decode(data@)),
            !move_bytes_ok(data@) ==> (r matches Err(e) && e.spec_kind() == ErrorKind::InvalidData
                && (e matches UxieError::Io { message, .. } && (message@ == bad_split_message()
                <==> (data@.len() >= 3 && data@[2] > 2)))),
    {
        if data.len() >= 3 && data[2] > 2 {
            let e = UxieError::invalid_data(String::from_str("invalid move split"));
            proof {
                reveal_strlit("invalid move split");
            }
            return Err(e);
        }
        if data.len() < MOVE_DATA_SIZE {
            let m = String::from_str("failed to fill whole buffer");
            proof {
                reveal_strlit("failed to fill whole buffer");
                reveal_strlit("invalid move split");
                assert(m@[0] != bad_split_message()[0]);
            }
            let e = UxieError::invalid_data(m);
            return Err(e);
        }
        Ok(MoveData {
            battle_effect: read_u16(data, 0),
            split: MoveSplit::from(data[2]),
            power: data[3],
            move_type: data[4],
            accuracy: data[5],
            pp: data[6],
            side_effect_chance: data[7],
            target: read_u16(data, 8),
            priority: to_i8(data[10]),
            flags: MoveFlags::from_bits_truncate(data[11]),
            contest_appeal: data[12],
            contest_condition: data[13],
        })
    }

    /// Append the 14 bytes of this move.
    pub fn to_binary(&self, out: &mut Vec<u8>)
        ensures
            final(out)@ == old(out)@ + move_encode(*self),
    {
        let ghost start = out@;
        push_u16(out, self.battle_effect);
        out.push(self.split.to_byte());
        out.push(self.power);
        out.push(self.move_type);
        out.push(self.accuracy);
        out.push(self.pp);
        out.push(self.side_effect_chance);
        push_u16(out, self.target);
        out.push(from_i8(self.priority));
        out.push(self.flags.bits());
        out.push(self.contest_appeal);
        out.push(self.contest_condition);
        assert(out@ =~= start + move_encode(*self));
    }

    /// The 14 bytes of this move.
    pub fn to_bytes(&self) -> (bytes: Vec<u8>)
        ensures
            bytes@ == move_encode(*self),
            bytes@.len() == MOVE_DATA_SIZE,
    {
        let mut out: Vec<u8> = Vec::new();
        self.to_binary(&mut out);
        assert(out@ =~= move_encode(*self));
        out
    }
}

/// Law: a move whose flags hold only defined bits, written and read back,
/// is the same move; it is written as 14 bytes.
pub proof fn move_data_roundtrip(m: MoveData)
    requires
        m.flags.bits < 64,
    ensures
        move_encode(m).len() == MOVE_DATA_SIZE,
        move_bytes_ok(move_encode(m)),
        move_decode(move_encode(m)) == m,
{
    let b = move_encode(m);
    crate::bytes::lemma_u16_roundtrip(Seq::empty(), m.battle_effect, b.subrange(2, 14));
    assert(Seq::<u8>::empty() + enc_u16(m.battle_effect) + b.subrange(2, 14) =~= b);
    crate::bytes::lemma_u16_roundtrip(b.subrange(0, 8), m.target, b.subrange(10, 14));
    assert(b.subrange(0, 8) + enc_u16(m.target) + b.subrange(10, 14) =~= b);
    assert(i8_of(u8_of(m.priority)) == m.priority);
    assert(split_from_byte(split_byte(m.split)) == m.split);
}

/// Law: 14 bytes with a valid split and only defined flag bits, read and
/// written again, are the same bytes.
pub proof fn move_bytes_roundtrip(b: Seq<u8>)
    requires
        move_bytes_ok(b),
        b[11] < 64,
    ensures
        move_encode(move_decode(b)) == b.subrange(0, 14),
{
    crate::bytes::lemma_enc_u16_of_bytes(b[0], b[1]);
    crate::bytes::lemma_enc_u16_of_bytes(b[8], b[9]);
    assert(u8_of(i8_of(b[10])) == b[10]);
    assert(move_encode(move_decode(b)) =~= b.subrange(0, 14));
}

/// Law: a move record is, from byte 0, its battle effect (a little-endian
/// `u16`), its split (0 physical, 1 special, 2 status), power, type,
/// accuracy, PP and side-effect chance (a byte each), its target (a
/// little-endian `u16` at 8), its priority (a signed byte at 10), its flags
/// (byte 11) and its contest appeal and condition (bytes 12 and 13).
/// Reading takes each field from there.
pub proof fn move_read_layout(b: Seq<u8>)
    requires
        b.len() >= MOVE_DATA_SIZE,
    ensures
        move_decode(b).battle_effect as int == b[0] + 256 * b[1],
        b[2] == 0 ==> move_decode(b).split == MoveSplit::Physical,
        b[2] == 1 ==> move_decode(b).split == MoveSplit::Special,
        b[2] == 2 ==> move_decode(b).split == MoveSplit::Status,
        move_decode(b).power == b[3],
        move_decode(b).move_type == b[4],
        move_decode(b).accuracy == b[5],
        move_decode(b).pp == b[6],
        move_decode(b).side_effect_chance == b[7],
        move_decode(b).target as int == b[8] + 256 * b[9],
        move_decode(b).priority as int == if b[10] < 128 { b[10] as int } else { b[10] - 256 },
        b[11] < 64 ==> move_decode(b).flags.bits == b[11],
        move_decode(b).contest_appeal == b[12],
        move_decode(b).contest_condition == b[13],
{
}

/// Law: writing a move puts each field where [`move_read_layout`] reads it.
pub proof fn move_write_layout(m: MoveData)
    ensures
        move_encode(m).len() == MOVE_DATA_SIZE,
        move_encode(m)[0] as int + 256 * move_encode(m)[1] as int == m.battle_effect,
        move_encode(m)[2] == match m.split {
            MoveSplit::Physical => 0u8,
            MoveSplit::Special => 1u8,
            MoveSplit::Status => 2u8,
        },
        move_encode(m)[3] == m.power,
        move_encode(m)[4] == m.move_type,
        move_encode(m)[5] == m.accuracy,
        move_encode(m)[6] == m.pp,
        move_encode(m)[7] == m.side_effect_chance,
        move_encode(m)[8] as int + 256 * move_encode(m)[9] as int == m.target,
        (if move_encode(m)[10] < 128 { move_encode(m)[10] as int } else { move_encode(m)[10] - 256 }) == m.priority,
        move_encode(m)[11] == m.flags.bits,
        move_encode(m)[12] == m.contest_appeal,
        move_encode(m)[13] == m.contest_condition,
{
    let e = move_encode(m);
    assert(e[0] == (m.battle_effect % 256) as u8 && e[1] == (m.battle_effect / 256) as u8);
    assert(e[8] == (m.target % 256) as u8 && e[9] == (m.target / 256) as u8);
    assert(e[10] == u8_of(m.priority));
}

} // verus!
