//! The two record shapes and their fixed-offset binary codec.
//!
//! Each record is persisted as a fixed-width little-endian byte string:
//! `Player` as `id`(8) | `pubkey`(32) | `energy`(8) | `troops`(8), 56 bytes;
//! `BattleField` as `id`(8) | `player1`(32) | `player2`(32) |
//! `player1_troops`(8) | `player2_troops`(8), 88 bytes. Loading reads the
//! leading fixed-width region; saving rewrites it and zero-fills whatever
//! trailing capacity the buffer has beyond it.

use vstd::prelude::*;
use vstd::bytes::{
    lemma_auto_spec_u64_to_from_le_bytes, spec_u64_from_le_bytes, spec_u64_to_le_bytes,
    u64_from_le_bytes, u64_to_le_bytes,
};
use vstd::slice::{slice_index_get, slice_subrange};
use crate::error::Error;

verus! {

broadcast use vstd::array::group_array_axioms;

/// Width in bytes of an identity (a public key).
pub const IDENTITY_LEN: usize = 32;

/// Minimum buffer width of an encoded `Player`.
pub const PLAYER_LEN: usize = 56;

/// Minimum buffer width of an encoded `BattleField`.
pub const BATTLEFIELD_LEN: usize = 88;

/// A player record: an immutable identity plus two spendable resources.
#[derive(Debug, Default, Clone, Copy, PartialEq, Eq)]
pub struct Player {
    /// Unique identifier, immutable after creation.
    pub id: u64,
    /// The player's 32-byte public identity, immutable.
    pub pubkey: [u8; 32],
    /// Spendable resource, consumed one-for-one to commit troops.
    pub energy: u64,
    /// Committed military strength.
    pub troops: u64,
}

/// The mathematical model of a `Player`: the identity as a byte sequence.
#[verifier::ext_equal]
pub struct PlayerView {
    /// Model of `Player::id`.
    pub id: u64,
    /// Model of `Player::pubkey`, always 32 bytes for a well-formed value.
    pub pubkey: Seq<u8>,
    /// Model of `Player::energy`.
    pub energy: u64,
    /// Model of `Player::troops`.
    pub troops: u64,
}

impl View for Player {
    type V = PlayerView;

    open spec fn view(&self) -> PlayerView {
        PlayerView { id: self.id, pubkey: self.pubkey@, energy: self.energy, troops: self.troops }
    }
}

/// A battlefield record: the two combatants' identities and the strengths
/// recorded at the last resolution.
#[derive(Debug, Default, Clone, Copy, PartialEq, Eq)]
pub struct BattleField {
    /// Unique identifier, immutable after creation.
    pub id: u64,
    /// The first combatant's 32-byte public identity, immutable.
    pub player1: [u8; 32],
    /// The second combatant's 32-byte public identity, immutable.
    pub player2: [u8; 32],
    /// The first combatant's strength recorded at the last resolution.
    pub player1_troops: u64,
    /// The second combatant's strength recorded at the last resolution.
    pub player2_troops: u64,
}

/// The mathematical model of a `BattleField`: identities as byte sequences.
#[verifier::ext_equal]
pub struct BattleFieldView {
    /// Model of `BattleField::id`.
    pub id: u64,
    /// Model of `BattleField::player1`, always 32 bytes for a well-formed value.
    pub player1: Seq<u8>,
    /// Model of `BattleField::player2`, always 32 bytes for a well-formed value.
    pub player2: Seq<u8>,
    /// Model of `BattleField::player1_troops`.
    pub player1_troops: u64,
    /// Model of `BattleField::player2_troops`.
    pub player2_troops: u64,
}

impl View for BattleField {
    type V = BattleFieldView;

    open spec fn view(&self) -> BattleFieldView {
        BattleFieldView {
            id: self.id,
            player1: self.player1@,
            player2: self.player2@,
            player1_troops: self.player1_troops,
            player2_troops: self.player2_troops,
        }
    }
}

/// A sequence of `n` zero bytes, the fill for trailing buffer capacity.
pub open spec fn zero_bytes(n: nat) -> Seq<u8> {
    Seq::new(n, |i: int| 0u8)
}

/// The 56-byte encoding of a player record.
pub open spec fn spec_player_bytes(p: PlayerView) -> Seq<u8> {
    spec_u64_to_le_bytes(p.id) + p.pubkey + spec_u64_to_le_bytes(p.energy)
        + spec_u64_to_le_bytes(p.troops)
}

/// The player record read from the leading 56 bytes of a buffer.
pub open spec fn spec_player_from_bytes(data: Seq<u8>) -> PlayerView
    recommends
        data.len() >= PLAYER_LEN,
{
    PlayerView {
        id: spec_u64_from_le_bytes(data.subrange(0, 8)),
        pubkey: data.subrange(8, 40),
        energy: spec_u64_from_le_bytes(data.subrange(40, 48)),
        troops: spec_u64_from_le_bytes(data.subrange(48, 56)),
    }
}

/// Reading back an encoded player yields the same record, whatever trailing
/// bytes follow the 56-byte region.
pub proof fn lemma_player_round_trip(p: PlayerView, tail: Seq<u8>)
    requires
        p.pubkey.len() == IDENTITY_LEN,
    ensures
        spec_player_from_bytes(spec_player_bytes(p) + tail) == p,
{
    lemma_auto_spec_u64_to_from_le_bytes();
    let enc = spec_player_bytes(p) + tail;
    assert(enc.subrange(0, 8) =~= spec_u64_to_le_bytes(p.id));
    assert(enc.subrange(8, 40) =~= p.pubkey);
    assert(enc.subrange(40, 48) =~= spec_u64_to_le_bytes(p.energy));
    assert(enc.subrange(48, 56) =~= spec_u64_to_le_bytes(p.troops));
    assert(spec_player_from_bytes(enc) =~= p);
}

/// The 88-byte encoding of a battlefield record.
pub open spec fn spec_battlefield_bytes(b: BattleFieldView) -> Seq<u8> {
    spec_u64_to_le_bytes(b.id) + b.player1 + b.player2 + spec_u64_to_le_bytes(b.player1_troops)
        + spec_u64_to_le_bytes(b.player2_troops)
}

/// The battlefield record read from the leading 88 bytes of a buffer.
pub open spec fn spec_battlefield_from_bytes(data: Seq<u8>) -> BattleFieldView
    recommends
        data.len() >= BATTLEFIELD_LEN,
{
    BattleFieldView {
        id: spec_u64_from_le_bytes(data.subrange(0, 8)),
        player1: data.subrange(8, 40),
        player2: data.subrange(40, 72),
        player1_troops: spec_u64_from_le_bytes(data.subrange(72, 80)),
        player2_troops: spec_u64_from_le_bytes(data.subrange(80, 88)),
    }
}

/// Reading back an encoded battlefield yields the same record, whatever
/// trailing bytes follow the 88-byte region.
pub proof fn lemma_battlefield_round_trip(b: BattleFieldView, tail: Seq<u8>)
    requires
        b.player1.len() == IDENTITY_LEN,
        b.player2.len() == IDENTITY_LEN,
    ensures
        spec_battlefield_from_bytes(spec_battlefield_bytes(b) + tail) == b,
{
    lemma_auto_spec_u64_to_from_le_bytes();
    let enc = spec_battlefield_bytes(b) + tail;
    assert(enc.subrange(0, 8) =~= spec_u64_to_le_bytes(b.id));
    assert(enc.subrange(8, 40) =~= b.player1);
    assert(enc.subrange(40, 72) =~= b.player2);
    assert(enc.subrange(72, 80) =~= spec_u64_to_le_bytes(b.player1_troops));
    assert(enc.subrange(80, 88) =~= spec_u64_to_le_bytes(b.player2_troops));
    assert(spec_battlefield_from_bytes(enc) =~= b);
}

/// The little-endian `u64` at `offset`.
pub(crate) fn read_u64_le(data: &[u8], offset: usize) -> (r: u64)
    requires
        offset + 8 <= data.len(),
    ensures
        r == spec_u64_from_le_bytes(data@.subrange(offset as int, offset + 8)),
{
    let s = slice_subrange(data, offset, offset + 8);
    u64_from_le_bytes(s)
}

/// The 32 identity bytes at `offset`, as an owned array.
pub(crate) fn read_identity(data: &[u8], offset: usize) -> (r: [u8; 32])
    requires
        offset + IDENTITY_LEN <= data.len(),
    ensures
        r@ == data@.subrange(offset as int, offset + IDENTITY_LEN),
{
    let mut out: [u8; 32] = [0u8; 32];
    let mut i: usize = 0;
    while i < 32
        invariant
            i <= 32,
            offset + 32 <= data.len(),
            forall|j: int| 0 <= j < i ==> out@[j] == data@[offset + j],
        decreases 32 - i,
    {
        out[i] = *slice_index_get(data, offset + i);
        i = i + 1;
    }
    proof {
        assert(out@ =~= data@.subrange(offset as int, offset + IDENTITY_LEN));
    }
    out
}

/// Overwrites the 8 bytes at `offset` with the little-endian `u64`.
pub(crate) fn write_u64_le(data: &mut Vec<u8>, offset: usize, v: u64)
    requires
        offset + 8 <= old(data).len(),
    ensures
        final(data)@.len() == old(data)@.len(),
        forall|j: int| 0 <= j < 8 ==> final(data)@[offset + j] == spec_u64_to_le_bytes(v)[j],
        forall|j: int|
            0 <= j < old(data)@.len() && !(offset <= j < offset + 8) ==> final(data)@[j] == old(
                data,
            )@[j],
{
    proof {
        lemma_auto_spec_u64_to_from_le_bytes();
    }
    let bytes = u64_to_le_bytes(v);
    let mut i: usize = 0;
    while i < 8
        invariant
            i <= 8,
            offset + 8 <= old(data).len(),
            data@.len() == old(data)@.len(),
            bytes@ == spec_u64_to_le_bytes(v),
            bytes@.len() == 8,
            forall|j: int| 0 <= j < i ==> data@[offset + j] == bytes@[j],
            forall|j: int|
                0 <= j < old(data)@.len() && !(offset <= j < offset + i) ==> data@[j] == old(
                    data,
                )@[j],
        decreases 8 - i,
    {
        let b = bytes[i];
        data[offset + i] = b;
        i = i + 1;
    }
}

/// Overwrites the 32 bytes at `offset` with the identity bytes.
pub(crate) fn write_identity(data: &mut Vec<u8>, offset: usize, src: &[u8; 32])
    requires
        offset + IDENTITY_LEN <= old(data).len(),
    ensures
        final(data)@.len() == old(data)@.len(),
        forall|j: int| 0 <= j < 32 ==> final(data)@[offset + j] == src@[j],
        forall|j: int|
            0 <= j < old(data)@.len() && !(offset <= j < offset + 32) ==> final(data)@[j] == old(
                data,
            )@[j],
{
    let mut i: usize = 0;
    while i < 32
        invariant
            i <= 32,
            offset + 32 <= old(data).len(),
            data@.len() == old(data)@.len(),
            forall|j: int| 0 <= j < i ==> data@[offset + j] == src@[j],
            forall|j: int|
                0 <= j < old(data)@.len() && !(offset <= j < offset + i) ==> data@[j] == old(
                    data,
                )@[j],
        decreases 32 - i,
    {
        let b = src[i];
        data[offset + i] = b;
        i = i + 1;
    }
}

/// Zeroes every byte from `offset` to the end of the buffer.
pub(crate) fn zero_fill(data: &mut Vec<u8>, offset: usize)
    requires
        offset <= old(data).len(),
    ensures
        final(data)@.len() == old(data)@.len(),
        forall|j: int| 0 <= j < offset ==> final(data)@[j] == old(data)@[j],
        forall|j: int| offset <= j < old(data)@.len() ==> final(data)@[j] == 0u8,
{
    let mut i: usize = offset;
    while i < data.len()
        invariant
            offset <= i <= data@.len(),
            data@.len() == old(data)@.len(),
            forall|j: int| 0 <= j < offset ==> data@[j] == old(data)@[j],
            forall|j: int| offset <= j < i ==> data@[j] == 0u8,
        decreases data@.len() - i,
    {
        data[i] = 0u8;
        i = i + 1;
    }
}

impl Player {
    /// Decodes a player record from the leading 56 bytes of the buffer; a
    /// shorter buffer is a malformed record.
    pub fn load(data: &[u8]) -> (r: Result<Player, Error>)
        ensures
            data@.len() < PLAYER_LEN ==> r == Err::<Player, Error>(Error::MalformedRecord),
            data@.len() >= PLAYER_LEN ==> (r matches Ok(p) && p@ == spec_player_from_bytes(data@)),
    {
        if data.len() < PLAYER_LEN {
            return Err(Error::MalformedRecord);
        }
        let id = read_u64_le(data, 0);
        let pubkey = read_identity(data, 8);
        let energy = read_u64_le(data, 40);
        let troops = read_u64_le(data, 48);
        let p = Player { id, pubkey, energy, troops };
        proof {
            assert(p@ =~= spec_player_from_bytes(data@));
        }
        Ok(p)
    }

    /// Encodes the record into the leading 56 bytes of the buffer and
    /// zero-fills the rest; a shorter buffer is left untouched and reported
    /// as a malformed record.
    pub fn save(&self, data: &mut Vec<u8>) -> (r: Result<(), Error>)
        ensures
            final(data)@.len() == old(data)@.len(),
            old(data)@.len() < PLAYER_LEN ==> r == Err::<(), Error>(Error::MalformedRecord)
                && final(data)@ == old(data)@,
            old(data)@.len() >= PLAYER_LEN ==> r == Ok::<(), Error>(()) && final(data)@
                == spec_player_bytes(self@) + zero_bytes((old(data)@.len() - PLAYER_LEN) as nat),
    {
        if data.len() < PLAYER_LEN {
            return Err(Error::MalformedRecord);
        }
        write_u64_le(data, 0, self.id);
        write_identity(data, 8, &self.pubkey);
        write_u64_le(data, 40, self.energy);
        write_u64_le(data, 48, self.troops);
        zero_fill(data, PLAYER_LEN);
        proof {
            lemma_auto_spec_u64_to_from_le_bytes();
            assert(data@ =~= spec_player_bytes(self@) + zero_bytes(
                (old(data)@.len() - PLAYER_LEN) as nat,
            ));
        }
        Ok(())
    }
}

impl BattleField {
    /// Decodes a battlefield record from the leading 88 bytes of the buffer;
    /// a shorter buffer is a malformed record.
    pub fn load(data: &[u8]) -> (r: Result<BattleField, Error>)
        ensures
            data@.len() < BATTLEFIELD_LEN ==> r == Err::<BattleField, Error>(
                Error::MalformedRecord,
            ),
            data@.len() >= BATTLEFIELD_LEN ==> (r matches Ok(b) && b@
                == spec_battlefield_from_bytes(data@)),
    {
        if data.len() < BATTLEFIELD_LEN {
            return Err(Error::MalformedRecord);
        }
        let id = read_u64_le(data, 0);
        let player1 = read_identity(data, 8);
        let player2 = read_identity(data, 40);
        let player1_troops = read_u64_le(data, 72);
        let player2_troops = read_u64_le(data, 80);
        let b = BattleField { id, player1, player2, player1_troops, player2_troops };
        proof {
            assert(b@ =~= spec_battlefield_from_bytes(data@));
        }
        Ok(b)
    }

    /// Encodes the record into the leading 88 bytes of the buffer and
    /// zero-fills the rest; a shorter buffer is left untouched and reported
    /// as a malformed record.
    pub fn save(&self, data: &mut Vec<u8>) -> (r: Result<(), Error>)
        ensures
            final(data)@.len() == old(data)@.len(),
            old(data)@.len() < BATTLEFIELD_LEN ==> r == Err::<(), Error>(Error::MalformedRecord)
                && final(data)@ == old(data)@,
            old(data)@.len() >= BATTLEFIELD_LEN ==> r == Ok::<(), Error>(()) && final(data)@
                == spec_battlefield_bytes(self@) + zero_bytes(
                (old(data)@.len() - BATTLEFIELD_LEN) as nat,
            ),
    {
        if data.len() < BATTLEFIELD_LEN {
            return Err(Error::MalformedRecord);
        }
        write_u64_le(data, 0, self.id);
        write_identity(data, 8, &self.player1);
        write_identity(data, 40, &self.player2);
        write_u64_le(data, 72, self.player1_troops);
        write_u64_le(data, 80, self.player2_troops);
        zero_fill(data, BATTLEFIELD_LEN);
        proof {
            lemma_auto_spec_u64_to_from_le_bytes();
            assert(data@ =~= spec_battlefield_bytes(self@) + zero_bytes(
                (old(data)@.len() - BATTLEFIELD_LEN) as nat,
            ));
        }
        Ok(())
    }
}

} // verus!
