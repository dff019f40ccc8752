//! The transition function: one encoded instruction moves the game forward.
//!
//! An instruction is exactly nine bytes: an action tag followed by a
//! little-endian amount. Tag 1 lets player 1 convert energy into troops,
//! tag 2 does the same for player 2, and tag 3 resolves the battle into the
//! battlefield record. Every other instruction is rejected, and a rejected
//! transition leaves all three record buffers exactly as they were.

use vstd::prelude::*;
use vstd::bytes::spec_u64_from_le_bytes;
use vstd::slice::slice_index_get;
use crate::error::Error;
use crate::records::{
    spec_battlefield_bytes, spec_battlefield_from_bytes, spec_player_bytes,
    spec_player_from_bytes, zero_bytes, BattleField, BattleFieldView, Player, PlayerView,
    BATTLEFIELD_LEN, PLAYER_LEN,
};

verus! {

broadcast use vstd::array::group_array_axioms;

/// Width in bytes of an encoded instruction: a 1-byte tag and an 8-byte
/// little-endian amount.
pub const INSTRUCTION_LEN: usize = 9;

/// The amount carried by a 9-byte instruction: its last eight bytes read as
/// a little-endian `u64`.
pub open spec fn spec_instruction_amount(instr: Seq<u8>) -> u64
    recommends
        instr.len() == INSTRUCTION_LEN,
{
    spec_u64_from_le_bytes(instr.subrange(1, 9))
}

/// Splits an instruction into its action tag and amount; any length other
/// than nine bytes is rejected.
pub fn parse_instruction_data(instruction_data: &[u8]) -> (r: Result<(u8, u64), Error>)
    ensures
        instruction_data@.len() != INSTRUCTION_LEN ==> r == Err::<(u8, u64), Error>(
            Error::InvalidInstruction,
        ),
        instruction_data@.len() == INSTRUCTION_LEN ==> r == Ok::<(u8, u64), Error>(
            (instruction_data@[0], spec_instruction_amount(instruction_data@)),
        ),
{
    if instruction_data.len() != INSTRUCTION_LEN {
        return Err(Error::InvalidInstruction);
    }
    let action = *slice_index_get(instruction_data, 0);
    let amount = crate::records::read_u64_le(instruction_data, 1);
    Ok((action, amount))
}

/// A player committing `amount` troops: energy pays for troops one-for-one,
/// and an amount beyond the available energy does nothing at all.
pub open spec fn spec_commit(p: PlayerView, amount: u64) -> PlayerView {
    if p.energy >= amount {
        PlayerView {
            energy: (p.energy - amount) as u64,
            troops: (p.troops + amount) as u64,
            ..p
        }
    } else {
        p
    }
}

/// Battle resolution: the strictly stronger side's strength is recorded and
/// the other side's field is zeroed; equal strengths change nothing.
pub open spec fn spec_resolve(b: BattleFieldView, troops1: u64, troops2: u64) -> BattleFieldView {
    if troops1 > troops2 {
        BattleFieldView { player1_troops: troops1, player2_troops: 0u64, ..b }
    } else if troops2 > troops1 {
        BattleFieldView { player1_troops: 0u64, player2_troops: troops2, ..b }
    } else {
        b
    }
}

/// The whole transition as a function of the inputs: either the error it is
/// rejected with, or the three records as they stand after the action.
pub open spec fn spec_transition(
    program_id: Seq<u8>,
    battlefield_owner: Seq<u8>,
    player1_data: Seq<u8>,
    player2_data: Seq<u8>,
    battlefield_data: Seq<u8>,
    instr: Seq<u8>,
) -> Result<(PlayerView, PlayerView, BattleFieldView), Error> {
    if battlefield_owner != program_id {
        Err(Error::WrongOwner)
    } else if instr.len() != INSTRUCTION_LEN {
        Err(Error::InvalidInstruction)
    } else if player1_data.len() < PLAYER_LEN || player2_data.len() < PLAYER_LEN
        || battlefield_data.len() < BATTLEFIELD_LEN {
        Err(Error::MalformedRecord)
    } else {
        let tag = instr[0];
        let amount = spec_instruction_amount(instr);
        let p1 = spec_player_from_bytes(player1_data);
        let p2 = spec_player_from_bytes(player2_data);
        let b = spec_battlefield_from_bytes(battlefield_data);
        if tag == 1 {
            Ok((spec_commit(p1, amount), p2, b))
        } else if tag == 2 {
            Ok((p1, spec_commit(p2, amount), b))
        } else if tag == 3 {
            Ok((p1, p2, spec_resolve(b, p1.troops, p2.troops)))
        } else {
            Err(Error::InvalidInstruction)
        }
    }
}

/// No committed amount overflows the tagged player's troop count: the one
/// machine limit a caller must respect, since troop counts are 64-bit.
pub open spec fn commit_fits(data: Seq<u8>, tag: u8, instr: Seq<u8>) -> bool {
    (instr.len() == INSTRUCTION_LEN && instr[0] == tag && data.len() >= PLAYER_LEN) ==> {
        let p = spec_player_from_bytes(data);
        p.energy >= spec_instruction_amount(instr) ==> p.troops + spec_instruction_amount(instr)
            <= u64::MAX
    }
}

/// Conservation: committing an affordable amount moves it, one-for-one, from
/// energy to troops, so the player's total of energy and troops is invariant;
/// the identity fields never move.
pub proof fn lemma_commit_conservation(p: PlayerView, amount: u64)
    requires
        amount <= p.energy,
        p.troops + amount <= u64::MAX,
    ensures
        spec_commit(p, amount).energy == p.energy - amount,
        spec_commit(p, amount).troops == p.troops + amount,
        spec_commit(p, amount).energy + spec_commit(p, amount).troops == p.energy + p.troops,
        spec_commit(p, amount).id == p.id,
        spec_commit(p, amount).pubkey == p.pubkey,
{
}

/// No-op safety: an amount beyond the available energy leaves the player
/// record exactly as it was.
pub proof fn lemma_commit_insufficient_energy(p: PlayerView, amount: u64)
    requires
        amount > p.energy,
    ensures
        spec_commit(p, amount) == p,
{
}

/// Battle resolution is a function of the two troop counts alone: a strictly
/// greater count wins and zeroes the other side, equal counts change nothing,
/// and the battlefield's identity fields never move.
pub proof fn lemma_resolve_deterministic(b: BattleFieldView, troops1: u64, troops2: u64)
    ensures
        troops1 > troops2 ==> spec_resolve(b, troops1, troops2) == (BattleFieldView {
            player1_troops: troops1,
            player2_troops: 0u64,
            ..b
        }),
        troops2 > troops1 ==> spec_resolve(b, troops1, troops2) == (BattleFieldView {
            player1_troops: 0u64,
            player2_troops: troops2,
            ..b
        }),
        troops1 == troops2 ==> spec_resolve(b, troops1, troops2) == b,
        spec_resolve(b, troops1, troops2).id == b.id,
        spec_resolve(b, troops1, troops2).player1 == b.player1,
        spec_resolve(b, troops1, troops2).player2 == b.player2,
{
}

/// Ownership gate: when the battlefield's recorded controller is not the
/// invoking identity the transition is rejected outright, before anything
/// else about the inputs is even looked at.
pub proof fn lemma_ownership_gate(
    program_id: Seq<u8>,
    battlefield_owner: Seq<u8>,
    player1_data: Seq<u8>,
    player2_data: Seq<u8>,
    battlefield_data: Seq<u8>,
    instr: Seq<u8>,
)
    requires
        battlefield_owner != program_id,
    ensures
        spec_transition(
            program_id,
            battlefield_owner,
            player1_data,
            player2_data,
            battlefield_data,
            instr,
        ) == Err::<(PlayerView, PlayerView, BattleFieldView), Error>(Error::WrongOwner),
{
}

/// Atomicity of rejection: an instruction of the wrong length, or with a tag
/// outside the three known actions, never yields a successful transition —
/// and `process_instruction` leaves the buffers untouched on every error.
pub proof fn lemma_invalid_instruction_rejected(
    program_id: Seq<u8>,
    battlefield_owner: Seq<u8>,
    player1_data: Seq<u8>,
    player2_data: Seq<u8>,
    battlefield_data: Seq<u8>,
    instr: Seq<u8>,
)
    requires
        instr.len() != INSTRUCTION_LEN || (instr[0] != 1 && instr[0] != 2 && instr[0] != 3),
    ensures
        spec_transition(
            program_id,
            battlefield_owner,
            player1_data,
            player2_data,
            battlefield_data,
            instr,
        ) is Err,
{
}

/// Compares two 32-byte identities.
pub fn identity_eq(a: &[u8; 32], b: &[u8; 32]) -> (r: bool)
    ensures
        r == (a@ == b@),
{
    let mut i: usize = 0;
    while i < 32
        invariant
            i <= 32,
            forall|j: int| 0 <= j < i ==> a@[j] == b@[j],
        decreases 32 - i,
    {
        if a[i] != b[i] {
            return false;
        }
        i = i + 1;
    }
    proof {
        assert(a@ =~= b@);
    }
    true
}

/// Validates an instruction against the three record buffers and applies its
/// action: tags 1 and 2 convert the tagged player's energy into troops, tag 3
/// resolves the battle into the battlefield record. On success all three
/// records are re-encoded into their buffers; on any error the buffers are
/// left byte-for-byte as they were.
pub fn process_instruction(
    program_id: &[u8; 32],
    battlefield_owner: &[u8; 32],
    player1_data: &mut Vec<u8>,
    player2_data: &mut Vec<u8>,
    battlefield_data: &mut Vec<u8>,
    instruction_data: &[u8],
) -> (r: Result<(), Error>)
    requires
        commit_fits(old(player1_data)@, 1, instruction_data@),
        commit_fits(old(player2_data)@, 2, instruction_data@),
    ensures
        final(player1_data)@.len() == old(player1_data)@.len(),
        final(player2_data)@.len() == old(player2_data)@.len(),
        final(battlefield_data)@.len() == old(battlefield_data)@.len(),
        ({
            let t = spec_transition(
                program_id@,
                battlefield_owner@,
                old(player1_data)@,
                old(player2_data)@,
                old(battlefield_data)@,
                instruction_data@,
            );
            match t {
                Err(e) => {
                    &&& r == Err::<(), Error>(e)
                    &&& final(player1_data)@ == old(player1_data)@
                    &&& final(player2_data)@ == old(player2_data)@
                    &&& final(battlefield_data)@ == old(battlefield_data)@
                },
                Ok(recs) => {
                    &&& r == Ok::<(), Error>(())
                    &&& final(player1_data)@ == spec_player_bytes(recs.0) + zero_bytes(
                        (old(player1_data)@.len() - PLAYER_LEN) as nat,
                    )
                    &&& final(player2_data)@ == spec_player_bytes(recs.1) + zero_bytes(
                        (old(player2_data)@.len() - PLAYER_LEN) as nat,
                    )
                    &&& final(battlefield_data)@ == spec_battlefield_bytes(recs.2) + zero_bytes(
                        (old(battlefield_data)@.len() - BATTLEFIELD_LEN) as nat,
                    )
                },
            }
        }),
{
    if !identity_eq(battlefield_owner, program_id) {
        return Err(Error::WrongOwner);
    }
    let (action, amount) = match parse_instruction_data(instruction_data) {
        Ok(t) => t,
        Err(e) => {
            return Err(e);
        },
    };
    let mut player1 = match Player::load(player1_data.as_slice()) {
        Ok(p) => p,
        Err(e) => {
            return Err(e);
        },
    };
    let mut player2 = match Player::load(player2_data.as_slice()) {
        Ok(p) => p,
        Err(e) => {
            return Err(e);
        },
    };
    let mut battlefield = match BattleField::load(battlefield_data.as_slice()) {
        Ok(b) => b,
        Err(e) => {
            return Err(e);
        },
    };
    if action == 1 {
        if player1.energy >= amount {
            player1.energy = player1.energy - amount;
            player1.troops = player1.troops + amount;
        }
        proof {
            assert(player1@ =~= spec_commit(spec_player_from_bytes(old(player1_data)@), amount));
        }
    } else if action == 2 {
        if player2.energy >= amount {
            player2.energy = player2.energy - amount;
            player2.troops = player2.troops + amount;
        }
        proof {
            assert(player2@ =~= spec_commit(spec_player_from_bytes(old(player2_data)@), amount));
        }
    } else if action == 3 {
        if player1.troops > player2.troops {
            battlefield.player1_troops = player1.troops;
            battlefield.player2_troops = 0;
        } else if player2.troops > player1.troops {
            battlefield.player1_troops = 0;
            battlefield.player2_troops = player2.troops;
        }
        proof {
            assert(battlefield@ =~= spec_resolve(
                spec_battlefield_from_bytes(old(battlefield_data)@),
                spec_player_from_bytes(old(player1_data)@).troops,
                spec_player_from_bytes(old(player2_data)@).troops,
            ));
        }
    } else {
        return Err(Error::InvalidInstruction);
    }
    match player1.save(player1_data) {
        Ok(u) => u,
        Err(e) => {
            return Err(e);
        },
    };
    match player2.save(player2_data) {
        Ok(u) => u,
        Err(e) => {
            return Err(e);
        },
    };
    match battlefield.save(battlefield_data) {
        Ok(u) => u,
        Err(e) => {
            return Err(e);
        },
    };
    Ok(())
}

} // verus!
