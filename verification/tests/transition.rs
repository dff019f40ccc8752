use battlegame::error::Error;
use battlegame::records::{BattleField, Player};
use battlegame::transition::{parse_instruction_data, process_instruction};

const PROGRAM_ID: [u8; 32] = [0xA0u8; 32];

fn player_buf(id: u64, pubkey: [u8; 32], energy: u64, troops: u64) -> Vec<u8> {
    let p = Player { id, pubkey, energy, troops };
    let mut buf = vec![0u8; 56];
    p.save(&mut buf).unwrap();
    buf
}

fn battlefield_buf(
    id: u64,
    player1: [u8; 32],
    player2: [u8; 32],
    player1_troops: u64,
    player2_troops: u64,
) -> Vec<u8> {
    let b = BattleField { id, player1, player2, player1_troops, player2_troops };
    let mut buf = vec![0u8; 88];
    b.save(&mut buf).unwrap();
    buf
}

fn instruction(tag: u8, amount: u64) -> Vec<u8> {
    let mut v = vec![tag];
    v.extend_from_slice(&amount.to_le_bytes());
    v
}

fn world() -> (Vec<u8>, Vec<u8>, Vec<u8>) {
    let p1 = player_buf(1, [1u8; 32], 100, 0);
    let p2 = player_buf(2, [2u8; 32], 100, 0);
    let bf = battlefield_buf(3, [1u8; 32], [2u8; 32], 0, 0);
    (p1, p2, bf)
}

#[test]
fn parse_instruction_exact_values() {
    assert_eq!(parse_instruction_data(&instruction(1, 30)), Ok((1, 30)));
    let raw = [3u8, 0x01, 0x02, 0, 0, 0, 0, 0, 0];
    assert_eq!(parse_instruction_data(&raw), Ok((3, 0x0201)));
}

#[test]
fn parse_instruction_rejects_wrong_lengths() {
    assert_eq!(parse_instruction_data(&[1u8; 8]), Err(Error::InvalidInstruction));
    assert_eq!(parse_instruction_data(&[1u8; 10]), Err(Error::InvalidInstruction));
    assert_eq!(parse_instruction_data(&[]), Err(Error::InvalidInstruction));
}

#[test]
fn player1_commits_troops() {
    let (mut p1, mut p2, mut bf) = world();
    let bf_before = bf.clone();
    let p2_before = p2.clone();
    let instr = instruction(1, 30);
    let r = process_instruction(&PROGRAM_ID, &PROGRAM_ID, &mut p1, &mut p2, &mut bf, &instr);
    assert_eq!(r, Ok(()));
    let p = Player::load(&p1).unwrap();
    assert_eq!(p.energy, 70);
    assert_eq!(p.troops, 30);
    assert_eq!(p.id, 1);
    assert_eq!(p.pubkey, [1u8; 32]);
    assert_eq!(p2, p2_before);
    assert_eq!(bf, bf_before);
}

#[test]
fn player2_commits_troops() {
    let (mut p1, mut p2, mut bf) = world();
    let p1_before = p1.clone();
    let instr = instruction(2, 55);
    let r = process_instruction(&PROGRAM_ID, &PROGRAM_ID, &mut p1, &mut p2, &mut bf, &instr);
    assert_eq!(r, Ok(()));
    let p = Player::load(&p2).unwrap();
    assert_eq!(p.energy, 45);
    assert_eq!(p.troops, 55);
    assert_eq!(p1, p1_before);
}

#[test]
fn commit_conserves_energy_plus_troops() {
    let mut p1 = player_buf(1, [1u8; 32], 100, 20);
    let mut p2 = player_buf(2, [2u8; 32], 100, 0);
    let mut bf = battlefield_buf(3, [1u8; 32], [2u8; 32], 0, 0);
    let instr = instruction(1, 30);
    let r = process_instruction(&PROGRAM_ID, &PROGRAM_ID, &mut p1, &mut p2, &mut bf, &instr);
    assert_eq!(r, Ok(()));
    let p = Player::load(&p1).unwrap();
    assert_eq!(p.energy, 70);
    assert_eq!(p.troops, 50);
    assert_eq!(p.energy + p.troops, 120);
}

#[test]
fn insufficient_energy_is_a_silent_no_op() {
    let mut p1 = player_buf(1, [1u8; 32], 10, 5);
    let mut p2 = player_buf(2, [2u8; 32], 100, 0);
    let mut bf = battlefield_buf(3, [1u8; 32], [2u8; 32], 0, 0);
    let instr = instruction(1, 30);
    let r = process_instruction(&PROGRAM_ID, &PROGRAM_ID, &mut p1, &mut p2, &mut bf, &instr);
    assert_eq!(r, Ok(()));
    let p = Player::load(&p1).unwrap();
    assert_eq!(p.energy, 10);
    assert_eq!(p.troops, 5);
}

#[test]
fn resolution_player1_wins() {
    let mut p1 = player_buf(1, [1u8; 32], 0, 30);
    let mut p2 = player_buf(2, [2u8; 32], 0, 10);
    let mut bf = battlefield_buf(3, [1u8; 32], [2u8; 32], 0, 0);
    let instr = instruction(3, 0);
    let r = process_instruction(&PROGRAM_ID, &PROGRAM_ID, &mut p1, &mut p2, &mut bf, &instr);
    assert_eq!(r, Ok(()));
    let b = BattleField::load(&bf).unwrap();
    assert_eq!(b.player1_troops, 30);
    assert_eq!(b.player2_troops, 0);
    let p = Player::load(&p1).unwrap();
    assert_eq!((p.energy, p.troops), (0, 30));
}

#[test]
fn resolution_player2_wins() {
    let mut p1 = player_buf(1, [1u8; 32], 0, 10);
    let mut p2 = player_buf(2, [2u8; 32], 0, 30);
    let mut bf = battlefield_buf(3, [1u8; 32], [2u8; 32], 99, 99);
    let instr = instruction(3, 0);
    let r = process_instruction(&PROGRAM_ID, &PROGRAM_ID, &mut p1, &mut p2, &mut bf, &instr);
    assert_eq!(r, Ok(()));
    let b = BattleField::load(&bf).unwrap();
    assert_eq!(b.player1_troops, 0);
    assert_eq!(b.player2_troops, 30);
}

#[test]
fn resolution_draw_keeps_stored_values() {
    let mut p1 = player_buf(1, [1u8; 32], 0, 50);
    let mut p2 = player_buf(2, [2u8; 32], 0, 50);
    let mut bf = battlefield_buf(3, [1u8; 32], [2u8; 32], 7, 8);
    let instr = instruction(3, 0);
    let r = process_instruction(&PROGRAM_ID, &PROGRAM_ID, &mut p1, &mut p2, &mut bf, &instr);
    assert_eq!(r, Ok(()));
    let b = BattleField::load(&bf).unwrap();
    assert_eq!(b.player1_troops, 7);
    assert_eq!(b.player2_troops, 8);
}

#[test]
fn invalid_tag_leaves_buffers_identical() {
    for tag in [0u8, 4, 5, 255] {
        let (mut p1, mut p2, mut bf) = world();
        let (p1_before, p2_before, bf_before) = (p1.clone(), p2.clone(), bf.clone());
        let instr = instruction(tag, 30);
        let r = process_instruction(&PROGRAM_ID, &PROGRAM_ID, &mut p1, &mut p2, &mut bf, &instr);
        assert_eq!(r, Err(Error::InvalidInstruction));
        assert_eq!(p1, p1_before);
        assert_eq!(p2, p2_before);
        assert_eq!(bf, bf_before);
    }
}

#[test]
fn malformed_instruction_length_leaves_buffers_identical() {
    for len in [0usize, 8, 10] {
        let (mut p1, mut p2, mut bf) = world();
        let (p1_before, p2_before, bf_before) = (p1.clone(), p2.clone(), bf.clone());
        let instr = vec![1u8; len];
        let r = process_instruction(&PROGRAM_ID, &PROGRAM_ID, &mut p1, &mut p2, &mut bf, &instr);
        assert_eq!(r, Err(Error::InvalidInstruction));
        assert_eq!(p1, p1_before);
        assert_eq!(p2, p2_before);
        assert_eq!(bf, bf_before);
    }
}

#[test]
fn wrong_owner_fails_before_anything_else() {
    let (mut p1, mut p2, mut bf) = world();
    let (p1_before, p2_before, bf_before) = (p1.clone(), p2.clone(), bf.clone());
    let mut other = PROGRAM_ID;
    other[31] ^= 1;
    // even a malformed instruction reports the ownership failure first
    let instr = vec![1u8; 3];
    let r = process_instruction(&PROGRAM_ID, &other, &mut p1, &mut p2, &mut bf, &instr);
    assert_eq!(r, Err(Error::WrongOwner));
    assert_eq!(p1, p1_before);
    assert_eq!(p2, p2_before);
    assert_eq!(bf, bf_before);
}

#[test]
fn malformed_player_buffer_rejected() {
    let mut p1 = vec![0u8; 55];
    let mut p2 = player_buf(2, [2u8; 32], 100, 0);
    let mut bf = battlefield_buf(3, [1u8; 32], [2u8; 32], 0, 0);
    let (p2_before, bf_before) = (p2.clone(), bf.clone());
    let instr = instruction(1, 30);
    let r = process_instruction(&PROGRAM_ID, &PROGRAM_ID, &mut p1, &mut p2, &mut bf, &instr);
    assert_eq!(r, Err(Error::MalformedRecord));
    assert_eq!(p1, vec![0u8; 55]);
    assert_eq!(p2, p2_before);
    assert_eq!(bf, bf_before);
}

#[test]
fn malformed_battlefield_buffer_rejected() {
    let (mut p1, mut p2, _) = world();
    let mut bf = vec![0xEEu8; 87];
    let (p1_before, p2_before) = (p1.clone(), p2.clone());
    let instr = instruction(3, 0);
    let r = process_instruction(&PROGRAM_ID, &PROGRAM_ID, &mut p1, &mut p2, &mut bf, &instr);
    assert_eq!(r, Err(Error::MalformedRecord));
    assert_eq!(p1, p1_before);
    assert_eq!(p2, p2_before);
    assert_eq!(bf, vec![0xEEu8; 87]);
}

#[test]
fn success_zero_fills_trailing_capacity() {
    let mut p1 = player_buf(1, [1u8; 32], 100, 0);
    p1.extend_from_slice(&[0xFFu8; 10]);
    let mut p2 = player_buf(2, [2u8; 32], 100, 0);
    let mut bf = battlefield_buf(3, [1u8; 32], [2u8; 32], 0, 0);
    bf.extend_from_slice(&[0xFFu8; 4]);
    let instr = instruction(1, 30);
    let r = process_instruction(&PROGRAM_ID, &PROGRAM_ID, &mut p1, &mut p2, &mut bf, &instr);
    assert_eq!(r, Ok(()));
    assert_eq!(p1.len(), 66);
    assert_eq!(&p1[56..], &[0u8; 10]);
    assert_eq!(bf.len(), 92);
    assert_eq!(&bf[88..], &[0u8; 4]);
    assert_eq!(Player::load(&p1).unwrap().energy, 70);
}
