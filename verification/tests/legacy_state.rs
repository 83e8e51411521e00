use rl_state::common::{EState, Id};
use rl_state::old_rl::{DecodeError, OldRL, PlayerHashSet, OLD_RL_SIZE};

fn patterned() -> Vec<u8> {
    let mut bytes = vec![0u8; OLD_RL_SIZE];
    for (i, byte) in bytes.iter_mut().enumerate() {
        *byte = ((i * 7 + 3) % 251) as u8;
    }
    bytes
}

fn u16_at(bytes: &[u8], at: usize) -> u16 {
    u16::from_le_bytes([bytes[at], bytes[at + 1]])
}

fn u32_at(bytes: &[u8], at: usize) -> u32 {
    u32::from_le_bytes([bytes[at], bytes[at + 1], bytes[at + 2], bytes[at + 3]])
}

fn u64_at(bytes: &[u8], at: usize) -> u64 {
    let mut word = [0u8; 8];
    word.copy_from_slice(&bytes[at..at + 8]);
    u64::from_le_bytes(word)
}

#[test]
fn legacy_size() {
    assert_eq!(OLD_RL_SIZE, 82288);
}

#[test]
fn all_zero_buffer_reads_as_empty_selling_state() {
    let state = OldRL::from_bytes(&vec![0u8; OLD_RL_SIZE]).unwrap();
    assert!(state.team_address.is_zero());
    assert!(state.owner_address.is_zero());
    assert_eq!(state.team_fee_percent, 0);
    assert_eq!(state.ticket_price, 0);
    assert_eq!(state.players.population, 0);
    assert_eq!(state.winners_info_next_empty_index, 0);
    assert_eq!(state.current_state, EState::Selling);
    assert_eq!(state.active_players(), 0);
    assert!(state.winners.iter().all(|w| w.is_unused()));
}

#[test]
fn every_field_is_read_at_its_offset() {
    let bytes = patterned();
    let state = OldRL::from_bytes(&bytes).unwrap();
    assert_eq!(&state.team_address.data[..], &bytes[0..32]);
    assert_eq!(&state.owner_address.data[..], &bytes[32..64]);
    assert_eq!(state.team_fee_percent, bytes[64]);
    assert_eq!(state.distribution_fee_percent, bytes[65]);
    assert_eq!(state.winner_fee_percent, bytes[66]);
    assert_eq!(state.burn_percent, bytes[67]);
    assert_eq!(state.ticket_price, u64_at(&bytes, 72));
    for i in 0..1024usize {
        assert_eq!(&state.players.players[i].data[..], &bytes[80 + 32 * i..112 + 32 * i]);
    }
    for i in 0..32usize {
        assert_eq!(state.players.occupation_flags[i], u64_at(&bytes, 32848 + 8 * i));
    }
    assert_eq!(state.players.population, u64_at(&bytes, 33104));
    assert_eq!(state.players.mark_removal_counter, u64_at(&bytes, 33112));
    for i in 0..1024usize {
        let at = 33120 + 48 * i;
        let w = &state.winners[i];
        assert_eq!(&w.winner_address.data[..], &bytes[at..at + 32]);
        assert_eq!(w.revenue, u64_at(&bytes, at + 32));
        assert_eq!(w.epoch, u16_at(&bytes, at + 40));
        assert_eq!(w.tick, u32_at(&bytes, at + 44));
    }
    assert_eq!(state.winners_info_next_empty_index, u64_at(&bytes, 82272));
    assert_eq!(state.current_state, EState::Locked);
}

#[test]
fn integers_are_little_endian() {
    let mut bytes = vec![0u8; OLD_RL_SIZE];
    bytes[72..80].copy_from_slice(&[0x08, 0x07, 0x06, 0x05, 0x04, 0x03, 0x02, 0x01]);
    bytes[33120 + 40] = 0x34;
    bytes[33120 + 41] = 0x12;
    bytes[33120 + 44..33120 + 48].copy_from_slice(&[0xef, 0xbe, 0xad, 0xde]);
    let state = OldRL::from_bytes(&bytes).unwrap();
    assert_eq!(state.ticket_price, 0x0102_0304_0506_0708);
    assert_eq!(state.winners[0].epoch, 0x1234);
    assert_eq!(state.winners[0].tick, 0xdead_beef);
}

#[test]
fn largest_integers_are_read() {
    let bytes = vec![0xffu8; OLD_RL_SIZE];
    let state = OldRL::from_bytes(&bytes).unwrap();
    assert_eq!(state.ticket_price, u64::MAX);
    assert_eq!(state.players.population, u64::MAX);
    assert_eq!(state.players.occupation_flags[31], u64::MAX);
    assert_eq!(state.winners[1023].revenue, u64::MAX);
    assert_eq!(state.winners[1023].epoch, u16::MAX);
    assert_eq!(state.winners[1023].tick, u32::MAX);
    assert_eq!(state.burn_percent, 255);
    assert_eq!(state.current_state, EState::Locked);
    assert_eq!(state.active_players(), 1024);
}

#[test]
fn padding_is_not_read() {
    let mut plain = vec![0u8; OLD_RL_SIZE];
    plain[64] = 5;
    let mut padded = plain.clone();
    for at in 68..72usize {
        padded[at] = 0xaa;
    }
    for at in 82281..82288usize {
        padded[at] = 0xbb;
    }
    for i in 0..1024usize {
        padded[33120 + 48 * i + 42] = 0xcc;
        padded[33120 + 48 * i + 43] = 0xdd;
    }
    let a = OldRL::from_bytes(&plain).unwrap();
    let b = OldRL::from_bytes(&padded).unwrap();
    assert_eq!(a.team_fee_percent, b.team_fee_percent);
    assert_eq!(a.ticket_price, b.ticket_price);
    assert_eq!(a.current_state, b.current_state);
    assert_eq!(a.winners_info_next_empty_index, b.winners_info_next_empty_index);
    for i in 0..1024usize {
        assert_eq!(a.winners[i], b.winners[i]);
    }
}

#[test]
fn state_byte_one_is_locked_and_zero_is_selling() {
    let mut bytes = vec![0u8; OLD_RL_SIZE];
    assert_eq!(OldRL::from_bytes(&bytes).unwrap().current_state, EState::Selling);
    bytes[82280] = 1;
    assert_eq!(OldRL::from_bytes(&bytes).unwrap().current_state, EState::Locked);
    bytes[82280] = 7;
    assert_eq!(OldRL::from_bytes(&bytes).unwrap().current_state, EState::Locked);
}

#[test]
fn one_byte_short_is_a_size_mismatch() {
    let bytes = vec![0u8; OLD_RL_SIZE - 1];
    let r = OldRL::from_bytes(&bytes);
    assert_eq!(r.err(), Some(DecodeError::SizeMismatch { expected: 82288, actual: 82287 }));
}

#[test]
fn one_byte_long_is_a_size_mismatch() {
    let bytes = vec![0u8; OLD_RL_SIZE + 1];
    let r = OldRL::from_bytes(&bytes);
    assert_eq!(r.err(), Some(DecodeError::SizeMismatch { expected: 82288, actual: 82289 }));
}

#[test]
fn empty_buffer_is_a_size_mismatch() {
    let r = OldRL::from_bytes(&[]);
    assert_eq!(r.err(), Some(DecodeError::SizeMismatch { expected: 82288, actual: 0 }));
}

#[test]
fn target_sized_buffer_is_a_size_mismatch() {
    let r = OldRL::from_bytes(&vec![0u8; 82040]);
    assert_eq!(r.err(), Some(DecodeError::SizeMismatch { expected: 82288, actual: 82040 }));
}

#[test]
fn default_player_set_is_empty() {
    let set = PlayerHashSet::default();
    assert!(set.players.iter().all(|p| p.is_zero()));
    assert_eq!(set.occupation_flags, [0u64; 32]);
    assert_eq!(set.population, 0);
    assert_eq!(set.mark_removal_counter, 0);
}

#[test]
fn default_legacy_state_is_empty_and_locked() {
    let state = OldRL::default();
    assert!(state.team_address.is_zero());
    assert!(state.owner_address.is_zero());
    assert_eq!(state.team_fee_percent, 0);
    assert_eq!(state.distribution_fee_percent, 0);
    assert_eq!(state.winner_fee_percent, 0);
    assert_eq!(state.burn_percent, 0);
    assert_eq!(state.ticket_price, 0);
    assert_eq!(state.players.population, 0);
    assert!(state.winners.iter().all(|w| w.is_unused() && w.revenue == 0));
    assert_eq!(state.winners_info_next_empty_index, 0);
    assert_eq!(state.current_state, EState::Locked);
}

#[test]
fn active_players_counts_slots_that_are_not_the_sentinel() {
    let mut state = OldRL::default();
    assert_eq!(state.active_players(), 0);
    state.players.players[0] = Id { data: [1; 32] };
    state.players.players[500] = Id { data: [2; 32] };
    state.players.players[1023] = Id { data: [3; 32] };
    assert_eq!(state.active_players(), 3);
}

#[test]
fn active_players_does_not_read_the_population_counter() {
    let mut state = OldRL::default();
    state.players.population = 77;
    assert_eq!(state.active_players(), 0);
}
