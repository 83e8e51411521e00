use rl_state::common::{EState, Id, WinnerInfo};
use rl_state::migration::migrate_bytes;
use rl_state::new_rl::{NewRL, NextEpochData, WinnerInfoNew, NEW_RL_SIZE};
use rl_state::old_rl::{DecodeError, OldRL, OLD_RL_SIZE};

fn u16_at(bytes: &[u8], at: usize) -> u16 {
    u16::from_le_bytes([bytes[at], bytes[at + 1]])
}

fn u32_at(bytes: &[u8], at: usize) -> u32 {
    u32::from_le_bytes([bytes[at], bytes[at + 1], bytes[at + 2], bytes[at + 3]])
}

fn u64_at(bytes: &[u8], at: usize) -> u64 {
    let mut word = [0u8; 8];
    word.copy_from_slice(&bytes[at..at + 8]);
    u64::from_le_bytes(word)
}

fn busy_legacy_state() -> OldRL {
    let mut old = OldRL::default();
    old.team_address = Id { data: [0x11; 32] };
    old.owner_address = Id { data: [0x22; 32] };
    old.team_fee_percent = 10;
    old.distribution_fee_percent = 20;
    old.winner_fee_percent = 68;
    old.burn_percent = 2;
    old.ticket_price = 1_000_000;
    old.players.players[0] = Id { data: [0xa1; 32] };
    old.players.players[2] = Id { data: [0xa2; 32] };
    old.players.players[1023] = Id { data: [0xa3; 32] };
    old.players.occupation_flags[0] = 0b01_00_01;
    old.players.population = 3;
    old.players.mark_removal_counter = 1;
    old.winners[0] =
        WinnerInfo { winner_address: Id { data: [0xb1; 32] }, revenue: 42, epoch: 7, tick: 99 };
    old.winners[1023] = WinnerInfo {
        winner_address: Id { data: [0xb2; 32] },
        revenue: u64::MAX,
        epoch: u16::MAX,
        tick: u32::MAX,
    };
    old.winners_info_next_empty_index = 1;
    old.current_state = EState::Selling;
    old
}

#[test]
fn target_size() {
    assert_eq!(NEW_RL_SIZE, 82040);
}

#[test]
fn legacy_buffer_with_one_winner_is_carried_over() {
    let mut legacy = vec![0u8; OLD_RL_SIZE];
    legacy[64] = 5;
    legacy[72..80].copy_from_slice(&100u64.to_le_bytes());
    legacy[82272..82280].copy_from_slice(&3u64.to_le_bytes());
    for at in 33120..33152usize {
        legacy[at] = 0x5a;
    }
    legacy[33152..33160].copy_from_slice(&42u64.to_le_bytes());
    legacy[33160..33162].copy_from_slice(&7u16.to_le_bytes());
    legacy[33164..33168].copy_from_slice(&99u32.to_le_bytes());

    let target = migrate_bytes(&legacy).unwrap();

    assert_eq!(target.len(), 82040);
    assert_eq!(u64_at(&target, 82000), 100);
    assert_eq!(target[82032], 5);
    assert_eq!(u64_at(&target, 82016), 3);
    assert_eq!(u64_at(&target, 82008), 0);
    assert_eq!(target[82036], 0);
    assert_eq!(target[82037], 0);
    assert_eq!(&target[0..32], &[0x5au8; 32][..]);
    assert_eq!(u64_at(&target, 32), 42);
    assert_eq!(u32_at(&target, 40), 99);
    assert_eq!(u16_at(&target, 44), 7);
    assert_eq!(target[46], 0);
    assert_eq!(target[47], 0);
}

#[test]
fn short_buffer_gives_no_output() {
    let legacy = vec![0u8; OLD_RL_SIZE - 1];
    assert_eq!(
        migrate_bytes(&legacy),
        Err(DecodeError::SizeMismatch { expected: 82288, actual: 82287 })
    );
}

#[test]
fn long_buffer_gives_no_output() {
    let legacy = vec![0u8; OLD_RL_SIZE + 8];
    assert_eq!(
        migrate_bytes(&legacy),
        Err(DecodeError::SizeMismatch { expected: 82288, actual: 82296 })
    );
}

#[test]
fn empty_buffer_gives_no_output() {
    assert_eq!(
        migrate_bytes(&[]),
        Err(DecodeError::SizeMismatch { expected: 82288, actual: 0 })
    );
}

#[test]
fn migrate_bytes_is_decode_then_carry_over_then_encode() {
    let mut legacy = vec![0u8; OLD_RL_SIZE];
    for (i, byte) in legacy.iter_mut().enumerate() {
        *byte = ((i * 13 + 1) % 255) as u8;
    }
    let old = OldRL::from_bytes(&legacy).unwrap();
    let expected = NewRL::from(&old).to_bytes();
    assert_eq!(migrate_bytes(&legacy).unwrap(), expected);
}

#[test]
fn encoded_length_is_fixed() {
    assert_eq!(NewRL::default().to_bytes().len(), 82040);
    assert_eq!(NewRL::from(&OldRL::default()).to_bytes().len(), 82040);
    assert_eq!(NewRL::from(&busy_legacy_state()).to_bytes().len(), 82040);
    assert_eq!(migrate_bytes(&vec![0xffu8; OLD_RL_SIZE]).unwrap().len(), 82040);
}

#[test]
fn ring_index_is_carried_over() {
    let mut old = OldRL::default();
    for index in [0u64, 1, 3, 1023, 1024, u64::MAX] {
        old.winners_info_next_empty_index = index;
        assert_eq!(NewRL::from(&old).winners_counter, index);
    }
}

#[test]
fn player_counter_is_reset() {
    let mut old = OldRL::default();
    for population in [0u64, 3, 1024, u64::MAX] {
        old.players.population = population;
        assert_eq!(NewRL::from(&old).player_counter, 0);
    }
    assert_eq!(NewRL::from(&busy_legacy_state()).player_counter, 0);
}

#[test]
fn player_slots_keep_their_places() {
    let old = busy_legacy_state();
    let new = NewRL::from(&old);
    for i in 0..1024usize {
        assert_eq!(new.players[i], old.players.players[i]);
        assert_eq!(new.players[i].is_zero(), old.players.players[i].is_zero());
    }
    assert!(new.players[1].is_zero());
    assert_eq!(new.players[2], Id { data: [0xa2; 32] });
}

#[test]
fn occupancy_metadata_is_dropped() {
    let mut a = busy_legacy_state();
    let mut b = busy_legacy_state();
    a.players.occupation_flags = [0; 32];
    a.players.population = 0;
    a.players.mark_removal_counter = 0;
    b.players.occupation_flags = [u64::MAX; 32];
    b.players.population = 9;
    b.players.mark_removal_counter = 9;
    assert_eq!(NewRL::from(&a), NewRL::from(&b));
    assert_eq!(NewRL::from(&a).to_bytes(), NewRL::from(&b).to_bytes());
}

#[test]
fn next_epoch_data_is_zero_bytes() {
    let new = NewRL::from(&busy_legacy_state());
    assert_eq!(new.next_epoch_data, NextEpochData { new_price: 0, schedule: 0 });
    let bytes = new.to_bytes();
    assert_eq!(&bytes[81984..82000], &[0u8; 16][..]);
    let all_ones = migrate_bytes(&vec![0xffu8; OLD_RL_SIZE]).unwrap();
    assert_eq!(&all_ones[81984..82000], &[0u8; 16][..]);
}

#[test]
fn new_fields_are_zero() {
    let new = NewRL::from(&busy_legacy_state());
    assert_eq!(new.last_draw_day, 0);
    assert_eq!(new.last_draw_hour, 0);
    assert_eq!(new.last_draw_date_stamp, 0);
    assert_eq!(new.schedule, 0);
    assert_eq!(new.draw_hour, 0);
    assert!(new.winners.iter().all(|w| w.day_of_week == 0));
}

#[test]
fn kept_fields_are_copied() {
    let old = busy_legacy_state();
    let new = NewRL::from(&old);
    assert_eq!(new.team_address, old.team_address);
    assert_eq!(new.owner_address, old.owner_address);
    assert_eq!(new.team_fee_percent, 10);
    assert_eq!(new.distribution_fee_percent, 20);
    assert_eq!(new.winner_fee_percent, 68);
    assert_eq!(new.burn_percent, 2);
    assert_eq!(new.ticket_price, 1_000_000);
    assert_eq!(new.current_state, EState::Selling);
    for i in 0..1024usize {
        assert_eq!(new.winners[i].winner_address, old.winners[i].winner_address);
        assert_eq!(new.winners[i].revenue, old.winners[i].revenue);
        assert_eq!(new.winners[i].epoch, old.winners[i].epoch);
        assert_eq!(new.winners[i].tick, old.winners[i].tick);
    }
    assert_eq!(new.winners[1023].revenue, u64::MAX);
}

#[test]
fn fees_are_not_checked() {
    let mut old = OldRL::default();
    old.team_fee_percent = 255;
    old.distribution_fee_percent = 255;
    old.winner_fee_percent = 255;
    old.burn_percent = 255;
    let new = NewRL::from(&old);
    assert_eq!(new.team_fee_percent, 255);
    assert_eq!(new.distribution_fee_percent, 255);
    assert_eq!(new.winner_fee_percent, 255);
    assert_eq!(new.burn_percent, 255);
}

#[test]
fn winner_entry_is_carried_over() {
    let w = WinnerInfo { winner_address: Id { data: [9; 32] }, revenue: 42, epoch: 7, tick: 99 };
    assert_eq!(
        WinnerInfoNew::from_legacy(&w),
        WinnerInfoNew {
            winner_address: Id { data: [9; 32] },
            revenue: 42,
            tick: 99,
            epoch: 7,
            day_of_week: 0
        }
    );
}

#[test]
fn unused_winner_stays_unused() {
    let new = WinnerInfoNew::from_legacy(&WinnerInfo::default());
    assert!(new.is_unused());
    assert_eq!(new, WinnerInfoNew::default());
}

#[test]
fn default_target_state_is_zero_and_locked() {
    let new = NewRL::default();
    assert!(new.winners.iter().all(|w| *w == WinnerInfoNew::default()));
    assert!(new.players.iter().all(|p| p.is_zero()));
    assert!(new.team_address.is_zero());
    assert!(new.owner_address.is_zero());
    assert_eq!(new.next_epoch_data, NextEpochData::default());
    assert_eq!(new.ticket_price, 0);
    assert_eq!(new.player_counter, 0);
    assert_eq!(new.winners_counter, 0);
    assert_eq!(new.schedule, 0);
    assert_eq!(new.draw_hour, 0);
    assert_eq!(new.current_state, EState::Locked);
}

#[test]
fn default_target_state_encodes_to_zeros_but_the_state_byte() {
    let bytes = NewRL::default().to_bytes();
    for (at, byte) in bytes.iter().enumerate() {
        if at == 82038 {
            assert_eq!(*byte, 1);
        } else {
            assert_eq!(*byte, 0, "offset {}", at);
        }
    }
}

#[test]
fn every_field_is_written_at_its_offset() {
    let mut new = NewRL::from(&busy_legacy_state());
    new.next_epoch_data = NextEpochData { new_price: 0x1122_3344_5566_7788, schedule: 0x7f };
    new.player_counter = 12;
    new.last_draw_day = 3;
    new.last_draw_hour = 11;
    new.last_draw_date_stamp = 0x0102_0304;
    new.schedule = 0b0101_0101;
    new.draw_hour = 23;
    new.winners[5].day_of_week = 6;
    new.current_state = EState::Locked;
    let bytes = new.to_bytes();
    assert_eq!(bytes.len(), 82040);
    for i in 0..1024usize {
        let at = 48 * i;
        let w = &new.winners[i];
        assert_eq!(&bytes[at..at + 32], &w.winner_address.data[..]);
        assert_eq!(u64_at(&bytes, at + 32), w.revenue);
        assert_eq!(u32_at(&bytes, at + 40), w.tick);
        assert_eq!(u16_at(&bytes, at + 44), w.epoch);
        assert_eq!(bytes[at + 46], w.day_of_week);
        assert_eq!(bytes[at + 47], 0);
    }
    for i in 0..1024usize {
        let at = 49152 + 32 * i;
        assert_eq!(&bytes[at..at + 32], &new.players[i].data[..]);
    }
    assert_eq!(&bytes[81920..81952], &[0x11u8; 32][..]);
    assert_eq!(&bytes[81952..81984], &[0x22u8; 32][..]);
    assert_eq!(u64_at(&bytes, 81984), 0x1122_3344_5566_7788);
    assert_eq!(bytes[81992], 0x7f);
    assert_eq!(&bytes[81993..82000], &[0u8; 7][..]);
    assert_eq!(u64_at(&bytes, 82000), 1_000_000);
    assert_eq!(u64_at(&bytes, 82008), 12);
    assert_eq!(u64_at(&bytes, 82016), 1);
    assert_eq!(bytes[82024], 3);
    assert_eq!(bytes[82025], 11);
    assert_eq!(&bytes[82026..82028], &[0u8; 2][..]);
    assert_eq!(u32_at(&bytes, 82028), 0x0102_0304);
    assert_eq!(bytes[82032], 10);
    assert_eq!(bytes[82033], 20);
    assert_eq!(bytes[82034], 68);
    assert_eq!(bytes[82035], 2);
    assert_eq!(bytes[82036], 0b0101_0101);
    assert_eq!(bytes[82037], 23);
    assert_eq!(bytes[82038], 1);
    assert_eq!(bytes[82039], 0);
}

#[test]
fn integers_are_written_little_endian() {
    let mut new = NewRL::default();
    new.ticket_price = 0x0102_0304_0506_0708;
    new.last_draw_date_stamp = 0xdead_beef;
    new.winners[0].epoch = 0x1234;
    let bytes = new.to_bytes();
    assert_eq!(&bytes[82000..82008], &[0x08, 0x07, 0x06, 0x05, 0x04, 0x03, 0x02, 0x01][..]);
    assert_eq!(&bytes[82028..82032], &[0xef, 0xbe, 0xad, 0xde][..]);
    assert_eq!(&bytes[44..46], &[0x34, 0x12][..]);
}

#[test]
fn legacy_padding_does_not_reach_the_output() {
    let plain = vec![0u8; OLD_RL_SIZE];
    let mut padded = plain.clone();
    for at in 68..72usize {
        padded[at] = 0xaa;
    }
    for at in 82281..82288usize {
        padded[at] = 0xbb;
    }
    for i in 0..1024usize {
        padded[33120 + 48 * i + 42] = 0xcc;
        padded[33120 + 48 * i + 43] = 0xdd;
    }
    assert_eq!(migrate_bytes(&plain).unwrap(), migrate_bytes(&padded).unwrap());
}

#[test]
fn unknown_state_byte_is_written_as_locked() {
    let mut legacy = vec![0u8; OLD_RL_SIZE];
    legacy[82280] = 9;
    let target = migrate_bytes(&legacy).unwrap();
    assert_eq!(target[82038], 1);
}

#[test]
fn selling_state_is_written_as_zero() {
    let legacy = vec![0u8; OLD_RL_SIZE];
    let target = migrate_bytes(&legacy).unwrap();
    assert_eq!(target[82038], 0);
}

#[test]
fn conversion_through_into() {
    let old = busy_legacy_state();
    let new: NewRL = (&old).into();
    assert_eq!(new, NewRL::from(&old));
}
