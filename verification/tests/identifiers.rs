use rl_state::common::{EState, Id, WinnerInfo, RL_MAX_NUMBER_OF_PLAYERS, RL_OCCUPATION_FLAG_WORDS};

fn counting_id() -> Id {
    let mut data = [0u8; 32];
    for (i, byte) in data.iter_mut().enumerate() {
        *byte = i as u8;
    }
    Id { data }
}

#[test]
fn zero_is_all_zero_bytes() {
    assert_eq!(Id::zero().data, [0u8; 32]);
}

#[test]
fn zero_is_zero() {
    assert!(Id::zero().is_zero());
}

#[test]
fn default_id_is_the_zero_sentinel() {
    assert_eq!(Id::default(), Id::zero());
}

#[test]
fn one_set_bit_anywhere_is_not_zero() {
    for at in 0..32usize {
        let mut data = [0u8; 32];
        data[at] = 1;
        assert!(!Id { data }.is_zero(), "byte {}", at);
    }
}

#[test]
fn last_byte_alone_is_not_zero() {
    let mut data = [0u8; 32];
    data[31] = 0x80;
    assert!(!Id { data }.is_zero());
}

#[test]
fn ids_compare_by_bytes() {
    let a = counting_id();
    let mut b = counting_id();
    assert_eq!(a, b);
    b.data[17] ^= 1;
    assert_ne!(a, b);
}

#[test]
fn base64_of_zero_id() {
    assert_eq!(Id::zero().to_base64(), "AAAAAAAAAAAAAAAAAAAAAAAAAAAAAAAAAAAAAAAAAAA=");
}

#[test]
fn base64_of_counting_id() {
    assert_eq!(counting_id().to_base64(), "AAECAwQFBgcICQoLDA0ODxAREhMUFRYXGBkaGxwdHh8=");
}

#[test]
fn base64_of_all_ones_id() {
    let id = Id { data: [0xff; 32] };
    assert_eq!(id.to_base64(), "//////////////////////////////////////////8=");
}

#[test]
fn base64_has_44_characters() {
    assert_eq!(counting_id().to_base64().len(), 44);
}

#[test]
fn state_bytes() {
    assert_eq!(EState::Selling.to_byte(), 0);
    assert_eq!(EState::Locked.to_byte(), 1);
}

#[test]
fn state_of_byte() {
    assert_eq!(EState::from_byte(0), EState::Selling);
    assert_eq!(EState::from_byte(1), EState::Locked);
}

#[test]
fn unknown_state_byte_reads_as_locked() {
    assert_eq!(EState::from_byte(2), EState::Locked);
    assert_eq!(EState::from_byte(0x80), EState::Locked);
    assert_eq!(EState::from_byte(255), EState::Locked);
}

#[test]
fn state_byte_round_trip() {
    assert_eq!(EState::from_byte(EState::Selling.to_byte()), EState::Selling);
    assert_eq!(EState::from_byte(EState::Locked.to_byte()), EState::Locked);
}

#[test]
fn default_state_is_locked() {
    assert_eq!(EState::default(), EState::Locked);
}

#[test]
fn default_winner_is_unused() {
    let w = WinnerInfo::default();
    assert_eq!(w.winner_address, Id::zero());
    assert_eq!(w.revenue, 0);
    assert_eq!(w.epoch, 0);
    assert_eq!(w.tick, 0);
    assert!(w.is_unused());
}

#[test]
fn winner_with_address_is_used() {
    let w = WinnerInfo { winner_address: counting_id(), revenue: 0, epoch: 0, tick: 0 };
    assert!(!w.is_unused());
}

#[test]
fn winner_with_revenue_but_no_address_is_unused() {
    let w = WinnerInfo { winner_address: Id::zero(), revenue: 9, epoch: 1, tick: 2 };
    assert!(w.is_unused());
}

#[test]
fn capacities() {
    assert_eq!(RL_MAX_NUMBER_OF_PLAYERS, 1024);
    assert_eq!(RL_OCCUPATION_FLAG_WORDS, 32);
}

#[test]
fn equal_ids_hash_alike() {
    let mut seen = std::collections::HashSet::new();
    assert!(seen.insert(counting_id()));
    assert!(!seen.insert(counting_id()));
    assert!(seen.insert(Id::zero()));
    assert!(seen.contains(&Id::default()));
    assert_eq!(seen.len(), 2);
}

#[test]
fn ids_that_differ_in_one_byte_are_not_equal() {
    for at in 0..32usize {
        let mut other = counting_id();
        other.data[at] = other.data[at].wrapping_add(1);
        assert!(counting_id() != other, "byte {}", at);
    }
}
