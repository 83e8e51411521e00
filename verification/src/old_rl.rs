//! The legacy lottery state and its byte layout.
//!
//! | offset | bytes | field                              |
//! |-------:|------:|------------------------------------|
//! |      0 |    32 | `team_address`                     |
//! |     32 |    32 | `owner_address`                    |
//! |     64 |     1 | `team_fee_percent`                 |
//! |     65 |     1 | `distribution_fee_percent`         |
//! |     66 |     1 | `winner_fee_percent`               |
//! |     67 |     1 | `burn_percent`                     |
//! |     68 |     4 | padding                            |
//! |     72 |     8 | `ticket_price`                     |
//! |     80 | 32768 | `players.players`, 32 bytes each   |
//! |  32848 |   256 | `players.occupation_flags`         |
//! |  33104 |     8 | `players.population`               |
//! |  33112 |     8 | `players.mark_removal_counter`     |
//! |  33120 | 49152 | `winners`, 48 bytes each           |
//! |  82272 |     8 | `winners_info_next_empty_index`    |
//! |  82280 |     1 | `current_state`                    |
//! |  82281 |     7 | padding                            |
//!
//! A winner entry holds its address at 0, `revenue` at 32, `epoch` at 40,
//! two bytes of padding, and `tick` at 44. Integers are little-endian.

use crate::common::{
    ids_view, zeros, EState, Id, WinnerInfo, WinnerInfoView, RL_MAX_NUMBER_OF_PLAYERS,
    RL_MAX_NUMBER_OF_WINNERS_IN_HISTORY, RL_OCCUPATION_FLAG_WORDS,
};
use crate::old_rl_laws::lemma_old_rl_reencode;
use crate::wire::{
    each_has_len, id_at, read_id, read_u16, read_u32, read_u64, u16_at, u16_le_bytes, u32_at,
    u32_le_bytes, u64_at, u64_le_bytes, u8_bytes,
};
use vstd::prelude::*;

verus! {

/// Number of bytes of the legacy player set.
pub const PLAYER_HASH_SET_SIZE: usize = 33040;

/// Number of bytes of the legacy state.
pub const OLD_RL_SIZE: usize = 82288;

/// Why a buffer was not read as a legacy state.
#[derive(Debug, Clone, Copy, PartialEq, Eq)]
pub enum DecodeError {
    /// The buffer does not have the length of the layout.
    SizeMismatch { expected: usize, actual: usize },
}

/// The legacy player set: a slot table with two state bits per slot.
#[derive(Debug, Clone, Copy)]
pub struct PlayerHashSet {
    pub players: [Id; RL_MAX_NUMBER_OF_PLAYERS],
    pub occupation_flags: [u64; RL_OCCUPATION_FLAG_WORDS],
    pub population: u64,
    pub mark_removal_counter: u64,
}

/// What a `PlayerHashSet` holds.
pub struct PlayerHashSetView {
    pub players: Seq<Seq<u8>>,
    pub occupation_flags: Seq<u64>,
    pub population: u64,
    pub mark_removal_counter: u64,
}

impl PlayerHashSetView {
    /// The table has its 1024 slots of 32 bytes and its 32 flag words.
    pub open spec fn wf(self) -> bool {
        &&& self.players.len() == 1024
        &&& each_has_len(self.players, 32)
        &&& self.occupation_flags.len() == 32
    }

    /// The set with no player: every slot the zero sentinel, every flag clear.
    pub open spec fn empty() -> PlayerHashSetView {
        PlayerHashSetView {
            players: Seq::new(1024, |i: int| zeros(32)),
            occupation_flags: Seq::new(32, |i: int| 0u64),
            population: 0,
            mark_removal_counter: 0,
        }
    }
}

impl View for PlayerHashSet {
    type V = PlayerHashSetView;

    open spec fn view(&self) -> PlayerHashSetView {
        PlayerHashSetView {
            players: ids_view(self.players@),
            occupation_flags: self.occupation_flags@,
            population: self.population,
            mark_removal_counter: self.mark_removal_counter,
        }
    }
}

/// The legacy lottery state.
#[derive(Debug, Clone, Copy)]
pub struct OldRL {
    pub team_address: Id,
    pub owner_address: Id,
    pub team_fee_percent: u8,
    pub distribution_fee_percent: u8,
    pub winner_fee_percent: u8,
    pub burn_percent: u8,
    pub ticket_price: u64,
    pub players: PlayerHashSet,
    pub winners: [WinnerInfo; RL_MAX_NUMBER_OF_WINNERS_IN_HISTORY],
    pub winners_info_next_empty_index: u64,
    pub current_state: EState,
}

/// What an `OldRL` holds.
pub struct OldRLView {
    pub team_address: Seq<u8>,
    pub owner_address: Seq<u8>,
    pub team_fee_percent: u8,
    pub distribution_fee_percent: u8,
    pub winner_fee_percent: u8,
    pub burn_percent: u8,
    pub ticket_price: u64,
    pub players: PlayerHashSetView,
    pub winners: Seq<WinnerInfoView>,
    pub winners_info_next_empty_index: u64,
    pub current_state: EState,
}

impl OldRLView {
    /// Both tables have their 1024 slots and every address its 32 bytes.
    pub open spec fn wf(self) -> bool {
        &&& self.team_address.len() == 32
        &&& self.owner_address.len() == 32
        &&& self.players.wf()
        &&& self.winners.len() == 1024
        &&& forall|i: int| 0 <= i < 1024 ==> (#[trigger] self.winners[i]).winner_address.len() == 32
    }

    /// The state before anything happened: no addresses, no fees, no
    /// players, no winners, sales locked.
    pub open spec fn empty() -> OldRLView {
        OldRLView {
            team_address: zeros(32),
            owner_address: zeros(32),
            team_fee_percent: 0,
            distribution_fee_percent: 0,
            winner_fee_percent: 0,
            burn_percent: 0,
            ticket_price: 0,
            players: PlayerHashSetView::empty(),
            winners: Seq::new(1024, |i: int| WinnerInfoView::empty()),
            winners_info_next_empty_index: 0,
            current_state: EState::Locked,
        }
    }
}

/// The number of slots that hold an identifier other than the zero sentinel.
pub open spec fn count_active(slots: Seq<Seq<u8>>) -> nat
    decreases slots.len(),
{
    if slots.len() == 0 {
        0
    } else {
        count_active(slots.drop_last()) + if slots.last() != zeros(32) {
            1nat
        } else {
            0nat
        }
    }
}

/// The views of a sequence of winner entries, in order.
pub open spec fn winners_view(winners: Seq<WinnerInfo>) -> Seq<WinnerInfoView> {
    Seq::new(winners.len(), |i: int| winners[i]@)
}

impl View for OldRL {
    type V = OldRLView;

    open spec fn view(&self) -> OldRLView {
        OldRLView {
            team_address: self.team_address@,
            owner_address: self.owner_address@,
            team_fee_percent: self.team_fee_percent,
            distribution_fee_percent: self.distribution_fee_percent,
            winner_fee_percent: self.winner_fee_percent,
            burn_percent: self.burn_percent,
            ticket_price: self.ticket_price,
            players: self.players@,
            winners: winners_view(self.winners@),
            winners_info_next_empty_index: self.winners_info_next_empty_index,
            current_state: self.current_state,
        }
    }
}

/// The winner entry stored in the 48 bytes that start at `at`.
pub open spec fn winner_info_at(b: Seq<u8>, at: int) -> WinnerInfoView {
    WinnerInfoView {
        winner_address: id_at(b, at),
        revenue: u64_at(b, at + 32),
        epoch: u16_at(b, at + 40),
        tick: u32_at(b, at + 44),
    }
}

/// The player set stored in the 33040 bytes that start at `at`.
pub open spec fn player_hash_set_at(b: Seq<u8>, at: int) -> PlayerHashSetView {
    PlayerHashSetView {
        players: Seq::new(1024, |i: int| id_at(b, at + 32 * i)),
        occupation_flags: Seq::new(32, |i: int| u64_at(b, at + 32768 + 8 * i)),
        population: u64_at(b, at + 33024),
        mark_removal_counter: u64_at(b, at + 33032),
    }
}

impl WinnerInfoView {
    /// The 48 bytes of a legacy winner entry.
    pub open spec fn bytes(self) -> Seq<u8> {
        self.winner_address
            + u64_le_bytes(self.revenue)
            + u16_le_bytes(self.epoch)
            + zeros(2)
            + u32_le_bytes(self.tick)
    }
}

/// The byte images of a sequence of legacy winner entries, in order.
pub open spec fn winners_chunks(winners: Seq<WinnerInfoView>) -> Seq<Seq<u8>> {
    Seq::new(winners.len(), |i: int| winners[i].bytes())
}

/// The byte images of a sequence of flag words, in order.
pub open spec fn flags_chunks(flags: Seq<u64>) -> Seq<Seq<u8>> {
    Seq::new(flags.len(), |i: int| u64_le_bytes(flags[i]))
}

impl PlayerHashSetView {
    /// The bytes of the player set, field after field.
    pub open spec fn bytes(self) -> Seq<u8> {
        self.players.flatten()
            + flags_chunks(self.occupation_flags).flatten()
            + u64_le_bytes(self.population)
            + u64_le_bytes(self.mark_removal_counter)
    }
}

impl OldRLView {
    /// The legacy state that a buffer of `OLD_RL_SIZE` bytes stores.
    /// Padding bytes are not read.
    pub open spec fn of_bytes(b: Seq<u8>) -> OldRLView {
        OldRLView {
            team_address: id_at(b, 0),
            owner_address: id_at(b, 32),
            team_fee_percent: b[64],
            distribution_fee_percent: b[65],
            winner_fee_percent: b[66],
            burn_percent: b[67],
            ticket_price: u64_at(b, 72),
            players: player_hash_set_at(b, 80),
            winners: Seq::new(1024, |i: int| winner_info_at(b, 33120 + 48 * i)),
            winners_info_next_empty_index: u64_at(b, 82272),
            current_state: EState::of_byte(b[82280]),
        }
    }

    /// The bytes of the legacy state, field after field, padding zero.
    pub open spec fn bytes(self) -> Seq<u8> {
        self.team_address
            + self.owner_address
            + u8_bytes(self.team_fee_percent)
            + u8_bytes(self.distribution_fee_percent)
            + u8_bytes(self.winner_fee_percent)
            + u8_bytes(self.burn_percent)
            + zeros(4)
            + u64_le_bytes(self.ticket_price)
            + self.players.bytes()
            + winners_chunks(self.winners).flatten()
            + u64_le_bytes(self.winners_info_next_empty_index)
            + u8_bytes(self.current_state.byte())
            + zeros(7)
    }
}

/// The two padding bytes of winner entry `i` of a legacy buffer.
pub open spec fn winner_padding(b: Seq<u8>, i: int) -> Seq<u8> {
    b.subrange(33162 + 48 * i, 33164 + 48 * i)
}

/// A buffer that a legacy state is laid out as: it has `OLD_RL_SIZE` bytes,
/// its padding is zero and its state byte is 0 or 1.
pub open spec fn old_rl_canonical(b: Seq<u8>) -> bool {
    &&& b.len() == OLD_RL_SIZE
    &&& b.subrange(68, 72) == zeros(4)
    &&& forall|i: int| 0 <= i < 1024 ==> #[trigger] winner_padding(b, i) == zeros(2)
    &&& b[82280] <= 1
    &&& b.subrange(82281, 82288) == zeros(7)
}

impl WinnerInfo {
    /// Reads the entry at `at`.
    pub(crate) fn read(b: &[u8], at: usize) -> (w: WinnerInfo)
        requires
            at + 48 <= b.len(),
        ensures
            w@ == winner_info_at(b@, at as int),
    {
        WinnerInfo {
            winner_address: read_id(b, at),
            revenue: read_u64(b, at + 32),
            epoch: read_u16(b, at + 40),
            tick: read_u32(b, at + 44),
        }
    }
}

impl PlayerHashSet {
    /// Reads the player set at `at`.
    pub(crate) fn read(b: &[u8], at: usize) -> (set: PlayerHashSet)
        requires
            at + 33040 <= b.len(),
        ensures
            set@ == player_hash_set_at(b@, at as int),
    {
        let len: usize = b.len();
        let mut players = [Id::zero(); RL_MAX_NUMBER_OF_PLAYERS];
        let mut i: usize = 0;
        while i < 1024
            invariant
                i <= 1024,
                at + 33040 <= len == b@.len(),
                forall|j: int| 0 <= j < i ==> players[j]@ == id_at(b@, at + 32 * j),
            decreases 1024 - i,
        {
            players[i] = read_id(b, at + 32 * i);
            i += 1;
        }
        let mut occupation_flags = [0u64; RL_OCCUPATION_FLAG_WORDS];
        let mut k: usize = 0;
        while k < 32
            invariant
                k <= 32,
                at + 33040 <= len == b@.len(),
                forall|j: int| 0 <= j < k ==> occupation_flags[j] == u64_at(b@, at + 32768 + 8 * j),
            decreases 32 - k,
        {
            occupation_flags[k] = read_u64(b, at + 32768 + 8 * k);
            k += 1;
        }
        let set = PlayerHashSet {
            players,
            occupation_flags,
            population: read_u64(b, at + 33024),
            mark_removal_counter: read_u64(b, at + 33032),
        };
        assert(set@.players =~= player_hash_set_at(b@, at as int).players);
        assert(set@.occupation_flags =~= player_hash_set_at(b@, at as int).occupation_flags);
        set
    }
}

impl Default for PlayerHashSet {
    fn default() -> (set: Self)
        ensures
            set@ == PlayerHashSetView::empty(),
    {
        let set = PlayerHashSet {
            players: [Id::zero(); RL_MAX_NUMBER_OF_PLAYERS],
            occupation_flags: [0u64; RL_OCCUPATION_FLAG_WORDS],
            population: 0,
            mark_removal_counter: 0,
        };
        assert(set@.players =~= PlayerHashSetView::empty().players);
        assert(set@.occupation_flags =~= PlayerHashSetView::empty().occupation_flags);
        set
    }
}

impl Default for OldRL {
    fn default() -> (state: Self)
        ensures
            state@ == OldRLView::empty(),
    {
        let state = OldRL {
            team_address: Id::zero(),
            owner_address: Id::zero(),
            team_fee_percent: 0,
            distribution_fee_percent: 0,
            winner_fee_percent: 0,
            burn_percent: 0,
            ticket_price: 0,
            players: PlayerHashSet::default(),
            winners: [WinnerInfo::default(); RL_MAX_NUMBER_OF_WINNERS_IN_HISTORY],
            winners_info_next_empty_index: 0,
            current_state: EState::default(),
        };
        assert(state@.winners =~= OldRLView::empty().winners);
        state
    }
}

impl OldRL {
    /// The view of a state is well formed.
    pub proof fn lemma_view_wf(self)
        ensures
            self@.wf(),
    {
    }

    /// The number of player slots that hold an identifier.
    pub fn active_players(&self) -> (n: usize)
        ensures
            n == count_active(self@.players.players),
    {
        let ghost slots = self@.players.players;
        let mut n: usize = 0;
        let mut i: usize = 0;
        while i < 1024
            invariant
                i <= 1024,
                n <= i,
                slots == self@.players.players,
                n == count_active(slots.take(i as int)),
            decreases 1024 - i,
        {
            proof {
                assert(slots.take(i + 1).drop_last() =~= slots.take(i as int));
                assert(slots.take(i + 1).last() == self.players.players[i as int]@);
            }
            if !self.players.players[i].is_zero() {
                n += 1;
            }
            i += 1;
        }
        assert(slots.take(1024) =~= slots);
        n
    }

    /// Reads a legacy state from a buffer. The buffer must have exactly
    /// `OLD_RL_SIZE` bytes; every buffer of that length is read, field by
    /// field, and no other is. Where the padding of the buffer is zero and
    /// its state byte 0 or 1, the state that is read is laid out as the
    /// buffer itself.
    pub fn from_bytes(bytes: &[u8]) -> (r: Result<OldRL, DecodeError>)
        ensures
            bytes@.len() == OLD_RL_SIZE ==> (r matches Ok(state) && state@ == OldRLView::of_bytes(
                bytes@,
            )),
            old_rl_canonical(bytes@) ==> (r matches Ok(state) && state@.bytes() == bytes@),
            bytes@.len() != OLD_RL_SIZE ==> r == Err::<OldRL, DecodeError>(
                (DecodeError::SizeMismatch { expected: OLD_RL_SIZE, actual: bytes.len() }),
            ),
    {
        if bytes.len() != OLD_RL_SIZE {
            return Err(DecodeError::SizeMismatch { expected: OLD_RL_SIZE, actual: bytes.len() });
        }
        let mut winners = [WinnerInfo::default(); RL_MAX_NUMBER_OF_WINNERS_IN_HISTORY];
        let mut i: usize = 0;
        while i < 1024
            invariant
                i <= 1024,
                bytes@.len() == 82288,
                forall|j: int| 0 <= j < i ==> winners[j]@ == winner_info_at(bytes@, 33120 + 48 * j),
            decreases 1024 - i,
        {
            winners[i] = WinnerInfo::read(bytes, 33120 + 48 * i);
            i += 1;
        }
        let state = OldRL {
            team_address: read_id(bytes, 0),
            owner_address: read_id(bytes, 32),
            team_fee_percent: bytes[64],
            distribution_fee_percent: bytes[65],
            winner_fee_percent: bytes[66],
            burn_percent: bytes[67],
            ticket_price: read_u64(bytes, 72),
            players: PlayerHashSet::read(bytes, 80),
            winners,
            winners_info_next_empty_index: read_u64(bytes, 82272),
            current_state: EState::from_byte(bytes[82280]),
        };
        proof {
            assert(state@.winners =~= OldRLView::of_bytes(bytes@).winners);
            if old_rl_canonical(bytes@) {
                lemma_old_rl_reencode(bytes@);
            }
        }
        Ok(state)
    }
}

} // verus!
