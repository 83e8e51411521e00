//! The current lottery state, its byte layout, and how a legacy state is
//! carried over into it.
//!
//! | offset | bytes | field                              |
//! |-------:|------:|------------------------------------|
//! |      0 | 49152 | `winners`, 48 bytes each           |
//! |  49152 | 32768 | `players`, 32 bytes each           |
//! |  81920 |    32 | `team_address`                     |
//! |  81952 |    32 | `owner_address`                    |
//! |  81984 |    16 | `next_epoch_data`                  |
//! |  82000 |     8 | `ticket_price`                     |
//! |  82008 |     8 | `player_counter`                   |
//! |  82016 |     8 | `winners_counter`                  |
//! |  82024 |     1 | `last_draw_day`                    |
//! |  82025 |     1 | `last_draw_hour`                   |
//! |  82026 |     2 | padding                            |
//! |  82028 |     4 | `last_draw_date_stamp`             |
//! |  82032 |     1 | `team_fee_percent`                 |
//! |  82033 |     1 | `distribution_fee_percent`         |
//! |  82034 |     1 | `winner_fee_percent`               |
//! |  82035 |     1 | `burn_percent`                     |
//! |  82036 |     1 | `schedule`                         |
//! |  82037 |     1 | `draw_hour`                        |
//! |  82038 |     1 | `current_state`                    |
//! |  82039 |     1 | padding                            |
//!
//! A winner entry holds its address at 0, `revenue` at 32, `tick` at 40,
//! `epoch` at 44, `day_of_week` at 46 and one byte of padding.
//! `next_epoch_data` holds `new_price` at 0, `schedule` at 8 and seven bytes
//! of padding. Integers are little-endian; padding is written as zero.

use crate::common::{
    ids_view, lemma_id_view_injective, lemma_ids_view_injective, zeros, EState, Id, WinnerInfo,
    WinnerInfoView, RL_MAX_NUMBER_OF_PLAYERS, RL_MAX_NUMBER_OF_WINNERS_IN_HISTORY,
};
use crate::new_rl_laws::lemma_new_rl_redecode;
use crate::old_rl::{OldRL, OldRLView};
use crate::wire::{
    each_has_len, id_at, u16_at, u16_le_bytes, u32_at, u32_le_bytes, u64_at, u64_le_bytes,
    u8_bytes, write_id, write_u16, write_u32, write_u64, write_u8, write_zeros,
};
use vstd::prelude::*;
use vstd::std_specs::convert::FromSpecImpl;

verus! {

/// Number of bytes of the state.
pub const NEW_RL_SIZE: usize = 82040;

/// One entry of the winners history.
#[derive(Debug, Clone, Copy, PartialEq, Eq)]
pub struct WinnerInfoNew {
    pub winner_address: Id,
    pub revenue: u64,
    pub tick: u32,
    pub epoch: u16,
    pub day_of_week: u8,
}

/// What a `WinnerInfoNew` holds, with the address as its 32 bytes.
pub struct WinnerInfoNewView {
    pub winner_address: Seq<u8>,
    pub revenue: u64,
    pub tick: u32,
    pub epoch: u16,
    pub day_of_week: u8,
}

impl View for WinnerInfoNew {
    type V = WinnerInfoNewView;

    open spec fn view(&self) -> WinnerInfoNewView {
        WinnerInfoNewView {
            winner_address: self.winner_address@,
            revenue: self.revenue,
            tick: self.tick,
            epoch: self.epoch,
            day_of_week: self.day_of_week,
        }
    }
}

impl WinnerInfoNewView {
    /// The entry of a history slot that was never written.
    pub open spec fn empty() -> WinnerInfoNewView {
        WinnerInfoNewView { winner_address: zeros(32), revenue: 0, tick: 0, epoch: 0, day_of_week: 0 }
    }

    /// The address has its 32 bytes.
    pub open spec fn wf(self) -> bool {
        self.winner_address.len() == 32
    }

    /// A legacy entry carried over: every field kept, the day of the week 0.
    pub open spec fn of_legacy(w: WinnerInfoView) -> WinnerInfoNewView {
        WinnerInfoNewView {
            winner_address: w.winner_address,
            revenue: w.revenue,
            tick: w.tick,
            epoch: w.epoch,
            day_of_week: 0,
        }
    }

    /// The 48 bytes of the entry.
    pub open spec fn bytes(self) -> Seq<u8> {
        self.winner_address
            + u64_le_bytes(self.revenue)
            + u32_le_bytes(self.tick)
            + u16_le_bytes(self.epoch)
            + u8_bytes(self.day_of_week)
            + zeros(1)
    }
}

impl WinnerInfoNew {
    /// True when the slot holds no winner: its address is the zero sentinel.
    pub fn is_unused(&self) -> (unused: bool)
        ensures
            unused == (self@.winner_address == zeros(32)),
    {
        self.winner_address.is_zero()
    }

    /// Carries a legacy entry over.
    pub fn from_legacy(w: &WinnerInfo) -> (new: WinnerInfoNew)
        ensures
            new@ == WinnerInfoNewView::of_legacy(w@),
    {
        WinnerInfoNew {
            winner_address: w.winner_address,
            revenue: w.revenue,
            tick: w.tick,
            epoch: w.epoch,
            day_of_week: 0,
        }
    }

    /// Appends the 48 bytes of the entry.
    pub(crate) fn write(&self, out: &mut Vec<u8>)
        ensures
            final(out)@ == old(out)@ + self@.bytes(),
    {
        write_id(out, &self.winner_address);
        write_u64(out, self.revenue);
        write_u32(out, self.tick);
        write_u16(out, self.epoch);
        write_u8(out, self.day_of_week);
        write_zeros(out, 1);
        assert(out@ =~= old(out)@ + self@.bytes());
    }
}

impl Default for WinnerInfoNew {
    fn default() -> (w: Self)
        ensures
            w@ == WinnerInfoNewView::empty(),
    {
        WinnerInfoNew { winner_address: Id::zero(), revenue: 0, tick: 0, epoch: 0, day_of_week: 0 }
    }
}

/// A change of price and schedule that waits for the end of the epoch.
#[derive(Debug, Clone, Copy, PartialEq, Eq, Structural)]
pub struct NextEpochData {
    pub new_price: u64,
    pub schedule: u8,
}

impl NextEpochData {
    /// The 16 bytes of the record.
    pub open spec fn bytes(self) -> Seq<u8> {
        u64_le_bytes(self.new_price) + u8_bytes(self.schedule) + zeros(7)
    }

    /// Appends the 16 bytes of the record.
    pub(crate) fn write(&self, out: &mut Vec<u8>)
        ensures
            final(out)@ == old(out)@ + self.bytes(),
    {
        write_u64(out, self.new_price);
        write_u8(out, self.schedule);
        write_zeros(out, 7);
        assert(out@ =~= old(out)@ + self.bytes());
    }
}

impl Default for NextEpochData {
    fn default() -> (d: Self)
        ensures
            d == (NextEpochData { new_price: 0, schedule: 0 }),
    {
        NextEpochData { new_price: 0, schedule: 0 }
    }
}

/// The current lottery state.
#[derive(Debug, Clone, Copy, PartialEq, Eq)]
pub struct NewRL {
    /// Ring of past winners.
    pub winners: [WinnerInfoNew; RL_MAX_NUMBER_OF_WINNERS_IN_HISTORY],
    /// Players of the running epoch, one slot per ticket.
    pub players: [Id; RL_MAX_NUMBER_OF_PLAYERS],
    pub team_address: Id,
    pub owner_address: Id,
    /// Changes that apply when the epoch ends.
    pub next_epoch_data: NextEpochData,
    pub ticket_price: u64,
    /// Tickets sold in the running epoch.
    pub player_counter: u64,
    /// Next slot of `winners` to write.
    pub winners_counter: u64,
    pub last_draw_day: u8,
    pub last_draw_hour: u8,
    pub last_draw_date_stamp: u32,
    pub team_fee_percent: u8,
    pub distribution_fee_percent: u8,
    pub winner_fee_percent: u8,
    pub burn_percent: u8,
    /// Bit i set: a draw may run on day i, counted from Wednesday.
    pub schedule: u8,
    /// Hour of the day, UTC, from which a draw may run.
    pub draw_hour: u8,
    pub current_state: EState,
}

/// What a `NewRL` holds.
pub struct NewRLView {
    pub winners: Seq<WinnerInfoNewView>,
    pub players: Seq<Seq<u8>>,
    pub team_address: Seq<u8>,
    pub owner_address: Seq<u8>,
    pub next_epoch_data: NextEpochData,
    pub ticket_price: u64,
    pub player_counter: u64,
    pub winners_counter: u64,
    pub last_draw_day: u8,
    pub last_draw_hour: u8,
    pub last_draw_date_stamp: u32,
    pub team_fee_percent: u8,
    pub distribution_fee_percent: u8,
    pub winner_fee_percent: u8,
    pub burn_percent: u8,
    pub schedule: u8,
    pub draw_hour: u8,
    pub current_state: EState,
}

/// The views of a sequence of winner entries, in order.
pub open spec fn winners_new_view(winners: Seq<WinnerInfoNew>) -> Seq<WinnerInfoNewView> {
    Seq::new(winners.len(), |i: int| winners[i]@)
}

impl View for NewRL {
    type V = NewRLView;

    open spec fn view(&self) -> NewRLView {
        NewRLView {
            winners: winners_new_view(self.winners@),
            players: ids_view(self.players@),
            team_address: self.team_address@,
            owner_address: self.owner_address@,
            next_epoch_data: self.next_epoch_data,
            ticket_price: self.ticket_price,
            player_counter: self.player_counter,
            winners_counter: self.winners_counter,
            last_draw_day: self.last_draw_day,
            last_draw_hour: self.last_draw_hour,
            last_draw_date_stamp: self.last_draw_date_stamp,
            team_fee_percent: self.team_fee_percent,
            distribution_fee_percent: self.distribution_fee_percent,
            winner_fee_percent: self.winner_fee_percent,
            burn_percent: self.burn_percent,
            schedule: self.schedule,
            draw_hour: self.draw_hour,
            current_state: self.current_state,
        }
    }
}

/// The byte images of a sequence of winner entries, in order.
pub open spec fn winners_new_chunks(winners: Seq<WinnerInfoNewView>) -> Seq<Seq<u8>> {
    Seq::new(winners.len(), |i: int| winners[i].bytes())
}

/// The winner entry stored in the 48 bytes that start at `at`.
pub open spec fn winner_info_new_at(b: Seq<u8>, at: int) -> WinnerInfoNewView {
    WinnerInfoNewView {
        winner_address: id_at(b, at),
        revenue: u64_at(b, at + 32),
        tick: u32_at(b, at + 40),
        epoch: u16_at(b, at + 44),
        day_of_week: b[at + 46],
    }
}

/// The deferred-change record stored in the 16 bytes that start at `at`.
pub open spec fn next_epoch_data_at(b: Seq<u8>, at: int) -> NextEpochData {
    NextEpochData { new_price: u64_at(b, at), schedule: b[at + 8] }
}

impl NewRLView {
    /// Both tables have their 1024 slots and every address its 32 bytes.
    pub open spec fn wf(self) -> bool {
        &&& self.winners.len() == 1024
        &&& forall|i: int| 0 <= i < 1024 ==> (#[trigger] self.winners[i]).wf()
        &&& self.players.len() == 1024
        &&& each_has_len(self.players, 32)
        &&& self.team_address.len() == 32
        &&& self.owner_address.len() == 32
    }

    /// The state before anything happened: everything zero, sales locked.
    pub open spec fn empty() -> NewRLView {
        NewRLView {
            winners: Seq::new(1024, |i: int| WinnerInfoNewView::empty()),
            players: Seq::new(1024, |i: int| zeros(32)),
            team_address: zeros(32),
            owner_address: zeros(32),
            next_epoch_data: NextEpochData { new_price: 0, schedule: 0 },
            ticket_price: 0,
            player_counter: 0,
            winners_counter: 0,
            last_draw_day: 0,
            last_draw_hour: 0,
            last_draw_date_stamp: 0,
            team_fee_percent: 0,
            distribution_fee_percent: 0,
            winner_fee_percent: 0,
            burn_percent: 0,
            schedule: 0,
            draw_hour: 0,
            current_state: EState::Locked,
        }
    }

    /// The state that a legacy state is carried over into. Winners, player
    /// slots, addresses, fees, price, ring index and phase are kept as they
    /// are. The flags, the population and the removal counter of the legacy
    /// player set are dropped. Everything the legacy state does not have is
    /// zero, and so is the player counter, even where player slots are
    /// occupied.
    pub open spec fn of_legacy(old: OldRLView) -> NewRLView {
        NewRLView {
            winners: Seq::new(
                old.winners.len(),
                |i: int| WinnerInfoNewView::of_legacy(old.winners[i]),
            ),
            players: old.players.players,
            team_address: old.team_address,
            owner_address: old.owner_address,
            next_epoch_data: NextEpochData { new_price: 0, schedule: 0 },
            ticket_price: old.ticket_price,
            player_counter: 0,
            winners_counter: old.winners_info_next_empty_index,
            last_draw_day: 0,
            last_draw_hour: 0,
            last_draw_date_stamp: 0,
            team_fee_percent: old.team_fee_percent,
            distribution_fee_percent: old.distribution_fee_percent,
            winner_fee_percent: old.winner_fee_percent,
            burn_percent: old.burn_percent,
            schedule: 0,
            draw_hour: 0,
            current_state: old.current_state,
        }
    }

    /// The bytes of the state, field after field.
    pub open spec fn bytes(self) -> Seq<u8> {
        winners_new_chunks(self.winners).flatten()
            + self.players.flatten()
            + self.team_address
            + self.owner_address
            + self.next_epoch_data.bytes()
            + u64_le_bytes(self.ticket_price)
            + u64_le_bytes(self.player_counter)
            + u64_le_bytes(self.winners_counter)
            + u8_bytes(self.last_draw_day)
            + u8_bytes(self.last_draw_hour)
            + zeros(2)
            + u32_le_bytes(self.last_draw_date_stamp)
            + u8_bytes(self.team_fee_percent)
            + u8_bytes(self.distribution_fee_percent)
            + u8_bytes(self.winner_fee_percent)
            + u8_bytes(self.burn_percent)
            + u8_bytes(self.schedule)
            + u8_bytes(self.draw_hour)
            + u8_bytes(self.current_state.byte())
            + zeros(1)
    }

    /// The state that a buffer of `NEW_RL_SIZE` bytes stores: each field read
    /// at its offset, padding not read.
    pub open spec fn of_bytes(b: Seq<u8>) -> NewRLView {
        NewRLView {
            winners: Seq::new(1024, |i: int| winner_info_new_at(b, 48 * i)),
            players: Seq::new(1024, |i: int| id_at(b, 49152 + 32 * i)),
            team_address: id_at(b, 81920),
            owner_address: id_at(b, 81952),
            next_epoch_data: next_epoch_data_at(b, 81984),
            ticket_price: u64_at(b, 82000),
            player_counter: u64_at(b, 82008),
            winners_counter: u64_at(b, 82016),
            last_draw_day: b[82024],
            last_draw_hour: b[82025],
            last_draw_date_stamp: u32_at(b, 82028),
            team_fee_percent: b[82032],
            distribution_fee_percent: b[82033],
            winner_fee_percent: b[82034],
            burn_percent: b[82035],
            schedule: b[82036],
            draw_hour: b[82037],
            current_state: EState::of_byte(b[82038]),
        }
    }
}

impl NewRL {
    /// The view of a state is well formed.
    pub proof fn lemma_view_wf(self)
        ensures
            self@.wf(),
    {
    }

    /// The bytes of the state in its layout: always `NEW_RL_SIZE` of them,
    /// with every field where `NewRLView::of_bytes` reads it and all padding zero.
    pub fn to_bytes(&self) -> (out: Vec<u8>)
        ensures
            out@ == self@.bytes(),
            out@.len() == NEW_RL_SIZE,
            NewRLView::of_bytes(out@) == self@,
    {
        proof {
            self.lemma_view_wf();
            lemma_new_rl_redecode(self@);
        }
        let mut out: Vec<u8> = Vec::new();
        let mut i: usize = 0;
        while i < 1024
            invariant
                i <= 1024,
                out@ == winners_new_chunks(self@.winners.take(i as int)).flatten(),
            decreases 1024 - i,
        {
            self.winners[i].write(&mut out);
            proof {
                let done = winners_new_chunks(self@.winners.take(i as int));
                let next = self@.winners[i as int].bytes();
                assert(winners_new_chunks(self@.winners.take(i + 1)) =~= done.push(next));
                done.lemma_flatten_push(next);
            }
            i += 1;
        }
        assert(self@.winners.take(1024) =~= self@.winners);
        let ghost head = out@;
        let mut k: usize = 0;
        while k < 1024
            invariant
                k <= 1024,
                out@ == head + self@.players.take(k as int).flatten(),
            decreases 1024 - k,
        {
            write_id(&mut out, &self.players[k]);
            proof {
                let done = self@.players.take(k as int);
                let next = self@.players[k as int];
                assert(self@.players.take(k + 1) =~= done.push(next));
                done.lemma_flatten_push(next);
                assert(out@ =~= head + done.push(next).flatten());
            }
            k += 1;
        }
        assert(self@.players.take(1024) =~= self@.players);
        write_id(&mut out, &self.team_address);
        write_id(&mut out, &self.owner_address);
        self.next_epoch_data.write(&mut out);
        write_u64(&mut out, self.ticket_price);
        write_u64(&mut out, self.player_counter);
        write_u64(&mut out, self.winners_counter);
        write_u8(&mut out, self.last_draw_day);
        write_u8(&mut out, self.last_draw_hour);
        write_zeros(&mut out, 2);
        write_u32(&mut out, self.last_draw_date_stamp);
        write_u8(&mut out, self.team_fee_percent);
        write_u8(&mut out, self.distribution_fee_percent);
        write_u8(&mut out, self.winner_fee_percent);
        write_u8(&mut out, self.burn_percent);
        write_u8(&mut out, self.schedule);
        write_u8(&mut out, self.draw_hour);
        write_u8(&mut out, self.current_state.to_byte());
        write_zeros(&mut out, 1);
        out
    }
}

impl Default for NewRL {
    fn default() -> (state: Self)
        ensures
            state@ == NewRLView::empty(),
    {
        let state = NewRL {
            winners: [WinnerInfoNew::default(); RL_MAX_NUMBER_OF_WINNERS_IN_HISTORY],
            players: [Id::zero(); RL_MAX_NUMBER_OF_PLAYERS],
            team_address: Id::zero(),
            owner_address: Id::zero(),
            next_epoch_data: NextEpochData::default(),
            ticket_price: 0,
            player_counter: 0,
            winners_counter: 0,
            last_draw_day: 0,
            last_draw_hour: 0,
            last_draw_date_stamp: 0,
            team_fee_percent: 0,
            distribution_fee_percent: 0,
            winner_fee_percent: 0,
            burn_percent: 0,
            schedule: 0,
            draw_hour: 0,
            current_state: EState::Locked,
        };
        assert(state@.winners =~= NewRLView::empty().winners);
        assert(state@.players =~= NewRLView::empty().players);
        state
    }
}

/// Two states with the same view are the same state.
pub proof fn lemma_new_rl_view_injective(a: NewRL, b: NewRL)
    requires
        a@ == b@,
    ensures
        a == b,
{
    assert forall|i: int| 0 <= i < 1024 implies a.winners[i] == b.winners[i] by {
        assert(a@.winners[i] == a.winners[i]@);
        assert(b@.winners[i] == b.winners[i]@);
        lemma_id_view_injective(a.winners[i].winner_address, b.winners[i].winner_address);
    }
    assert(a.winners =~= b.winners);
    lemma_ids_view_injective(a.players@, b.players@);
    assert(a.players =~= b.players);
    lemma_id_view_injective(a.team_address, b.team_address);
    lemma_id_view_injective(a.owner_address, b.owner_address);
}

impl FromSpecImpl<&OldRL> for NewRL {
    open spec fn obeys_from_spec() -> bool {
        true
    }

    /// The state whose view is the legacy view carried over.
    open spec fn from_spec(old: &OldRL) -> NewRL {
        choose|new: NewRL| new@ == NewRLView::of_legacy(old@)
    }
}

impl From<&OldRL> for NewRL {
    /// Carries a legacy state over. Nothing is checked and nothing is
    /// derived: each field is a copy of one legacy field or zero. Fees above
    /// 100 and a ring index beyond the history are copied like any other
    /// value, and the player counter is not the legacy population.
    fn from(old: &OldRL) -> (new: NewRL)
        ensures
            new@ == NewRLView::of_legacy(old@),
            new.winners_counter == old.winners_info_next_empty_index,
            new.player_counter == 0,
            forall|i: int|
                0 <= i < 1024 && old.players.players[i]@ == zeros(32) ==> new.players[i]@
                    == zeros(32),
            new.next_epoch_data.bytes() == zeros(16),
    {
        let mut winners = [WinnerInfoNew::default(); RL_MAX_NUMBER_OF_WINNERS_IN_HISTORY];
        let mut i: usize = 0;
        while i < 1024
            invariant
                i <= 1024,
                forall|j: int|
                    0 <= j < i ==> winners[j]@ == WinnerInfoNewView::of_legacy(old.winners[j]@),
            decreases 1024 - i,
        {
            winners[i] = WinnerInfoNew::from_legacy(&old.winners[i]);
            i += 1;
        }
        let new = NewRL {
            winners,
            players: old.players.players,
            team_address: old.team_address,
            owner_address: old.owner_address,
            next_epoch_data: NextEpochData::default(),
            ticket_price: old.ticket_price,
            player_counter: 0,
            winners_counter: old.winners_info_next_empty_index,
            last_draw_day: 0,
            last_draw_hour: 0,
            last_draw_date_stamp: 0,
            team_fee_percent: old.team_fee_percent,
            distribution_fee_percent: old.distribution_fee_percent,
            winner_fee_percent: old.winner_fee_percent,
            burn_percent: old.burn_percent,
            schedule: 0,
            draw_hour: 0,
            current_state: old.current_state,
        };
        proof {
            assert(new@.winners =~= NewRLView::of_legacy(old@).winners);
            assert(new.next_epoch_data.bytes() =~= zeros(16));
            let chosen = choose|other: NewRL| other@ == NewRLView::of_legacy(old@);
            lemma_new_rl_view_injective(new, chosen);
        }
        new
    }
}

} // verus!
