//! The current layout written and read: the layout has its fixed length,
//! and every field can be read back at the offset where it was put.

use crate::common::zeros;
use crate::new_rl::{
    next_epoch_data_at, winner_info_new_at, winners_new_chunks, NewRLView, NextEpochData,
    WinnerInfoNewView, NEW_RL_SIZE,
};
use crate::wire::{
    each_has_len, id_at, lemma_byte_read, lemma_chunk_in_buffer, lemma_flatten_len, lemma_split,
    lemma_u16_read_written, lemma_u32_read_written, lemma_u64_read_written, u16_le_bytes,
    u32_le_bytes, u64_le_bytes, u8_bytes,
};
use vstd::prelude::*;

verus! {

/// Where the 48 bytes of a winner entry stand in a buffer, the entry is read.
pub proof fn lemma_winner_info_new_redecode(b: Seq<u8>, at: int, w: WinnerInfoNewView)
    requires
        0 <= at,
        at + 48 <= b.len(),
        w.wf(),
        b.subrange(at, at + 48) == w.bytes(),
    ensures
        winner_info_new_at(b, at) == w,
{
    let s1 = w.winner_address + u64_le_bytes(w.revenue);
    let s2 = s1 + u32_le_bytes(w.tick);
    let s3 = s2 + u16_le_bytes(w.epoch);
    let s4 = s3 + u8_bytes(w.day_of_week);
    lemma_split(b, at, at + 48, s4, zeros(1));
    lemma_split(b, at, at + 47, s3, u8_bytes(w.day_of_week));
    lemma_split(b, at, at + 46, s2, u16_le_bytes(w.epoch));
    lemma_split(b, at, at + 44, s1, u32_le_bytes(w.tick));
    lemma_split(b, at, at + 40, w.winner_address, u64_le_bytes(w.revenue));
    lemma_u64_read_written(b, at + 32, w.revenue);
    lemma_u32_read_written(b, at + 40, w.tick);
    lemma_u16_read_written(b, at + 44, w.epoch);
    lemma_byte_read(b, at + 46, w.day_of_week);
}

/// The byte images of well-formed winner entries have 48 bytes each.
pub proof fn lemma_winners_new_chunks_len(winners: Seq<WinnerInfoNewView>)
    requires
        forall|i: int| 0 <= i < winners.len() ==> (#[trigger] winners[i]).wf(),
    ensures
        each_has_len(winners_new_chunks(winners), 48),
        winners_new_chunks(winners).flatten().len() == winners.len() * 48,
{
    let chunks = winners_new_chunks(winners);
    assert forall|i: int| 0 <= i < chunks.len() implies (#[trigger] chunks[i]).len() == 48 by {
        assert(winners[i].wf());
    }
    lemma_flatten_len(chunks, 48);
}

/// Where the bytes of 1024 winner entries stand in a buffer, entry `i` is
/// read at its place.
pub proof fn lemma_winners_new_redecode(
    b: Seq<u8>,
    at: int,
    winners: Seq<WinnerInfoNewView>,
    i: int,
)
    requires
        0 <= at,
        at + 49152 <= b.len(),
        winners.len() == 1024,
        forall|k: int| 0 <= k < 1024 ==> (#[trigger] winners[k]).wf(),
        b.subrange(at, at + 49152) == winners_new_chunks(winners).flatten(),
        0 <= i < 1024,
    ensures
        winner_info_new_at(b, at + 48 * i) == winners[i],
{
    let chunks = winners_new_chunks(winners);
    lemma_winners_new_chunks_len(winners);
    lemma_chunk_in_buffer(b, at, chunks, 48, i);
    assert(chunks[i] == winners[i].bytes());
    lemma_winner_info_new_redecode(b, at + 48 * i, winners[i]);
}

/// Where the bytes of 1024 identifiers stand in a buffer, identifier `i`
/// stands at its place.
pub proof fn lemma_ids_redecode(b: Seq<u8>, at: int, ids: Seq<Seq<u8>>, i: int)
    requires
        0 <= at,
        at + 32768 <= b.len(),
        ids.len() == 1024,
        each_has_len(ids, 32),
        b.subrange(at, at + 32768) == ids.flatten(),
        0 <= i < 1024,
    ensures
        id_at(b, at + 32 * i) == ids[i],
{
    lemma_chunk_in_buffer(b, at, ids, 32, i);
}

/// Where the 16 bytes of a deferred-change record stand in a buffer, the
/// record is read.
pub proof fn lemma_next_epoch_data_redecode(b: Seq<u8>, at: int, d: NextEpochData)
    requires
        0 <= at,
        at + 16 <= b.len(),
        b.subrange(at, at + 16) == d.bytes(),
    ensures
        next_epoch_data_at(b, at) == d,
{
    let s1 = u64_le_bytes(d.new_price) + u8_bytes(d.schedule);
    lemma_split(b, at, at + 16, s1, zeros(7));
    lemma_split(b, at, at + 9, u64_le_bytes(d.new_price), u8_bytes(d.schedule));
    lemma_u64_read_written(b, at, d.new_price);
    lemma_byte_read(b, at + 8, d.schedule);
}

/// The layout of a state has `NEW_RL_SIZE` bytes.
pub proof fn lemma_new_rl_bytes_len(v: NewRLView)
    requires
        v.wf(),
    ensures
        v.bytes().len() == NEW_RL_SIZE,
{
    lemma_winners_new_chunks_len(v.winners);
    lemma_flatten_len(v.players, 32);
    let tables = winners_new_chunks(v.winners).flatten() + v.players.flatten();
    assert(tables.len() == 81920);
    let named = tables + v.team_address + v.owner_address + v.next_epoch_data.bytes();
    assert(named.len() == 82000);
    let counted = named + u64_le_bytes(v.ticket_price) + u64_le_bytes(v.player_counter)
        + u64_le_bytes(v.winners_counter);
    assert(counted.len() == 82024);
    let dated = counted + u8_bytes(v.last_draw_day) + u8_bytes(v.last_draw_hour) + zeros(2)
        + u32_le_bytes(v.last_draw_date_stamp);
    assert(dated.len() == 82032);
}

/// Every field of `v` stands in `b` at its offset, and the padding is zero.
spec fn fields_stand_in(v: NewRLView, b: Seq<u8>) -> bool {
    &&& b.len() == 82040
    &&& b.subrange(0, 49152) == winners_new_chunks(v.winners).flatten()
    &&& b.subrange(49152, 81920) == v.players.flatten()
    &&& b.subrange(81920, 81952) == v.team_address
    &&& b.subrange(81952, 81984) == v.owner_address
    &&& b.subrange(81984, 82000) == v.next_epoch_data.bytes()
    &&& b.subrange(82000, 82008) == u64_le_bytes(v.ticket_price)
    &&& b.subrange(82008, 82016) == u64_le_bytes(v.player_counter)
    &&& b.subrange(82016, 82024) == u64_le_bytes(v.winners_counter)
    &&& b.subrange(82024, 82025) == u8_bytes(v.last_draw_day)
    &&& b.subrange(82025, 82026) == u8_bytes(v.last_draw_hour)
    &&& b.subrange(82026, 82028) == zeros(2)
    &&& b.subrange(82028, 82032) == u32_le_bytes(v.last_draw_date_stamp)
    &&& b.subrange(82032, 82033) == u8_bytes(v.team_fee_percent)
    &&& b.subrange(82033, 82034) == u8_bytes(v.distribution_fee_percent)
    &&& b.subrange(82034, 82035) == u8_bytes(v.winner_fee_percent)
    &&& b.subrange(82035, 82036) == u8_bytes(v.burn_percent)
    &&& b.subrange(82036, 82037) == u8_bytes(v.schedule)
    &&& b.subrange(82037, 82038) == u8_bytes(v.draw_hour)
    &&& b.subrange(82038, 82039) == u8_bytes(v.current_state.byte())
    &&& b.subrange(82039, 82040) == zeros(1)
}

/// In the layout of a state every field stands at its offset.
proof fn lemma_fields_stand_in_layout(v: NewRLView)
    requires
        v.wf(),
    ensures
        fields_stand_in(v, v.bytes()),
{
    let b = v.bytes();
    lemma_new_rl_bytes_len(v);
    lemma_winners_new_chunks_len(v.winners);
    lemma_flatten_len(v.players, 32);
    let chunks = winners_new_chunks(v.winners);
    let s1 = chunks.flatten() + v.players.flatten();
    let s2 = s1 + v.team_address;
    let s3 = s2 + v.owner_address;
    let s4 = s3 + v.next_epoch_data.bytes();
    let s5 = s4 + u64_le_bytes(v.ticket_price);
    let s6 = s5 + u64_le_bytes(v.player_counter);
    let s7 = s6 + u64_le_bytes(v.winners_counter);
    let s8 = s7 + u8_bytes(v.last_draw_day);
    let s9 = s8 + u8_bytes(v.last_draw_hour);
    let s10 = s9 + zeros(2);
    let s11 = s10 + u32_le_bytes(v.last_draw_date_stamp);
    let s12 = s11 + u8_bytes(v.team_fee_percent);
    let s13 = s12 + u8_bytes(v.distribution_fee_percent);
    let s14 = s13 + u8_bytes(v.winner_fee_percent);
    let s15 = s14 + u8_bytes(v.burn_percent);
    let s16 = s15 + u8_bytes(v.schedule);
    let s17 = s16 + u8_bytes(v.draw_hour);
    let s18 = s17 + u8_bytes(v.current_state.byte());
    assert(b == s18 + zeros(1));
    assert(b.subrange(0, 82040) =~= b);
    lemma_split(b, 0, 82040, s18, zeros(1));
    lemma_split(b, 0, 82039, s17, u8_bytes(v.current_state.byte()));
    lemma_split(b, 0, 82038, s16, u8_bytes(v.draw_hour));
    lemma_split(b, 0, 82037, s15, u8_bytes(v.schedule));
    lemma_split(b, 0, 82036, s14, u8_bytes(v.burn_percent));
    lemma_split(b, 0, 82035, s13, u8_bytes(v.winner_fee_percent));
    lemma_split(b, 0, 82034, s12, u8_bytes(v.distribution_fee_percent));
    lemma_split(b, 0, 82033, s11, u8_bytes(v.team_fee_percent));
    lemma_split(b, 0, 82032, s10, u32_le_bytes(v.last_draw_date_stamp));
    lemma_split(b, 0, 82028, s9, zeros(2));
    lemma_split(b, 0, 82026, s8, u8_bytes(v.last_draw_hour));
    lemma_split(b, 0, 82025, s7, u8_bytes(v.last_draw_day));
    lemma_split(b, 0, 82024, s6, u64_le_bytes(v.winners_counter));
    lemma_split(b, 0, 82016, s5, u64_le_bytes(v.player_counter));
    lemma_split(b, 0, 82008, s4, u64_le_bytes(v.ticket_price));
    lemma_split(b, 0, 82000, s3, v.next_epoch_data.bytes());
    lemma_split(b, 0, 81984, s2, v.owner_address);
    lemma_split(b, 0, 81952, s1, v.team_address);
    lemma_split(b, 0, 81920, chunks.flatten(), v.players.flatten());
}

/// A buffer in which every field of a state stands at its offset is read
/// as that state.
proof fn lemma_read_where_fields_stand(v: NewRLView, b: Seq<u8>)
    requires
        v.wf(),
        fields_stand_in(v, b),
    ensures
        NewRLView::of_bytes(b) == v,
{
    let read = NewRLView::of_bytes(b);
    assert(read.winners == v.winners) by {
        assert forall|i: int| 0 <= i < 1024 implies #[trigger] read.winners[i]
            == v.winners[i] by {
            lemma_winners_new_redecode(b, 0, v.winners, i);
        }
        assert(read.winners =~= v.winners);
    }
    assert(read.players == v.players) by {
        assert forall|i: int| 0 <= i < 1024 implies #[trigger] read.players[i]
            == v.players[i] by {
            lemma_ids_redecode(b, 49152, v.players, i);
        }
        assert(read.players =~= v.players);
    }
    assert(read.next_epoch_data == v.next_epoch_data) by {
        lemma_next_epoch_data_redecode(b, 81984, v.next_epoch_data);
    }
    assert(read.ticket_price == v.ticket_price) by {
        lemma_u64_read_written(b, 82000, v.ticket_price);
    }
    assert(read.player_counter == v.player_counter) by {
        lemma_u64_read_written(b, 82008, v.player_counter);
    }
    assert(read.winners_counter == v.winners_counter) by {
        lemma_u64_read_written(b, 82016, v.winners_counter);
    }
    assert(read.last_draw_date_stamp == v.last_draw_date_stamp) by {
        lemma_u32_read_written(b, 82028, v.last_draw_date_stamp);
    }
    lemma_byte_read(b, 82024, v.last_draw_day);
    lemma_byte_read(b, 82025, v.last_draw_hour);
    lemma_byte_read(b, 82032, v.team_fee_percent);
    lemma_byte_read(b, 82033, v.distribution_fee_percent);
    lemma_byte_read(b, 82034, v.winner_fee_percent);
    lemma_byte_read(b, 82035, v.burn_percent);
    lemma_byte_read(b, 82036, v.schedule);
    lemma_byte_read(b, 82037, v.draw_hour);
    lemma_byte_read(b, 82038, v.current_state.byte());
}

/// Every field of a state can be read back from its layout at the offset
/// where the layout puts it.
pub proof fn lemma_new_rl_redecode(v: NewRLView)
    requires
        v.wf(),
    ensures
        v.bytes().len() == NEW_RL_SIZE,
        NewRLView::of_bytes(v.bytes()) == v,
{
    lemma_new_rl_bytes_len(v);
    lemma_fields_stand_in_layout(v);
    lemma_read_where_fields_stand(v, v.bytes());
}

/// In the layout of a state the deferred-change record stands at 81984.
pub proof fn lemma_next_epoch_data_in_layout(v: NewRLView)
    requires
        v.wf(),
    ensures
        v.bytes().len() == NEW_RL_SIZE,
        v.bytes().subrange(81984, 82000) == v.next_epoch_data.bytes(),
{
    lemma_fields_stand_in_layout(v);
}

} // verus!
