//! The legacy layout read and written: what is laid out can be read back,
//! and what is read from a buffer in canonical form is laid out as that
//! buffer.

use crate::common::{zeros, WinnerInfoView};
use crate::old_rl::{
    flags_chunks, old_rl_canonical, player_hash_set_at, winner_info_at, winner_padding,
    winners_chunks, OldRLView, PlayerHashSetView, OLD_RL_SIZE, PLAYER_HASH_SET_SIZE,
};
use crate::wire::{
    each_has_len, lemma_byte, lemma_byte_read, lemma_chunk_in_buffer, lemma_flatten_len, lemma_flatten_slices,
    lemma_join, lemma_split, lemma_u16_read_written, lemma_u16_written_read,
    lemma_u32_read_written, lemma_u32_written_read, lemma_u64_read_written,
    lemma_u64_written_read, u16_le_bytes, u32_le_bytes, u64_at, u64_le_bytes, u8_bytes,
};
use vstd::prelude::*;

verus! {

/// A winner entry read at `at` and laid out again gives the 48 bytes that
/// stand at `at`, if the two padding bytes among them are zero.
pub proof fn lemma_winner_info_reencode(b: Seq<u8>, at: int)
    requires
        0 <= at,
        at + 48 <= b.len(),
        b.subrange(at + 42, at + 44) == zeros(2),
    ensures
        winner_info_at(b, at).bytes() == b.subrange(at, at + 48),
{
    lemma_u64_written_read(b, at + 32);
    lemma_u16_written_read(b, at + 40);
    lemma_u32_written_read(b, at + 44);
    lemma_join(b, at, at + 32, at + 40);
    lemma_join(b, at, at + 40, at + 42);
    lemma_join(b, at, at + 42, at + 44);
    lemma_join(b, at, at + 44, at + 48);
}

/// A player set read at `at` and laid out again gives the 33040 bytes that
/// stand at `at`.
pub proof fn lemma_player_hash_set_reencode(b: Seq<u8>, at: int)
    requires
        0 <= at,
        at + 33040 <= b.len(),
    ensures
        player_hash_set_at(b, at).bytes() == b.subrange(at, at + 33040),
{
    let set = player_hash_set_at(b, at);
    assert forall|i: int| 0 <= i < 1024 implies #[trigger] set.players[i] == b.subrange(
        at + i * 32,
        at + i * 32 + 32,
    ) by {}
    lemma_flatten_slices(b, at, 32, set.players);
    let flags = flags_chunks(set.occupation_flags);
    assert forall|i: int| 0 <= i < 32 implies #[trigger] flags[i] == b.subrange(
        at + 32768 + i * 8,
        at + 32768 + i * 8 + 8,
    ) by {
        lemma_u64_written_read(b, at + 32768 + 8 * i);
    }
    lemma_flatten_slices(b, at + 32768, 8, flags);
    lemma_u64_written_read(b, at + 33024);
    lemma_u64_written_read(b, at + 33032);
    lemma_join(b, at, at + 32768, at + 33024);
    lemma_join(b, at, at + 33024, at + 33032);
    lemma_join(b, at, at + 33032, at + 33040);
}

/// The winners table read from a legacy buffer and laid out again gives the
/// 49152 bytes of the table, if the padding of every entry is zero.
pub proof fn lemma_winners_reencode(b: Seq<u8>)
    requires
        b.len() == OLD_RL_SIZE,
        forall|i: int| 0 <= i < 1024 ==> #[trigger] winner_padding(b, i) == zeros(2),
    ensures
        winners_chunks(OldRLView::of_bytes(b).winners).flatten() == b.subrange(33120, 82272),
{
    let winners = winners_chunks(OldRLView::of_bytes(b).winners);
    assert forall|i: int| 0 <= i < 1024 implies #[trigger] winners[i] == b.subrange(
        33120 + i * 48,
        33120 + i * 48 + 48,
    ) by {
        assert(winner_padding(b, i) == zeros(2));
        lemma_winner_info_reencode(b, 33120 + 48 * i);
    }
    lemma_flatten_slices(b, 33120, 48, winners);
}

/// Reading a legacy state from a buffer and laying it out again gives the
/// buffer back, for every buffer that is laid out as a legacy state is.
/// A buffer with a padding byte other than zero, or a state byte above 1, is
/// read as well, but is not what the state it holds is laid out as.
pub proof fn lemma_old_rl_reencode(b: Seq<u8>)
    requires
        old_rl_canonical(b),
    ensures
        OldRLView::of_bytes(b).bytes() == b,
{
    lemma_u64_written_read(b, 72);
    lemma_player_hash_set_reencode(b, 80);
    lemma_winners_reencode(b);
    lemma_u64_written_read(b, 82272);
    lemma_byte(b, 64);
    lemma_byte(b, 65);
    lemma_byte(b, 66);
    lemma_byte(b, 67);
    lemma_byte(b, 82280);
    lemma_join(b, 0, 32, 64);
    lemma_join(b, 0, 64, 65);
    lemma_join(b, 0, 65, 66);
    lemma_join(b, 0, 66, 67);
    lemma_join(b, 0, 67, 68);
    lemma_join(b, 0, 68, 72);
    lemma_join(b, 0, 72, 80);
    lemma_join(b, 0, 80, 33120);
    lemma_join(b, 0, 33120, 82272);
    lemma_join(b, 0, 82272, 82280);
    lemma_join(b, 0, 82280, 82281);
    lemma_join(b, 0, 82281, 82288);
    assert(b.subrange(0, 82288) =~= b);
}

/// Where the 48 bytes of a winner entry stand in a buffer, the entry is read.
pub proof fn lemma_winner_info_redecode(b: Seq<u8>, at: int, w: WinnerInfoView)
    requires
        0 <= at,
        at + 48 <= b.len(),
        w.winner_address.len() == 32,
        b.subrange(at, at + 48) == w.bytes(),
    ensures
        winner_info_at(b, at) == w,
        b.subrange(at + 42, at + 44) == zeros(2),
{
    let s1 = w.winner_address + u64_le_bytes(w.revenue);
    let s2 = s1 + u16_le_bytes(w.epoch);
    let s3 = s2 + zeros(2);
    lemma_split(b, at, at + 48, s3, u32_le_bytes(w.tick));
    lemma_split(b, at, at + 44, s2, zeros(2));
    lemma_split(b, at, at + 42, s1, u16_le_bytes(w.epoch));
    lemma_split(b, at, at + 40, w.winner_address, u64_le_bytes(w.revenue));
    lemma_u64_read_written(b, at + 32, w.revenue);
    lemma_u16_read_written(b, at + 40, w.epoch);
    lemma_u32_read_written(b, at + 44, w.tick);
}

/// The layout of a player set has 33040 bytes.
pub proof fn lemma_player_hash_set_bytes_len(set: PlayerHashSetView)
    requires
        set.wf(),
    ensures
        set.bytes().len() == PLAYER_HASH_SET_SIZE,
        set.players.flatten().len() == 32768,
        flags_chunks(set.occupation_flags).flatten().len() == 256,
{
    lemma_flatten_len(set.players, 32);
    lemma_flatten_len(flags_chunks(set.occupation_flags), 8);
}

/// Where the 33040 bytes of a player set stand in a buffer from `at`, the
/// slots stand at `at`, the flag words at `at + 32768`, the two counters
/// at `at + 33024` and `at + 33032`.
pub proof fn lemma_player_hash_set_fields(b: Seq<u8>, at: int, set: PlayerHashSetView)
    requires
        0 <= at,
        at + 33040 <= b.len(),
        set.wf(),
        b.subrange(at, at + 33040) == set.bytes(),
    ensures
        b.subrange(at, at + 32768) == set.players.flatten(),
        b.subrange(at + 32768, at + 33024) == flags_chunks(set.occupation_flags).flatten(),
        b.subrange(at + 33024, at + 33032) == u64_le_bytes(set.population),
        b.subrange(at + 33032, at + 33040) == u64_le_bytes(set.mark_removal_counter),
{
    let flags = flags_chunks(set.occupation_flags);
    lemma_player_hash_set_bytes_len(set);
    let s1 = set.players.flatten() + flags.flatten();
    let s2 = s1 + u64_le_bytes(set.population);
    lemma_split(b, at, at + 33040, s2, u64_le_bytes(set.mark_removal_counter));
    lemma_split(b, at, at + 33032, s1, u64_le_bytes(set.population));
    lemma_split(b, at, at + 33024, set.players.flatten(), flags.flatten());
}

/// Where the bytes of 32 flag words stand in a buffer from `at`, word `i`
/// is read at its place.
pub proof fn lemma_flags_redecode(b: Seq<u8>, at: int, flags: Seq<u64>, i: int)
    requires
        0 <= at,
        at + 256 <= b.len(),
        flags.len() == 32,
        b.subrange(at, at + 256) == flags_chunks(flags).flatten(),
        0 <= i < 32,
    ensures
        u64_at(b, at + 8 * i) == flags[i],
{
    let chunks = flags_chunks(flags);
    assert(each_has_len(chunks, 8));
    lemma_chunk_in_buffer(b, at, chunks, 8, i);
    lemma_u64_read_written(b, at + 8 * i, flags[i]);
}

/// Where the 33040 bytes of a player set stand in a buffer, the set is read.
pub proof fn lemma_player_hash_set_redecode(b: Seq<u8>, at: int, set: PlayerHashSetView)
    requires
        0 <= at,
        at + 33040 <= b.len(),
        set.wf(),
        b.subrange(at, at + 33040) == set.bytes(),
    ensures
        player_hash_set_at(b, at) == set,
{
    lemma_player_hash_set_fields(b, at, set);
    let read = player_hash_set_at(b, at);
    assert(read.players == set.players) by {
        assert forall|i: int| 0 <= i < 1024 implies #[trigger] read.players[i]
            == set.players[i] by {
            lemma_chunk_in_buffer(b, at, set.players, 32, i);
        }
        assert(read.players =~= set.players);
    }
    assert(read.occupation_flags == set.occupation_flags) by {
        assert forall|i: int| 0 <= i < 32 implies #[trigger] read.occupation_flags[i]
            == set.occupation_flags[i] by {
            lemma_flags_redecode(b, at + 32768, set.occupation_flags, i);
        }
        assert(read.occupation_flags =~= set.occupation_flags);
    }
    assert(read.population == set.population) by {
        lemma_u64_read_written(b, at + 33024, set.population);
    }
    assert(read.mark_removal_counter == set.mark_removal_counter) by {
        lemma_u64_read_written(b, at + 33032, set.mark_removal_counter);
    }
}

/// The byte images of the winner entries of a well-formed state have 48
/// bytes each.
pub proof fn lemma_winners_chunks_len(winners: Seq<WinnerInfoView>)
    requires
        forall|i: int|
            0 <= i < winners.len() ==> (#[trigger] winners[i]).winner_address.len() == 32,
    ensures
        each_has_len(winners_chunks(winners), 48),
        winners_chunks(winners).flatten().len() == winners.len() * 48,
{
    let chunks = winners_chunks(winners);
    assert forall|i: int| 0 <= i < chunks.len() implies (#[trigger] chunks[i]).len() == 48 by {
        assert(winners[i].winner_address.len() == 32);
    }
    lemma_flatten_len(chunks, 48);
}

/// The layout of a legacy state has `OLD_RL_SIZE` bytes.
pub proof fn lemma_old_rl_bytes_len(v: OldRLView)
    requires
        v.wf(),
    ensures
        v.bytes().len() == OLD_RL_SIZE,
{
    lemma_player_hash_set_bytes_len(v.players);
    lemma_winners_chunks_len(v.winners);
}

/// Where the bytes of 1024 winner entries stand in a buffer, entry `i` is
/// read at its place, and its padding is zero.
pub proof fn lemma_winners_redecode(b: Seq<u8>, at: int, winners: Seq<WinnerInfoView>, i: int)
    requires
        0 <= at,
        at + 49152 <= b.len(),
        winners.len() == 1024,
        forall|k: int| 0 <= k < 1024 ==> (#[trigger] winners[k]).winner_address.len() == 32,
        b.subrange(at, at + 49152) == winners_chunks(winners).flatten(),
        0 <= i < 1024,
    ensures
        winner_info_at(b, at + 48 * i) == winners[i],
        b.subrange(at + 48 * i + 42, at + 48 * i + 44) == zeros(2),
{
    let chunks = winners_chunks(winners);
    lemma_winners_chunks_len(winners);
    lemma_chunk_in_buffer(b, at, chunks, 48, i);
    assert(chunks[i] == winners[i].bytes());
    lemma_winner_info_redecode(b, at + 48 * i, winners[i]);
}

/// Every field of `v` stands in `b` at its offset, and the padding is zero.
spec fn fields_stand_in(v: OldRLView, b: Seq<u8>) -> bool {
    &&& b.len() == 82288
    &&& b.subrange(0, 32) == v.team_address
    &&& b.subrange(32, 64) == v.owner_address
    &&& b.subrange(64, 65) == u8_bytes(v.team_fee_percent)
    &&& b.subrange(65, 66) == u8_bytes(v.distribution_fee_percent)
    &&& b.subrange(66, 67) == u8_bytes(v.winner_fee_percent)
    &&& b.subrange(67, 68) == u8_bytes(v.burn_percent)
    &&& b.subrange(68, 72) == zeros(4)
    &&& b.subrange(72, 80) == u64_le_bytes(v.ticket_price)
    &&& b.subrange(80, 33120) == v.players.bytes()
    &&& b.subrange(33120, 82272) == winners_chunks(v.winners).flatten()
    &&& b.subrange(82272, 82280) == u64_le_bytes(v.winners_info_next_empty_index)
    &&& b.subrange(82280, 82281) == u8_bytes(v.current_state.byte())
    &&& b.subrange(82281, 82288) == zeros(7)
}

/// In the layout of a legacy state every field stands at its offset.
proof fn lemma_fields_stand_in_layout(v: OldRLView)
    requires
        v.wf(),
    ensures
        fields_stand_in(v, v.bytes()),
{
    let b = v.bytes();
    lemma_old_rl_bytes_len(v);
    lemma_player_hash_set_bytes_len(v.players);
    lemma_winners_chunks_len(v.winners);
    let winners = winners_chunks(v.winners);
    let s1 = v.team_address + v.owner_address;
    let s2 = s1 + u8_bytes(v.team_fee_percent);
    let s3 = s2 + u8_bytes(v.distribution_fee_percent);
    let s4 = s3 + u8_bytes(v.winner_fee_percent);
    let s5 = s4 + u8_bytes(v.burn_percent);
    let s6 = s5 + zeros(4);
    let s7 = s6 + u64_le_bytes(v.ticket_price);
    let s8 = s7 + v.players.bytes();
    let s9 = s8 + winners.flatten();
    let s10 = s9 + u64_le_bytes(v.winners_info_next_empty_index);
    let s11 = s10 + u8_bytes(v.current_state.byte());
    assert(b == s11 + zeros(7));
    assert(b.subrange(0, 82288) =~= b);
    lemma_split(b, 0, 82288, s11, zeros(7));
    lemma_split(b, 0, 82281, s10, u8_bytes(v.current_state.byte()));
    lemma_split(b, 0, 82280, s9, u64_le_bytes(v.winners_info_next_empty_index));
    lemma_split(b, 0, 82272, s8, winners.flatten());
    lemma_split(b, 0, 33120, s7, v.players.bytes());
    lemma_split(b, 0, 80, s6, u64_le_bytes(v.ticket_price));
    lemma_split(b, 0, 72, s5, zeros(4));
    lemma_split(b, 0, 68, s4, u8_bytes(v.burn_percent));
    lemma_split(b, 0, 67, s3, u8_bytes(v.winner_fee_percent));
    lemma_split(b, 0, 66, s2, u8_bytes(v.distribution_fee_percent));
    lemma_split(b, 0, 65, s1, u8_bytes(v.team_fee_percent));
    lemma_split(b, 0, 64, v.team_address, v.owner_address);
}

/// A buffer in which every field of a state stands at its offset is read
/// as that state, and is in canonical form.
proof fn lemma_read_where_fields_stand(v: OldRLView, b: Seq<u8>)
    requires
        v.wf(),
        fields_stand_in(v, b),
    ensures
        old_rl_canonical(b),
        OldRLView::of_bytes(b) == v,
{
    let read = OldRLView::of_bytes(b);
    assert(read.ticket_price == v.ticket_price) by {
        lemma_u64_read_written(b, 72, v.ticket_price);
    }
    assert(read.winners_info_next_empty_index == v.winners_info_next_empty_index) by {
        lemma_u64_read_written(b, 82272, v.winners_info_next_empty_index);
    }
    assert(read.players == v.players) by {
        lemma_player_hash_set_redecode(b, 80, v.players);
    }
    assert(read.winners == v.winners) by {
        assert forall|i: int| 0 <= i < 1024 implies #[trigger] read.winners[i]
            == v.winners[i] by {
            lemma_winners_redecode(b, 33120, v.winners, i);
        }
        assert(read.winners =~= v.winners);
    }
    assert forall|i: int| 0 <= i < 1024 implies #[trigger] winner_padding(b, i) == zeros(2) by {
        lemma_winners_redecode(b, 33120, v.winners, i);
    }
    lemma_byte_read(b, 64, v.team_fee_percent);
    lemma_byte_read(b, 65, v.distribution_fee_percent);
    lemma_byte_read(b, 66, v.winner_fee_percent);
    lemma_byte_read(b, 67, v.burn_percent);
    lemma_byte_read(b, 82280, v.current_state.byte());
}

/// Laying a legacy state out and reading the bytes gives the state back,
/// and the bytes are laid out as a legacy state is.
pub proof fn lemma_old_rl_redecode(v: OldRLView)
    requires
        v.wf(),
    ensures
        old_rl_canonical(v.bytes()),
        OldRLView::of_bytes(v.bytes()) == v,
{
    lemma_fields_stand_in_layout(v);
    lemma_read_where_fields_stand(v, v.bytes());
}

/// What is read from a buffer of `OLD_RL_SIZE` bytes is a well-formed state.
pub proof fn lemma_old_rl_of_bytes_wf(b: Seq<u8>)
    requires
        b.len() == OLD_RL_SIZE,
    ensures
        OldRLView::of_bytes(b).wf(),
{
}

/// Among the buffers of `OLD_RL_SIZE` bytes, those that reading and laying
/// out again gives back are exactly those in canonical form.
pub proof fn lemma_old_rl_reencode_iff_canonical(b: Seq<u8>)
    requires
        b.len() == OLD_RL_SIZE,
    ensures
        OldRLView::of_bytes(b).bytes() == b <==> old_rl_canonical(b),
{
    if old_rl_canonical(b) {
        lemma_old_rl_reencode(b);
    }
    if OldRLView::of_bytes(b).bytes() == b {
        lemma_old_rl_of_bytes_wf(b);
        lemma_old_rl_redecode(OldRLView::of_bytes(b));
    }
}

} // verus!
