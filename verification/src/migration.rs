//! From the bytes of a legacy state to the bytes of the current state, and
//! what holds of every state that is carried over.

use crate::common::zeros;
use crate::new_rl::{NewRL, NewRLView, NEW_RL_SIZE};
use crate::new_rl_laws::{
    lemma_new_rl_bytes_len, lemma_new_rl_redecode, lemma_next_epoch_data_in_layout,
};
use crate::old_rl::{DecodeError, OldRL, OldRLView, OLD_RL_SIZE};
use vstd::prelude::*;

verus! {

/// Reads a legacy state from `input`, carries it over and lays the result
/// out. A buffer of any other length than `OLD_RL_SIZE` gives the error and
/// no bytes.
pub fn migrate_bytes(input: &[u8]) -> (r: Result<Vec<u8>, DecodeError>)
    ensures
        input@.len() == OLD_RL_SIZE ==> (r matches Ok(out) && out@ == NewRLView::of_legacy(
            OldRLView::of_bytes(input@),
        ).bytes() && out@.len() == NEW_RL_SIZE && NewRLView::of_bytes(out@)
            == NewRLView::of_legacy(OldRLView::of_bytes(input@))),
        input@.len() != OLD_RL_SIZE ==> r == Err::<Vec<u8>, DecodeError>(
            (DecodeError::SizeMismatch { expected: OLD_RL_SIZE, actual: input.len() }),
        ),
{
    match OldRL::from_bytes(input) {
        Ok(old) => {
            let new = NewRL::from(&old);
            Ok(new.to_bytes())
        },
        Err(e) => Err(e),
    }
}

/// A legacy state that is carried over is a well-formed state.
pub proof fn lemma_migrated_wf(old: OldRL)
    ensures
        NewRLView::of_legacy(old@).wf(),
{
    old.lemma_view_wf();
    let new = NewRLView::of_legacy(old@);
    assert forall|i: int| 0 <= i < 1024 implies (#[trigger] new.winners[i]).wf() by {
        assert(old@.winners[i].winner_address.len() == 32);
    }
}

/// Whatever the legacy state holds, the layout of the state it is carried
/// over into has `NEW_RL_SIZE` bytes.
pub proof fn lemma_migrated_layout_len(old: OldRL)
    ensures
        NewRLView::of_legacy(old@).bytes().len() == NEW_RL_SIZE,
{
    lemma_migrated_wf(old);
    lemma_new_rl_bytes_len(NewRLView::of_legacy(old@));
}

/// What is read back from the layout of a state that was carried over is
/// the legacy state carried over: kept fields as they were, new fields zero.
pub proof fn lemma_migrated_layout_reads_back(old: OldRL)
    ensures
        NewRLView::of_bytes(NewRLView::of_legacy(old@).bytes()) == NewRLView::of_legacy(old@),
{
    lemma_migrated_wf(old);
    lemma_new_rl_redecode(NewRLView::of_legacy(old@));
}

/// The ring index of the winners history is carried over unchanged.
pub proof fn lemma_migrated_winners_counter(old: OldRL)
    ensures
        NewRLView::of_legacy(old@).winners_counter == old.winners_info_next_empty_index,
{
}

/// The player counter starts at zero, whatever the population of the legacy
/// player set was.
pub proof fn lemma_migrated_player_counter(old: OldRL)
    ensures
        NewRLView::of_legacy(old@).player_counter == 0,
{
}

/// Every player slot keeps its place: slot `i` holds what legacy slot `i`
/// held, so an empty slot stays empty.
pub proof fn lemma_migrated_player_slots(old: OldRL, i: int)
    requires
        0 <= i < 1024,
    ensures
        NewRLView::of_legacy(old@).players[i] == old.players.players[i]@,
        old.players.players[i]@ == zeros(32) ==> NewRLView::of_legacy(old@).players[i] == zeros(32),
{
}

/// The deferred-change record of a state that was carried over is sixteen
/// zero bytes, padding included, both by itself and where it stands in the
/// layout of the state.
pub proof fn lemma_migrated_next_epoch_data_zero(old: OldRL)
    ensures
        NewRLView::of_legacy(old@).next_epoch_data.bytes() == zeros(16),
        NewRLView::of_legacy(old@).bytes().subrange(81984, 82000) == zeros(16),
{
    let new = NewRLView::of_legacy(old@);
    lemma_migrated_wf(old);
    lemma_next_epoch_data_in_layout(new);
    assert(new.next_epoch_data.bytes() =~= zeros(16));
}

} // verus!
