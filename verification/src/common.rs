use vstd::prelude::*;

verus! {

/// Capacity of the player table.
pub const RL_MAX_NUMBER_OF_PLAYERS: usize = 1024;

/// Capacity of the winners history ring.
pub const RL_MAX_NUMBER_OF_WINNERS_IN_HISTORY: usize = 1024;

/// Number of 64-bit words that hold two state bits for each player slot.
pub const RL_OCCUPATION_FLAG_WORDS: usize = (RL_MAX_NUMBER_OF_PLAYERS * 2 + 63) / 64;

/// A sequence of `n` zero bytes.
pub open spec fn zeros(n: nat) -> Seq<u8> {
    Seq::new(n, |i: int| 0u8)
}

/// The byte views of a sequence of identifiers, in order.
pub open spec fn ids_view(ids: Seq<Id>) -> Seq<Seq<u8>> {
    Seq::new(ids.len(), |i: int| ids[i]@)
}

/// 256-bit account identifier. The all-zero value means "no account".
/// Two identifiers are equal when their bytes are.
#[derive(Debug, Clone, Copy, Eq, Hash)]
pub struct Id {
    pub data: [u8; 32],
}

impl PartialEq for Id {
    fn eq(&self, other: &Self) -> (equal: bool) {
        let mut i: usize = 0;
        while i < 32
            invariant
                i <= 32,
                forall|j: int| 0 <= j < i ==> self.data[j] == other.data[j],
            decreases 32 - i,
        {
            if self.data[i] != other.data[i] {
                assert(self@[i as int] != other@[i as int]);
                return false;
            }
            i += 1;
        }
        assert(self@ =~= other@);
        true
    }
}

impl vstd::std_specs::cmp::PartialEqSpecImpl for Id {
    open spec fn obeys_eq_spec() -> bool {
        true
    }

    open spec fn eq_spec(&self, other: &Self) -> bool {
        self@ == other@
    }
}

impl View for Id {
    type V = Seq<u8>;

    open spec fn view(&self) -> Seq<u8> {
        self.data@
    }
}

impl Id {
    /// The zero sentinel.
    pub fn zero() -> (id: Self)
        ensures
            id@ == zeros(32),
    {
        let id = Id { data: [0u8; 32] };
        assert(id@ =~= zeros(32));
        id
    }

    /// True exactly for the zero sentinel.
    pub fn is_zero(&self) -> (z: bool)
        ensures
            z == (self@ == zeros(32)),
    {
        let mut i: usize = 0;
        while i < 32
            invariant
                i <= 32,
                forall|j: int| 0 <= j < i ==> self.data[j] == 0,
            decreases 32 - i,
        {
            if self.data[i] != 0 {
                assert(self@[i as int] != zeros(32)[i as int]);
                return false;
            }
            i += 1;
        }
        assert(self@ =~= zeros(32));
        true
    }
}

/// Two identifiers with the same bytes are the same identifier.
pub proof fn lemma_id_view_injective(a: Id, b: Id)
    requires
        a@ == b@,
    ensures
        a == b,
{
    assert(a.data =~= b.data);
}

/// Two sequences of identifiers with the same byte views are the same.
pub proof fn lemma_ids_view_injective(a: Seq<Id>, b: Seq<Id>)
    requires
        ids_view(a) == ids_view(b),
    ensures
        a == b,
{
    assert(a.len() == ids_view(a).len());
    assert(b.len() == ids_view(b).len());
    assert forall|i: int| 0 <= i < a.len() implies a[i] == b[i] by {
        assert(ids_view(a)[i] == a[i]@);
        assert(ids_view(b)[i] == b[i]@);
        lemma_id_view_injective(a[i], b[i]);
    }
    assert(a =~= b);
}

impl Default for Id {
    fn default() -> (id: Self)
        ensures
            id@ == zeros(32),
    {
        Id::zero()
    }
}

/// The name of the text that the standard base64 engine gives for `bytes`:
/// alphabet `A-Z a-z 0-9 + /`, padded with `=`.
pub uninterp spec fn base64_standard(bytes: Seq<u8>) -> Seq<char>;

/// Calls `base64::Engine::encode` on `base64::engine::general_purpose::STANDARD`.
/// The text depends on the 32 bytes alone; it is named, not described.
#[verifier::external_body]
fn base64_encode(data: &[u8; 32]) -> (text: String)
    ensures
        text@ == base64_standard(data@),
{
    base64::Engine::encode(&base64::engine::general_purpose::STANDARD, data)
}

impl Id {
    /// Text form of the identifier, for display only.
    pub fn to_base64(&self) -> (text: String)
        ensures
            text@ == base64_standard(self@),
    {
        base64_encode(&self.data)
    }
}

/// Phase of the lottery.
#[derive(Debug, Clone, Copy, PartialEq, Eq, Structural)]
pub enum EState {
    Selling,
    Locked,
}

impl EState {
    /// The byte that stands for the state in both layouts.
    pub open spec fn byte(self) -> u8 {
        match self {
            EState::Selling => 0,
            EState::Locked => 1,
        }
    }

    /// The state that a stored byte stands for. Only 0 means `Selling`;
    /// every other byte is read as `Locked`, the state in which nothing is sold.
    pub open spec fn of_byte(b: u8) -> EState {
        if b == 0 {
            EState::Selling
        } else {
            EState::Locked
        }
    }

    /// The byte that stands for the state.
    pub fn to_byte(self) -> (b: u8)
        ensures
            b == self.byte(),
    {
        match self {
            EState::Selling => 0,
            EState::Locked => 1,
        }
    }

    /// The state that a stored byte stands for: `Selling` for 0, `Locked`
    /// for every other byte.
    pub fn from_byte(b: u8) -> (state: EState)
        ensures
            state == EState::of_byte(b),
    {
        if b == 0 {
            EState::Selling
        } else {
            EState::Locked
        }
    }
}

impl Default for EState {
    fn default() -> (state: Self)
        ensures
            state == EState::Locked,
    {
        EState::Locked
    }
}

/// One entry of the winners history, as the legacy layout stores it.
#[derive(Debug, Clone, Copy, PartialEq, Eq)]
pub struct WinnerInfo {
    pub winner_address: Id,
    pub revenue: u64,
    pub epoch: u16,
    pub tick: u32,
}

/// What a `WinnerInfo` holds, with the address as its 32 bytes.
pub struct WinnerInfoView {
    pub winner_address: Seq<u8>,
    pub revenue: u64,
    pub epoch: u16,
    pub tick: u32,
}

impl View for WinnerInfo {
    type V = WinnerInfoView;

    open spec fn view(&self) -> WinnerInfoView {
        WinnerInfoView {
            winner_address: self.winner_address@,
            revenue: self.revenue,
            epoch: self.epoch,
            tick: self.tick,
        }
    }
}

impl WinnerInfoView {
    /// The entry of a history slot that was never written.
    pub open spec fn empty() -> WinnerInfoView {
        WinnerInfoView { winner_address: zeros(32), revenue: 0, epoch: 0, tick: 0 }
    }
}

impl WinnerInfo {
    /// True when the slot holds no winner: its address is the zero sentinel.
    pub fn is_unused(&self) -> (unused: bool)
        ensures
            unused == (self@.winner_address == zeros(32)),
    {
        self.winner_address.is_zero()
    }
}

impl Default for WinnerInfo {
    fn default() -> (w: Self)
        ensures
            w@ == WinnerInfoView::empty(),
    {
        WinnerInfo { winner_address: Id::zero(), revenue: 0, epoch: 0, tick: 0 }
    }
}

} // verus!
