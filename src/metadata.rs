use vstd::prelude::*;

verus! {

/// Key of a tournament.
pub type TournamentId = String;

/// Descriptive metadata of the contract itself.
pub struct TournamentContractMetadata {
    pub name: String,
    pub icon: Option<String>,
}

/// Metadata of a tournament, fixed when it is created.
pub struct TournamentMetadata {
    pub name: String,
    pub icon: Option<String>,
    /// Capacity: how many players may enter.
    pub players_number: u8,
    /// Entry price that each player pays into the prize pool.
    pub in_price: u128,
}

/// The mutable part of a tournament.
pub struct Tournament {
    /// The account allowed to distribute the prizes.
    pub owner_id: String,
    /// `true` from creation until the prizes are distributed.
    pub active: bool,
    /// The prize pool: entries collected minus payouts made.
    pub balance: u128,
}

/// The view of one tournament handed out to readers.
pub struct JsonTournament {
    pub tournament_id: TournamentId,
    pub owner_id: String,
    pub metadata: TournamentMetadata,
    /// Percent of the pool for the first place, if configured.
    pub first_place_prize: Option<u64>,
    /// Percent of the pool for the second place, if configured.
    pub second_place_prize: Option<u64>,
    /// Percent of the pool for the third place, if configured.
    pub third_place_prize: Option<u64>,
    pub active: bool,
    /// The current prize pool.
    pub prize_fond: u128,
}

/// The view of an optional string.
pub open spec fn opt_str_view(o: Option<String>) -> Option<Seq<char>> {
    match o {
        Some(s) => Some(s@),
        None => None,
    }
}

/// Copies an optional string.
pub fn copy_opt_string(o: &Option<String>) -> (r: Option<String>)
    ensures
        r == *o,
{
    match o {
        Some(s) => Some(s.clone()),
        None => None,
    }
}

impl TournamentContractMetadata {
    /// Copies the metadata.
    pub fn copy(&self) -> (r: Self)
        ensures
            r == *self,
    {
        TournamentContractMetadata { name: self.name.clone(), icon: copy_opt_string(&self.icon) }
    }
}

impl TournamentMetadata {
    /// Copies the metadata.
    pub fn copy(&self) -> (r: Self)
        ensures
            r == *self,
    {
        TournamentMetadata {
            name: self.name.clone(),
            icon: copy_opt_string(&self.icon),
            players_number: self.players_number,
            in_price: self.in_price,
        }
    }
}

/// Read access to the contract's own metadata.
pub trait ContractMetadata {
    /// The metadata held.
    spec fn stored_metadata(&self) -> TournamentContractMetadata;

    /// The contract's metadata.
    fn contract_metadata(&self) -> (r: TournamentContractMetadata)
        ensures
            r == self.stored_metadata(),
    ;
}

} // verus!
