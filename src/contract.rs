use std::collections::HashMap;
use vstd::prelude::*;

use crate::metadata::{
    opt_str_view, ContractMetadata, JsonTournament, TournamentContractMetadata, TournamentId,
};
use crate::tournament_core::{
    create_spec, enter_spec, fresh_tournament, free_places_spec, index_of, lookup, page_len,
    planned_payouts, reward_outcome, reward_spec, shows, Reward, TournamentContract,
    TournamentError, TournamentView,
};

verus! {

/// The contract: an owner, who alone creates tournaments, the registry of
/// tournaments, and descriptive metadata.
pub struct Contract {
    owner_id: String,
    tournament: TournamentContract,
    metadata: TournamentContractMetadata,
}

/// The name of the contract when none is given.
pub open spec fn default_contract_name() -> Seq<char> {
    "Tournament Test Contract"@
}

impl Contract {
    /// The account allowed to create tournaments.
    pub closed spec fn owner(&self) -> Seq<char> {
        self.owner_id@
    }

    /// The registry of tournaments.
    pub closed spec fn registry(&self) -> Seq<(Seq<char>, TournamentView)> {
        self.tournament@
    }

    /// The invariant of the contract.
    pub closed spec fn wf(&self) -> bool {
        self.tournament.wf()
    }

    /// A contract owned by `owner_id` with the default metadata: the
    /// default name and no icon.
    pub fn new_default_meta(owner_id: String) -> (r: Self)
        ensures
            r.wf(),
            r.owner() == owner_id@,
            r.registry().len() == 0,
            r.stored_metadata().name@ == default_contract_name(),
            r.stored_metadata().icon is None,
    {
        let name = "Tournament Test Contract".to_owned();
        proof {
            reveal_strlit("Tournament Test Contract");
        }
        Self::new(owner_id, TournamentContractMetadata { name, icon: None })
    }

    /// A contract owned by `owner_id` with `metadata` and no tournaments.
    pub fn new(owner_id: String, metadata: TournamentContractMetadata) -> (r: Self)
        ensures
            r.wf(),
            r.owner() == owner_id@,
            r.registry().len() == 0,
            r.stored_metadata() == metadata,
    {
        Contract { owner_id, tournament: TournamentContract::new(), metadata }
    }

    /// Creates a tournament; `caller` must be the contract's owner, else
    /// the call fails with `NotOwner` and changes nothing. Otherwise as
    /// `TournamentContract::tournament_create`.
    pub fn tournament_create(
        &mut self,
        caller: String,
        tournament_id: TournamentId,
        name: String,
        icon: Option<String>,
        players_number: u8,
        in_price: u128,
        tournament_owner_id: String,
        percents_map: HashMap<u8, u8>,
    ) -> (r: Result<(), TournamentError>)
        requires
            old(self).wf(),
        ensures
            final(self).wf(),
            final(self).owner() == old(self).owner(),
            final(self).stored_metadata() == old(self).stored_metadata(),
            caller@ != old(self).owner() ==> r == Err::<(), TournamentError>(
                TournamentError::NotOwner,
            ) && final(self).registry() == old(self).registry(),
            caller@ == old(self).owner() ==> (final(self).registry(), r) == create_spec(
                old(self).registry(),
                tournament_id@,
                fresh_tournament(
                    tournament_owner_id@,
                    name@,
                    opt_str_view(icon),
                    players_number,
                    in_price,
                    percents_map@,
                ),
            ),
    {
        if !(caller == self.owner_id) {
            return Err(TournamentError::NotOwner);
        }
        self.tournament.tournament_create(
            tournament_id,
            name,
            icon,
            players_number,
            in_price,
            tournament_owner_id,
            percents_map,
        )
    }

    /// Creates a tournament, as `tournament_create`.
    pub fn create(
        &mut self,
        caller: String,
        tournament_id: TournamentId,
        name: String,
        icon: Option<String>,
        players_number: u8,
        in_price: u128,
        tournament_owner_id: String,
        percents_map: HashMap<u8, u8>,
    ) -> (r: Result<(), TournamentError>)
        requires
            old(self).wf(),
        ensures
            final(self).wf(),
            final(self).owner() == old(self).owner(),
            final(self).stored_metadata() == old(self).stored_metadata(),
            caller@ != old(self).owner() ==> r == Err::<(), TournamentError>(
                TournamentError::NotOwner,
            ) && final(self).registry() == old(self).registry(),
            caller@ == old(self).owner() ==> (final(self).registry(), r) == create_spec(
                old(self).registry(),
                tournament_id@,
                fresh_tournament(
                    tournament_owner_id@,
                    name@,
                    opt_str_view(icon),
                    players_number,
                    in_price,
                    percents_map@,
                ),
            ),
    {
        self.tournament_create(
            caller,
            tournament_id,
            name,
            icon,
            players_number,
            in_price,
            tournament_owner_id,
            percents_map,
        )
    }

    /// The reader's view of a tournament, `None` for an unknown id.
    pub fn display_tournament(&self, tournament_id: TournamentId) -> (r: Option<JsonTournament>)
        requires
            self.wf(),
        ensures
            match lookup(self.registry(), tournament_id@) {
                None => r is None,
                Some(t) => r matches Some(j) && shows(j, tournament_id@, t),
            },
    {
        self.tournament.display_tournament(tournament_id)
    }

    /// Enters `caller` into a tournament with `attached_deposit` paid, as
    /// `TournamentContract::participate_tournament`.
    pub fn participate_tournament(
        &mut self,
        tournament_id: TournamentId,
        caller: String,
        attached_deposit: u128,
    ) -> (r: Result<Option<u128>, TournamentError>)
        requires
            old(self).wf(),
        ensures
            final(self).wf(),
            final(self).owner() == old(self).owner(),
            final(self).stored_metadata() == old(self).stored_metadata(),
            (final(self).registry(), r) == enter_spec(
                old(self).registry(),
                tournament_id@,
                caller@,
                attached_deposit,
            ),
    {
        self.tournament.participate_tournament(tournament_id, caller, attached_deposit)
    }

    /// The free places of a tournament, `None` for an unknown id.
    pub fn display_freeplaces_in_tournament(&self, tournament_id: TournamentId) -> (r: Option<u64>)
        requires
            self.wf(),
        ensures
            r == free_places_spec(self.registry(), tournament_id@),
    {
        self.tournament.display_freeplaces_in_tournament(tournament_id)
    }

    /// Distributes the prizes of a tournament, as
    /// `TournamentContract::reward_prizes`.
    pub fn reward_prizes(
        &mut self,
        tournament_id: TournamentId,
        caller: String,
        winners_map: HashMap<u8, String>,
    ) -> (r: Result<Option<Reward>, TournamentError>)
        requires
            old(self).wf(),
        ensures
            final(self).wf(),
            final(self).owner() == old(self).owner(),
            final(self).stored_metadata() == old(self).stored_metadata(),
            final(self).registry() == reward_spec(
                old(self).registry(),
                tournament_id@,
                caller@,
                winners_map@,
            ).0,
            reward_outcome(r) == reward_spec(
                old(self).registry(),
                tournament_id@,
                caller@,
                winners_map@,
            ).1,
            r matches Ok(Some(w)) ==> w.payouts@ == planned_payouts(
                old(self).registry()[index_of(old(self).registry(), tournament_id@)].1,
                winners_map@,
                256,
            ),
    {
        self.tournament.reward_prizes(tournament_id, caller, winners_map)
    }

    /// A page of tournaments in order of creation, as
    /// `TournamentContract::display_tournaments`.
    pub fn display_tournaments(&self, from_index: Option<u128>, limit: Option<u64>) -> (r: Vec<
        JsonTournament,
    >)
        ensures
            ({
                let start = match from_index {
                    Some(f) => f as int,
                    None => 0,
                };
                let lim = match limit {
                    Some(l) => l as int,
                    None => 50,
                };
                &&& r@.len() == page_len(self.registry().len() as int, start, lim)
                &&& forall|j: int|
                    0 <= j < r@.len() ==> shows(
                        #[trigger] r@[j],
                        self.registry()[start + j].0,
                        self.registry()[start + j].1,
                    )
            }),
    {
        self.tournament.display_tournaments(from_index, limit)
    }
}

impl ContractMetadata for Contract {
    closed spec fn stored_metadata(&self) -> TournamentContractMetadata {
        self.metadata
    }

    fn contract_metadata(&self) -> (r: TournamentContractMetadata) {
        self.metadata.copy()
    }
}

} // verus!
