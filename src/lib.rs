//! Accounting core of a tournament escrow: tournaments collect fixed-price
//! entries into a prize pool, which the tournament owner later splits among
//! the winners by configured percentages.

pub mod contract;
pub mod events;
pub mod lifecycle;
pub mod metadata;
pub mod percent;
pub mod tournament_core;

pub use contract::Contract;
pub use events::{
    EventLog, EventLogVariant, TournamentCreateLog, TournamentEntranceLog,
    TournamentPrizesRewardLog,
};
pub use metadata::{
    ContractMetadata, JsonTournament, Tournament, TournamentContractMetadata, TournamentId,
    TournamentMetadata,
};
pub use percent::percent_calculation;
pub use tournament_core::{Payout, Reward, TournamentContract, TournamentError};
