use std::collections::HashMap;
use vstd::prelude::*;

use crate::metadata::{
    copy_opt_string, opt_str_view, JsonTournament, Tournament, TournamentId, TournamentMetadata,
};
use crate::percent::{percent_calculation, share};

verus! {

broadcast use vstd::std_specs::hash::group_hash_axioms;

/// Why an operation on a tournament was rejected. A rejected operation
/// changes nothing.
#[derive(Debug, Clone, Copy, PartialEq, Eq, Structural)]
pub enum TournamentError {
    /// A tournament must be created with a positive entry price.
    ZeroEntryPrice,
    /// A tournament with this id exists already.
    AlreadyExists,
    /// The caller is not the owner that the operation requires.
    NotOwner,
    /// The prizes of the tournament were distributed already.
    Inactive,
    /// As many players as the capacity allows have entered.
    Full,
    /// The attached deposit is below the entry price.
    DepositTooSmall,
    /// The account has entered this tournament already.
    AlreadyEntered,
    /// The prize pool would exceed the width of its integer.
    BalanceOverflow,
    /// A winner was named for a place that has no configured percentage.
    UnknownPlace,
    /// Some place's percentage times the pool exceeds the width of the integer.
    PayoutOverflow,
    /// The payouts together exceed the prize pool.
    PayoutExceedsBalance,
}

/// One tournament as the contracts see it.
pub ghost struct TournamentView {
    pub owner_id: Seq<char>,
    pub active: bool,
    pub balance: u128,
    pub name: Seq<char>,
    pub icon: Option<Seq<char>>,
    pub players_number: u8,
    pub in_price: u128,
    /// Percent of the pool per place.
    pub prizes: Map<u8, u8>,
    /// The accounts that entered, in order of entry.
    pub players: Seq<Seq<char>>,
}

/// Everything kept about one tournament.
pub struct TournamentRecord {
    tournament_id: TournamentId,
    tournament: Tournament,
    metadata: TournamentMetadata,
    prizes: HashMap<u8, u8>,
    players: Vec<String>,
}

impl TournamentRecord {
    pub closed spec fn entry(self) -> (Seq<char>, TournamentView) {
        (
            self.tournament_id@,
            TournamentView {
                owner_id: self.tournament.owner_id@,
                active: self.tournament.active,
                balance: self.tournament.balance,
                name: self.metadata.name@,
                icon: opt_str_view(self.metadata.icon),
                players_number: self.metadata.players_number,
                in_price: self.metadata.in_price,
                prizes: self.prizes@,
                players: self.players@.map_values(|p: String| p@),
            },
        )
    }
}

/// The registry of tournaments, in order of creation.
pub struct TournamentContract {
    records: Vec<TournamentRecord>,
}

impl View for TournamentContract {
    type V = Seq<(Seq<char>, TournamentView)>;

    closed spec fn view(&self) -> Self::V {
        self.records@.map_values(|r: TournamentRecord| r.entry())
    }
}

/// Whether a tournament with this id is registered.
pub open spec fn has_id(v: Seq<(Seq<char>, TournamentView)>, id: Seq<char>) -> bool {
    exists|i: int| 0 <= i < v.len() && #[trigger] v[i].0 == id
}

/// The position of the tournament with this id.
pub open spec fn index_of(v: Seq<(Seq<char>, TournamentView)>, id: Seq<char>) -> int {
    choose|i: int| 0 <= i < v.len() && #[trigger] v[i].0 == id
}

/// The tournament with this id, if one is registered.
pub open spec fn lookup(v: Seq<(Seq<char>, TournamentView)>, id: Seq<char>) -> Option<
    TournamentView,
> {
    if has_id(v, id) {
        Some(v[index_of(v, id)].1)
    } else {
        None
    }
}

/// Ids are unique; each tournament holds distinct players, no more than its
/// capacity.
pub open spec fn well_formed(v: Seq<(Seq<char>, TournamentView)>) -> bool {
    &&& forall|i: int, j: int| 0 <= i < j < v.len() ==> #[trigger] v[i].0 != #[trigger] v[j].0
    &&& forall|i: int|
        0 <= i < v.len() ==> {
            &&& (#[trigger] v[i]).1.players.len() <= v[i].1.players_number
            &&& v[i].1.players.no_duplicates()
        }
}

/// A tournament just created.
pub open spec fn fresh_tournament(
    owner_id: Seq<char>,
    name: Seq<char>,
    icon: Option<Seq<char>>,
    players_number: u8,
    in_price: u128,
    prizes: Map<u8, u8>,
) -> TournamentView {
    TournamentView {
        owner_id,
        active: true,
        balance: 0,
        name,
        icon,
        players_number,
        in_price,
        prizes,
        players: Seq::empty(),
    }
}

/// Creating a tournament: the registry after, and the outcome.
pub open spec fn create_spec(
    v: Seq<(Seq<char>, TournamentView)>,
    id: Seq<char>,
    t: TournamentView,
) -> (Seq<(Seq<char>, TournamentView)>, Result<(), TournamentError>) {
    if t.in_price == 0 {
        (v, Err(TournamentError::ZeroEntryPrice))
    } else if has_id(v, id) {
        (v, Err(TournamentError::AlreadyExists))
    } else {
        (v.push((id, t)), Ok(()))
    }
}

/// What is sent back of a deposit: the excess over the price, unless it is
/// a single unit or none.
pub open spec fn refund_of(attached_deposit: u128, in_price: u128) -> u128 {
    if attached_deposit - in_price > 1 {
        (attached_deposit - in_price) as u128
    } else {
        0
    }
}

/// Entering a tournament: the registry after, and the outcome. An unknown
/// id changes nothing and gives `Ok(None)`; a successful entry gives the
/// refund.
pub open spec fn enter_spec(
    v: Seq<(Seq<char>, TournamentView)>,
    id: Seq<char>,
    account: Seq<char>,
    attached_deposit: u128,
) -> (Seq<(Seq<char>, TournamentView)>, Result<Option<u128>, TournamentError>) {
    if !has_id(v, id) {
        (v, Ok(None))
    } else {
        let i = index_of(v, id);
        let t = v[i].1;
        if !t.active {
            (v, Err(TournamentError::Inactive))
        } else if t.players.len() >= t.players_number {
            (v, Err(TournamentError::Full))
        } else if attached_deposit < t.in_price {
            (v, Err(TournamentError::DepositTooSmall))
        } else if t.players.contains(account) {
            (v, Err(TournamentError::AlreadyEntered))
        } else if t.balance + t.in_price > u128::MAX {
            (v, Err(TournamentError::BalanceOverflow))
        } else {
            (
                v.update(
                    i,
                    (
                        id,
                        TournamentView {
                            balance: (t.balance + t.in_price) as u128,
                            players: t.players.push(account),
                            ..t
                        },
                    ),
                ),
                Ok(Some(refund_of(attached_deposit, t.in_price))),
            )
        }
    }
}

/// Free places of a tournament, if it is registered.
pub open spec fn free_places_spec(v: Seq<(Seq<char>, TournamentView)>, id: Seq<char>) -> Option<
    u64,
> {
    match lookup(v, id) {
        Some(t) => Some((t.players_number - t.players.len()) as u64),
        None => None,
    }
}

/// One prize transfer: `amount` for the winner of `place`.
pub struct Payout {
    pub place: u8,
    pub account_id: String,
    pub amount: u128,
}

/// The outcome of a prize distribution: the transfers to make, by
/// ascending place, and their total.
pub struct Reward {
    pub payouts: Vec<Payout>,
    pub rewarded_amount: u128,
}

/// The transfer owed to the winner of place `r`.
pub open spec fn payout_at(t: TournamentView, winners: Map<u8, String>, r: u8) -> Payout {
    Payout {
        place: r,
        account_id: winners[r],
        amount: share(t.prizes[r] as int, t.balance as int) as u128,
    }
}

/// The transfers owed for the places below `k` that have a winner.
pub open spec fn planned_payouts(t: TournamentView, winners: Map<u8, String>, k: nat) -> Seq<
    Payout,
>
    decreases k,
{
    if k == 0 {
        Seq::empty()
    } else {
        let prev = planned_payouts(t, winners, (k - 1) as nat);
        if winners.contains_key((k - 1) as u8) {
            prev.push(payout_at(t, winners, (k - 1) as u8))
        } else {
            prev
        }
    }
}

/// The sum of the shares owed for the places below `k` that have a winner.
pub open spec fn payout_total(t: TournamentView, winners: Map<u8, String>, k: nat) -> int
    decreases k,
{
    if k == 0 {
        0
    } else {
        payout_total(t, winners, (k - 1) as nat) + if winners.contains_key((k - 1) as u8) {
            share(t.prizes[(k - 1) as u8] as int, t.balance as int)
        } else {
            0
        }
    }
}

/// Some winner's place has no configured percentage.
pub open spec fn unknown_place(t: TournamentView, winners: Map<u8, String>) -> bool {
    exists|r: u8| #[trigger] winners.contains_key(r) && !t.prizes.contains_key(r)
}

/// For some winner's place, percentage times pool exceeds a `u128`.
pub open spec fn payout_overflows(t: TournamentView, winners: Map<u8, String>) -> bool {
    exists|r: u8|
        #[trigger] winners.contains_key(r) && t.prizes[r] as int * t.balance as int > u128::MAX
}

/// Distributing the prizes: the registry after, and the outcome, which on
/// success is the total paid out. An unknown id changes nothing and gives
/// `Ok(None)`.
pub open spec fn reward_spec(
    v: Seq<(Seq<char>, TournamentView)>,
    id: Seq<char>,
    caller: Seq<char>,
    winners: Map<u8, String>,
) -> (Seq<(Seq<char>, TournamentView)>, Result<Option<u128>, TournamentError>) {
    if !has_id(v, id) {
        (v, Ok(None))
    } else {
        let i = index_of(v, id);
        let t = v[i].1;
        let total = payout_total(t, winners, 256);
        if caller != t.owner_id {
            (v, Err(TournamentError::NotOwner))
        } else if !t.active {
            (v, Err(TournamentError::Inactive))
        } else if unknown_place(t, winners) {
            (v, Err(TournamentError::UnknownPlace))
        } else if payout_overflows(t, winners) {
            (v, Err(TournamentError::PayoutOverflow))
        } else if total > t.balance {
            (v, Err(TournamentError::PayoutExceedsBalance))
        } else {
            (
                v.update(
                    i,
                    (id, TournamentView { balance: (t.balance - total) as u128, active: false, ..t }),
                ),
                Ok(Some(total as u128)),
            )
        }
    }
}

/// The outcome of a prize distribution with the transfers left out.
pub open spec fn reward_outcome(r: Result<Option<Reward>, TournamentError>) -> Result<
    Option<u128>,
    TournamentError,
> {
    match r {
        Ok(Some(w)) => Ok(Some(w.rewarded_amount)),
        Ok(None) => Ok(None),
        Err(e) => Err(e),
    }
}

/// The percent configured for place `r`, widened.
pub open spec fn prize_opt(prizes: Map<u8, u8>, r: u8) -> Option<u64> {
    if prizes.contains_key(r) {
        Some(prizes[r] as u64)
    } else {
        None
    }
}

/// `j` shows the tournament `t` registered under `id`.
pub open spec fn shows(j: JsonTournament, id: Seq<char>, t: TournamentView) -> bool {
    &&& j.tournament_id@ == id
    &&& j.owner_id@ == t.owner_id
    &&& j.metadata.name@ == t.name
    &&& opt_str_view(j.metadata.icon) == t.icon
    &&& j.metadata.players_number == t.players_number
    &&& j.metadata.in_price == t.in_price
    &&& j.first_place_prize == prize_opt(t.prizes, 1)
    &&& j.second_place_prize == prize_opt(t.prizes, 2)
    &&& j.third_place_prize == prize_opt(t.prizes, 3)
    &&& j.active == t.active
    &&& j.prize_fond == t.balance
}

/// How many tournaments a page starting at `start` holds, at most `limit`.
pub open spec fn page_len(n: int, start: int, limit: int) -> int {
    if start >= n {
        0
    } else if limit < n - start {
        limit
    } else {
        n - start
    }
}

/// In a well-formed registry the position of an id is the one that holds it.
pub proof fn lemma_index_of(v: Seq<(Seq<char>, TournamentView)>, i: int)
    requires
        well_formed(v),
        0 <= i < v.len(),
    ensures
        has_id(v, v[i].0),
        index_of(v, v[i].0) == i,
        lookup(v, v[i].0) == Some(v[i].1),
{
    assert(has_id(v, v[i].0));
    let j = index_of(v, v[i].0);
    if j != i {
        if j < i {
            assert(v[j].0 != v[i].0);
        } else {
            assert(v[i].0 != v[j].0);
        }
    }
}

/// The percent of place `r` in `prizes`, widened.
fn prize_of(prizes: &HashMap<u8, u8>, r: u8) -> (p: Option<u64>)
    ensures
        p == prize_opt(prizes@, r),
{
    match prizes.get(&r) {
        Some(v) => Some(*v as u64),
        None => None,
    }
}

impl TournamentRecord {
    /// The reader's view of this tournament.
    fn to_json(&self) -> (j: JsonTournament)
        ensures
            shows(j, self.entry().0, self.entry().1),
    {
        JsonTournament {
            tournament_id: self.tournament_id.clone(),
            owner_id: self.tournament.owner_id.clone(),
            metadata: self.metadata.copy(),
            first_place_prize: prize_of(&self.prizes, 1),
            second_place_prize: prize_of(&self.prizes, 2),
            third_place_prize: prize_of(&self.prizes, 3),
            active: self.tournament.active,
            prize_fond: self.tournament.balance,
        }
    }
}

/// Whether `account` is among `players`.
fn players_contains(players: &Vec<String>, account: &String) -> (r: bool)
    ensures
        r == players@.map_values(|p: String| p@).contains(account@),
{
    let ghost seen = players@.map_values(|p: String| p@);
    let mut i: usize = 0;
    while i < players.len()
        invariant
            i <= players@.len(),
            seen == players@.map_values(|p: String| p@),
            forall|j: int| 0 <= j < i ==> #[trigger] seen[j] != account@,
        decreases players@.len() - i,
    {
        if players[i] == *account {
            assert(seen[i as int] == account@);
            return true;
        }
        i = i + 1;
    }
    false
}

impl TournamentContract {
    /// The invariant of the registry.
    pub closed spec fn wf(&self) -> bool {
        well_formed(self@)
    }

    /// An empty registry.
    pub fn new() -> (r: Self)
        ensures
            r.wf(),
            r@ == Seq::<(Seq<char>, TournamentView)>::empty(),
    {
        let r = TournamentContract { records: Vec::new() };
        assert(r@ =~= Seq::<(Seq<char>, TournamentView)>::empty());
        r
    }

    /// The position of the tournament with this id, if there is one.
    fn find(&self, tournament_id: &String) -> (r: Option<usize>)
        ensures
            match r {
                Some(i) => i < self@.len() && self@[i as int].0 == tournament_id@ && has_id(
                    self@,
                    tournament_id@,
                ),
                None => !has_id(self@, tournament_id@),
            },
    {
        let mut i: usize = 0;
        while i < self.records.len()
            invariant
                i <= self.records@.len(),
                forall|j: int| 0 <= j < i ==> #[trigger] self@[j].0 != tournament_id@,
            decreases self.records@.len() - i,
        {
            if self.records[i].tournament_id == *tournament_id {
                assert(self@[i as int].0 == tournament_id@);
                return Some(i);
            }
            i = i + 1;
        }
        None
    }
    /// Registers a tournament under `tournament_id`, with `percents_map`
    /// giving the percent of the pool for each place.
    ///
    /// Fails with `ZeroEntryPrice` when `in_price` is zero, else with
    /// `AlreadyExists` when the id is taken; otherwise appends the new
    /// tournament, active and with an empty pool.
    pub fn tournament_create(
        &mut self,
        tournament_id: TournamentId,
        name: String,
        icon: Option<String>,
        players_number: u8,
        in_price: u128,
        tournament_owner_id: String,
        percents_map: HashMap<u8, u8>,
    ) -> (r: Result<(), TournamentError>)
        requires
            old(self).wf(),
        ensures
            final(self).wf(),
            (final(self)@, r) == create_spec(
                old(self)@,
                tournament_id@,
                fresh_tournament(
                    tournament_owner_id@,
                    name@,
                    opt_str_view(icon),
                    players_number,
                    in_price,
                    percents_map@,
                ),
            ),
    {
        if in_price == 0 {
            return Err(TournamentError::ZeroEntryPrice);
        }
        match self.find(&tournament_id) {
            Some(_) => Err(TournamentError::AlreadyExists),
            None => {
                let ghost before = self@;
                let record = TournamentRecord {
                    tournament_id,
                    tournament: Tournament { owner_id: tournament_owner_id, active: true, balance: 0 },
                    metadata: TournamentMetadata { name, icon, players_number, in_price },
                    prizes: percents_map,
                    players: Vec::new(),
                };
                assert(record.players@.map_values(|p: String| p@) =~= Seq::<Seq<char>>::empty());
                self.records.push(record);
                assert(self@ =~= before.push(record.entry()));
                Ok(())
            },
        }
    }

    /// Enters `account_id` into a tournament with `attached_deposit` paid.
    ///
    /// An unknown id is ignored (`Ok(None)`). Otherwise the conditions are tested in
    /// this order: the tournament is active, has a free place, the deposit
    /// covers the price, the account has not entered yet, and the pool can
    /// grow by the price. On success the price joins the pool, the account
    /// joins the players, and the result holds the refund.
    pub fn participate_tournament(
        &mut self,
        tournament_id: TournamentId,
        account_id: String,
        attached_deposit: u128,
    ) -> (r: Result<Option<u128>, TournamentError>)
        requires
            old(self).wf(),
        ensures
            final(self).wf(),
            (final(self)@, r) == enter_spec(old(self)@, tournament_id@, account_id@, attached_deposit),
    {
        match self.find(&tournament_id) {
            None => Ok(None),
            Some(i) => {
                let ghost before = self@;
                proof {
                    lemma_index_of(before, i as int);
                }
                if !self.records[i].tournament.active {
                    return Err(TournamentError::Inactive);
                }
                let capacity: u8 = self.records[i].metadata.players_number;
                let count: usize = self.records[i].players.len();
                assert(before[i as int].1.players.len() == count);
                if capacity as usize - count == 0 {
                    return Err(TournamentError::Full);
                }
                let price: u128 = self.records[i].metadata.in_price;
                if attached_deposit < price {
                    return Err(TournamentError::DepositTooSmall);
                }
                if players_contains(&self.records[i].players, &account_id) {
                    return Err(TournamentError::AlreadyEntered);
                }
                let balance: u128 = self.records[i].tournament.balance;
                if balance > u128::MAX - price {
                    return Err(TournamentError::BalanceOverflow);
                }
                let ghost old_rec = self.records@[i as int];
                self.records[i].tournament.balance = balance + price;
                self.records[i].players.push(account_id);
                let ghost new_rec = self.records@[i as int];
                assert(new_rec.players@.map_values(|p: String| p@) =~= old_rec.players@.map_values(
                    |p: String| p@,
                ).push(account_id@));
                assert(self@ =~= before.update(
                    i as int,
                    (
                        tournament_id@,
                        TournamentView {
                            balance: (before[i as int].1.balance + price) as u128,
                            players: before[i as int].1.players.push(account_id@),
                            ..before[i as int].1
                        },
                    ),
                ));
                let refund: u128 = attached_deposit - price;
                if refund > 1 {
                    Ok(Some(refund))
                } else {
                    Ok(Some(0))
                }
            },
        }
    }

    /// The free places of a tournament: its capacity less the players who
    /// entered; `None` for an unknown id.
    pub fn display_freeplaces_in_tournament(&self, tournament_id: TournamentId) -> (r: Option<u64>)
        requires
            self.wf(),
        ensures
            r == free_places_spec(self@, tournament_id@),
    {
        match self.find(&tournament_id) {
            None => None,
            Some(i) => {
                proof {
                    lemma_index_of(self@, i as int);
                }
                let capacity: u8 = self.records[i].metadata.players_number;
                let count: usize = self.records[i].players.len();
                assert(self@[i as int].1.players.len() == count);
                Some((capacity as usize - count) as u64)
            },
        }
    }
    /// Distributes the prize pool of a tournament among `winners_map`,
    /// which names the winning account of each place; `caller` must be the
    /// tournament's owner.
    ///
    /// An unknown id is ignored (`Ok(None)`). Each winner is owed the share
    /// of the pool that its place's percentage gives; the pool is read once,
    /// before any payout. On success the pool loses the total and the
    /// tournament becomes inactive, for good.
    pub fn reward_prizes(
        &mut self,
        tournament_id: TournamentId,
        caller: String,
        winners_map: HashMap<u8, String>,
    ) -> (r: Result<Option<Reward>, TournamentError>)
        requires
            old(self).wf(),
        ensures
            final(self).wf(),
            final(self)@ == reward_spec(old(self)@, tournament_id@, caller@, winners_map@).0,
            reward_outcome(r) == reward_spec(old(self)@, tournament_id@, caller@, winners_map@).1,
            r matches Ok(Some(w)) ==> w.payouts@ == planned_payouts(
                old(self)@[index_of(old(self)@, tournament_id@)].1,
                winners_map@,
                256,
            ),
    {
        let i = match self.find(&tournament_id) {
            None => {
                return Ok(None);
            },
            Some(i) => i,
        };
        let ghost before = self@;
        let ghost t = before[i as int].1;
        proof {
            lemma_index_of(before, i as int);
        }
        if !(self.records[i].tournament.owner_id == caller) {
            return Err(TournamentError::NotOwner);
        }
        if !self.records[i].tournament.active {
            return Err(TournamentError::Inactive);
        }
        let balance: u128 = self.records[i].tournament.balance;
        let prizes: &HashMap<u8, u8> = &self.records[i].prizes;
        let mut payouts: Vec<Payout> = Vec::new();
        let mut sum: u128 = 0;
        let mut overflow: bool = false;
        let mut exceeded: bool = false;
        let mut k: u16 = 0;
        while k < 256
            invariant
                k <= 256,
                self@ == before,
                well_formed(before),
                i < before.len(),
                t == before[i as int].1,
                has_id(before, tournament_id@),
                index_of(before, tournament_id@) == i,
                caller@ == t.owner_id,
                t.active,
                prizes@ == t.prizes,
                balance == t.balance,
                sum <= balance,
                forall|r: u8|
                    (r as int) < (k as int) && #[trigger] winners_map@.contains_key(r)
                        ==> t.prizes.contains_key(r),
                overflow <==> exists|r: u8|
                    (r as int) < (k as int) && #[trigger] winners_map@.contains_key(r)
                        && t.prizes[r] as int * balance as int > u128::MAX,
                !overflow && !exceeded ==> sum as int == payout_total(t, winners_map@, k as nat)
                    && payouts@ == planned_payouts(t, winners_map@, k as nat),
                !overflow && exceeded ==> payout_total(t, winners_map@, k as nat) > balance,
            decreases 256 - k,
        {
            let place: u8 = k as u8;
            match winners_map.get(&place) {
                None => {},
                Some(account) => {
                    match prizes.get(&place) {
                        None => {
                            assert(winners_map@.contains_key(place) && !t.prizes.contains_key(
                                place,
                            ));
                            return Err(TournamentError::UnknownPlace);
                        },
                        Some(p) => {
                            let percent: u128 = *p as u128;
                            if balance > 0 && percent > u128::MAX / balance {
                                assert(percent * balance > u128::MAX) by (nonlinear_arith)
                                    requires
                                        balance > 0,
                                        percent > u128::MAX / balance,
                                ;
                                overflow = true;
                            } else {
                                assert(percent * balance <= u128::MAX) by (nonlinear_arith)
                                    requires
                                        balance == 0 || percent <= u128::MAX / balance,
                                ;
                                if !overflow {
                                    let amount: u128 = percent_calculation(&percent, &balance);
                                    if !exceeded {
                                        if amount > balance - sum {
                                            exceeded = true;
                                        } else {
                                            sum = sum + amount;
                                            payouts.push(
                                                Payout {
                                                    place,
                                                    account_id: account.clone(),
                                                    amount,
                                                },
                                            );
                                        }
                                    }
                                }
                            }
                        },
                    }
                },
            }
            k = k + 1;
        }
        assert(!unknown_place(t, winners_map@));
        if overflow {
            return Err(TournamentError::PayoutOverflow);
        }
        if exceeded {
            return Err(TournamentError::PayoutExceedsBalance);
        }
        let ghost old_rec = self.records@[i as int];
        self.records[i].tournament.balance = balance - sum;
        self.records[i].tournament.active = false;
        assert(self@ =~= before.update(
            i as int,
            (tournament_id@, TournamentView { balance: (balance - sum) as u128, active: false, ..t }),
        ));
        Ok(Some(Reward { payouts, rewarded_amount: sum }))
    }
    /// The reader's view of a tournament, `None` for an unknown id. The
    /// prizes of the first three places are `None` where not configured.
    pub fn display_tournament(&self, tournament_id: TournamentId) -> (r: Option<JsonTournament>)
        requires
            self.wf(),
        ensures
            match lookup(self@, tournament_id@) {
                None => r is None,
                Some(t) => r matches Some(j) && shows(j, tournament_id@, t),
            },
    {
        match self.find(&tournament_id) {
            None => None,
            Some(i) => {
                proof {
                    lemma_index_of(self@, i as int);
                }
                Some(self.records[i].to_json())
            },
        }
    }

    /// A page of tournaments in order of creation: skips `from_index`
    /// (default 0) of them and shows at most `limit` (default 50).
    pub fn display_tournaments(&self, from_index: Option<u128>, limit: Option<u64>) -> (r: Vec<
        JsonTournament,
    >)
        ensures
            ({
                let start = match from_index {
                    Some(f) => f as int,
                    None => 0,
                };
                let lim = match limit {
                    Some(l) => l as int,
                    None => 50,
                };
                &&& r@.len() == page_len(self@.len() as int, start, lim)
                &&& forall|j: int|
                    0 <= j < r@.len() ==> shows(
                        #[trigger] r@[j],
                        self@[start + j].0,
                        self@[start + j].1,
                    )
            }),
    {
        let start: u128 = match from_index {
            Some(f) => f,
            None => 0,
        };
        let lim: u64 = match limit {
            Some(l) => l,
            None => 50,
        };
        let n: usize = self.records.len();
        let mut page: Vec<JsonTournament> = Vec::new();
        if start >= n as u128 {
            return page;
        }
        let first: usize = start as usize;
        let end: usize = if (lim as u128) < (n - first) as u128 {
            first + lim as usize
        } else {
            n
        };
        let mut i: usize = first;
        while i < end
            invariant
                first <= i <= end <= n,
                n == self@.len(),
                page@.len() == i - first,
                forall|j: int|
                    0 <= j < page@.len() ==> shows(
                        #[trigger] page@[j],
                        self@[first + j].0,
                        self@[first + j].1,
                    ),
            decreases end - i,
        {
            page.push(self.records[i].to_json());
            i = i + 1;
        }
        page
    }
}

} // verus!
