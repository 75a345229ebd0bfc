use vstd::prelude::*;

use crate::tournament_core::{
    create_spec, enter_spec, free_places_spec, has_id, index_of, lemma_index_of, lookup,
    reward_spec, well_formed, TournamentError, TournamentView,
};

verus! {

/// Every active tournament holds exactly its entry price once per player.
pub open spec fn pools_match(v: Seq<(Seq<char>, TournamentView)>) -> bool {
    forall|i: int|
        0 <= i < v.len() && (#[trigger] v[i]).1.active ==> v[i].1.balance == v[i].1.players.len()
            * v[i].1.in_price
}

/// Creation fails when the entry price is zero, and succeeds when it is
/// positive and the id is new.
pub proof fn lemma_create_outcome(
    v: Seq<(Seq<char>, TournamentView)>,
    id: Seq<char>,
    t: TournamentView,
)
    ensures
        t.in_price == 0 ==> create_spec(v, id, t).1 is Err,
        t.in_price > 0 && !has_id(v, id) ==> create_spec(v, id, t).1 is Ok,
{
}

/// Creation under a taken id fails and leaves the registry, the existing
/// record included, as it was.
pub proof fn lemma_create_duplicate(
    v: Seq<(Seq<char>, TournamentView)>,
    id: Seq<char>,
    t: TournamentView,
)
    requires
        has_id(v, id),
    ensures
        create_spec(v, id, t).1 is Err,
        create_spec(v, id, t).0 == v,
        lookup(create_spec(v, id, t).0, id) == lookup(v, id),
{
}

/// Entering fails, changing nothing, when the tournament is full or the
/// deposit is below the price.
pub proof fn lemma_enter_rejected(
    v: Seq<(Seq<char>, TournamentView)>,
    id: Seq<char>,
    account: Seq<char>,
    attached_deposit: u128,
)
    requires
        has_id(v, id),
        ({
            let t = v[index_of(v, id)].1;
            t.players.len() >= t.players_number || attached_deposit < t.in_price
        }),
    ensures
        enter_spec(v, id, account, attached_deposit).1 is Err,
        enter_spec(v, id, account, attached_deposit).0 == v,
{
}

/// After an account entered a tournament, entering it again fails.
pub proof fn lemma_enter_twice(
    v: Seq<(Seq<char>, TournamentView)>,
    id: Seq<char>,
    account: Seq<char>,
    first_deposit: u128,
    second_deposit: u128,
)
    requires
        well_formed(v),
        enter_spec(v, id, account, first_deposit).1 matches Ok(Some(_)),
    ensures
        enter_spec(enter_spec(v, id, account, first_deposit).0, id, account, second_deposit).1 is Err,
{
    let i = index_of(v, id);
    let w = enter_spec(v, id, account, first_deposit).0;
    lemma_enter_keeps_well_formed(v, id, account, first_deposit);
    lemma_index_of(w, i);
    assert(w[i].1.players.last() == account);
    assert(w[i].1.players.contains(account));
}

/// Entering keeps the registry well formed.
pub proof fn lemma_enter_keeps_well_formed(
    v: Seq<(Seq<char>, TournamentView)>,
    id: Seq<char>,
    account: Seq<char>,
    attached_deposit: u128,
)
    requires
        well_formed(v),
    ensures
        well_formed(enter_spec(v, id, account, attached_deposit).0),
{
}

/// An empty registry satisfies `pools_match`.
pub proof fn lemma_pools_match_empty()
    ensures
        pools_match(Seq::<(Seq<char>, TournamentView)>::empty()),
{
}

/// Creation keeps every active pool equal to players times price.
pub proof fn lemma_create_keeps_pools(
    v: Seq<(Seq<char>, TournamentView)>,
    id: Seq<char>,
    t: TournamentView,
)
    requires
        pools_match(v),
        t.active,
        t.balance == 0,
        t.players.len() == 0,
    ensures
        pools_match(create_spec(v, id, t).0),
{
    let w = create_spec(v, id, t).0;
    assert forall|i: int| 0 <= i < w.len() && (#[trigger] w[i]).1.active implies w[i].1.balance
        == w[i].1.players.len() * w[i].1.in_price by {
        if i < v.len() {
            assert(w[i] == v[i]);
        } else {
            assert(w[i].1 == t);
            assert(0 * (t.in_price as int) == 0);
        }
    }
}

/// A successful entry adds the price to the pool and the player to the
/// players, so every active pool stays equal to players times price: after
/// `n` entries at price `p` a tournament holds `n * p`.
pub proof fn lemma_enter_keeps_pools(
    v: Seq<(Seq<char>, TournamentView)>,
    id: Seq<char>,
    account: Seq<char>,
    attached_deposit: u128,
)
    requires
        pools_match(v),
    ensures
        pools_match(enter_spec(v, id, account, attached_deposit).0),
{
    let w = enter_spec(v, id, account, attached_deposit).0;
    if has_id(v, id) && enter_spec(v, id, account, attached_deposit).1 is Ok {
        let k = index_of(v, id);
        assert forall|i: int| 0 <= i < w.len() && (#[trigger] w[i]).1.active implies w[i].1.balance
            == w[i].1.players.len() * w[i].1.in_price by {
            if i != k {
                assert(w[i] == v[i]);
            } else {
                let n = v[k].1.players.len() as int;
                let p = v[k].1.in_price as int;
                assert((n + 1) * p == n * p + p) by (nonlinear_arith);
            }
        }
    }
}

/// Distribution closes the tournament, so every pool still active is
/// untouched.
pub proof fn lemma_reward_keeps_pools(
    v: Seq<(Seq<char>, TournamentView)>,
    id: Seq<char>,
    caller: Seq<char>,
    winners: Map<u8, String>,
)
    requires
        pools_match(v),
    ensures
        pools_match(reward_spec(v, id, caller, winners).0),
{
    let w = reward_spec(v, id, caller, winners).0;
    if has_id(v, id) {
        let k = index_of(v, id);
        assert forall|i: int| 0 <= i < w.len() && (#[trigger] w[i]).1.active implies w[i].1.balance
            == w[i].1.players.len() * w[i].1.in_price by {
            if i != k {
                assert(w[i] == v[i]);
            }
        }
    }
}

/// Distribution on a closed tournament fails and changes nothing.
pub proof fn lemma_reward_inactive(
    v: Seq<(Seq<char>, TournamentView)>,
    id: Seq<char>,
    caller: Seq<char>,
    winners: Map<u8, String>,
)
    requires
        has_id(v, id),
        !v[index_of(v, id)].1.active,
    ensures
        reward_spec(v, id, caller, winners).1 is Err,
        reward_spec(v, id, caller, winners).0 == v,
{
}

/// After a successful distribution, a second one on the same tournament
/// fails, whoever calls it and whatever winners it names.
pub proof fn lemma_reward_once(
    v: Seq<(Seq<char>, TournamentView)>,
    id: Seq<char>,
    caller: Seq<char>,
    winners: Map<u8, String>,
    second_caller: Seq<char>,
    second_winners: Map<u8, String>,
)
    requires
        well_formed(v),
        reward_spec(v, id, caller, winners).1 matches Ok(Some(_)),
    ensures
        reward_spec(reward_spec(v, id, caller, winners).0, id, second_caller, second_winners).1 is Err,
{
    let i = index_of(v, id);
    let w = reward_spec(v, id, caller, winners).0;
    lemma_index_of(v, i);
    assert(well_formed(w)) by {
        assert forall|a: int, b: int| 0 <= a < b < w.len() implies #[trigger] w[a].0
            != #[trigger] w[b].0 by {
            assert(v[a].0 != v[b].0);
        }
        assert forall|a: int| 0 <= a < w.len() implies {
            &&& (#[trigger] w[a]).1.players.len() <= w[a].1.players_number
            &&& w[a].1.players.no_duplicates()
        } by {
            assert(v[a].1.players == w[a].1.players);
        }
    }
    lemma_index_of(w, i);
    lemma_reward_inactive(w, id, second_caller, second_winners);
}

/// Distribution by anyone but the tournament's owner fails with
/// `NotOwner` and changes nothing, whatever the tournament's state.
pub proof fn lemma_reward_not_owner(
    v: Seq<(Seq<char>, TournamentView)>,
    id: Seq<char>,
    caller: Seq<char>,
    winners: Map<u8, String>,
)
    requires
        has_id(v, id),
        caller != v[index_of(v, id)].1.owner_id,
    ensures
        reward_spec(v, id, caller, winners) == (v, Err::<Option<u128>, TournamentError>(
            TournamentError::NotOwner,
        )),
{
}

/// A full tournament has no free place.
pub proof fn lemma_full_has_no_free_place(v: Seq<(Seq<char>, TournamentView)>, id: Seq<char>)
    requires
        has_id(v, id),
        v[index_of(v, id)].1.players.len() == v[index_of(v, id)].1.players_number,
    ensures
        free_places_spec(v, id) == Some(0u64),
{
}

} // verus!
