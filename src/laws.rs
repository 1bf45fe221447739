//! Properties of the store that hold across operations.
use crate::address::profile_address_of;
use crate::profile::{profile_ok, ErrorCode, ProfileView};
use crate::store::{create_outcome, store_ok, toss_outcome, StoreView};
use vstd::prelude::*;

verus! {

/// Deriving a player's address twice gives the same address: the derivation
/// depends on the program key and the player's key alone.
pub proof fn lemma_address_deterministic(program_id: Seq<u8>, a: Seq<u8>, b: Seq<u8>)
    requires
        a == b,
    ensures
        profile_address_of(program_id, a) == profile_address_of(program_id, b),
{
}

/// In a well-formed store no player owns two profiles.
pub proof fn lemma_one_profile_per_player(s: StoreView, a: Seq<u8>, b: Seq<u8>)
    requires
        store_ok(s),
        s.records.contains_key(a),
        s.records.contains_key(b),
        s.records[a].player == s.records[b].player,
    ensures
        a == b,
{
}

/// Creation and tosses keep a store well formed.
pub proof fn lemma_operations_keep_store_ok(
    s: StoreView,
    player: Seq<u8>,
    lamports: u64,
    name: Seq<char>,
    target: Seq<u8>,
    won: bool,
)
    requires
        store_ok(s),
    ensures
        store_ok(create_outcome(s, player, lamports, name).0),
        store_ok(toss_outcome(s, target, player, won).0),
{
    let c = create_outcome(s, player, lamports, name).0;
    assert forall|a: Seq<u8>| #[trigger] c.records.contains_key(a) implies profile_ok(c.records[a])
        && profile_address_of(c.program_id, c.records[a].player) == Some(a) by {}
    let t = toss_outcome(s, target, player, won).0;
    assert forall|a: Seq<u8>| #[trigger] t.records.contains_key(a) implies profile_ok(t.records[a])
        && profile_address_of(t.program_id, t.records[a].player) == Some(a) by {
        assert(s.records.contains_key(a));
    }
}

/// Once a player's profile exists, creating it again fails with
/// `AlreadyExists` and changes nothing, whatever name and lamports the second
/// attempt brings.
pub proof fn lemma_second_create_fails(
    s: StoreView,
    player: Seq<u8>,
    lamports: u64,
    name: Seq<char>,
    lamports2: u64,
    name2: Seq<char>,
)
    requires
        store_ok(s),
        create_outcome(s, player, lamports, name).2 is Ok,
    ensures
        ({
            let s1 = create_outcome(s, player, lamports, name).0;
            create_outcome(s1, player, lamports2, name2) == (
                s1,
                lamports2,
                Err::<ProfileView, ErrorCode>(ErrorCode::AlreadyExists),
            )
        }),
{
}

/// A toss by anyone but a profile's owner fails with `UnauthorizedAccess` and
/// leaves the store unchanged.
pub proof fn lemma_stranger_cannot_toss(s: StoreView, target: Seq<u8>, player: Seq<u8>, won: bool)
    requires
        s.records.contains_key(target),
        s.records[target].player != player,
    ensures
        toss_outcome(s, target, player, won) == (
            s,
            Err::<ProfileView, ErrorCode>(ErrorCode::UnauthorizedAccess),
        ),
{
}

/// The store after a sequence of tosses, each a target address, a player and
/// an outcome.
pub open spec fn run_tosses(s: StoreView, calls: Seq<(Seq<u8>, Seq<u8>, bool)>) -> StoreView
    decreases calls.len(),
{
    if calls.len() == 0 {
        s
    } else {
        let prev = run_tosses(s, calls.drop_last());
        let c = calls.last();
        toss_outcome(prev, c.0, c.1, c.2).0
    }
}

/// After every toss of any sequence, each profile has won no more games than
/// it played.
pub proof fn lemma_tosses_keep_won_le_played(
    s: StoreView,
    calls: Seq<(Seq<u8>, Seq<u8>, bool)>,
    n: int,
    a: Seq<u8>,
)
    requires
        store_ok(s),
        0 <= n <= calls.len(),
        run_tosses(s, calls.take(n)).records.contains_key(a),
    ensures
        run_tosses(s, calls.take(n)).records[a].total_won <= run_tosses(
            s,
            calls.take(n),
        ).records[a].total_played,
{
    lemma_tosses_keep_store_ok(s, calls.take(n));
}

proof fn lemma_tosses_keep_store_ok(s: StoreView, calls: Seq<(Seq<u8>, Seq<u8>, bool)>)
    requires
        store_ok(s),
    ensures
        store_ok(run_tosses(s, calls)),
    decreases calls.len(),
{
    if calls.len() > 0 {
        lemma_tosses_keep_store_ok(s, calls.drop_last());
        let c = calls.last();
        lemma_operations_keep_store_ok(
            run_tosses(s, calls.drop_last()),
            c.1,
            0,
            Seq::empty(),
            c.0,
            c.2,
        );
    }
}

/// The number of wins in a sequence of outcomes.
pub open spec fn wins(ws: Seq<bool>) -> nat
    decreases ws.len(),
{
    if ws.len() == 0 {
        0
    } else {
        wins(ws.drop_last()) + if ws.last() { 1nat } else { 0nat }
    }
}

/// The store after `player` tosses on the profile at `target` once for each
/// outcome of `ws`, in order.
pub open spec fn toss_all(s: StoreView, target: Seq<u8>, player: Seq<u8>, ws: Seq<bool>) -> StoreView
    decreases ws.len(),
{
    if ws.len() == 0 {
        s
    } else {
        toss_outcome(toss_all(s, target, player, ws.drop_last()), target, player, ws.last()).0
    }
}

/// After its owner's tosses on a profile that had no games, every toss
/// succeeds, the profile has played one game per toss and won one per winning
/// outcome.
pub proof fn lemma_toss_counts(s: StoreView, target: Seq<u8>, player: Seq<u8>, ws: Seq<bool>)
    requires
        s.records.contains_key(target),
        s.records[target].player == player,
        s.records[target].total_played == 0,
        s.records[target].total_won == 0,
        ws.len() <= u64::MAX,
    ensures
        ws.len() > 0 ==> toss_outcome(
            toss_all(s, target, player, ws.drop_last()),
            target,
            player,
            ws.last(),
        ).1 is Ok,
        toss_all(s, target, player, ws).records.contains_key(target),
        toss_all(s, target, player, ws).records[target].player == player,
        toss_all(s, target, player, ws).records[target].total_played == ws.len(),
        toss_all(s, target, player, ws).records[target].total_won == wins(ws),
    decreases ws.len(),
{
    if ws.len() > 0 {
        lemma_toss_counts(s, target, player, ws.drop_last());
        lemma_wins_at_most_len(ws.drop_last());
    }
}

proof fn lemma_wins_at_most_len(ws: Seq<bool>)
    ensures
        wins(ws) <= ws.len(),
    decreases ws.len(),
{
    if ws.len() > 0 {
        lemma_wins_at_most_len(ws.drop_last());
    }
}

} // verus!
