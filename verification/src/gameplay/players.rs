//! Finding players, and the profiles that their models move by.

use vstd::prelude::*;

use crate::folds::lemma_take_next;
use crate::text::same;

verus! {

/// The index of the first player with the client id, or the number of players.
pub open spec fn player_index(ids: Seq<u64>, client: u64) -> int
    decreases ids.len(),
{
    if ids.len() == 0 || ids[0] == client {
        0
    } else {
        1 + player_index(ids.drop_first(), client)
    }
}

/// The first of the players with the client id.
pub fn find_player(ids: &Vec<u64>, client: u64) -> (r: Option<usize>)
    ensures
        match r {
            Some(i) => i == player_index(ids@, client) && i < ids.len() && ids@[i as int] == client,
            None => player_index(ids@, client) == ids.len() && !ids@.contains(client),
        },
{
    let mut i: usize = 0;
    assert(ids@.skip(0) =~= ids@);
    while i < ids.len()
        invariant
            i <= ids.len(),
            player_index(ids@, client) == i + player_index(ids@.skip(i as int), client),
            forall|j: int| 0 <= j < i ==> ids@[j] != client,
        decreases ids.len() - i,
    {
        assert(ids@.skip(i as int)[0] == ids@[i as int]);
        assert(ids@.skip(i as int).drop_first() =~= ids@.skip(i + 1));
        if ids[i] == client {
            return Some(i);
        }
        i = i + 1;
    }
    None
}

/// The places of the players of a client, in order.
pub open spec fn players_of(ids: Seq<u64>, client: Option<u64>) -> Seq<usize>
    decreases ids.len(),
{
    if ids.len() == 0 {
        Seq::empty()
    } else if client == Some(ids.last()) {
        players_of(ids.drop_last(), client).push((ids.len() - 1) as usize)
    } else {
        players_of(ids.drop_last(), client)
    }
}

/// The players that this client moves: all those with its id; none before it has
/// one.
pub fn local_players(local: Option<u64>, ids: &Vec<u64>) -> (r: Vec<usize>)
    ensures
        r@ == players_of(ids@, local),
{
    let mut r: Vec<usize> = Vec::new();
    let mut i: usize = 0;
    assert(ids@.take(0) =~= Seq::<u64>::empty());
    while i < ids.len()
        invariant
            i <= ids.len(),
            r@ == players_of(ids@.take(i as int), local),
        decreases ids.len() - i,
    {
        proof {
            lemma_take_next(ids@, i as int);
        }
        if let Some(id) = local {
            if ids[i] == id {
                r.push(i);
            }
        }
        i = i + 1;
    }
    assert(ids@.take(ids.len() as int) =~= ids@);
    r
}

/// Exactly the players with the client's id are its own, whatever the others
/// are.
pub proof fn law_local_players(ids: Seq<u64>, client: Option<u64>, i: usize)
    requires
        ids.len() <= usize::MAX,
    ensures
        players_of(ids, client).contains(i) <==> i < ids.len() && client == Some(ids[i as int]),
    decreases ids.len(),
{
    if ids.len() > 0 {
        let front = ids.drop_last();
        law_local_players(front, client, i);
        let before = players_of(front, client);
        let last = (ids.len() - 1) as usize;
        if client == Some(ids.last()) {
            let all = before.push(last);
            assert(all[before.len() as int] == last);
            if before.contains(i) {
                let k = choose|k: int| 0 <= k < before.len() && before[k] == i;
                assert(all[k] == i);
            }
            if all.contains(i) {
                let k = choose|k: int| 0 <= k < all.len() && all[k] == i;
                if k < before.len() {
                    assert(before[k] == i);
                }
            }
        }
    }
}

/// A registered profile: the key of its file, the model that it names, and
/// whether it has been loaded.
#[derive(Clone, Debug)]
pub struct PedProfile {
    pub key: String,
    pub model: String,
    pub loaded: bool,
}

/// The profile at `i` is loaded.
pub open spec fn loaded_at(peds: Seq<PedProfile>, i: int) -> bool {
    0 <= i < peds.len() && peds[i].loaded
}

pub open spec fn loaded_key(peds: Seq<PedProfile>, i: int, key: Seq<char>) -> bool {
    loaded_at(peds, i) && peds[i].key@ == key
}

pub open spec fn loaded_model(peds: Seq<PedProfile>, i: int, model: Seq<char>) -> bool {
    loaded_at(peds, i) && peds[i].model@ == model
}

/// `i` is the default profile: the loaded one of the key `player`, else any
/// loaded one, here the first.
pub open spec fn is_default_ped(peds: Seq<PedProfile>, i: int) -> bool {
    if exists|k: int| #[trigger] loaded_key(peds, k, "player"@) {
        loaded_key(peds, i, "player"@) && forall|k: int|
            0 <= k < i ==> !#[trigger] loaded_key(peds, k, "player"@)
    } else {
        loaded_at(peds, i) && forall|k: int| 0 <= k < i ==> !#[trigger] loaded_at(peds, k)
    }
}

/// The profile of players that name none: the one of the key `player`, else
/// any that is loaded.
pub fn resolve_default_ped_profile(peds: &Vec<PedProfile>) -> (r: Option<usize>)
    ensures
        match r {
            Some(i) => is_default_ped(peds@, i as int),
            None => forall|k: int| !#[trigger] loaded_at(peds@, k),
        },
{
    let mut i: usize = 0;
    let mut first: Option<usize> = None;
    while i < peds.len()
        invariant
            i <= peds.len(),
            forall|k: int| 0 <= k < i ==> !#[trigger] loaded_key(peds@, k, "player"@),
            match first {
                Some(f) => f < i && loaded_at(peds@, f as int) && forall|k: int|
                    0 <= k < f ==> !#[trigger] loaded_at(peds@, k),
                None => forall|k: int| 0 <= k < i ==> !#[trigger] loaded_at(peds@, k),
            },
        decreases peds.len() - i,
    {
        if peds[i].loaded {
            if same(peds[i].key.as_str(), "player") {
                assert(loaded_key(peds@, i as int, "player"@));
                return Some(i);
            }
            if first.is_none() {
                assert(loaded_at(peds@, i as int));
                first = Some(i);
            }
        }
        i = i + 1;
    }
    proof {
        assert forall|k: int| !#[trigger] loaded_key(peds@, k, "player"@) by {
            if loaded_key(peds@, k, "player"@) {
                assert(0 <= k < peds.len());
            }
        }
        if first is None {
            assert forall|k: int| !#[trigger] loaded_at(peds@, k) by {
                if loaded_at(peds@, k) {
                    assert(0 <= k < peds.len());
                }
            }
        }
    }
    first
}

/// `i` is the profile of a model: the first loaded one that names it, else the
/// default one.
pub open spec fn is_model_ped(peds: Seq<PedProfile>, model: Seq<char>, i: int) -> bool {
    if exists|k: int| #[trigger] loaded_model(peds, k, model) {
        loaded_model(peds, i, model) && forall|k: int|
            0 <= k < i ==> !#[trigger] loaded_model(peds, k, model)
    } else {
        is_default_ped(peds, i)
    }
}

pub fn resolve_ped_profile_for_model(model_name: &str, peds: &Vec<PedProfile>) -> (r: Option<usize>)
    ensures
        match r {
            Some(i) => is_model_ped(peds@, model_name@, i as int),
            None => forall|k: int| !#[trigger] loaded_at(peds@, k),
        },
{
    let mut i: usize = 0;
    while i < peds.len()
        invariant
            i <= peds.len(),
            forall|k: int| 0 <= k < i ==> !#[trigger] loaded_model(peds@, k, model_name@),
        decreases peds.len() - i,
    {
        if peds[i].loaded && same(peds[i].model.as_str(), model_name) {
            assert(loaded_model(peds@, i as int, model_name@));
            return Some(i);
        }
        i = i + 1;
    }
    proof {
        assert forall|k: int| !#[trigger] loaded_model(peds@, k, model_name@) by {
            if loaded_model(peds@, k, model_name@) {
                assert(0 <= k < peds.len());
            }
        }
    }
    resolve_default_ped_profile(peds)
}

/// `i` is the profile of a character: the loaded one of the key that overrides
/// its model, else the one of the model.
pub open spec fn is_character_ped(
    peds: Seq<PedProfile>,
    model: Seq<char>,
    overriding: Option<String>,
    i: int,
) -> bool {
    match overriding {
        Some(key) => if exists|k: int| #[trigger] loaded_key(peds, k, key@) {
            loaded_key(peds, i, key@)
        } else {
            is_model_ped(peds, model, i)
        },
        None => is_model_ped(peds, model, i),
    }
}

pub fn resolve_character_ped(
    model_name: &str,
    overriding: Option<String>,
    peds: &Vec<PedProfile>,
) -> (r: Option<usize>)
    ensures
        match r {
            Some(i) => is_character_ped(peds@, model_name@, overriding, i as int),
            None => forall|k: int| !#[trigger] loaded_at(peds@, k),
        },
{
    if let Some(key) = &overriding {
        let mut i: usize = 0;
        while i < peds.len()
            invariant
                i <= peds.len(),
                overriding == Some(*key),
                forall|k: int| 0 <= k < i ==> !#[trigger] loaded_key(peds@, k, key@),
            decreases peds.len() - i,
        {
            if peds[i].loaded && same(peds[i].key.as_str(), key.as_str()) {
                assert(loaded_key(peds@, i as int, key@));
                return Some(i);
            }
            i = i + 1;
        }
        proof {
            assert forall|k: int| !#[trigger] loaded_key(peds@, k, key@) by {
                if loaded_key(peds@, k, key@) {
                    assert(0 <= k < peds.len());
                }
            }
        }
    }
    resolve_ped_profile_for_model(model_name, peds)
}

/// The player at `k` is the first one with the client id.
pub proof fn lemma_player_index(ids: Seq<u64>, client: u64, k: int)
    requires
        0 <= k < ids.len(),
        ids[k] == client,
        forall|j: int| 0 <= j < k ==> #[trigger] ids[j] != client,
    ensures
        player_index(ids, client) == k,
    decreases k,
{
    if k > 0 {
        let rest = ids.drop_first();
        assert(ids[0] != client);
        assert forall|j: int| 0 <= j < k - 1 implies #[trigger] rest[j] != client by {
            assert(rest[j] == ids[j + 1]);
        }
        lemma_player_index(rest, client, k - 1);
    }
}

/// The player that is found is the first one with the client id, and one is
/// found wherever the id occurs.
pub proof fn law_find_player(ids: &Vec<u64>, client: u64, r: Option<usize>)
    requires
        call_ensures(find_player, (ids, client), r),
    ensures
        r is Some <==> ids@.contains(client),
        r matches Some(i) ==> ids@[i as int] == client && forall|j: int|
            0 <= j < i ==> #[trigger] ids@[j] != client,
{
    if ids@.contains(client) {
        let k = ids@.index_of_first(client)->0;
        broadcast use vstd::seq_lib::group_seq_lib_default;

        ids@.index_of_first_ensures(client);
        lemma_player_index(ids@, client, k);
    }
}

/// The players that this client moves are those with its id, each once and in
/// order.
pub proof fn law_players_moved(local: Option<u64>, ids: &Vec<u64>, r: Vec<usize>, i: usize)
    requires
        call_ensures(local_players, (local, ids), r),
    ensures
        r@.contains(i) <==> i < ids@.len() && local == Some(ids@[i as int]),
        forall|j: int, k: int| 0 <= j < k < r@.len() ==> r@[j] < r@[k],
{
    assert(ids.len() == ids@.len());
    law_local_players(ids@, local, i);
    lemma_players_rise(ids@, local);
}

proof fn lemma_players_rise(ids: Seq<u64>, client: Option<u64>)
    requires
        ids.len() <= usize::MAX,
    ensures
        forall|j: int|
            0 <= j < players_of(ids, client).len() ==> #[trigger] players_of(ids, client)[j]
                < ids.len(),
        forall|j: int, k: int|
            0 <= j < k < players_of(ids, client).len() ==> players_of(ids, client)[j] < players_of(
                ids,
                client,
            )[k],
    decreases ids.len(),
{
    if ids.len() > 0 {
        let front = ids.drop_last();
        lemma_players_rise(front, client);
        let before = players_of(front, client);
        let all = players_of(ids, client);
        assert forall|j: int| 0 <= j < all.len() implies #[trigger] all[j] < ids.len() by {
            if j < before.len() {
                assert(all[j] == before[j]);
            }
        }
        assert forall|j: int, k: int| 0 <= j < k < all.len() implies all[j] < all[k] by {
            assert(all[j] == before[j]);
            if k < before.len() {
                assert(all[k] == before[k]);
            }
        }
    }
}

/// The profile that players use: loaded, the one of the key `player` where that
/// is loaded, and none only where nothing is loaded.
pub proof fn law_default_profile(peds: &Vec<PedProfile>, r: Option<usize>)
    requires
        call_ensures(resolve_default_ped_profile, (peds,), r),
    ensures
        r matches Some(i) ==> i < peds@.len() && peds@[i as int].loaded,
        forall|k: int| 0 <= k < peds@.len() && (#[trigger] peds@[k]).loaded ==> r is Some,
        forall|k: int|
            0 <= k < peds@.len() && (#[trigger] peds@[k]).loaded && peds@[k].key@ == "player"@
                ==> r is Some && peds@[r->0 as int].key@ == "player"@ && r->0 <= k,
{
    let args = (peds,);
    assert forall|k: int| 0 <= k < peds@.len() && (#[trigger] peds@[k]).loaded implies r is Some by {
        assert(loaded_at(args.0@, k));
    }
    assert forall|k: int|
        0 <= k < peds@.len() && (#[trigger] peds@[k]).loaded && peds@[k].key@
            == "player"@ implies r is Some && peds@[r->0 as int].key@ == "player"@ && r->0 <= k by {
        assert(loaded_at(args.0@, k));
        assert(loaded_key(peds@, k, "player"@));
    }
}

/// The profile of a model is the first loaded one that names it, else the default
/// one.
pub proof fn law_model_profile(
    model: &str,
    peds: &Vec<PedProfile>,
    r: Option<usize>,
    default: Option<usize>,
)
    requires
        call_ensures(resolve_ped_profile_for_model, (model, peds), r),
        call_ensures(resolve_default_ped_profile, (peds,), default),
    ensures
        forall|k: int|
            0 <= k < peds@.len() && (#[trigger] peds@[k]).loaded && peds@[k].model@ == model@
                ==> r is Some && peds@[r->0 as int].model@ == model@ && peds@[r->0 as int].loaded
                && r->0 <= k,
        (forall|k: int|
            0 <= k < peds@.len() && (#[trigger] peds@[k]).loaded ==> peds@[k].model@ != model@)
            ==> r == default,
{
    let args = (model, peds);
    let one = (peds,);
    assert forall|k: int|
        0 <= k < peds@.len() && (#[trigger] peds@[k]).loaded && peds@[k].model@
            == model@ implies r is Some && peds@[r->0 as int].model@ == model@
        && peds@[r->0 as int].loaded && r->0 <= k by {
        assert(loaded_at(args.1@, k));
        assert(loaded_model(peds@, k, model@));
    }
    if forall|k: int|
        0 <= k < peds@.len() && (#[trigger] peds@[k]).loaded ==> peds@[k].model@ != model@ {
        assert forall|k: int| !#[trigger] loaded_model(peds@, k, model@) by {
            if 0 <= k < peds@.len() {
                assert(peds@[k].loaded ==> peds@[k].model@ != model@);
            }
        }
        if r is Some {
            let i = r->0 as int;
            assert(loaded_at(peds@, i)) by {
                if exists|k: int| #[trigger] loaded_key(peds@, k, "player"@) {
                    assert(loaded_key(peds@, i, "player"@));
                }
            }
            assert(loaded_at(one.0@, i));
            let d = default->0 as int;
            lemma_one_default(peds@, i, d);
        } else {
            if default is Some {
                let d = default->0 as int;
                assert(loaded_at(peds@, d)) by {
                    if exists|k: int| #[trigger] loaded_key(peds@, k, "player"@) {
                        assert(loaded_key(peds@, d, "player"@));
                    }
                }
                assert(loaded_at(args.1@, d));
            }
        }
    }
}

proof fn lemma_one_default(peds: Seq<PedProfile>, i: int, j: int)
    requires
        is_default_ped(peds, i),
        is_default_ped(peds, j),
    ensures
        i == j,
{
    if exists|k: int| #[trigger] loaded_key(peds, k, "player"@) {
        assert(loaded_key(peds, i, "player"@) && loaded_key(peds, j, "player"@));
    } else {
        assert(loaded_at(peds, i) && loaded_at(peds, j));
    }
}

/// The profile of a character is a loaded one of the overriding key where there
/// is one, else that of its model.
pub proof fn law_character_profile(
    model: &str,
    overriding: Option<String>,
    peds: &Vec<PedProfile>,
    r: Option<usize>,
    k: int,
)
    requires
        call_ensures(resolve_character_ped, (model, overriding, peds), r),
    ensures
        r matches Some(i) ==> i < peds@.len() && peds@[i as int].loaded,
        0 <= k < peds@.len() && peds@[k].loaded ==> r is Some,
        overriding matches Some(key) ==> (0 <= k < peds@.len() && peds@[k].loaded && peds@[k].key@
            == key@ ==> r is Some && peds@[r->0 as int].key@ == key@),
        overriding is None && 0 <= k < peds@.len() && peds@[k].loaded && peds@[k].model@ == model@
            ==> r is Some && peds@[r->0 as int].model@ == model@,
{
    let args = (model, overriding, peds);
    if 0 <= k < peds@.len() && peds@[k].loaded {
        assert(loaded_at(args.2@, k));
        assert(loaded_model(peds@, k, peds@[k].model@));
        assert(loaded_key(peds@, k, peds@[k].key@));
    }
    if r is Some {
        let i = r->0 as int;
        assert(loaded_at(peds@, i) || loaded_key(peds@, i, "player"@) || loaded_model(
            peds@,
            i,
            model@,
        ) || (overriding is Some && loaded_key(peds@, i, overriding->0@)));
    }
}

} // verus!
