//! Which parts of the world a client holds: the server decides by the players'
//! places, the client follows and loads and drops map files.

use std::collections::HashMap;

use vstd::prelude::*;

use crate::folds::lemma_take_next;
use crate::gameplay::players::{find_player, player_index};
use crate::names::{
    add_name, copy_names, difference, distinct, holds, in_order, lemma_not_in_contains,
    lemma_push_contains, lemma_sorted_names, lemma_with_name_distinct, not_in, sort_names,
    sorted_names, views, with_name,
};
use crate::path_lists::{
    add_path, has_path, is_same_path, lemma_paths_beyond, lemma_with_paths, path_difference,
    paths_beyond, same_path, with_path, with_paths,
};
use crate::paths::{file_stem, join_path, joined_path, path_behind, stem_of, strip_root};
use crate::scalar::{scalar, wide, Scalar, Wide, ONE};
use crate::text::{
    all_white, concat, decimal, decimal_digits, drop_tail, ends_with, has_tail, lemma_blank,
    push_line, replace_char, replaced, same, strip_tail, trim, trimmed,
};

verus! {

broadcast use vstd::std_specs::hash::group_hash_axioms;

/// 1200 m: how near a tile is loaded where its index says nothing.
pub const DEFAULT_TILE_LOAD_RADIUS: u32 = 0x4496_0000;

/// 1 s: how often tiles are looked at, on either side.
pub const TILE_STREAM_INTERVAL_SECS: u32 = 0x3f80_0000;

/// 5 s: how long the last word of the server on tiles counts.
pub const SERVER_WORD_SECS: u64 = 0x4014_0000_0000_0000;

/// A tile of the world, and how far a player is from its center.
#[derive(Clone, Debug)]
pub struct WorldTile {
    pub id: String,
    pub map: String,
    pub load_radius: Scalar,
    pub always_loaded: bool,
    pub distance: Scalar,
}

impl WorldTile {
    /// The name of the tile: its id, or its map file where the id is blank.
    pub open spec fn name(self) -> Seq<char> {
        if trimmed(self.id@).len() == 0 {
            self.map@
        } else {
            self.id@
        }
    }

    pub fn runtime_id(&self) -> (r: String)
        ensures
            r@ == self.name(),
    {
        let t = trim(self.id.as_str());
        if t.as_str().is_empty() {
            self.map.clone()
        } else {
            self.id.clone()
        }
    }

    /// How near a player gets the tile: at least one metre.
    pub open spec fn reach(self) -> Scalar {
        self.load_radius.larger(scalar(ONE))
    }

    /// The player's place asks for the tile.
    pub open spec fn near(self) -> bool {
        self.always_loaded || self.distance.at_most(self.reach())
    }

    pub fn is_near(&self) -> (r: bool)
        ensures
            r == self.near(),
    {
        self.always_loaded || self.distance.le(self.load_radius.max(scalar(ONE)))
    }
}

/// Whether tiles are due to be looked at; `ticker` is the time since the last look.
pub fn streaming_due(ticker: Scalar) -> (r: bool)
    ensures
        r == !ticker.less(scalar(TILE_STREAM_INTERVAL_SECS)),
{
    !ticker.lt(scalar(TILE_STREAM_INTERVAL_SECS))
}

/// The names of the tiles that the player's place asks for, each once.
pub open spec fn wanted_names(tiles: Seq<WorldTile>) -> Seq<Seq<char>>
    decreases tiles.len(),
{
    if tiles.len() == 0 {
        Seq::empty()
    } else if tiles.last().near() {
        with_name(wanted_names(tiles.drop_last()), tiles.last().name())
    } else {
        wanted_names(tiles.drop_last())
    }
}

pub fn wanted_tiles_for_position(tiles: &Vec<WorldTile>) -> (r: Vec<String>)
    ensures
        views(r@) == wanted_names(tiles@),
{
    let mut wanted: Vec<String> = Vec::new();
    let mut i: usize = 0;
    assert(tiles@.take(0) =~= Seq::<WorldTile>::empty());
    assert(views(wanted@) =~= Seq::<Seq<char>>::empty());
    while i < tiles.len()
        invariant
            i <= tiles.len(),
            views(wanted@) == wanted_names(tiles@.take(i as int)),
        decreases tiles.len() - i,
    {
        proof {
            lemma_take_next(tiles@, i as int);
        }
        if tiles[i].is_near() {
            let name = tiles[i].runtime_id();
            add_name(&mut wanted, name.as_str());
        }
        i = i + 1;
    }
    assert(tiles@.take(tiles.len() as int) =~= tiles@);
    wanted
}

/// The names of the wanted tiles are distinct.
pub proof fn law_wanted_distinct(tiles: Seq<WorldTile>)
    ensures
        distinct(wanted_names(tiles)),
    decreases tiles.len(),
{
    if tiles.len() > 0 {
        law_wanted_distinct(tiles.drop_last());
        lemma_with_name_distinct(wanted_names(tiles.drop_last()), tiles.last().name());
    }
}

/// What a command does with a tile.
#[derive(Clone, Copy, PartialEq, Eq, Structural, Debug)]
pub enum TileAction {
    Load,
    Unload,
}

/// The word of a command on the wire.
pub open spec fn action_word(action: TileAction) -> Seq<char> {
    match action {
        TileAction::Load => "load"@,
        TileAction::Unload => "unload"@,
    }
}

/// A command of the server on one tile.
#[derive(Clone, Debug)]
pub struct TileStreamingCommand {
    pub tile_id: String,
    pub action: String,
}

/// The contents of a command.
pub struct CommandView {
    pub tile: Seq<char>,
    pub action: Seq<char>,
}

pub open spec fn command_views(v: Seq<TileStreamingCommand>) -> Seq<CommandView> {
    v.map_values(|c: TileStreamingCommand| CommandView { tile: c.tile_id@, action: c.action@ })
}

/// One command for each name.
pub open spec fn commands_for(names: Seq<Seq<char>>, action: TileAction) -> Seq<CommandView> {
    names.map_values(|n: Seq<char>| CommandView { tile: n, action: action_word(action) })
}

/// The commands that take a client from the tiles that it was told to those
/// that it is to hold.
pub open spec fn update_commands(
    previous: Seq<Seq<char>>,
    wanted: Seq<Seq<char>>,
) -> Seq<CommandView> {
    commands_for(not_in(wanted, previous), TileAction::Load) + commands_for(
        not_in(previous, wanted),
        TileAction::Unload,
    )
}

fn push_commands(out: &mut Vec<TileStreamingCommand>, names: &Vec<String>, action: TileAction)
    ensures
        command_views(final(out)@) == command_views(old(out)@) + commands_for(
            views(names@),
            action,
        ),
{
    let mut i: usize = 0;
    while i < names.len()
        invariant
            i <= names.len(),
            out.len() == old(out).len() + i,
            forall|j: int| 0 <= j < old(out).len() ==> out@[j] == old(out)@[j],
            forall|j: int|
                0 <= j < i ==> (#[trigger] out@[old(out).len() + j]).tile_id@ == names@[j]@
                    && out@[old(out).len() + j].action@ == action_word(action),
        decreases names.len() - i,
    {
        let word = match action {
            TileAction::Load => "load".to_string(),
            TileAction::Unload => "unload".to_string(),
        };
        out.push(TileStreamingCommand { tile_id: names[i].clone(), action: word });
        i = i + 1;
    }
    proof {
        let all = command_views(out@);
        let expected = command_views(old(out)@) + commands_for(views(names@), action);
        assert forall|j: int| 0 <= j < all.len() implies all[j] == expected[j] by {
            if j >= old(out).len() {
                let k = j - old(out).len();
                assert(out@[old(out).len() + k].tile_id@ == names@[k]@);
            }
        }
        assert(all =~= expected);
    }
}

/// The commands for a client, and the tiles that it is told from then on.
pub fn tile_updates(previous: &mut Vec<String>, wanted: Vec<String>) -> (r: Vec<
    TileStreamingCommand,
>)
    ensures
        command_views(r@) == update_commands(views(old(previous)@), views(wanted@)),
        views(final(previous)@) == views(wanted@),
{
    let loads = difference(&wanted, previous);
    let unloads = difference(previous, &wanted);
    let mut out: Vec<TileStreamingCommand> = Vec::new();
    assert(command_views(out@) =~= Seq::<CommandView>::empty());
    push_commands(&mut out, &loads, TileAction::Load);
    assert(command_views(out@) =~= commands_for(views(loads@), TileAction::Load));
    push_commands(&mut out, &unloads, TileAction::Unload);
    *previous = wanted;
    out
}

/// A connected client, as the server sees it.
#[derive(Clone, Debug)]
pub struct StreamClient {
    /// Its client id, where its connection carries one.
    pub client_id: Option<u64>,
    pub handshake_complete: bool,
    /// The tiles as seen from the place of its player, where it has a player.
    pub tiles: Option<Vec<WorldTile>>,
}

/// The tiles that a client was told last.
pub open spec fn told(sets: Map<u64, Vec<String>>, client: u64) -> Seq<Seq<char>> {
    if sets.contains_key(client) {
        views(sets[client]@)
    } else {
        Seq::empty()
    }
}

/// A client that takes commands: its handshake is done, and it has an id and a
/// player.
pub open spec fn takes_commands(c: StreamClient) -> bool {
    c.handshake_complete && c.client_id is Some && c.tiles is Some
}

/// Updates one client, in a world whose tiles the server decides on.
pub fn update_client(
    sets: &mut HashMap<u64, Vec<String>>,
    client: &StreamClient,
) -> (r: Vec<TileStreamingCommand>)
    ensures
        !takes_commands(*client) ==> r.len() == 0 && final(sets)@ == old(sets)@,
        takes_commands(*client) ==> {
            let id = client.client_id->0;
            let wanted = wanted_names(client.tiles->0@);
            &&& command_views(r@) == update_commands(told(old(sets)@, id), wanted)
            &&& told(final(sets)@, id) == wanted
            &&& final(sets)@.dom() == old(sets)@.dom().insert(id)
            &&& forall|other: u64|
                other != id ==> told(final(sets)@, other) == #[trigger] told(old(sets)@, other)
        },
{
    if !client.handshake_complete {
        return Vec::new();
    }
    match (client.client_id, &client.tiles) {
        (Some(id), Some(tiles)) => {
            let wanted = wanted_tiles_for_position(tiles);
            let mut previous: Vec<String> = match sets.get(&id) {
                Some(p) => copy_names(p),
                None => Vec::new(),
            };
            proof {
                assert(views(previous@) =~= told(old(sets)@, id));
            }
            let out = tile_updates(&mut previous, wanted);
            sets.insert(id, previous);
            out
        },
        _ => Vec::new(),
    }
}

/// What a client knows of the server's word on tiles.
#[derive(Clone, Debug)]
pub struct ServerTileStreamingState {
    pub authoritative_tiles: Vec<String>,
    pub last_update_secs: Wide,
    pub has_server_override: bool,
}

impl Default for ServerTileStreamingState {
    fn default() -> (r: Self)
        ensures
            r.authoritative_tiles.len() == 0,
            r.last_update_secs == wide(0),
            !r.has_server_override,
    {
        ServerTileStreamingState {
            authoritative_tiles: Vec::new(),
            last_update_secs: wide(0),
            has_server_override: false,
        }
    }
}

/// `names` without `name`.
pub open spec fn without_name(names: Seq<Seq<char>>, name: Seq<char>) -> Seq<Seq<char>> {
    not_in(names, seq![name])
}

/// The tiles of a client after a command; a command of another kind is ignored.
pub open spec fn commanded(held: Seq<Seq<char>>, c: CommandView) -> Seq<Seq<char>> {
    if c.action == "load"@ {
        with_name(held, c.tile)
    } else if c.action == "unload"@ {
        without_name(held, c.tile)
    } else {
        held
    }
}

/// The tiles of a client after several commands.
pub open spec fn commanded_all(held: Seq<Seq<char>>, cs: Seq<CommandView>) -> Seq<Seq<char>>
    decreases cs.len(),
{
    if cs.len() == 0 {
        held
    } else {
        commanded(commanded_all(held, cs.drop_last()), cs.last())
    }
}

fn obey(held: &mut Vec<String>, c: &TileStreamingCommand)
    ensures
        views(final(held)@) == commanded(
            views(old(held)@),
            CommandView { tile: c.tile_id@, action: c.action@ },
        ),
{
    if same(c.action.as_str(), "load") {
        add_name(held, c.tile_id.as_str());
    } else if same(c.action.as_str(), "unload") {
        let mut one: Vec<String> = Vec::new();
        one.push(c.tile_id.clone());
        assert(views(one@) =~= seq![c.tile_id@]);
        let kept = difference(held, &one);
        *held = kept;
    }
}

/// Takes the commands that have arrived; any of them makes the server's word
/// count from `now` on.
pub fn receive_tile_streaming_commands(
    state: &mut ServerTileStreamingState,
    commands: &Vec<TileStreamingCommand>,
    now: Wide,
)
    ensures
        views(final(state).authoritative_tiles@) == commanded_all(
            views(old(state).authoritative_tiles@),
            command_views(commands@),
        ),
        final(state).has_server_override == (old(state).has_server_override || commands.len() > 0),
        final(state).last_update_secs == if commands.len() > 0 {
            now
        } else {
            old(state).last_update_secs
        },
{
    let mut held = copy_names(&state.authoritative_tiles);
    let mut i: usize = 0;
    assert(command_views(commands@.take(0)) =~= Seq::<CommandView>::empty());
    while i < commands.len()
        invariant
            i <= commands.len(),
            views(held@) == commanded_all(
                views(old(state).authoritative_tiles@),
                command_views(commands@.take(i as int)),
            ),
        decreases commands.len() - i,
    {
        proof {
            let next = command_views(commands@.take(i + 1));
            assert(next.drop_last() =~= command_views(commands@.take(i as int)));
        }
        obey(&mut held, &commands[i]);
        i = i + 1;
    }
    assert(commands@.take(commands.len() as int) =~= commands@);
    state.authoritative_tiles = held;
    if commands.len() > 0 {
        state.last_update_secs = now;
        state.has_server_override = true;
    }
}

/// Two lists hold the same names.
pub open spec fn same_set(a: Seq<Seq<char>>, b: Seq<Seq<char>>) -> bool {
    forall|n: Seq<char>| #[trigger] a.contains(n) <==> b.contains(n)
}

proof fn lemma_loads(held: Seq<Seq<char>>, names: Seq<Seq<char>>, n: Seq<char>)
    ensures
        commanded_all(held, commands_for(names, TileAction::Load)).contains(n) <==> held.contains(n)
            || names.contains(n),
    decreases names.len(),
{
    reveal_strlit("load");
    let cs = commands_for(names, TileAction::Load);
    if names.len() > 0 {
        let front = names.drop_last();
        assert(cs.drop_last() =~= commands_for(front, TileAction::Load));
        assert(cs.last().tile == names.last());
        lemma_loads(held, front, n);
        let mid = commanded_all(held, cs.drop_last());
        assert(names =~= front.push(names.last()));
        lemma_push_contains(front, names.last(), n);
        lemma_push_contains(mid, names.last(), n);
    }
}

proof fn lemma_unloads(held: Seq<Seq<char>>, names: Seq<Seq<char>>, n: Seq<char>)
    ensures
        commanded_all(held, commands_for(names, TileAction::Unload)).contains(n)
            <==> held.contains(n) && !names.contains(n),
    decreases names.len(),
{
    reveal_strlit("load");
    reveal_strlit("unload");
    assert("load"@.len() != "unload"@.len());
    let cs = commands_for(names, TileAction::Unload);
    if names.len() > 0 {
        let front = names.drop_last();
        let last = names.last();
        assert(cs.drop_last() =~= commands_for(front, TileAction::Unload));
        assert(cs.last().tile == last);
        lemma_unloads(held, front, n);
        let mid = commanded_all(held, cs.drop_last());
        assert(names =~= front.push(last));
        lemma_push_contains(front, last, n);
        lemma_not_in_contains(mid, seq![last], n);
        assert(seq![last].contains(n) <==> n == last) by {
            assert(seq![last][0] == last);
        }
    }
}

proof fn lemma_commanded_concat(held: Seq<Seq<char>>, a: Seq<CommandView>, b: Seq<CommandView>)
    ensures
        commanded_all(held, a + b) == commanded_all(commanded_all(held, a), b),
    decreases b.len(),
{
    if b.len() == 0 {
        assert(a + b =~= a);
    } else {
        assert((a + b).drop_last() =~= a + b.drop_last());
        lemma_commanded_concat(held, a, b.drop_last());
    }
}

/// A client that holds what it was told holds, after the server's commands, the
/// tiles that the server wants it to hold.
pub proof fn law_client_follows_server(
    held: Seq<Seq<char>>,
    previous: Seq<Seq<char>>,
    wanted: Seq<Seq<char>>,
)
    requires
        same_set(held, previous),
    ensures
        same_set(commanded_all(held, update_commands(previous, wanted)), wanted),
{
    let loads = not_in(wanted, previous);
    let unloads = not_in(previous, wanted);
    let a = commands_for(loads, TileAction::Load);
    let b = commands_for(unloads, TileAction::Unload);
    lemma_commanded_concat(held, a, b);
    let mid = commanded_all(held, a);
    let end = commanded_all(mid, b);
    assert forall|n: Seq<char>| #[trigger] end.contains(n) <==> wanted.contains(n) by {
        lemma_loads(held, loads, n);
        lemma_unloads(mid, unloads, n);
        lemma_not_in_contains(wanted, previous, n);
        lemma_not_in_contains(previous, wanted, n);
        assert(held.contains(n) <==> previous.contains(n));
    }
}

proof fn lemma_not_in_self(a: Seq<Seq<char>>, b: Seq<Seq<char>>)
    requires
        forall|i: int| 0 <= i < a.len() ==> b.contains(#[trigger] a[i]),
    ensures
        not_in(a, b).len() == 0,
    decreases a.len(),
{
    if a.len() > 0 {
        assert(b.contains(a[a.len() - 1]));
        let front = a.drop_last();
        assert forall|i: int| 0 <= i < front.len() implies b.contains(#[trigger] front[i]) by {
            assert(front[i] == a[i]);
        }
        lemma_not_in_self(front, b);
    }
}

/// A client that stays where it is gets no further commands.
pub proof fn law_no_repeated_commands(wanted: Seq<Seq<char>>)
    ensures
        update_commands(wanted, wanted).len() == 0,
{
    assert forall|i: int| 0 <= i < wanted.len() implies wanted.contains(#[trigger] wanted[i]) by {}
    lemma_not_in_self(wanted, wanted);
}

/// The server's word on tiles counts: there was one, and not too long ago.
/// `since` is the time since the last word.
pub open spec fn server_decides(state: ServerTileStreamingState, since: Wide) -> bool {
    state.has_server_override && since.at_most(wide(SERVER_WORD_SECS))
}

/// The tile is wanted by a client: the server says so, or the player's place
/// does while the server says nothing.
pub open spec fn tile_wanted(
    tile: WorldTile,
    state: ServerTileStreamingState,
    since: Wide,
) -> bool {
    if server_decides(state, since) {
        views(state.authoritative_tiles@).contains(tile.name())
    } else {
        tile.near()
    }
}

/// The map files that a client wants, each once.
pub open spec fn wanted_maps(
    root: Seq<char>,
    tiles: Seq<WorldTile>,
    state: ServerTileStreamingState,
    since: Wide,
) -> Seq<Seq<char>>
    decreases tiles.len(),
{
    if tiles.len() == 0 {
        Seq::empty()
    } else if tile_wanted(tiles.last(), state, since) {
        with_path(
            wanted_maps(root, tiles.drop_last(), state, since),
            joined_path(root, tiles.last().map@),
        )
    } else {
        wanted_maps(root, tiles.drop_last(), state, since)
    }
}

/// Leaves the world: every loaded map file is dropped, and nothing that the
/// server said of tiles is kept. The result lists what is dropped.
pub fn cleanup_maps_on_exit(
    state: &mut ServerTileStreamingState,
    loaded: &mut Vec<LoadedMapRecord>,
) -> (dropped: Vec<LoadedMapRecord>)
    ensures
        dropped@ == old(loaded)@,
        final(loaded).len() == 0,
        final(state).authoritative_tiles.len() == 0,
        final(state).last_update_secs == wide(0),
        !final(state).has_server_override,
{
    let mut dropped: Vec<LoadedMapRecord> = Vec::new();
    std::mem::swap(loaded, &mut dropped);
    *state = ServerTileStreamingState::default();
    dropped
}

/// Once the world was left, the server's word decides no tile until it speaks
/// again.
pub proof fn law_exit_forgets_server(state: ServerTileStreamingState, since: Wide)
    requires
        !state.has_server_override,
    ensures
        !server_decides(state, since),
{
}

/// The map files to load and those to drop.
pub struct MapChanges {
    pub load: Vec<String>,
    pub unload: Vec<String>,
}

/// Decides which map files come and go.
pub fn stream_world_tiles(
    root: &str,
    tiles: &Vec<WorldTile>,
    state: &ServerTileStreamingState,
    since: Wide,
    loaded: &Vec<LoadedMapRecord>,
) -> (r: MapChanges)
    ensures
        ({
            let wanted = wanted_maps(root@, tiles@, *state, since);
            &&& views(r.load@) == paths_beyond(wanted, loaded_paths(loaded@))
            &&& views(r.unload@) == paths_beyond(loaded_paths(loaded@), wanted)
        }),
{
    let decides = state.has_server_override && since.le(wide(SERVER_WORD_SECS));
    let mut wanted: Vec<String> = Vec::new();
    let mut i: usize = 0;
    assert(tiles@.take(0) =~= Seq::<WorldTile>::empty());
    assert(views(wanted@) =~= Seq::<Seq<char>>::empty());
    while i < tiles.len()
        invariant
            i <= tiles.len(),
            decides == server_decides(*state, since),
            views(wanted@) == wanted_maps(root@, tiles@.take(i as int), *state, since),
        decreases tiles.len() - i,
    {
        proof {
            lemma_take_next(tiles@, i as int);
        }
        let is_wanted = if decides {
            let name = tiles[i].runtime_id();
            holds(&state.authoritative_tiles, name.as_str())
        } else {
            tiles[i].is_near()
        };
        if is_wanted {
            add_path(&mut wanted, join_path(root, tiles[i].map.as_str()));
        }
        i = i + 1;
    }
    assert(tiles@.take(tiles.len() as int) =~= tiles@);
    let held = list_loaded(loaded);
    MapChanges { load: path_difference(&wanted, &held), unload: path_difference(&held, &wanted) }
}

/// Once every wanted map file has been loaded and every other one dropped, the
/// loaded ones are the wanted ones.
pub proof fn law_loaded_become_wanted(
    loaded: Seq<Seq<char>>,
    wanted: Seq<Seq<char>>,
    path: Seq<char>,
)
    ensures
        has_path(
            paths_beyond(
                with_paths(loaded, paths_beyond(wanted, loaded)),
                paths_beyond(loaded, wanted),
            ),
            path,
        ) <==> has_path(wanted, path),
{
    let more = paths_beyond(wanted, loaded);
    let gone = paths_beyond(loaded, wanted);
    lemma_with_paths(loaded, more, path);
    lemma_paths_beyond(with_paths(loaded, more), gone, path);
    lemma_paths_beyond(wanted, loaded, path);
    lemma_paths_beyond(loaded, wanted, path);
}

/// The id of a placed object: its own, or its model and its place in the file.
pub open spec fn instance_id(id: Seq<char>, model: Seq<char>, index: nat) -> Seq<char> {
    if id.len() == 0 {
        model + "_"@ + decimal_digits(index)
    } else {
        id
    }
}

/// An object of a map file.
#[derive(Clone, Debug)]
pub struct MapEntry {
    pub id: String,
    pub model: String,
    pub navmesh_only: bool,
}

/// An object of a map as it is placed.
#[derive(Clone, Debug)]
pub struct MapObjectInstance {
    pub map_file: String,
    pub entry_index: usize,
    pub id: String,
    /// It guides characters and is never seen.
    pub navmesh_only: bool,
}

/// The objects of a map file, in order.
pub fn map_instances(map_key: &str, entries: &Vec<MapEntry>) -> (r: Vec<MapObjectInstance>)
    ensures
        r.len() == entries.len(),
        forall|i: int|
            #![trigger r@[i]]
            0 <= i < r.len() ==> {
                &&& r@[i].map_file@ == map_key@
                &&& r@[i].entry_index == i
                &&& r@[i].id@ == instance_id(entries@[i].id@, entries@[i].model@, i as nat)
                &&& r@[i].navmesh_only == entries@[i].navmesh_only
            },
{
    let mut r: Vec<MapObjectInstance> = Vec::new();
    let mut i: usize = 0;
    while i < entries.len()
        invariant
            i <= entries.len(),
            r.len() == i,
            forall|j: int|
                #![trigger r@[j]]
                0 <= j < i ==> {
                    &&& r@[j].map_file@ == map_key@
                    &&& r@[j].entry_index == j
                    &&& r@[j].id@ == instance_id(entries@[j].id@, entries@[j].model@, j as nat)
                    &&& r@[j].navmesh_only == entries@[j].navmesh_only
                },
        decreases entries.len() - i,
    {
        let id = if entries[i].id.as_str().is_empty() {
            let mut s = entries[i].model.clone();
            s.append("_");
            let n = decimal(i as u64);
            s.append(n.as_str());
            s
        } else {
            entries[i].id.clone()
        };
        r.push(
            MapObjectInstance {
                map_file: map_key.to_string(),
                entry_index: i,
                id,
                navmesh_only: entries[i].navmesh_only,
            },
        );
        i = i + 1;
    }
    r
}

/// The path of a map below the directory of maps, with forward slashes; a path
/// elsewhere stands whole.
pub open spec fn map_key(root: Seq<char>, path: Seq<char>) -> Seq<char> {
    replaced(
        match path_behind(path, root) {
            Some(rest) => rest,
            None => path,
        },
        '\\',
        "/"@,
    )
}

pub fn map_key_for_path(root: &str, map_path: &str) -> (r: String)
    ensures
        r@ == map_key(root@, map_path@),
{
    match strip_root(map_path, root) {
        Some(rest) => replace_char(rest.as_str(), '\\', "/"),
        None => replace_char(map_path, '\\', "/"),
    }
}

/// A map file that is loaded, with the objects that it placed.
#[derive(Clone, Debug)]
pub struct LoadedMapRecord {
    pub path: String,
    pub map_key: String,
    pub entities: Vec<u64>,
    /// The handles by which scripts know the objects.
    pub handles: Vec<u64>,
}

/// The paths of the loaded map files.
pub open spec fn loaded_paths(loaded: Seq<LoadedMapRecord>) -> Seq<Seq<char>> {
    loaded.map_values(|r: LoadedMapRecord| r.path@)
}

fn list_loaded(loaded: &Vec<LoadedMapRecord>) -> (r: Vec<String>)
    ensures
        views(r@) == loaded_paths(loaded@),
{
    let mut r: Vec<String> = Vec::new();
    let mut i: usize = 0;
    while i < loaded.len()
        invariant
            i <= loaded.len(),
            r.len() == i,
            forall|j: int| 0 <= j < i ==> r@[j]@ == loaded@[j].path@,
        decreases loaded.len() - i,
    {
        r.push(loaded[i].path.clone());
        i = i + 1;
    }
    assert(views(r@) =~= loaded_paths(loaded@));
    r
}

/// The map file is loaded already.
pub open spec fn is_loaded(loaded: Seq<LoadedMapRecord>, path: Seq<char>) -> bool {
    has_path(loaded_paths(loaded), path)
}

/// No map file is loaded twice.
pub open spec fn loaded_once(loaded: Seq<LoadedMapRecord>) -> bool {
    forall|i: int, j: int|
        0 <= i < j < loaded.len() ==> !same_path(
            (#[trigger] loaded[i]).path@,
            (#[trigger] loaded[j]).path@,
        )
}

fn find_loaded(loaded: &Vec<LoadedMapRecord>, path: &str) -> (r: Option<usize>)
    ensures
        match r {
            Some(i) => i < loaded.len() && same_path(loaded@[i as int].path@, path@),
            None => true,
        },
        r is Some <==> is_loaded(loaded@, path@),
{
    let ghost all = loaded_paths(loaded@);
    let mut i: usize = 0;
    while i < loaded.len()
        invariant
            i <= loaded.len(),
            all == loaded_paths(loaded@),
            forall|j: int| 0 <= j < i ==> !same_path(#[trigger] all[j], path@),
        decreases loaded.len() - i,
    {
        assert(all[i as int] == loaded@[i as int].path@);
        if is_same_path(loaded[i].path.as_str(), path) {
            return Some(i);
        }
        i = i + 1;
    }
    None
}

/// The list with one more record, of the map file at `path` and the objects that
/// it placed; the handle of an object is the object itself.
pub open spec fn with_record(
    before: Seq<LoadedMapRecord>,
    after: Seq<LoadedMapRecord>,
    root: Seq<char>,
    path: Seq<char>,
    entities: Seq<u64>,
) -> bool {
    &&& after.len() == before.len() + 1
    &&& after.drop_last() == before
    &&& after.last().path@ == path
    &&& after.last().map_key@ == map_key(root, path)
    &&& after.last().entities@ == entities
    &&& after.last().handles@ == entities
}

/// Takes in a map file: `read` holds its objects where it could be read, and
/// `entities` what stands for each of them in the world. A file that is loaded
/// already and one that could not be read change nothing. The result counts the
/// objects that are new.
pub fn load_single_map_file(
    loaded: &mut Vec<LoadedMapRecord>,
    root: &str,
    path: &str,
    read: Option<&Vec<MapEntry>>,
    entities: &Vec<u64>,
) -> (r: Option<usize>)
    requires
        !is_loaded(old(loaded)@, path@) && read is Some ==> entities.len() == read->0.len(),
    ensures
        is_loaded(old(loaded)@, path@) ==> r == Some(0usize) && final(loaded)@ == old(loaded)@,
        !is_loaded(old(loaded)@, path@) && read is None ==> r is None && final(loaded)@ == old(
            loaded,
        )@,
        !is_loaded(old(loaded)@, path@) && read is Some ==> r == Some(read->0.len()) && with_record(
            old(loaded)@,
            final(loaded)@,
            root@,
            path@,
            entities@,
        ),
        loaded_once(old(loaded)@) ==> loaded_once(final(loaded)@),
{
    if find_loaded(loaded, path).is_some() {
        return Some(0);
    }
    match read {
        Some(entries) => {
            let ghost before = loaded@;
            let record = LoadedMapRecord {
                path: path.to_string(),
                map_key: map_key_for_path(root, path),
                entities: copy_numbers(entities),
                handles: copy_numbers(entities),
            };
            loaded.push(record);
            proof {
                assert(loaded@.drop_last() =~= before);
                assert forall|i: int| 0 <= i < before.len() implies !same_path(
                    (#[trigger] before[i]).path@,
                    path@,
                ) by {
                    assert(loaded_paths(before)[i] == before[i].path@);
                }
            }
            Some(entries.len())
        },
        None => None,
    }
}

fn copy_numbers(numbers: &Vec<u64>) -> (r: Vec<u64>)
    ensures
        r@ == numbers@,
{
    let mut r: Vec<u64> = Vec::new();
    let mut i: usize = 0;
    while i < numbers.len()
        invariant
            i <= numbers.len(),
            r@ == numbers@.take(i as int),
        decreases numbers.len() - i,
    {
        r.push(numbers[i]);
        assert(r@ =~= numbers@.take(i + 1));
        i = i + 1;
    }
    assert(r@ =~= numbers@);
    r
}

/// Lets go of a map file. The result is its record: the handles to forget, the
/// entities to remove and the map whose navigation mesh goes; none where the
/// file is not loaded.
pub fn unload_single_map_file(loaded: &mut Vec<LoadedMapRecord>, path: &str) -> (r: Option<
    LoadedMapRecord,
>)
    ensures
        r is Some <==> is_loaded(old(loaded)@, path@),
        match r {
            Some(record) => same_path(record.path@, path@) && without_record(
                old(loaded)@,
                final(loaded)@,
                record,
            ),
            None => final(loaded)@ == old(loaded)@,
        },
        loaded_once(old(loaded)@) ==> loaded_once(final(loaded)@),
        loaded_once(old(loaded)@) ==> !is_loaded(final(loaded)@, path@),
{
    match find_loaded(loaded, path) {
        Some(i) => {
            let ghost before = loaded@;
            let record = loaded.remove(i);
            proof {
                assert(before[i as int] == record && loaded@ == before.remove(i as int));
                assert forall|j: int| 0 <= j < loaded.len() implies #[trigger] loaded@[j]
                    == before[if j < i {
                    j
                } else {
                    j + 1
                }] by {}
                if loaded_once(before) && is_loaded(loaded@, path@) {
                    let all = loaded_paths(loaded@);
                    let j = choose|j: int|
                        0 <= j < all.len() && same_path(#[trigger] all[j], path@);
                    assert(all[j] == loaded@[j].path@);
                    let k = if j < i {
                        j
                    } else {
                        j + 1
                    };
                    assert(same_path(before[k].path@, before[i as int].path@));
                    assert(same_path(before[i as int].path@, before[k].path@));
                    assert(false);
                }
            }
            Some(record)
        },
        None => {
            proof {
                assert(!is_loaded(loaded@, path@));
            }
            None
        },
    }
}

/// `after` is `before` without one record.
pub open spec fn without_record(
    before: Seq<LoadedMapRecord>,
    after: Seq<LoadedMapRecord>,
    record: LoadedMapRecord,
) -> bool {
    exists|i: int|
        0 <= i < before.len() && #[trigger] before[i] == record && after == before.remove(i)
}

/// A map file that was loaded and then let go leaves what was there before: the
/// record that comes back holds the objects that were placed for it.
pub proof fn law_unload_undoes_load(
    before: Seq<LoadedMapRecord>,
    loaded: Seq<LoadedMapRecord>,
    after: Seq<LoadedMapRecord>,
    root: Seq<char>,
    path: Seq<char>,
    entities: Seq<u64>,
    record: LoadedMapRecord,
)
    requires
        !is_loaded(before, path),
        with_record(before, loaded, root, path, entities),
        same_path(record.path@, path),
        without_record(loaded, after, record),
    ensures
        after == before,
        record.entities@ == entities,
        record.handles@ == entities,
        record.map_key@ == map_key(root, path),
{
    let i = choose|i: int|
        0 <= i < loaded.len() && #[trigger] loaded[i] == record && after == loaded.remove(i);
    if i < before.len() {
        assert(before[i] == loaded.drop_last()[i]);
        assert(loaded_paths(before)[i] == before[i].path@);
        assert(is_loaded(before, path));
    }
    assert(after =~= before);
}

/// The names under which the navigation mesh of a map file is looked for, beside it.
pub open spec fn navmesh_names(name: Seq<char>) -> Seq<Seq<char>> {
    let first = stem_of(name) + ".navmesh.toml"@;
    if has_tail(name, ".map.toml"@) {
        seq![first, drop_tail(name, ".map.toml"@) + ".navmesh.toml"@]
    } else {
        seq![first]
    }
}

pub fn navmesh_candidates(name: &str) -> (r: Vec<String>)
    ensures
        views(r@) == navmesh_names(name@),
{
    let mut out: Vec<String> = Vec::new();
    let stem = file_stem(name);
    out.push(concat(stem.as_str(), ".navmesh.toml"));
    if let Some(base) = strip_tail(name, ".map.toml") {
        out.push(concat(base.as_str(), ".navmesh.toml"));
    }
    assert(views(out@) =~= navmesh_names(name@));
    out
}

/// A file of a world index, as far as it could be read.
#[derive(Clone, Copy, PartialEq, Eq, Structural, Debug)]
pub struct IndexFile {
    pub exists: bool,
    /// It could be read and holds an index.
    pub valid: bool,
    pub tiles: usize,
}

pub open spec fn usable_index(f: IndexFile) -> bool {
    f.exists && f.valid && f.tiles > 0
}

/// The first candidate that holds an index with tiles.
pub fn load_world_tile_index(candidates: &Vec<IndexFile>) -> (r: Option<usize>)
    ensures
        match r {
            Some(i) => i < candidates.len() && usable_index(candidates@[i as int]) && forall|j: int|
                0 <= j < i ==> !usable_index(#[trigger] candidates@[j]),
            None => forall|j: int|
                0 <= j < candidates.len() ==> !usable_index(#[trigger] candidates@[j]),
        },
{
    let mut i: usize = 0;
    while i < candidates.len()
        invariant
            i <= candidates.len(),
            forall|j: int| 0 <= j < i ==> !usable_index(#[trigger] candidates@[j]),
        decreases candidates.len() - i,
    {
        let f = candidates[i];
        if f.exists && f.valid && f.tiles > 0 {
            return Some(i);
        }
        i = i + 1;
    }
    None
}

/// The two names of the index of a world, below a directory.
pub open spec fn index_pair(dir: Seq<char>, maps: Seq<char>) -> Seq<Seq<char>> {
    seq![
        joined_path(dir, maps + "/world.index.toml"@),
        joined_path(dir, maps + "/map.index.toml"@),
    ]
}

fn push_pair(out: &mut Vec<String>, dir: &str, maps: &str)
    ensures
        views(final(out)@) == views(old(out)@) + index_pair(dir@, maps@),
{
    let ghost before = views(out@);
    let world = concat(maps, "/world.index.toml");
    let map = concat(maps, "/map.index.toml");
    push_line(out, join_path(dir, world.as_str()));
    push_line(out, join_path(dir, map.as_str()));
    assert(views(out@) =~= before + index_pair(dir@, maps@));
}

/// Where the server looks for the index of the world: below the workspace and
/// the directory of the server's sources, where they are known, and beside the
/// program.
pub open spec fn index_candidates(
    sources: Option<(Option<Seq<char>>, Seq<char>)>,
    exe_dir: Option<Seq<char>>,
) -> Seq<Seq<char>> {
    (match sources {
        Some((workspace, dir)) => (match workspace {
            Some(w) => index_pair(w, "host_client/assets/maps"@),
            None => Seq::empty(),
        }) + index_pair(dir, "assets/maps"@),
        None => Seq::empty(),
    }) + (match exe_dir {
        Some(dir) => index_pair(dir, "assets/maps"@),
        None => Seq::empty(),
    })
}

pub open spec fn text_of(s: Option<String>) -> Option<Seq<char>> {
    match s {
        Some(t) => Some(t@),
        None => None,
    }
}

/// The candidates, in the order in which they are tried. `source_dir` is the
/// directory of the server's sources, `workspace` the one above it.
pub fn tile_index_candidates(
    source_dir: &Option<String>,
    workspace: &Option<String>,
    exe_dir: &Option<String>,
) -> (r: Vec<String>)
    ensures
        views(r@) == index_candidates(
            match *source_dir {
                Some(d) => Some((text_of(*workspace), d@)),
                None => None,
            },
            text_of(*exe_dir),
        ),
{
    let mut out: Vec<String> = Vec::new();
    assert(views(out@) =~= Seq::<Seq<char>>::empty());
    if let Some(dir) = source_dir {
        if let Some(w) = workspace {
            push_pair(&mut out, w.as_str(), "host_client/assets/maps");
        }
        push_pair(&mut out, dir.as_str(), "assets/maps");
    }
    if let Some(dir) = exe_dir {
        push_pair(&mut out, dir.as_str(), "assets/maps");
    }
    assert(views(out@) =~= index_candidates(
        match *source_dir {
            Some(d) => Some((text_of(*workspace), d@)),
            None => None,
        },
        text_of(*exe_dir),
    ));
    out
}

/// The file name is that of a map.
pub open spec fn map_file_name(name: Seq<char>) -> bool {
    has_tail(name, ".map.toml"@) || has_tail(name, ".map"@) || name == "map.toml"@
}

/// The names of map files among `names`, in the order in which they stand.
pub open spec fn map_names(names: Seq<Seq<char>>) -> Seq<Seq<char>>
    decreases names.len(),
{
    if names.len() == 0 {
        names
    } else if map_file_name(names.last()) {
        map_names(names.drop_last()).push(names.last())
    } else {
        map_names(names.drop_last())
    }
}

/// The map files of a directory, in order of their names.
pub fn collect_map_files(names: &Vec<String>) -> (r: Vec<String>)
    ensures
        views(r@) == sorted_names(map_names(views(names@))),
{
    let mut out: Vec<String> = Vec::new();
    let mut i: usize = 0;
    assert(views(names@.take(0)) =~= Seq::<Seq<char>>::empty());
    assert(views(out@) =~= Seq::<Seq<char>>::empty());
    while i < names.len()
        invariant
            i <= names.len(),
            views(out@) == map_names(views(names@.take(i as int))),
        decreases names.len() - i,
    {
        proof {
            crate::names::lemma_views_take(names@, i as int);
        }
        let name = names[i].as_str();
        if ends_with(name, ".map.toml") || ends_with(name, ".map") || same(name, "map.toml") {
            let ghost before = out@;
            out.push(names[i].clone());
            assert(views(out@) =~= views(before).push(names@[i as int]@));
        }
        i = i + 1;
    }
    assert(names@.take(names.len() as int) =~= names@);
    sort_names(&out)
}

/// The two names of the index of the world in the directory of maps.
pub open spec fn client_index_paths(maps_root: Seq<char>) -> Seq<Seq<char>> {
    seq![
        joined_path(maps_root, "world.index.toml"@),
        joined_path(maps_root, "map.index.toml"@),
    ]
}

/// Where a client looks for the index of the world, in the order in which the
/// files are tried.
pub fn client_index_candidates(maps_root: &str) -> (r: Vec<String>)
    ensures
        views(r@) == client_index_paths(maps_root@),
{
    let mut out: Vec<String> = Vec::new();
    out.push(join_path(maps_root, "world.index.toml"));
    out.push(join_path(maps_root, "map.index.toml"));
    assert(views(out@) =~= client_index_paths(maps_root@));
    out
}

/// How a client enters the world.
#[derive(Clone, Debug)]
pub enum WorldEntry {
    /// Tile by tile, by the index that this candidate holds.
    Streamed(usize),
    /// All at once, from these map files.
    Files(Vec<String>),
}

/// Each name below a directory.
pub open spec fn all_below(dir: Seq<char>, names: Seq<Seq<char>>) -> Seq<Seq<char>> {
    names.map_values(|n: Seq<char>| joined_path(dir, n))
}

/// A usable index switches streaming on, and no file is then loaded directly;
/// without one every map file of the directory is loaded, in order of the names.
/// `names` are the files of the directory.
pub fn load_maps_on_enter(
    maps_root: &str,
    candidates: &Vec<IndexFile>,
    names: &Vec<String>,
) -> (r: WorldEntry)
    ensures
        match r {
            WorldEntry::Streamed(i) => i < candidates.len() && usable_index(candidates@[i as int])
                && forall|j: int| 0 <= j < i ==> !usable_index(#[trigger] candidates@[j]),
            WorldEntry::Files(paths) => {
                &&& forall|j: int|
                    0 <= j < candidates.len() ==> !usable_index(#[trigger] candidates@[j])
                &&& views(paths@) == all_below(
                    maps_root@,
                    sorted_names(map_names(views(names@))),
                )
            },
        },
{
    if let Some(i) = load_world_tile_index(candidates) {
        return WorldEntry::Streamed(i);
    }
    let files = collect_map_files(names);
    let mut paths: Vec<String> = Vec::new();
    let mut i: usize = 0;
    while i < files.len()
        invariant
            i <= files.len(),
            paths.len() == i,
            forall|j: int|
                0 <= j < i ==> (#[trigger] paths@[j])@ == joined_path(maps_root@, files@[j]@),
        decreases files.len() - i,
    {
        paths.push(join_path(maps_root, files[i].as_str()));
        i = i + 1;
    }
    assert(views(paths@) =~= all_below(maps_root@, views(files@)));
    WorldEntry::Files(paths)
}

/// A place lies within the reach of the tile.
pub open spec fn reaches(tile: WorldTile) -> bool {
    !tile.reach().less(tile.distance)
}

/// The tile that a place lies in, looking at one tile after the other: one
/// within reach takes over unless the one before is as near.
pub open spec fn tile_of(tiles: Seq<WorldTile>) -> Option<int>
    decreases tiles.len(),
{
    if tiles.len() == 0 {
        None
    } else {
        let t = tiles.last();
        match tile_of(tiles.drop_last()) {
            Some(k) => if !reaches(t) || tiles[k].distance.at_most(t.distance) {
                Some(k)
            } else {
                Some(tiles.len() - 1)
            },
            None => if reaches(t) {
                Some(tiles.len() - 1)
            } else {
                None
            },
        }
    }
}

/// The tile that a place lies in is the nearest one within reach, the first of
/// equals; there is none exactly where no tile is within reach.
pub proof fn law_nearest_tile(tiles: Seq<WorldTile>)
    requires
        forall|j: int| 0 <= j < tiles.len() ==> !(#[trigger] tiles[j]).distance.nan(),
    ensures
        match tile_of(tiles) {
            Some(k) => {
                &&& 0 <= k < tiles.len()
                &&& reaches(tiles[k])
                &&& forall|j: int|
                    0 <= j < k && reaches(#[trigger] tiles[j]) ==> tiles[k].distance.less(
                        tiles[j].distance,
                    )
                &&& forall|j: int|
                    k < j < tiles.len() && reaches(#[trigger] tiles[j])
                        ==> tiles[k].distance.at_most(tiles[j].distance)
            },
            None => forall|j: int| 0 <= j < tiles.len() ==> !reaches(#[trigger] tiles[j]),
        },
    decreases tiles.len(),
{
    if tiles.len() > 0 {
        let front = tiles.drop_last();
        assert forall|j: int| 0 <= j < front.len() implies !(#[trigger] front[j]).distance.nan() by {
            assert(front[j] == tiles[j]);
        }
        law_nearest_tile(front);
        assert(forall|j: int| 0 <= j < front.len() ==> front[j] == #[trigger] tiles[j]);
    }
}

/// The name of the tile that a place lies in. The distances are those from the
/// place.
pub fn tile_id_for_position(tiles: &Vec<WorldTile>) -> (r: Option<String>)
    ensures
        match (r, tile_of(tiles@)) {
            (Some(id), Some(k)) => id@ == tiles@[k].name(),
            (None, None) => true,
            _ => false,
        },
{
    let mut best: Option<usize> = None;
    let mut i: usize = 0;
    assert(tiles@.take(0) =~= Seq::<WorldTile>::empty());
    while i < tiles.len()
        invariant
            i <= tiles.len(),
            match best {
                Some(k) => k < i && tile_of(tiles@.take(i as int)) == Some(k as int),
                None => tile_of(tiles@.take(i as int)) is None,
            },
        decreases tiles.len() - i,
    {
        proof {
            lemma_take_next(tiles@, i as int);
        }
        let reach: Scalar = tiles[i].load_radius.max(scalar(ONE));
        let distance: Scalar = tiles[i].distance;
        if !reach.lt(distance) {
            let keep = match best {
                Some(k) => tiles[k].distance.le(distance),
                None => false,
            };
            if !keep {
                best = Some(i);
            }
        }
        i = i + 1;
    }
    assert(tiles@.take(tiles.len() as int) =~= tiles@);
    match best {
        Some(k) => Some(tiles[k].runtime_id()),
        None => None,
    }
}

/// Where a character wants to go.
#[derive(Clone, Copy, PartialEq, Eq, Structural, Debug)]
pub enum NpcGoal {
    Coord,
    Entity(u64),
    Elsewhere,
}

/// Where the target of a new path comes from.
#[derive(Clone, Copy, PartialEq, Eq, Structural, Debug)]
pub enum PathTarget {
    Coord,
    /// The place of this entity.
    Entity(u64),
}

/// What a new path would lead a character to: none while it is another client's,
/// walks a path already or wants to go nowhere in particular.
pub fn path_target(
    local: Option<u64>,
    owner: Option<Option<u64>>,
    path_len: usize,
    waypoint_index: usize,
    goal: NpcGoal,
    handles: &HashMap<u64, u64>,
) -> (r: Option<PathTarget>)
    ensures
        r == if (local matches Some(l) && owner matches Some(o) && o != Some(l)) || (path_len > 0
            && waypoint_index < path_len) {
            None
        } else {
            match goal {
                NpcGoal::Coord => Some(PathTarget::Coord),
                NpcGoal::Entity(h) => if handles@.contains_key(h) {
                    Some(PathTarget::Entity(handles@[h]))
                } else {
                    None
                },
                NpcGoal::Elsewhere => None,
            }
        },
{
    if let (Some(l), Some(o)) = (local, owner) {
        let mine = match o {
            Some(id) => id == l,
            None => false,
        };
        if !mine {
            return None;
        }
    }
    if path_len > 0 && waypoint_index < path_len {
        return None;
    }
    match goal {
        NpcGoal::Coord => Some(PathTarget::Coord),
        NpcGoal::Entity(h) => match handles.get(&h) {
            Some(e) => Some(PathTarget::Entity(*e)),
            None => None,
        },
        NpcGoal::Elsewhere => None,
    }
}

/// The tiles between which a path is looked for.
#[derive(Clone, Debug)]
pub struct PathSearch {
    pub start: String,
    pub goal: String,
}

/// The path that is looked for, where there is one to look for: the world is
/// streamed, its graph holds tiles, the character wants to go to a place, and
/// both its own place and that one lie in a tile. `from` are the tiles as seen
/// from the character, `to` as seen from its target.
pub fn update_npc_nav_paths(
    active: bool,
    graph_tiles: usize,
    target: Option<PathTarget>,
    from: &Vec<WorldTile>,
    to: &Vec<WorldTile>,
) -> (r: Option<PathSearch>)
    ensures
        match r {
            Some(search) => {
                &&& active && graph_tiles > 0 && target is Some
                &&& tile_of(from@) matches Some(k) && search.start@ == from@[k].name()
                &&& tile_of(to@) matches Some(k) && search.goal@ == to@[k].name()
            },
            None => !active || graph_tiles == 0 || target is None || tile_of(from@) is None
                || tile_of(to@) is None,
        },
{
    if !active || graph_tiles == 0 || target.is_none() {
        return None;
    }
    match (tile_id_for_position(from), tile_id_for_position(to)) {
        (Some(start), Some(goal)) => Some(PathSearch { start, goal }),
        _ => None,
    }
}

/// The player whose place the world is streamed around: the first one of this
/// client; without one it is streamed around the origin. `players` are the
/// clients of the players.
pub fn resolve_stream_focus(local: Option<u64>, players: &Vec<u64>) -> (r: Option<usize>)
    ensures
        match r {
            Some(i) => local matches Some(id) && i == player_index(players@, id) && i
                < players.len(),
            None => local matches Some(id) ==> !players@.contains(id),
        },
{
    match local {
        Some(id) => find_player(players, id),
        None => None,
    }
}

/// A tile goes by its id, or by its map where the id is blank. A player gets it
/// where it is always there or within its radius, a metre at least.
pub proof fn law_tile_near(tile: &WorldTile, name: String, near: bool)
    requires
        call_ensures(WorldTile::runtime_id, (tile,), name),
        call_ensures(WorldTile::is_near, (tile,), near),
    ensures
        all_white(tile.id@) ==> name@ == tile.map@,
        !all_white(tile.id@) ==> name@ == tile.id@,
        tile.always_loaded ==> near,
        tile.distance.at_most(scalar(0x3f80_0000)) ==> near,
        tile.distance.at_most(tile.load_radius) ==> near,
        near ==> tile.always_loaded || tile.distance.at_most(scalar(0x3f80_0000))
            || tile.distance.at_most(tile.load_radius),
{
    lemma_blank(tile.id@);
}

proof fn lemma_wanted(tiles: Seq<WorldTile>, name: Seq<char>)
    ensures
        wanted_names(tiles).contains(name) <==> exists|i: int|
            0 <= i < tiles.len() && (#[trigger] tiles[i]).near() && tiles[i].name() == name,
    decreases tiles.len(),
{
    if tiles.len() > 0 {
        let front = tiles.drop_last();
        let last = tiles.last();
        lemma_wanted(front, name);
        lemma_push_contains(wanted_names(front), last.name(), name);
        if exists|i: int|
            0 <= i < front.len() && (#[trigger] front[i]).near() && front[i].name() == name {
            let i = choose|i: int|
                0 <= i < front.len() && (#[trigger] front[i]).near() && front[i].name() == name;
            assert(tiles[i] == front[i]);
        }
        if exists|i: int|
            0 <= i < tiles.len() && (#[trigger] tiles[i]).near() && tiles[i].name() == name {
            let i = choose|i: int|
                0 <= i < tiles.len() && (#[trigger] tiles[i]).near() && tiles[i].name() == name;
            if i < front.len() {
                assert(front[i] == tiles[i]);
            }
        }
        if last.near() && last.name() == name {
            assert(tiles[tiles.len() - 1].near());
        }
    }
}

/// The tiles that a place asks for are those that are near, by their names, each
/// name once. `names` and `nears` hold the name and the nearness of each tile.
pub proof fn law_tiles_for_position(
    tiles: &Vec<WorldTile>,
    r: Vec<String>,
    names: Seq<String>,
    nears: Seq<bool>,
    x: Seq<char>,
)
    requires
        call_ensures(wanted_tiles_for_position, (tiles,), r),
        names.len() == tiles@.len(),
        nears.len() == tiles@.len(),
        forall|i: int|
            #![trigger tiles@[i]]
            0 <= i < tiles@.len() ==> call_ensures(
                WorldTile::runtime_id,
                (&tiles@[i],),
                names[i],
            ) && call_ensures(WorldTile::is_near, (&tiles@[i],), nears[i]),
    ensures
        distinct(views(r@)),
        views(r@).contains(x) <==> exists|i: int|
            0 <= i < names.len() && nears[i] && (#[trigger] names[i])@ == x,
{
    law_wanted_distinct(tiles@);
    lemma_wanted(tiles@, x);
    if views(r@).contains(x) {
        let i = choose|i: int|
            0 <= i < tiles@.len() && (#[trigger] tiles@[i]).near() && tiles@[i].name() == x;
        assert(nears[i] && names[i]@ == x);
    }
    if exists|i: int| 0 <= i < names.len() && nears[i] && (#[trigger] names[i])@ == x {
        let i = choose|i: int| 0 <= i < names.len() && nears[i] && (#[trigger] names[i])@ == x;
        assert(tiles@[i].near() && tiles@[i].name() == x);
    }
}

/// Tiles are looked at again after a second.
pub proof fn law_streaming_due(ticker: Scalar, r: bool)
    requires
        call_ensures(streaming_due, (ticker,), r),
    ensures
        ticker.less(scalar(0x3f80_0000)) ==> !r,
        scalar(0x3f80_0000).at_most(ticker) ==> r,
{
}

/// The server and a client stay together: a client that holds the tiles that it
/// was told last holds, once it has taken the server's commands, the tiles that
/// the server wants it to hold, and the server remembers those.
pub proof fn law_commands_obeyed(
    previous: &mut Vec<String>,
    wanted: Vec<String>,
    commands: Vec<TileStreamingCommand>,
    state: &mut ServerTileStreamingState,
    now: Wide,
    tile: Seq<char>,
)
    requires
        call_ensures(tile_updates, (previous, wanted), commands),
        call_ensures(receive_tile_streaming_commands, (state, &commands, now), ()),
        forall|n: Seq<char>|
            #[trigger] views(old(state).authoritative_tiles@).contains(n) <==> views(
                old(previous)@,
            ).contains(n),
    ensures
        views(final(state).authoritative_tiles@).contains(tile) <==> views(wanted@).contains(tile),
        views(final(previous)@) == views(wanted@),
        commands@.len() > 0 ==> final(state).has_server_override && final(state).last_update_secs
            == now,
        commands@.len() == 0 ==> final(state).has_server_override == old(state).has_server_override
            && final(state).last_update_secs == old(state).last_update_secs,
{
    let held = views(old(state).authoritative_tiles@);
    assert(same_set(held, views(old(previous)@)));
    law_client_follows_server(held, views(old(previous)@), views(wanted@));
    assert(same_set(views(final(state).authoritative_tiles@), views(wanted@)));
}

/// The commands for a client: it is told to load what is new to it and to unload
/// what it no longer needs, and nothing else.
pub proof fn law_commands_needed(
    previous: &mut Vec<String>,
    wanted: Vec<String>,
    r: Vec<TileStreamingCommand>,
    i: int,
)
    requires
        call_ensures(tile_updates, (previous, wanted), r),
        0 <= i < r@.len(),
    ensures
        r@[i].action@ == "load"@ || r@[i].action@ == "unload"@,
        r@[i].action@ == "load"@ ==> views(wanted@).contains(r@[i].tile_id@) && !views(
            old(previous)@,
        ).contains(r@[i].tile_id@),
        r@[i].action@ == "unload"@ ==> views(old(previous)@).contains(r@[i].tile_id@) && !views(
            wanted@,
        ).contains(r@[i].tile_id@),
{
    reveal_strlit("load");
    reveal_strlit("unload");
    assert("load"@.len() != "unload"@.len());
    let before = views(old(previous)@);
    let after = views(wanted@);
    let come = not_in(after, before);
    let go = not_in(before, after);
    let c = command_views(r@)[i];
    assert(command_views(r@).len() == r@.len());
    assert(update_commands(before, after).len() == come.len() + go.len());
    assert(c.tile == r@[i].tile_id@ && c.action == r@[i].action@);
    if i < come.len() {
        assert(c.tile == come[i]);
        assert(come.contains(come[i]));
        lemma_not_in_contains(after, before, come[i]);
    } else {
        let k = i - come.len();
        assert(c.tile == go[k]);
        assert(go.contains(go[k]));
        lemma_not_in_contains(before, after, go[k]);
    }
}

/// A client that is not ready gets no commands and is remembered as it was; one
/// that is ready is remembered with the tiles that its place asks for, and nobody
/// else's tiles change.
pub proof fn law_client_updated(
    sets: &mut HashMap<u64, Vec<String>>,
    client: &StreamClient,
    r: Vec<TileStreamingCommand>,
    other: u64,
    wanted: Vec<String>,
)
    requires
        call_ensures(update_client, (sets, client), r),
        client.tiles is Some ==> call_ensures(
            wanted_tiles_for_position,
            (&client.tiles->0,),
            wanted,
        ),
    ensures
        !client.handshake_complete || client.client_id is None || client.tiles is None ==> r@.len()
            == 0 && final(sets)@ == old(sets)@,
        client.handshake_complete && client.client_id is Some && client.tiles is Some ==> {
            let id = client.client_id->0;
            &&& final(sets)@.contains_key(id)
            &&& views(final(sets)@[id]@) == views(wanted@)
            &&& other != id ==> final(sets)@.contains_key(other) == old(sets)@.contains_key(other)
        },
{
    if client.handshake_complete && client.client_id is Some && client.tiles is Some {
        let id = client.client_id->0;
        assert(final(sets)@.dom().contains(id));
        assert(final(sets)@.dom().contains(other) <==> old(sets)@.dom().insert(id).contains(other));
    }
}

/// The world was left: every map is dropped and the server's word forgotten.
pub proof fn law_world_left(
    state: &mut ServerTileStreamingState,
    loaded: &mut Vec<LoadedMapRecord>,
    dropped: Vec<LoadedMapRecord>,
)
    requires
        call_ensures(cleanup_maps_on_exit, (state, loaded), dropped),
    ensures
        dropped@ == old(loaded)@,
        final(loaded)@.len() == 0,
        final(state).authoritative_tiles@.len() == 0,
        !final(state).has_server_override,
        final(state).last_update_secs == wide(0),
{
}

/// A tile is wanted: the server names it where its word is no older than five
/// seconds, and it is near where there is no such word.
pub open spec fn asked_for(
    tile: WorldTile,
    state: ServerTileStreamingState,
    since: Wide,
    name: Seq<char>,
    near: bool,
) -> bool {
    if state.has_server_override && since.at_most(wide(0x4014_0000_0000_0000)) {
        views(state.authoritative_tiles@).contains(name)
    } else {
        near
    }
}

proof fn lemma_wanted_map(
    root: Seq<char>,
    tiles: Seq<WorldTile>,
    state: ServerTileStreamingState,
    since: Wide,
    path: Seq<char>,
)
    ensures
        has_path(wanted_maps(root, tiles, state, since), path) <==> exists|i: int|
            0 <= i < tiles.len() && tile_wanted(#[trigger] tiles[i], state, since) && same_path(
                joined_path(root, tiles[i].map@),
                path,
            ),
    decreases tiles.len(),
{
    if tiles.len() > 0 {
        let front = tiles.drop_last();
        let last = tiles.last();
        let before = wanted_maps(root, front, state, since);
        let p = joined_path(root, last.map@);
        lemma_wanted_map(root, front, state, since, path);
        lemma_wanted_map(root, front, state, since, p);
        lemma_with_paths(before, seq![p], path);
        reveal_with_fuel(with_paths, 2);
        assert(seq![p].drop_last() =~= Seq::<Seq<char>>::empty());
        assert(with_paths(before, seq![p]) == with_path(before, p));
        assert(has_path(seq![p], path) <==> same_path(p, path)) by {
            if same_path(p, path) {
                assert(same_path(seq![p][0], path));
            }
        }
        if exists|i: int|
            0 <= i < front.len() && tile_wanted(#[trigger] front[i], state, since) && same_path(
                joined_path(root, front[i].map@),
                path,
            ) {
            let i = choose|i: int|
                0 <= i < front.len() && tile_wanted(#[trigger] front[i], state, since)
                    && same_path(joined_path(root, front[i].map@), path);
            assert(tiles[i] == front[i]);
        }
        if exists|i: int|
            0 <= i < tiles.len() && tile_wanted(#[trigger] tiles[i], state, since) && same_path(
                joined_path(root, tiles[i].map@),
                path,
            ) {
            let i = choose|i: int|
                0 <= i < tiles.len() && tile_wanted(#[trigger] tiles[i], state, since)
                    && same_path(joined_path(root, tiles[i].map@), path);
            if i < front.len() {
                assert(front[i] == tiles[i]);
            }
        }
        if tile_wanted(last, state, since) && same_path(p, path) {
            assert(tile_wanted(tiles[tiles.len() - 1], state, since));
        }
    }
}

/// The map files that come are those of wanted tiles that are not loaded, and
/// those that go are loaded and of no wanted tile. A tile is wanted as the server
/// says, else as the player's place says.
pub proof fn law_maps_streamed(
    root: &str,
    tiles: &Vec<WorldTile>,
    state: &ServerTileStreamingState,
    since: Wide,
    loaded: &Vec<LoadedMapRecord>,
    r: MapChanges,
    names: Seq<String>,
    nears: Seq<bool>,
    path: Seq<char>,
)
    requires
        call_ensures(stream_world_tiles, (root, tiles, state, since, loaded), r),
        names.len() == tiles@.len(),
        nears.len() == tiles@.len(),
        forall|i: int|
            #![trigger tiles@[i]]
            0 <= i < tiles@.len() ==> call_ensures(
                WorldTile::runtime_id,
                (&tiles@[i],),
                names[i],
            ) && call_ensures(WorldTile::is_near, (&tiles@[i],), nears[i]),
    ensures
        ({
            let wanted = exists|i: int|
                0 <= i < tiles@.len() && asked_for(
                    #[trigger] tiles@[i],
                    *state,
                    since,
                    names[i]@,
                    nears[i],
                ) && same_path(joined_path(root@, tiles@[i].map@), path);
            let there = exists|k: int|
                0 <= k < loaded@.len() && same_path((#[trigger] loaded@[k]).path@, path);
            &&& has_path(views(r.load@), path) <==> wanted && !there
            &&& has_path(views(r.unload@), path) <==> there && !wanted
        }),
{
    let paths = loaded_paths(loaded@);
    let maps = wanted_maps(root@, tiles@, *state, since);
    lemma_paths_beyond(maps, paths, path);
    lemma_paths_beyond(paths, maps, path);
    lemma_wanted_map(root@, tiles@, *state, since, path);
    assert forall|i: int| 0 <= i < tiles@.len() implies tile_wanted(
        #[trigger] tiles@[i],
        *state,
        since,
    ) == asked_for(tiles@[i], *state, since, names[i]@, nears[i]) by {
    }
    if has_path(maps, path) {
        let i = choose|i: int|
            0 <= i < tiles@.len() && tile_wanted(#[trigger] tiles@[i], *state, since) && same_path(
                joined_path(root@, tiles@[i].map@),
                path,
            );
        assert(asked_for(tiles@[i], *state, since, names[i]@, nears[i]));
    }
    if has_path(paths, path) {
        let k = choose|k: int| 0 <= k < paths.len() && same_path(#[trigger] paths[k], path);
        assert(same_path(loaded@[k].path@, path));
    }
    if exists|k: int| 0 <= k < loaded@.len() && same_path((#[trigger] loaded@[k]).path@, path) {
        let k = choose|k: int|
            0 <= k < loaded@.len() && same_path((#[trigger] loaded@[k]).path@, path);
        assert(same_path(paths[k], path));
    }
}

/// An object of a map keeps its own id, and one without gets its model's name and
/// its number; each stands in its place.
pub proof fn law_map_instances(key: &str, entries: &Vec<MapEntry>, r: Vec<MapObjectInstance>, i: int)
    requires
        call_ensures(map_instances, (key, entries), r),
        0 <= i < entries@.len(),
    ensures
        r@.len() == entries@.len(),
        r@[i].map_file@ == key@,
        r@[i].entry_index == i,
        r@[i].navmesh_only == entries@[i].navmesh_only,
        entries@[i].id@.len() > 0 ==> r@[i].id@ == entries@[i].id@,
        entries@[i].id@.len() == 0 ==> r@[i].id@ == entries@[i].model@ + "_"@ + decimal_digits(
            i as nat,
        ),
{
    let out = r@[i];
    assert(out.entry_index == i);
}

/// A map file that is taken in and let go again leaves the list as it was, and
/// its record comes back with the objects that were placed for it.
pub proof fn law_map_taken_in_and_let_go(
    loaded: &mut Vec<LoadedMapRecord>,
    later: &mut Vec<LoadedMapRecord>,
    root: &str,
    path: &str,
    entries: &Vec<MapEntry>,
    entities: &Vec<u64>,
    n: Option<usize>,
    record: Option<LoadedMapRecord>,
)
    requires
        call_ensures(load_single_map_file, (loaded, root, path, Some(entries), entities), n),
        call_ensures(unload_single_map_file, (later, path), record),
        old(later)@ == final(loaded)@,
        forall|k: int|
            0 <= k < old(loaded)@.len() ==> !same_path((#[trigger] old(loaded)@[k]).path@, path@),
    ensures
        n == Some(entries.len()),
        final(loaded)@.len() == old(loaded)@.len() + 1,
        final(later)@ == old(loaded)@,
        record is Some && record->0.entities@ == entities@ && record->0.handles@ == entities@,
        record->0.path@ == path@,
{
    let before = old(loaded)@;
    assert(!is_loaded(before, path@)) by {
        if is_loaded(before, path@) {
            let k = choose|k: int|
                0 <= k < loaded_paths(before).len() && same_path(
                    #[trigger] loaded_paths(before)[k],
                    path@,
                );
            assert(same_path(before[k].path@, path@));
        }
    }
    let after = final(loaded)@;
    assert(with_record(before, after, root@, path@, entities@));
    assert(same_path(loaded_paths(after)[before.len() as int], path@));
    assert(is_loaded(after, path@));
    law_unload_undoes_load(
        before,
        after,
        final(later)@,
        root@,
        path@,
        entities@,
        record->0,
    );
    let i = choose|i: int|
        0 <= i < after.len() && #[trigger] after[i] == record->0 && final(later)@ == after.remove(
            i,
        );
    if i < before.len() {
        assert(after.drop_last()[i] == before[i]);
        assert(same_path(before[i].path@, path@));
        assert(false);
    }
}

/// A map file that is loaded already, or could not be read, changes nothing; one
/// that is not loaded cannot be let go.
pub proof fn law_map_unchanged(
    loaded: &mut Vec<LoadedMapRecord>,
    other: &mut Vec<LoadedMapRecord>,
    root: &str,
    path: &str,
    read: Option<&Vec<MapEntry>>,
    entities: &Vec<u64>,
    n: Option<usize>,
    record: Option<LoadedMapRecord>,
    k: int,
)
    requires
        call_ensures(load_single_map_file, (loaded, root, path, read, entities), n),
        call_ensures(unload_single_map_file, (other, path), record),
    ensures
        0 <= k < old(loaded)@.len() && same_path(old(loaded)@[k].path@, path@) ==> n == Some(0usize)
            && final(loaded)@ == old(loaded)@,
        n is None ==> read is None && final(loaded)@ == old(loaded)@,
        record is None ==> final(other)@ == old(other)@,
        0 <= k < old(other)@.len() && same_path(old(other)@[k].path@, path@) ==> record is Some
            && same_path(record->0.path@, path@) && final(other)@.len() == old(other)@.len() - 1,
{
    if 0 <= k < old(loaded)@.len() && same_path(old(loaded)@[k].path@, path@) {
        assert(same_path(loaded_paths(old(loaded)@)[k], path@));
        assert(is_loaded(old(loaded)@, path@));
    }
    if 0 <= k < old(other)@.len() && same_path(old(other)@[k].path@, path@) {
        assert(same_path(loaded_paths(old(other)@)[k], path@));
        assert(is_loaded(old(other)@, path@));
    }
}

/// The first usable index wins: one that exists, could be read and holds tiles.
/// Where there is none the map files of the directory are entered, in order.
pub proof fn law_world_entered(
    root: &str,
    candidates: &Vec<IndexFile>,
    names: &Vec<String>,
    entry: WorldEntry,
    index: Option<usize>,
    files: Vec<String>,
)
    requires
        call_ensures(load_maps_on_enter, (root, candidates, names), entry),
        call_ensures(load_world_tile_index, (candidates,), index),
        call_ensures(collect_map_files, (names,), files),
    ensures
        forall|j: int|
            0 <= j < candidates@.len() && (#[trigger] candidates@[j]).exists && candidates@[j].valid
                && candidates@[j].tiles > 0 ==> index is Some && index->0 <= j,
        index matches Some(i) ==> i < candidates@.len() && candidates@[i as int].exists
            && candidates@[i as int].valid && candidates@[i as int].tiles > 0,
        index matches Some(i) ==> entry == WorldEntry::Streamed(i),
        index is None ==> (entry matches WorldEntry::Files(paths) && paths@.len() == files@.len()
            && forall|k: int|
            0 <= k < files@.len() ==> (#[trigger] paths@[k])@ == joined_path(root@, files@[k]@)),
{
    let one = (candidates,);
    let args = (root, candidates, names);
    assert forall|j: int|
        0 <= j < candidates@.len() && (#[trigger] candidates@[j]).exists && candidates@[j].valid
            && candidates@[j].tiles > 0 implies index is Some && index->0 <= j by {
        assert(usable_index(one.0@[j]));
    }
    match (entry, index) {
        (WorldEntry::Streamed(i), Some(k)) => {
            if i < k {
                assert(usable_index(one.0@[i as int]));
                assert(false);
            }
            if k < i {
                assert(usable_index(args.1@[k as int]));
                assert(false);
            }
        },
        (WorldEntry::Streamed(i), None) => {
            assert(usable_index(one.0@[i as int]));
            assert(false);
        },
        (WorldEntry::Files(paths), Some(k)) => {
            assert(usable_index(args.1@[k as int]));
            assert(false);
        },
        (WorldEntry::Files(paths), None) => {
            let below = all_below(root@, views(files@));
            assert(views(paths@) == below);
            assert(views(paths@).len() == below.len());
            assert forall|k: int| 0 <= k < files@.len() implies (#[trigger] paths@[k])@
                == joined_path(root@, files@[k]@) by {
                assert(views(paths@)[k] == below[k]);
            }
        },
    }
}

proof fn lemma_map_names(names: Seq<Seq<char>>, x: Seq<char>)
    ensures
        map_names(names).contains(x) <==> names.contains(x) && map_file_name(x),
    decreases names.len(),
{
    if names.len() > 0 {
        let front = names.drop_last();
        lemma_map_names(front, x);
        assert(names =~= front.push(names.last()));
        lemma_push_contains(front, names.last(), x);
        lemma_push_contains(map_names(front), names.last(), x);
    }
}

/// The map files of a directory are the files that end in `.map` or `.map.toml`
/// and the one named `map.toml`, and no others, in order.
pub proof fn law_map_files(names: &Vec<String>, r: Vec<String>, base: Seq<char>, x: Seq<char>)
    requires
        call_ensures(collect_map_files, (names,), r),
    ensures
        views(r@).contains(x) ==> views(names@).contains(x),
        views(names@).contains(x) && (x == base + ".map"@ || x == base + ".map.toml"@ || x
            == "map.toml"@) ==> views(r@).contains(x),
        views(r@).contains(x) ==> x == "map.toml"@ || (exists|b: Seq<char>|
            x == #[trigger] (b + ".map"@)) || (exists|b: Seq<char>|
            x == #[trigger] (b + ".map.toml"@)),
        forall|i: int, j: int| 0 <= i < j < r@.len() ==> in_order(r@[i]@, r@[j]@),
{
    lemma_map_names(views(names@), x);
    lemma_sorted_names(map_names(views(names@)));
    if x == base + ".map"@ {
        assert(x.skip(x.len() - ".map"@.len()) =~= ".map"@);
    }
    if x == base + ".map.toml"@ {
        assert(x.skip(x.len() - ".map.toml"@.len()) =~= ".map.toml"@);
    }
    if has_tail(x, ".map"@) {
        assert(x =~= drop_tail(x, ".map"@) + ".map"@);
    }
    if has_tail(x, ".map.toml"@) {
        assert(x =~= drop_tail(x, ".map.toml"@) + ".map.toml"@);
    }
    assert forall|i: int, j: int| 0 <= i < j < r@.len() implies in_order(r@[i]@, r@[j]@) by {
        assert(views(r@)[i] == r@[i]@ && views(r@)[j] == r@[j]@);
    }
}

/// The navigation mesh of a map is looked for beside it, under the map's stem and,
/// for a map file, under its bare name.
pub proof fn law_navmesh_beside(name: &str, base: Seq<char>, stem: String, r: Vec<String>)
    requires
        call_ensures(navmesh_candidates, (name,), r),
        call_ensures(file_stem, (name,), stem),
    ensures
        r@.len() >= 1,
        r@[0]@ == stem@ + ".navmesh.toml"@,
        name@ == base + ".map.toml"@ ==> r@.len() == 2 && r@[1]@ == base + ".navmesh.toml"@,
        r@.len() == 2 ==> exists|b: Seq<char>| name@ == #[trigger] (b + ".map.toml"@),
        r@.len() <= 2,
{
    assert(views(r@).len() == r@.len());
    assert(views(r@)[0] == r@[0]@);
    if name@ == base + ".map.toml"@ {
        assert(name@.skip(name@.len() - ".map.toml"@.len()) =~= ".map.toml"@);
        assert(drop_tail(name@, ".map.toml"@) =~= base);
        assert(views(r@)[1] == r@[1]@);
    }
    if r@.len() == 2 {
        assert(name@ =~= drop_tail(name@, ".map.toml"@) + ".map.toml"@);
    }
}

/// Where the index of the world is looked for: below the workspace, below the
/// server's sources and beside the program, each where it is known, and each time
/// under two names.
pub proof fn law_index_places(
    sources: &Option<String>,
    workspace: &Option<String>,
    exe: &Option<String>,
    r: Vec<String>,
    maps_root: &str,
    c: Vec<String>,
)
    requires
        call_ensures(tile_index_candidates, (sources, workspace, exe), r),
        call_ensures(client_index_candidates, (maps_root,), c),
    ensures
        sources is Some && workspace is Some && exe is Some ==> views(r@) =~= seq![
            joined_path(workspace->0@, "host_client/assets/maps"@ + "/world.index.toml"@),
            joined_path(workspace->0@, "host_client/assets/maps"@ + "/map.index.toml"@),
            joined_path(sources->0@, "assets/maps"@ + "/world.index.toml"@),
            joined_path(sources->0@, "assets/maps"@ + "/map.index.toml"@),
            joined_path(exe->0@, "assets/maps"@ + "/world.index.toml"@),
            joined_path(exe->0@, "assets/maps"@ + "/map.index.toml"@),
        ],
        sources is None && exe is Some ==> views(r@) =~= seq![
            joined_path(exe->0@, "assets/maps"@ + "/world.index.toml"@),
            joined_path(exe->0@, "assets/maps"@ + "/map.index.toml"@),
        ],
        sources is Some && workspace is None && exe is None ==> views(r@) =~= seq![
            joined_path(sources->0@, "assets/maps"@ + "/world.index.toml"@),
            joined_path(sources->0@, "assets/maps"@ + "/map.index.toml"@),
        ],
        sources is None && exe is None ==> r@.len() == 0,
        views(c@) =~= seq![
            joined_path(maps_root@, "world.index.toml"@),
            joined_path(maps_root@, "map.index.toml"@),
        ],
{
    assert(views(r@).len() == r@.len());
}

/// The tile that a place lies in is one within reach, and none within reach is
/// nearer; there is one wherever any is within reach.
pub proof fn law_tile_at(tiles: &Vec<WorldTile>, r: Option<String>, names: Seq<String>)
    requires
        call_ensures(tile_id_for_position, (tiles,), r),
        names.len() == tiles@.len(),
        forall|j: int|
            #![trigger tiles@[j]]
            0 <= j < tiles@.len() ==> !tiles@[j].distance.nan() && call_ensures(
                WorldTile::runtime_id,
                (&tiles@[j],),
                names[j],
            ),
    ensures
        r is Some <==> exists|j: int|
            0 <= j < tiles@.len() && ((#[trigger] tiles@[j]).distance.at_most(tiles@[j].load_radius)
                || tiles@[j].distance.at_most(scalar(0x3f80_0000))),
        r matches Some(id) ==> exists|k: int|
            0 <= k < tiles@.len() && id@ == (#[trigger] names[k])@ && (forall|j: int|
                0 <= j < tiles@.len() && ((#[trigger] tiles@[j]).distance.at_most(
                    tiles@[j].load_radius,
                ) || tiles@[j].distance.at_most(scalar(0x3f80_0000)))
                    ==> tiles@[k].distance.at_most(tiles@[j].distance)),
{
    law_nearest_tile(tiles@);
    assert forall|j: int| 0 <= j < tiles@.len() implies (reaches(#[trigger] tiles@[j]) <==> (
    tiles@[j].distance.at_most(tiles@[j].load_radius) || tiles@[j].distance.at_most(
        scalar(0x3f80_0000),
    ))) by {
    }
    match tile_of(tiles@) {
        Some(k) => {
            assert(r is Some);
            assert(tiles@[k].name() == names[k]@);
            assert(reaches(tiles@[k]));
            assert forall|j: int|
                0 <= j < tiles@.len() && ((#[trigger] tiles@[j]).distance.at_most(
                    tiles@[j].load_radius,
                ) || tiles@[j].distance.at_most(
                    scalar(0x3f80_0000),
                )) implies tiles@[k].distance.at_most(tiles@[j].distance) by {
                assert(reaches(tiles@[j]));
                if j < k {
                    assert(tiles@[k].distance.less(tiles@[j].distance));
                }
            }
        },
        None => {},
    }
}

/// A new path leads a character to its goal: not one of another client, nor one
/// that walks a path already, and not to a thing that is not there.
pub proof fn law_path_target(
    local: Option<u64>,
    owner: Option<Option<u64>>,
    path_len: usize,
    waypoint: usize,
    goal: NpcGoal,
    handles: &HashMap<u64, u64>,
    r: Option<PathTarget>,
)
    requires
        call_ensures(path_target, (local, owner, path_len, waypoint, goal, handles), r),
    ensures
        waypoint < path_len ==> r is None,
        local is Some && owner is Some && owner->0 != local ==> r is None,
        goal is Elsewhere ==> r is None,
        goal matches NpcGoal::Entity(h) ==> (!handles@.contains_key(h) ==> r is None),
        waypoint >= path_len && (local is None || owner is None || owner->0 == local) ==> {
            &&& goal is Coord ==> r == Some(PathTarget::Coord)
            &&& goal matches NpcGoal::Entity(h) ==> (handles@.contains_key(h) ==> r == Some(
                PathTarget::Entity(handles@[h]),
            ))
        },
{
}

/// A path is looked for between the tile of the character and that of its target,
/// where the world is streamed, has a graph and both lie in a tile.
pub proof fn law_path_searched(
    active: bool,
    graph_tiles: usize,
    target: Option<PathTarget>,
    from: &Vec<WorldTile>,
    to: &Vec<WorldTile>,
    r: Option<PathSearch>,
    start: Option<String>,
    goal: Option<String>,
)
    requires
        call_ensures(update_npc_nav_paths, (active, graph_tiles, target, from, to), r),
        call_ensures(tile_id_for_position, (from,), start),
        call_ensures(tile_id_for_position, (to,), goal),
    ensures
        r is Some <==> active && graph_tiles > 0 && target is Some && start is Some && goal is Some,
        r matches Some(s) ==> s.start@ == start->0@ && s.goal@ == goal->0@,
{
}

/// The world is streamed around the first player of this client.
pub proof fn law_stream_focus(
    local: Option<u64>,
    players: &Vec<u64>,
    r: Option<usize>,
    found: Option<usize>,
)
    requires
        call_ensures(resolve_stream_focus, (local, players), r),
        local is Some ==> call_ensures(find_player, (players, local->0), found),
    ensures
        local is None ==> r is None,
        local is Some ==> r == found,
{
}

/// The key of a map is its path below the directory of maps, and the whole path
/// elsewhere, with a slash for each backslash.
pub proof fn law_map_keys(root: &str, path: &str, rest: Option<String>, r: String, i: int)
    requires
        call_ensures(map_key_for_path, (root, path), r),
        call_ensures(strip_root, (path, root), rest),
        0 <= i,
        rest matches Some(s) ==> i < s@.len(),
        rest is None ==> i < path@.len(),
    ensures
        rest matches Some(s) ==> r@.len() == s@.len() && r@[i] == (if s@[i] == '\\' {
            '/'
        } else {
            s@[i]
        }),
        rest is None ==> r@.len() == path@.len() && r@[i] == (if path@[i] == '\\' {
            '/'
        } else {
            path@[i]
        }),
{
    lemma_replaced_slashes(match rest {
        Some(s) => s@,
        None => path@,
    });
}

proof fn lemma_replaced_slashes(s: Seq<char>)
    ensures
        replaced(s, '\\', "/"@).len() == s.len(),
        forall|i: int|
            0 <= i < s.len() ==> #[trigger] replaced(s, '\\', "/"@)[i] == (if s[i] == '\\' {
                '/'
            } else {
                s[i]
            }),
    decreases s.len(),
{
    reveal_strlit("/");
    if s.len() > 0 {
        lemma_replaced_slashes(s.drop_last());
    }
}

/// At first the server has named no tiles.
pub proof fn law_streaming_start(r: ServerTileStreamingState)
    requires
        call_ensures(ServerTileStreamingState::default, (), r),
    ensures
        r.authoritative_tiles@.len() == 0 && !r.has_server_override && r.last_update_secs == wide(
            0,
        ),
{
}

} // verus!
