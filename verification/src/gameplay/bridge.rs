//! What scripts learn of the connection and the input, and what they ask of the
//! engine.

use std::collections::HashMap;

use vstd::prelude::*;

use crate::folds::lemma_take_next;
use crate::input::{
    button_labels, button_names, key_labels, key_names, KeyCode, MouseButton,
};
use crate::names::views;
use crate::scalar::{scalar, Scalar, ZERO};
use crate::startup::AppState;

verus! {

broadcast use vstd::std_specs::hash::group_hash_axioms;

/// The connection as scripts see it.
#[derive(Clone, Debug)]
pub struct ConnectionInfo {
    pub connected: bool,
    pub server_addr: String,
    pub ping_ms: u32,
    pub client_id: u64,
}

/// What scripts are told while the game runs: connected, with the id of the
/// local client once it is known.
pub fn update_connection_bridge(server: &str, local_client: Option<u64>) -> (r: ConnectionInfo)
    ensures
        r.connected,
        r.server_addr@ == server@,
        r.ping_ms == 0,
        r.client_id == match local_client {
            Some(id) => id,
            None => 0,
        },
{
    ConnectionInfo {
        connected: true,
        server_addr: server.to_string(),
        ping_ms: 0,
        client_id: match local_client {
            Some(id) => id,
            None => 0,
        },
    }
}

/// The input of a frame as scripts see it. Each name stands in its list once.
#[derive(Clone, Debug)]
pub struct InputSnapshot {
    pub pressed: Vec<String>,
    pub just_pressed: Vec<String>,
    pub just_released: Vec<String>,
    pub mouse_pressed: Vec<String>,
    pub mouse_just_pressed: Vec<String>,
    pub mouse_just_released: Vec<String>,
    pub cursor_x: Scalar,
    pub cursor_y: Scalar,
}

/// The keys or buttons that are down, went down and came up in a frame.
#[derive(Clone, Debug)]
pub struct KeyFrame {
    pub pressed: Vec<KeyCode>,
    pub just_pressed: Vec<KeyCode>,
    pub just_released: Vec<KeyCode>,
}

#[derive(Clone, Debug)]
pub struct ButtonFrame {
    pub pressed: Vec<MouseButton>,
    pub just_pressed: Vec<MouseButton>,
    pub just_released: Vec<MouseButton>,
}

/// Gathers the input of a frame. The pointer's place is a share of the window;
/// without one it is the corner.
pub fn update_input_bridge(
    keys: &KeyFrame,
    mouse: &ButtonFrame,
    cursor: Option<(Scalar, Scalar)>,
) -> (r: InputSnapshot)
    ensures
        views(r.pressed@) == key_labels(keys.pressed@),
        views(r.just_pressed@) == key_labels(keys.just_pressed@),
        views(r.just_released@) == key_labels(keys.just_released@),
        views(r.mouse_pressed@) == button_labels(mouse.pressed@),
        views(r.mouse_just_pressed@) == button_labels(mouse.just_pressed@),
        views(r.mouse_just_released@) == button_labels(mouse.just_released@),
        (r.cursor_x, r.cursor_y) == match cursor {
            Some(c) => c,
            None => (scalar(ZERO), scalar(ZERO)),
        },
{
    let (cursor_x, cursor_y) = match cursor {
        Some(c) => c,
        None => (scalar(ZERO), scalar(ZERO)),
    };
    InputSnapshot {
        pressed: key_names(&keys.pressed),
        just_pressed: key_names(&keys.just_pressed),
        just_released: key_names(&keys.just_released),
        mouse_pressed: button_names(&mouse.pressed),
        mouse_just_pressed: button_names(&mouse.just_pressed),
        mouse_just_released: button_names(&mouse.just_released),
        cursor_x,
        cursor_y,
    }
}

/// What the engine does for scripts after a frame.
#[derive(Clone, Copy, PartialEq, Eq, Structural, Debug)]
pub struct EngineStep {
    pub next_state: Option<AppState>,
    pub exit: bool,
}

/// Leaves the game where a script asks for it, and ends the program where one
/// asks for that.
pub fn handle_engine_cmds(disconnect: bool, quit: bool) -> (r: EngineStep)
    ensures
        r.next_state == (if disconnect {
            Some(AppState::Lobby)
        } else {
            None
        }),
        r.exit == quit,
{
    let next_state = if disconnect {
        Some(AppState::Lobby)
    } else {
        None
    };
    EngineStep { next_state, exit: quit }
}

/// The handles of scripts after new ones came in: a handle that is known keeps
/// its entity.
pub open spec fn with_handles(known: Map<u64, u64>, new: Seq<(u64, u64)>) -> Map<u64, u64>
    decreases new.len(),
{
    if new.len() == 0 {
        known
    } else {
        let before = with_handles(known, new.drop_last());
        if before.dom().contains(new.last().0) {
            before
        } else {
            before.insert(new.last().0, new.last().1)
        }
    }
}

/// Makes entities of the server known to scripts: pairs of handle and entity.
pub fn sync_replicated_entity_handles(
    known: &mut HashMap<u64, u64>,
    new_handles: &Vec<(u64, u64)>,
)
    ensures
        final(known)@ == with_handles(old(known)@, new_handles@),
{
    let mut i: usize = 0;
    assert(new_handles@.take(0) =~= Seq::<(u64, u64)>::empty());
    while i < new_handles.len()
        invariant
            i <= new_handles.len(),
            known@ == with_handles(old(known)@, new_handles@.take(i as int)),
        decreases new_handles.len() - i,
    {
        proof {
            lemma_take_next(new_handles@, i as int);
        }
        let (handle, entity) = new_handles[i];
        if !known.contains_key(&handle) {
            known.insert(handle, entity);
        }
        i = i + 1;
    }
    assert(new_handles@.take(new_handles.len() as int) =~= new_handles@);
}

/// A handle that scripts know goes on to mean the same entity.
pub proof fn law_known_handles_stay(known: Map<u64, u64>, new: Seq<(u64, u64)>, handle: u64)
    requires
        known.dom().contains(handle),
    ensures
        with_handles(known, new).dom().contains(handle),
        with_handles(known, new)[handle] == known[handle],
    decreases new.len(),
{
    if new.len() > 0 {
        law_known_handles_stay(known, new.drop_last(), handle);
    }
}

/// Every handle that came in is known afterwards.
pub proof fn law_new_handles_known(known: Map<u64, u64>, new: Seq<(u64, u64)>, i: int)
    requires
        0 <= i < new.len(),
    ensures
        with_handles(known, new).dom().contains(new[i].0),
    decreases new.len(),
{
    if i < new.len() - 1 {
        law_new_handles_known(known, new.drop_last(), i);
    }
}

/// Scripts see a connection to the server, and the id of the local client, zero
/// before it is known.
pub proof fn law_connection(server: &str, local: Option<u64>, r: ConnectionInfo)
    requires
        call_ensures(update_connection_bridge, (server, local), r),
    ensures
        r.connected,
        r.server_addr@ == server@,
        r.ping_ms == 0,
        local matches Some(id) ==> r.client_id == id,
        local is None ==> r.client_id == 0,
{
}

/// Each list of the snapshot names the keys or buttons of its own list, and the
/// pointer stands where it stands.
pub proof fn law_input_lists(
    keys: &KeyFrame,
    mouse: &ButtonFrame,
    cursor: Option<(Scalar, Scalar)>,
    r: InputSnapshot,
    name: Seq<char>,
)
    requires
        call_ensures(update_input_bridge, (keys, mouse, cursor), r),
    ensures
        views(r.pressed@).contains(name) <==> key_labels(keys.pressed@).contains(name),
        views(r.just_pressed@).contains(name) <==> key_labels(keys.just_pressed@).contains(name),
        views(r.just_released@).contains(name) <==> key_labels(keys.just_released@).contains(name),
        views(r.mouse_pressed@).contains(name) <==> button_labels(mouse.pressed@).contains(name),
        views(r.mouse_just_pressed@).contains(name) <==> button_labels(
            mouse.just_pressed@,
        ).contains(name),
        views(r.mouse_just_released@).contains(name) <==> button_labels(
            mouse.just_released@,
        ).contains(name),
        cursor matches Some(c) ==> r.cursor_x == c.0 && r.cursor_y == c.1,
        cursor is None ==> r.cursor_x == scalar(0) && r.cursor_y == scalar(0),
{
}

/// A script that leaves the game leads to the lobby, and one that quits ends the
/// program; neither does the other's part.
pub proof fn law_engine_commands(disconnect: bool, quit: bool, r: EngineStep)
    requires
        call_ensures(handle_engine_cmds, (disconnect, quit), r),
    ensures
        disconnect ==> r.next_state == Some(AppState::Lobby),
        !disconnect ==> r.next_state is None,
        r.exit <==> quit,
{
}

/// The handles after a frame: a known one keeps its entity, a new one means the
/// entity that it came in with first, and no others are known.
pub proof fn law_handles_synced(
    known: &mut HashMap<u64, u64>,
    new_handles: &Vec<(u64, u64)>,
    i: int,
    handle: u64,
)
    requires
        call_ensures(sync_replicated_entity_handles, (known, new_handles), ()),
        0 <= i < new_handles@.len(),
        forall|j: int| 0 <= j < i ==> (#[trigger] new_handles@[j]).0 != new_handles@[i].0,
    ensures
        old(known)@.contains_key(handle) ==> final(known)@.contains_key(handle) && final(known)@[handle] == old(known)@[handle],
        !old(known)@.contains_key(new_handles@[i].0) ==> final(known)@.contains_key(
            new_handles@[i].0,
        ) && final(known)@[new_handles@[i].0] == new_handles@[i].1,
        final(known)@.contains_key(handle) && !old(known)@.contains_key(handle) ==> exists|j: int|
            0 <= j < new_handles@.len() && (#[trigger] new_handles@[j]).0 == handle,
{
    if old(known)@.contains_key(handle) {
        law_known_handles_stay(old(known)@, new_handles@, handle);
    }
    if !old(known)@.contains_key(new_handles@[i].0) {
        lemma_first_handle(old(known)@, new_handles@, i);
    }
    lemma_no_other_handle(old(known)@, new_handles@, handle);
}

proof fn lemma_first_handle(known: Map<u64, u64>, new: Seq<(u64, u64)>, i: int)
    requires
        0 <= i < new.len(),
        !known.contains_key(new[i].0),
        forall|j: int| 0 <= j < i ==> (#[trigger] new[j]).0 != new[i].0,
    ensures
        with_handles(known, new).contains_key(new[i].0),
        with_handles(known, new)[new[i].0] == new[i].1,
    decreases new.len(),
{
    let front = new.drop_last();
    if i < new.len() - 1 {
        assert forall|j: int| 0 <= j < i implies (#[trigger] front[j]).0 != front[i].0 by {
            assert(front[j] == new[j]);
        }
        lemma_first_handle(known, front, i);
    } else {
        lemma_no_other_handle(known, front, new[i].0);
        if with_handles(known, front).contains_key(new[i].0) {
            let j = choose|j: int| 0 <= j < front.len() && (#[trigger] front[j]).0 == new[i].0;
            assert(new[j].0 != new[i].0);
            assert(false);
        }
    }
}

proof fn lemma_no_other_handle(known: Map<u64, u64>, new: Seq<(u64, u64)>, handle: u64)
    ensures
        with_handles(known, new).contains_key(handle) && !known.contains_key(handle) ==> exists|
            j: int,
        |
            0 <= j < new.len() && (#[trigger] new[j]).0 == handle,
    decreases new.len(),
{
    if new.len() > 0 {
        let front = new.drop_last();
        lemma_no_other_handle(known, front, handle);
        if with_handles(known, new).contains_key(handle) && !known.contains_key(handle) {
            if with_handles(known, front).contains_key(handle) {
                let j = choose|j: int| 0 <= j < front.len() && (#[trigger] front[j]).0 == handle;
                assert(new[j].0 == handle);
            } else {
                assert(new[new.len() - 1].0 == handle);
            }
        }
    }
}

} // verus!
