//! The lobby: the screen before the client joins a server.

use vstd::prelude::*;

use crate::client_config::{ClientConfig, ServerEntry};
use crate::folds::lemma_take_next;
use crate::text::{
    all_white, concat, has_head, lemma_blank, lemma_trimmed_ends, same, starts_with, trim, trimmed,
    white_space,
};
use crate::typing::{rub_out, rubbed, taken, type_text, Key, KeyEvent};

verus! {

/// The address field, whether it takes keys, and the line below it.
#[derive(Clone, Debug)]
pub struct LobbyState {
    pub ip_input: String,
    pub input_focused: bool,
    pub status_msg: String,
}

impl Default for LobbyState {
    fn default() -> (r: Self)
        ensures
            r.ip_input@.len() == 0,
            !r.input_focused,
            r.status_msg@.len() == 0,
    {
        LobbyState { ip_input: String::new(), input_focused: false, status_msg: String::new() }
    }
}

/// What the pointer does to a button.
#[derive(Clone, Copy, PartialEq, Eq, Structural, Debug)]
pub enum Interaction {
    Pressed,
    Hovered,
    Away,
}

#[derive(Clone, Copy, PartialEq, Eq, Structural, Debug)]
pub enum ButtonKind {
    Normal,
    Connect,
    Danger,
}

/// The fill of a button.
#[derive(Clone, Copy, PartialEq, Eq, Structural, Debug)]
pub enum ButtonShade {
    Normal,
    Connect,
    Danger,
    Pressed,
    ConnectHovered,
    DangerHovered,
    Hovered,
}

/// The tone of a line of text.
#[derive(Clone, Copy, PartialEq, Eq, Structural, Debug)]
pub enum TextTone {
    Dim,
    Error,
}

/// The fill of a button that the pointer leaves alone.
pub open spec fn resting_shade(kind: ButtonKind) -> ButtonShade {
    match kind {
        ButtonKind::Normal => ButtonShade::Normal,
        ButtonKind::Connect => ButtonShade::Connect,
        ButtonKind::Danger => ButtonShade::Danger,
    }
}

pub fn kind_color(kind: ButtonKind) -> (r: ButtonShade)
    ensures
        r == resting_shade(kind),
{
    match kind {
        ButtonKind::Normal => ButtonShade::Normal,
        ButtonKind::Connect => ButtonShade::Connect,
        ButtonKind::Danger => ButtonShade::Danger,
    }
}

/// The fill of a button under the pointer. The address field keeps its own.
pub fn update_button_colors(interaction: Interaction, kind: ButtonKind) -> (r: ButtonShade)
    ensures
        r == match interaction {
            Interaction::Pressed => ButtonShade::Pressed,
            Interaction::Hovered => match kind {
                ButtonKind::Connect => ButtonShade::ConnectHovered,
                ButtonKind::Danger => ButtonShade::DangerHovered,
                ButtonKind::Normal => ButtonShade::Hovered,
            },
            Interaction::Away => resting_shade(kind),
        },
{
    match (interaction, kind) {
        (Interaction::Pressed, _) => ButtonShade::Pressed,
        (Interaction::Hovered, ButtonKind::Connect) => ButtonShade::ConnectHovered,
        (Interaction::Hovered, ButtonKind::Danger) => ButtonShade::DangerHovered,
        (Interaction::Hovered, ButtonKind::Normal) => ButtonShade::Hovered,
        (Interaction::Away, _) => kind_color(kind),
    }
}

/// A favourite server on the screen; its two buttons act on the address.
#[derive(Clone, Debug)]
pub struct FavoriteRow {
    pub label: String,
    pub address: String,
}

/// What the lobby shows. Without favourites a note stands in their place.
#[derive(Clone, Debug)]
pub struct LobbyScreen {
    pub player_line: String,
    pub address_text: String,
    pub favorites: Vec<FavoriteRow>,
    pub empty_note: bool,
}

/// The name of a server on the screen: its label, or else its address.
pub open spec fn entry_label(entry: ServerEntry) -> Seq<char> {
    match entry.label {
        Some(label) => label@,
        None => entry.address@,
    }
}

/// The address field after a key.
pub struct FieldView {
    pub input: Seq<char>,
    pub focused: bool,
    pub connect: bool,
}

pub open spec fn after_key(s: FieldView, event: KeyEvent) -> FieldView {
    if !event.pressed {
        s
    } else {
        match event.key {
            Key::Character(text) => FieldView { input: s.input + taken(text@, false), ..s },
            Key::Backspace => FieldView { input: rubbed(s.input), ..s },
            Key::Enter => FieldView { focused: false, connect: true, ..s },
            Key::Escape => FieldView { focused: false, ..s },
            _ => s,
        }
    }
}

pub open spec fn after_keys(s: FieldView, events: Seq<KeyEvent>) -> FieldView
    decreases events.len(),
{
    if events.len() == 0 {
        s
    } else {
        after_key(after_keys(s, events.drop_last()), events.last())
    }
}

/// Some interaction of the list is a press.
pub open spec fn pressed_in(all: Seq<Interaction>) -> bool {
    exists|i: int| 0 <= i < all.len() && #[trigger] all[i] == Interaction::Pressed
}

fn any_pressed(all: &Vec<Interaction>) -> (r: bool)
    ensures
        r == pressed_in(all@),
{
    let mut i: usize = 0;
    while i < all.len()
        invariant
            i <= all.len(),
            forall|j: int| 0 <= j < i ==> #[trigger] all@[j] != Interaction::Pressed,
        decreases all.len() - i,
    {
        if all[i] == Interaction::Pressed {
            assert(all@[i as int] == Interaction::Pressed);
            return true;
        }
        i = i + 1;
    }
    false
}

impl LobbyState {
    /// Opens the lobby: an empty address field takes the default server, and
    /// the status line is cleared.
    pub fn setup_lobby_ui(&mut self, cfg: &ClientConfig) -> (r: LobbyScreen)
        ensures
            final(self).input_focused == old(self).input_focused,
            final(self).status_msg@.len() == 0,
            final(self).ip_input@ == (if old(self).ip_input@.len() == 0 {
                cfg.network.default_server@
            } else {
                old(self).ip_input@
            }),
            r.player_line@ == "Player: "@ + cfg.player.name@,
            r.address_text@ == cfg.network.default_server@,
            r.empty_note == (cfg.server_history.favorites@.len() == 0),
            r.favorites@.len() == cfg.server_history.favorites@.len(),
            forall|i: int|
                0 <= i < r.favorites@.len() ==> (#[trigger] r.favorites@[i]).address@
                    == cfg.server_history.favorites@[i].address@ && r.favorites@[i].label@
                    == entry_label(cfg.server_history.favorites@[i]),
    {
        if self.ip_input.as_str().is_empty() {
            self.ip_input = cfg.network.default_server.clone();
        }
        self.status_msg = String::new();
        let entries = &cfg.server_history.favorites;
        let mut favorites: Vec<FavoriteRow> = Vec::new();
        let mut i: usize = 0;
        while i < entries.len()
            invariant
                i <= entries.len(),
                favorites@.len() == i,
                forall|j: int|
                    0 <= j < i ==> (#[trigger] favorites@[j]).address@ == entries@[j].address@
                        && favorites@[j].label@ == entry_label(entries@[j]),
            decreases entries.len() - i,
        {
            let label = match &entries[i].label {
                Some(label) => label.clone(),
                None => entries[i].address.clone(),
            };
            favorites.push(FavoriteRow { label, address: entries[i].address.clone() });
            i = i + 1;
        }
        LobbyScreen {
            player_line: concat("Player: ", cfg.player.name.as_str()),
            address_text: cfg.network.default_server.clone(),
            favorites,
            empty_note: entries.len() == 0,
        }
    }

    /// A press on the address field gives it the keys; one on any other button
    /// takes them away.
    pub fn handle_ip_field_click(&mut self, field: &Vec<Interaction>, other: &Vec<Interaction>)
        ensures
            final(self).ip_input == old(self).ip_input,
            final(self).status_msg == old(self).status_msg,
            final(self).input_focused == (!pressed_in(other@) && (pressed_in(field@)
                || old(self).input_focused)),
    {
        if any_pressed(field) {
            self.input_focused = true;
        }
        if any_pressed(other) {
            self.input_focused = false;
        }
    }

    pub open spec fn field(self) -> FieldView {
        FieldView { input: self.ip_input@, focused: self.input_focused, connect: false }
    }

    /// Takes the key events of a frame; says whether to connect. Without the
    /// focus they are ignored.
    pub fn handle_keyboard_input(&mut self, events: &Vec<KeyEvent>) -> (connect: bool)
        ensures
            final(self).status_msg == old(self).status_msg,
            (FieldView { connect, ..final(self).field() }) == (if old(self).input_focused {
                after_keys(old(self).field(), events@)
            } else {
                old(self).field()
            }),
    {
        if !self.input_focused {
            return false;
        }
        let ghost start = self.field();
        let mut connect = false;
        let mut i: usize = 0;
        assert(events@.take(0) =~= Seq::<KeyEvent>::empty());
        while i < events.len()
            invariant
                i <= events.len(),
                self.status_msg == old(self).status_msg,
                (FieldView { connect, ..self.field() }) == after_keys(start, events@.take(i as int)),
            decreases events.len() - i,
        {
            proof {
                lemma_take_next(events@, i as int);
            }
            if events[i].pressed {
                match &events[i].key {
                    Key::Character(text) => {
                        type_text(&mut self.ip_input, text.as_str(), false);
                    },
                    Key::Backspace => {
                        rub_out(&mut self.ip_input);
                    },
                    Key::Enter => {
                        self.input_focused = false;
                        connect = true;
                    },
                    Key::Escape => {
                        self.input_focused = false;
                    },
                    _ => {},
                }
            }
            i = i + 1;
        }
        assert(events@.take(events.len() as int) =~= events@);
        connect
    }

    /// A press on the connect button: the field loses the keys. The result is
    /// the address to try.
    pub fn handle_connect_btn(&mut self) -> (r: String)
        ensures
            final(self).ip_input == old(self).ip_input,
            final(self).status_msg == old(self).status_msg,
            !final(self).input_focused,
            r@ == old(self).ip_input@,
    {
        self.input_focused = false;
        self.ip_input.clone()
    }

    /// A press on the connect button of a favourite puts its address into the
    /// field and has it tried.
    pub fn handle_fav_connect_btn(&mut self, address: &str) -> (r: String)
        ensures
            final(self).ip_input@ == address@,
            final(self).status_msg == old(self).status_msg,
            !final(self).input_focused,
            r@ == address@,
    {
        self.ip_input = address.to_string();
        self.input_focused = false;
        address.to_string()
    }

    /// A press on the scan button.
    pub fn handle_scan_lan_btn(&mut self)
        ensures
            final(self).ip_input == old(self).ip_input,
            final(self).input_focused == old(self).input_focused,
            final(self).status_msg@ == "LAN scan not yet implemented."@,
    {
        self.status_msg = "LAN scan not yet implemented.".to_string();
    }

    /// The text of the address field, with a cursor while it takes keys.
    pub fn update_ip_display(&self) -> (r: String)
        ensures
            r@ == (if self.input_focused {
                self.ip_input@ + "_"@
            } else {
                self.ip_input@
            }),
    {
        if self.input_focused {
            concat(self.ip_input.as_str(), "_")
        } else {
            self.ip_input.clone()
        }
    }

    /// The status line and its tone.
    pub fn update_status_display(&self) -> (r: (String, TextTone))
        ensures
            r.0@ == self.status_msg@,
            r.1 == (if has_head(self.status_msg@, "Invalid"@) {
                TextTone::Error
            } else {
                TextTone::Dim
            }),
    {
        let tone = if starts_with(self.status_msg.as_str(), "Invalid") {
            TextTone::Error
        } else {
            TextTone::Dim
        };
        (self.status_msg.clone(), tone)
    }

    /// What comes of an attempt: `parsed` holds what reading the address gave,
    /// its white space trimmed. On success the client joins the game.
    pub fn try_connect(&mut self, parsed: Result<(), String>) -> (connect: bool)
        ensures
            connect == parsed is Ok,
            final(self).ip_input == old(self).ip_input,
            final(self).input_focused == old(self).input_focused,
            final(self).status_msg@ == match parsed {
                Ok(_) => Seq::empty(),
                Err(e) => "Invalid address: "@ + e@,
            },
    {
        match parsed {
            Ok(_) => {
                self.status_msg = String::new();
                true
            },
            Err(e) => {
                self.status_msg = concat("Invalid address: ", e.as_str());
                false
            },
        }
    }
}

/// The text of an address that is read as one.
pub fn address_to_parse(address: &str) -> (r: String)
    ensures
        r@ == trimmed(address@),
{
    trim(address)
}

/// A refused address shows in the tone of an error, whatever the refusal says.
pub proof fn law_refusal_shows_as_error(e: Seq<char>)
    ensures
        has_head("Invalid address: "@ + e, "Invalid"@),
{
    reveal_strlit("Invalid address: ");
    reveal_strlit("Invalid");
    assert(("Invalid address: "@ + e).take(7) =~= "Invalid"@);
}

/// The addresses of a list of servers.
pub open spec fn addresses(entries: Seq<ServerEntry>) -> Seq<Seq<char>> {
    entries.map_values(|e: ServerEntry| e.address@)
}

/// The entries whose address is another one, in order.
pub open spec fn without_address(entries: Seq<ServerEntry>, address: Seq<char>) -> Seq<ServerEntry>
    decreases entries.len(),
{
    if entries.len() == 0 {
        entries
    } else if entries.last().address@ == address {
        without_address(entries.drop_last(), address)
    } else {
        without_address(entries.drop_last(), address).push(entries.last())
    }
}

/// Adds the typed address to the favourites, unless it is empty or there
/// already; says whether the settings changed.
pub fn handle_add_fav_btn(favorites: &mut Vec<ServerEntry>, typed: &str) -> (changed: bool)
    ensures
        changed == (trimmed(typed@).len() > 0 && !addresses(old(favorites)@).contains(
            trimmed(typed@),
        )),
        !changed ==> final(favorites)@ == old(favorites)@,
        changed ==> {
            &&& final(favorites)@.len() == old(favorites)@.len() + 1
            &&& final(favorites)@.drop_last() == old(favorites)@
            &&& final(favorites)@.last().address@ == trimmed(typed@)
            &&& final(favorites)@.last().label is None
            &&& final(favorites)@.last().last_connected is None
        },
{
    let address = trim(typed);
    if address.as_str().is_empty() {
        return false;
    }
    let mut i: usize = 0;
    while i < favorites.len()
        invariant
            i <= favorites.len(),
            favorites@ == old(favorites)@,
            address@ == trimmed(typed@),
            forall|j: int| 0 <= j < i ==> (#[trigger] favorites@[j]).address@ != address@,
        decreases favorites.len() - i,
    {
        if same(favorites[i].address.as_str(), address.as_str()) {
            assert(addresses(favorites@)[i as int] == address@);
            return false;
        }
        i = i + 1;
    }
    assert forall|j: int| 0 <= j < addresses(favorites@).len() implies addresses(favorites@)[j]
        != address@ by {
        assert(addresses(favorites@)[j] == favorites@[j].address@);
    }
    favorites.push(ServerEntry { address, label: None, last_connected: None });
    assert(favorites@.drop_last() =~= old(favorites)@);
    true
}

/// Takes every favourite of an address off the list.
pub fn handle_remove_fav_btn(favorites: &mut Vec<ServerEntry>, address: &str)
    ensures
        final(favorites)@ == without_address(old(favorites)@, address@),
{
    let mut i: usize = favorites.len();
    assert(favorites@.take(i as int) =~= favorites@);
    assert(without_address(favorites@, address@) + favorites@.skip(i as int) =~= without_address(
        favorites@,
        address@,
    ));
    while i > 0
        invariant
            i <= favorites.len(),
            without_address(old(favorites)@, address@) == without_address(
                favorites@.take(i as int),
                address@,
            ) + favorites@.skip(i as int),
        decreases i,
    {
        let ghost front = favorites@.take(i - 1);
        let ghost entry = favorites@[i - 1];
        let ghost back = favorites@.skip(i as int);
        proof {
            assert(favorites@.take(i as int).drop_last() =~= front);
            assert(favorites@.take(i as int).last() == entry);
        }
        i = i - 1;
        if same(favorites[i].address.as_str(), address) {
            let _ = favorites.remove(i);
            assert(favorites@.skip(i as int) =~= back);
        } else {
            assert(without_address(front, address@).push(entry) + back =~= without_address(
                front,
                address@,
            ) + favorites@.skip(i as int));
        }
        assert(favorites@.take(i as int) =~= front);
    }
    assert(favorites@.take(0) =~= Seq::<ServerEntry>::empty());
    assert(Seq::<ServerEntry>::empty() + favorites@.skip(0) =~= favorites@);
}

/// Adding a server keeps the addresses of the favourites distinct.
pub proof fn law_favorites_stay_distinct(before: Seq<ServerEntry>, after: Seq<ServerEntry>)
    requires
        addresses(before).no_duplicates(),
        after.len() == before.len() + 1,
        after.drop_last() == before,
        !addresses(before).contains(after.last().address@),
    ensures
        addresses(after).no_duplicates(),
{
    let a = addresses(after);
    let b = addresses(before);
    assert forall|i: int, j: int| 0 <= i < a.len() && 0 <= j < a.len() && i != j implies a[i]
        != a[j] by {
        assert forall|k: int| 0 <= k < b.len() implies a[k] == #[trigger] b[k] by {
            assert(after.drop_last()[k] == after[k]);
        }
        if i == a.len() - 1 {
            assert(b.contains(b[j]));
            assert(a[j] == b[j]);
        } else if j == a.len() - 1 {
            assert(b.contains(b[i]));
            assert(a[i] == b[i]);
        } else {
            assert(a[i] == b[i] && a[j] == b[j]);
        }
    }
}

/// After a removal no favourite has the address, and every other one is left.
pub proof fn law_removed_is_gone(entries: Seq<ServerEntry>, address: Seq<char>, entry: ServerEntry)
    ensures
        without_address(entries, address).contains(entry) <==> entries.contains(entry)
            && entry.address@ != address,
    decreases entries.len(),
{
    if entries.len() > 0 {
        let front = entries.drop_last();
        let last = entries.last();
        law_removed_is_gone(front, address, entry);
        assert(entries =~= front.push(last));
        lemma_push_holds(front, last, entry);
        lemma_push_holds(without_address(front, address), last, entry);
    }
}

proof fn lemma_push_holds(s: Seq<ServerEntry>, last: ServerEntry, entry: ServerEntry)
    ensures
        s.push(last).contains(entry) <==> s.contains(entry) || entry == last,
{
    let p = s.push(last);
    assert(p[s.len() as int] == last);
    if s.contains(entry) {
        let i = choose|i: int| 0 <= i < s.len() && s[i] == entry;
        assert(p[i] == entry);
    }
    if p.contains(entry) {
        let i = choose|i: int| 0 <= i < p.len() && p[i] == entry;
        if i < s.len() {
            assert(s[i] == entry);
        }
    }
}

/// One key in the address field: a character is typed without spaces, backspace
/// rubs out, Enter connects and leaves the field, Escape leaves it, and a key
/// that comes up, or any other one, does nothing. Without the focus no key does.
pub proof fn law_field_key(
    state: &mut LobbyState,
    events: &Vec<KeyEvent>,
    connect: bool,
    typed: &mut String,
    text: &str,
    rubbed_out: &mut String,
)
    requires
        call_ensures(LobbyState::handle_keyboard_input, (state, events), connect),
        events@.len() == 1,
        call_ensures(type_text, (typed, text, false), ()),
        call_ensures(rub_out, (rubbed_out,), ()),
        old(typed)@ == old(state).ip_input@,
        old(rubbed_out)@ == old(state).ip_input@,
        events@[0].key matches Key::Character(c) ==> text@ == c@,
    ensures
        ({
            let e = events@[0];
            let acts = old(state).input_focused && e.pressed;
            &&& !acts ==> final(state).ip_input@ == old(state).ip_input@ && final(state).input_focused == old(state).input_focused && !connect
            &&& acts && e.key is Character ==> final(state).ip_input@ == final(typed)@
            &&& acts && e.key is Backspace ==> final(state).ip_input@ == final(rubbed_out)@
            &&& acts && !(e.key is Character) && !(e.key is Backspace) ==> final(state).ip_input@
                == old(state).ip_input@
            &&& acts ==> connect == (e.key is Enter)
            &&& acts ==> final(state).input_focused == !(e.key is Enter || e.key is Escape)
        }),
        final(state).status_msg == old(state).status_msg,
{
    reveal_with_fuel(after_keys, 2);
    assert(events@.drop_last() =~= Seq::<KeyEvent>::empty());
    assert(events@.last() == events@[0]);
}

proof fn lemma_keys_in_turn(s: FieldView, a: Seq<KeyEvent>, b: Seq<KeyEvent>)
    ensures
        after_keys(s, a + b) == after_keys(after_keys(s, a), b),
    decreases b.len(),
{
    if b.len() == 0 {
        assert(a + b =~= a);
    } else {
        lemma_keys_in_turn(s, a, b.drop_last());
        assert((a + b).drop_last() =~= a + b.drop_last());
        assert((a + b).last() == b.last());
    }
}

proof fn lemma_connect_sticks(s: FieldView, events: Seq<KeyEvent>)
    ensures
        after_keys(FieldView { connect: true, ..s }, events) == (FieldView {
            connect: true,
            ..after_keys(FieldView { connect: false, ..s }, events)
        }),
    decreases events.len(),
{
    if events.len() > 0 {
        lemma_connect_sticks(s, events.drop_last());
    }
}

/// Keys act one after the other: those of two frames in one frame do what they do
/// in two, as long as the field keeps the focus.
pub proof fn law_field_keys_in_turn(
    first: &mut LobbyState,
    second: &mut LobbyState,
    both: &mut LobbyState,
    a: &Vec<KeyEvent>,
    b: &Vec<KeyEvent>,
    all: &Vec<KeyEvent>,
    x: bool,
    y: bool,
    z: bool,
)
    requires
        call_ensures(LobbyState::handle_keyboard_input, (first, a), x),
        call_ensures(LobbyState::handle_keyboard_input, (second, b), y),
        call_ensures(LobbyState::handle_keyboard_input, (both, all), z),
        all@ == a@ + b@,
        *old(second) == *final(first),
        *old(both) == *old(first),
        old(first).input_focused,
        final(first).input_focused,
    ensures
        final(both).ip_input@ == final(second).ip_input@,
        final(both).input_focused == final(second).input_focused,
        z == (x || y),
{
    let s = old(first).field();
    let mid = after_keys(s, a@);
    lemma_keys_in_turn(s, a@, b@);
    lemma_connect_sticks(mid, b@);
    assert(old(second).field() == (FieldView { connect: false, ..mid }));
}

/// The lobby opens with the default server in an empty field and keeps a typed
/// address; it lists every favourite by its label, or by its address.
pub proof fn law_lobby_opens(state: &mut LobbyState, cfg: &ClientConfig, r: LobbyScreen, i: int)
    requires
        call_ensures(LobbyState::setup_lobby_ui, (state, cfg), r),
    ensures
        old(state).ip_input@.len() == 0 ==> final(state).ip_input@ == cfg.network.default_server@,
        old(state).ip_input@.len() > 0 ==> final(state).ip_input@ == old(state).ip_input@,
        final(state).status_msg@.len() == 0,
        final(state).input_focused == old(state).input_focused,
        r.player_line@ == "Player: "@ + cfg.player.name@,
        r.address_text@ == cfg.network.default_server@,
        r.favorites@.len() == cfg.server_history.favorites@.len(),
        r.empty_note <==> r.favorites@.len() == 0,
        0 <= i < r.favorites@.len() ==> {
            let entry = cfg.server_history.favorites@[i];
            &&& r.favorites@[i].address@ == entry.address@
            &&& entry.label matches Some(l) ==> r.favorites@[i].label@ == l@
            &&& entry.label is None ==> r.favorites@[i].label@ == entry.address@
        },
{
    if 0 <= i < r.favorites@.len() {
        let row = r.favorites@[i];
        assert(row.address@ == cfg.server_history.favorites@[i].address@);
    }
}

/// A press on the field gives it the keys and one on another button takes them;
/// without a press nothing changes.
pub proof fn law_field_click(
    state: &mut LobbyState,
    field: &Vec<Interaction>,
    other: &Vec<Interaction>,
    i: int,
)
    requires
        call_ensures(LobbyState::handle_ip_field_click, (state, field, other), ()),
    ensures
        0 <= i < other@.len() && other@[i] is Pressed ==> !final(state).input_focused,
        (forall|j: int| 0 <= j < other@.len() ==> !((#[trigger] other@[j]) is Pressed)) && 0 <= i
            < field@.len() && field@[i] is Pressed ==> final(state).input_focused,
        (forall|j: int| 0 <= j < other@.len() ==> !((#[trigger] other@[j]) is Pressed)) && (forall|
            j: int,
        |
            0 <= j < field@.len() ==> !((#[trigger] field@[j]) is Pressed)) ==> final(state).input_focused == old(state).input_focused,
        final(state).ip_input == old(state).ip_input,
        final(state).status_msg == old(state).status_msg,
{
    if 0 <= i < other@.len() && other@[i] is Pressed {
        assert(other@[i] == Interaction::Pressed);
    }
    if 0 <= i < field@.len() && field@[i] is Pressed {
        assert(field@[i] == Interaction::Pressed);
    }
}

/// Both connect buttons take the field's keys and try an address: that of the
/// field, or the favourite's, which then stands in the field.
pub proof fn law_connect_buttons(
    state: &mut LobbyState,
    fav: &mut LobbyState,
    address: &str,
    r: String,
    q: String,
)
    requires
        call_ensures(LobbyState::handle_connect_btn, (state,), r),
        call_ensures(LobbyState::handle_fav_connect_btn, (fav, address), q),
    ensures
        r@ == old(state).ip_input@,
        final(state).ip_input@ == old(state).ip_input@,
        !final(state).input_focused,
        q@ == address@,
        final(fav).ip_input@ == address@,
        !final(fav).input_focused,
        final(state).status_msg == old(state).status_msg,
        final(fav).status_msg == old(fav).status_msg,
{
}

/// A refused address is told below the field, in the tone of an error, and
/// nothing connects; an accepted one clears the line and connects.
pub proof fn law_attempt(
    state: &mut LobbyState,
    after: &LobbyState,
    parsed: Result<(), String>,
    connect: bool,
    line: (String, TextTone),
)
    requires
        call_ensures(LobbyState::try_connect, (state, parsed), connect),
        call_ensures(LobbyState::update_status_display, (after,), line),
        *after == *final(state),
    ensures
        connect <==> parsed is Ok,
        parsed is Ok ==> line.0@.len() == 0 && line.1 is Dim,
        parsed matches Err(e) ==> line.0@ == "Invalid address: "@ + e@ && line.1 is Error,
        final(state).ip_input == old(state).ip_input,
        final(state).input_focused == old(state).input_focused,
{
    if parsed is Err {
        law_refusal_shows_as_error(parsed->Err_0@);
    } else {
        reveal_strlit("Invalid");
    }
}

/// The field shows its text, with a cursor behind it while it has the keys; the
/// scan button tells that there is no scan yet.
pub proof fn law_lobby_texts(state: &LobbyState, shown: String, scan: &mut LobbyState, typed: &str, parsed: String)
    requires
        call_ensures(LobbyState::update_ip_display, (state,), shown),
        call_ensures(LobbyState::handle_scan_lan_btn, (scan,), ()),
        call_ensures(address_to_parse, (typed,), parsed),
    ensures
        state.input_focused ==> shown@ == state.ip_input@ + "_"@,
        !state.input_focused ==> shown@ == state.ip_input@,
        final(scan).status_msg@ == "LAN scan not yet implemented."@,
        final(scan).ip_input == old(scan).ip_input,
        final(scan).input_focused == old(scan).input_focused,
        parsed@.len() > 0 ==> !white_space(parsed@[0]) && !white_space(parsed@.last()),
{
    lemma_trimmed_ends(typed@);
}

/// A favourite is added once: the second time nothing changes. Taking its address
/// off removes it, and every other favourite stays.
pub proof fn law_favourite_added_and_removed(
    first: &mut Vec<ServerEntry>,
    again: &mut Vec<ServerEntry>,
    gone: &mut Vec<ServerEntry>,
    typed: &str,
    address: &str,
    added: bool,
    twice: bool,
    entry: ServerEntry,
)
    requires
        call_ensures(handle_add_fav_btn, (first, typed), added),
        call_ensures(handle_add_fav_btn, (again, typed), twice),
        call_ensures(handle_remove_fav_btn, (gone, address), ()),
        old(again)@ == final(first)@,
        old(gone)@ == final(again)@,
        address@ == trimmed(typed@),
        old(first)@.contains(entry),
    ensures
        !twice,
        all_white(typed@) ==> !added,
        !all_white(typed@) && !added ==> exists|i: int|
            0 <= i < old(first)@.len() && (#[trigger] old(first)@[i]).address@ == address@,
        added ==> final(first)@.len() == old(first)@.len() + 1 && final(first)@.last().address@
            == address@ && final(first)@.last().label is None && final(first)@.last().last_connected is None,
        final(first)@.contains(entry),
        final(gone)@.contains(entry) <==> entry.address@ != address@,
        forall|i: int| 0 <= i < final(gone)@.len() ==> (#[trigger] final(gone)@[i]).address@
            != address@,
{
    lemma_blank(typed@);
    let before = old(first)@;
    let after = final(first)@;
    let k = choose|k: int| 0 <= k < before.len() && before[k] == entry;
    if added {
        assert(after.drop_last()[k] == entry);
        assert(after[k] == entry);
        assert(addresses(after)[after.len() - 1] == address@);
        assert(addresses(after).contains(address@));
    } else if !all_white(typed@) {
        assert(addresses(before).contains(address@));
        let j = choose|j: int| 0 <= j < addresses(before).len() && addresses(before)[j] == address@;
        assert(before[j].address@ == address@);
    }
    law_removed_is_gone(old(gone)@, address@, entry);
    assert forall|i: int| 0 <= i < final(gone)@.len() implies (#[trigger] final(gone)@[i]).address@
        != address@ by {
        let e = final(gone)@[i];
        assert(final(gone)@.contains(e));
        law_removed_is_gone(old(gone)@, address@, e);
    }
}

/// A button's fill: pressed buttons look alike, a hovered one lights up in its
/// kind, and one at rest has the fill of its kind.
pub proof fn law_button_fill(kind: ButtonKind, r: ButtonShade, rest: ButtonShade, pointer: Interaction)
    requires
        call_ensures(update_button_colors, (pointer, kind), r),
        call_ensures(kind_color, (kind,), rest),
    ensures
        kind is Normal ==> rest is Normal,
        kind is Connect ==> rest is Connect,
        kind is Danger ==> rest is Danger,
        pointer is Away ==> r == rest,
        pointer is Pressed ==> r is Pressed,
        pointer is Hovered && kind is Normal ==> r is Hovered,
        pointer is Hovered && kind is Connect ==> r is ConnectHovered,
        pointer is Hovered && kind is Danger ==> r is DangerHovered,
{
}

/// At first nothing is typed in the lobby.
pub proof fn law_lobby_start(r: LobbyState)
    requires
        call_ensures(LobbyState::default, (), r),
    ensures
        r.ip_input@.len() == 0 && !r.input_focused && r.status_msg@.len() == 0,
{
}

} // verus!
