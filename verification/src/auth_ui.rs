//! The login panel of the client.

use vstd::prelude::*;
use vstd::utf8::encode_utf8;

use crate::folds::lemma_take_next;
use crate::text::{
    all_white, concat, lemma_blank, lemma_trimmed_ends, trim, trimmed, white_space,
};
use crate::typing::{rub_out, rubbed, taken, type_text, Key, KeyEvent};

verus! {

#[derive(Clone, Copy, PartialEq, Eq, Structural, Debug)]
pub enum FocusedField {
    Username,
    Password,
}

#[derive(Clone, Copy, PartialEq, Eq, Structural, Debug)]
pub enum AuthBtn {
    Login,
    Register,
}

/// The two fields of the panel and the line below them.
#[derive(Clone, Debug)]
pub struct AuthUiState {
    pub username: String,
    pub password: String,
    pub focused: FocusedField,
    pub status_msg: String,
    pub status_ok: bool,
}

/// A request for the server: 0 logs in, 1 registers.
#[derive(Clone, Debug)]
pub struct PendingAuthCredentials {
    pub action: u8,
    pub username: String,
    pub password: String,
}

/// The panel as its contracts see it.
pub struct PanelView {
    pub username: Seq<char>,
    pub password: Seq<char>,
    pub focused: FocusedField,
    pub status: Seq<char>,
    pub ok: bool,
}

/// A request as the contracts see it.
pub struct RequestView {
    pub action: u8,
    pub username: Seq<char>,
    pub password: Seq<char>,
}

impl PendingAuthCredentials {
    pub open spec fn request(self) -> RequestView {
        RequestView { action: self.action, username: self.username@, password: self.password@ }
    }
}

pub open spec fn requests(v: Seq<PendingAuthCredentials>) -> Seq<RequestView> {
    v.map_values(|c: PendingAuthCredentials| c.request())
}

/// The panel as it opens.
pub open spec fn fresh_panel() -> PanelView {
    PanelView {
        username: Seq::empty(),
        password: Seq::empty(),
        focused: FocusedField::Username,
        status: Seq::empty(),
        ok: false,
    }
}

/// The request that a submission sends; one with an empty field sends none.
pub open spec fn submitted(p: PanelView, action: u8) -> Option<RequestView> {
    if trimmed(p.username).len() == 0 || p.password.len() == 0 {
        None
    } else {
        Some(RequestView { action, username: trimmed(p.username), password: p.password })
    }
}

/// The panel after a submission.
pub open spec fn after_submit(p: PanelView, action: u8) -> PanelView {
    if trimmed(p.username).len() == 0 {
        PanelView { status: "Username cannot be empty."@, ok: false, ..p }
    } else if p.password.len() == 0 {
        PanelView { status: "Password cannot be empty."@, ok: false, ..p }
    } else {
        PanelView {
            status: "Sending "@ + (if action == 0 {
                "login"@
            } else {
                "register"@
            }) + " request…"@,
            ok: true,
            ..p
        }
    }
}

/// The panel after a key event.
pub open spec fn after_key(p: PanelView, event: KeyEvent) -> PanelView {
    if !event.pressed {
        p
    } else {
        match event.key {
            Key::Character(text) => match p.focused {
                FocusedField::Username => PanelView {
                    username: p.username + taken(text@, true),
                    ..p
                },
                FocusedField::Password => PanelView {
                    password: p.password + taken(text@, true),
                    ..p
                },
            },
            Key::Backspace => match p.focused {
                FocusedField::Username => PanelView { username: rubbed(p.username), ..p },
                FocusedField::Password => PanelView { password: rubbed(p.password), ..p },
            },
            Key::Tab => PanelView {
                focused: match p.focused {
                    FocusedField::Username => FocusedField::Password,
                    FocusedField::Password => FocusedField::Username,
                },
                ..p
            },
            Key::Enter => after_submit(p, 0),
            _ => p,
        }
    }
}

/// The requests that a key event adds: Enter logs in.
pub open spec fn sent_by_key(p: PanelView, event: KeyEvent) -> Seq<RequestView> {
    if event.pressed && event.key is Enter {
        match submitted(p, 0) {
            Some(r) => seq![r],
            None => Seq::empty(),
        }
    } else {
        Seq::empty()
    }
}

pub open spec fn after_keys(p: PanelView, events: Seq<KeyEvent>) -> PanelView
    decreases events.len(),
{
    if events.len() == 0 {
        p
    } else {
        after_key(after_keys(p, events.drop_last()), events.last())
    }
}

/// The requests that key events send, in order.
pub open spec fn sent_by_keys(p: PanelView, events: Seq<KeyEvent>) -> Seq<RequestView>
    decreases events.len(),
{
    if events.len() == 0 {
        Seq::empty()
    } else {
        let front = events.drop_last();
        sent_by_keys(p, front) + sent_by_key(after_keys(p, front), events.last())
    }
}

/// What to do with the panel this frame.
#[derive(Clone, Copy, PartialEq, Eq, Structural, Debug)]
pub enum PanelChange {
    Keep,
    Open,
    Close,
}

/// `n` asterisks.
pub open spec fn stars(n: nat) -> Seq<char> {
    Seq::new(n, |i: int| '*')
}

impl Default for AuthUiState {
    fn default() -> (r: Self)
        ensures
            r.panel() == fresh_panel(),
    {
        let r = AuthUiState {
            username: String::new(),
            password: String::new(),
            focused: FocusedField::Username,
            status_msg: String::new(),
            status_ok: false,
        };
        assert(r.username@ =~= Seq::empty());
        r
    }
}

impl AuthUiState {
    pub open spec fn panel(self) -> PanelView {
        PanelView {
            username: self.username@,
            password: self.password@,
            focused: self.focused,
            status: self.status_msg@,
            ok: self.status_ok,
        }
    }

    /// The panel is open exactly while the server waits for a login; it opens
    /// with empty fields.
    pub fn manage_auth_ui(&mut self, awaiting_auth: bool, has_ui: bool) -> (r: PanelChange)
        ensures
            r == (if awaiting_auth && !has_ui {
                PanelChange::Open
            } else if !awaiting_auth && has_ui {
                PanelChange::Close
            } else {
                PanelChange::Keep
            }),
            final(self).panel() == (if r == PanelChange::Open {
                fresh_panel()
            } else {
                old(self).panel()
            }),
    {
        if awaiting_auth && !has_ui {
            *self = AuthUiState::default();
            PanelChange::Open
        } else if !awaiting_auth && has_ui {
            PanelChange::Close
        } else {
            PanelChange::Keep
        }
    }

    /// Sends what stands in the fields, or says which of them is empty.
    pub fn submit(&mut self, action: u8) -> (r: Option<PendingAuthCredentials>)
        ensures
            final(self).panel() == after_submit(old(self).panel(), action),
            match (r, submitted(old(self).panel(), action)) {
                (Some(c), Some(v)) => c.request() == v,
                (None, None) => true,
                _ => false,
            },
    {
        let username = trim(self.username.as_str());
        if username.as_str().is_empty() {
            self.status_msg = "Username cannot be empty.".to_string();
            self.status_ok = false;
            return None;
        }
        if self.password.as_str().is_empty() {
            self.status_msg = "Password cannot be empty.".to_string();
            self.status_ok = false;
            return None;
        }
        let verb = if action == 0 {
            "login"
        } else {
            "register"
        };
        let start = concat("Sending ", verb);
        self.status_msg = concat(start.as_str(), " request…");
        self.status_ok = true;
        Some(PendingAuthCredentials { action, username, password: self.password.clone() })
    }

    /// Takes the key events of a frame; outside a login they are ignored. The
    /// result holds the requests to send.
    pub fn handle_keyboard_input(&mut self, awaiting_auth: bool, events: &Vec<KeyEvent>) -> (r: Vec<
        PendingAuthCredentials,
    >)
        ensures
            awaiting_auth ==> final(self).panel() == after_keys(old(self).panel(), events@)
                && requests(r@) == sent_by_keys(old(self).panel(), events@),
            !awaiting_auth ==> final(self).panel() == old(self).panel() && r@.len() == 0,
    {
        let mut sent: Vec<PendingAuthCredentials> = Vec::new();
        if !awaiting_auth {
            return sent;
        }
        let ghost start = self.panel();
        let mut i: usize = 0;
        assert(events@.take(0) =~= Seq::<KeyEvent>::empty());
        assert(requests(sent@) =~= Seq::<RequestView>::empty());
        while i < events.len()
            invariant
                i <= events.len(),
                self.panel() == after_keys(start, events@.take(i as int)),
                requests(sent@) == sent_by_keys(start, events@.take(i as int)),
            decreases events.len() - i,
        {
            let ghost before = self.panel();
            let ghost earlier = sent@;
            proof {
                lemma_take_next(events@, i as int);
            }
            if events[i].pressed {
                match &events[i].key {
                    Key::Character(text) => {
                        match self.focused {
                            FocusedField::Username => {
                                type_text(&mut self.username, text.as_str(), true);
                            },
                            FocusedField::Password => {
                                type_text(&mut self.password, text.as_str(), true);
                            },
                        }
                    },
                    Key::Backspace => {
                        match self.focused {
                            FocusedField::Username => {
                                rub_out(&mut self.username);
                            },
                            FocusedField::Password => {
                                rub_out(&mut self.password);
                            },
                        }
                    },
                    Key::Tab => {
                        self.focused = match self.focused {
                            FocusedField::Username => FocusedField::Password,
                            FocusedField::Password => FocusedField::Username,
                        };
                    },
                    Key::Enter => {
                        let request = self.submit(0);
                        match request {
                            Some(c) => {
                                sent.push(c);
                                assert(requests(sent@) =~= requests(earlier) + seq![c.request()]);
                            },
                            None => {},
                        }
                    },
                    _ => {},
                }
            }
            assert(self.panel() == after_key(before, events@[i as int]));
            assert(requests(sent@) =~= requests(earlier) + sent_by_key(before, events@[i as int]));
            i = i + 1;
        }
        assert(events@.take(events.len() as int) =~= events@);
        sent
    }

    /// A press on a button of the panel.
    pub fn handle_button_clicks(&mut self, awaiting_auth: bool, button: AuthBtn) -> (r: Option<
        PendingAuthCredentials,
    >)
        ensures
            !awaiting_auth ==> final(self).panel() == old(self).panel() && r is None,
            awaiting_auth ==> {
                let action: u8 = match button {
                    AuthBtn::Login => 0,
                    AuthBtn::Register => 1,
                };
                &&& final(self).panel() == after_submit(old(self).panel(), action)
                &&& match (r, submitted(old(self).panel(), action)) {
                    (Some(c), Some(v)) => c.request() == v,
                    (None, None) => true,
                    _ => false,
                }
            },
    {
        if !awaiting_auth {
            return None;
        }
        let action: u8 = match button {
            AuthBtn::Login => 0,
            AuthBtn::Register => 1,
        };
        self.submit(action)
    }

    /// The text of the name field: a cursor while it has the keys, a note while
    /// it is empty without them.
    pub fn username_text(&self) -> (r: String)
        ensures
            r@ == (if self.focused == FocusedField::Username {
                self.username@ + "_"@
            } else if self.username@.len() == 0 {
                "(empty)"@
            } else {
                self.username@
            }),
    {
        if self.focused == FocusedField::Username {
            concat(self.username.as_str(), "_")
        } else if self.username.as_str().is_empty() {
            "(empty)".to_string()
        } else {
            self.username.clone()
        }
    }

    /// The text of the password field: an asterisk for each byte of the
    /// password, and a cursor while the field has the keys.
    pub fn password_text(&self) -> (r: String)
        ensures
            r@ == stars(encode_utf8(self.password@).len()) + (if self.focused == FocusedField::Password {
                "_"@
            } else {
                Seq::empty()
            }),
    {
        let n: usize = self.password.as_str().as_bytes().len();
        let mut r = String::new();
        let mut i: usize = 0;
        while i < n
            invariant
                i <= n,
                r@ == stars(i as nat),
            decreases n - i,
        {
            r.push('*');
            i = i + 1;
            assert(r@ =~= stars(i as nat));
        }
        if self.focused == FocusedField::Password {
            r.append("_");
        }
        r
    }

    /// An answer of the server that refuses the login shows below the fields.
    pub fn poll_auth_result(&mut self, awaiting_auth: bool, error: Option<String>)
        ensures
            final(self).panel() == (if awaiting_auth && error is Some {
                PanelView { status: error->0@, ok: false, ..old(self).panel() }
            } else {
                old(self).panel()
            }),
    {
        if !awaiting_auth {
            return;
        }
        match error {
            Some(message) => {
                self.status_msg = message;
                self.status_ok = false;
            },
            None => {},
        }
    }
}

/// No request leaves the panel without a name and a password.
pub proof fn law_requests_are_complete(p: PanelView, events: Seq<KeyEvent>)
    ensures
        forall|i: int|
            0 <= i < sent_by_keys(p, events).len() ==> (#[trigger] sent_by_keys(
                p,
                events,
            )[i]).username.len() > 0 && sent_by_keys(p, events)[i].password.len() > 0,
    decreases events.len(),
{
    if events.len() > 0 {
        let front = events.drop_last();
        law_requests_are_complete(p, front);
        let all = sent_by_keys(p, events);
        let before = sent_by_keys(p, front);
        assert forall|i: int| 0 <= i < all.len() implies (#[trigger] all[i]).username.len() > 0
            && all[i].password.len() > 0 by {
            if i < before.len() {
                assert(all[i] == before[i]);
            }
        }
    }
}

/// Pressing Tab twice brings the keys back to the same field.
pub proof fn law_tab_twice(p: PanelView, tab: KeyEvent)
    requires
        tab.key is Tab,
    ensures
        after_key(after_key(p, tab), tab) == p,
{
}

/// The panel opens while the server waits for a login and closes when it no
/// longer does; it opens with empty fields and the name field in focus.
pub proof fn law_panel_opens(state: &mut AuthUiState, awaiting: bool, has_ui: bool, r: PanelChange)
    requires
        call_ensures(AuthUiState::manage_auth_ui, (state, awaiting, has_ui), r),
    ensures
        r is Open <==> awaiting && !has_ui,
        r is Close <==> !awaiting && has_ui,
        r is Open ==> final(state).username@.len() == 0 && final(state).password@.len() == 0
            && final(state).focused == FocusedField::Username && final(state).status_msg@.len() == 0
            && !final(state).status_ok,
        !(r is Open) ==> final(state).panel() == old(state).panel(),
{
}

/// A submission sends the name without white space around it and the password as
/// it is; with a blank name or no password it sends nothing and says which is
/// missing, the name first. The fields stay.
pub proof fn law_submission(state: &mut AuthUiState, action: u8, r: Option<PendingAuthCredentials>)
    requires
        call_ensures(AuthUiState::submit, (state, action), r),
    ensures
        r is Some <==> !all_white(old(state).username@) && old(state).password@.len() > 0,
        r matches Some(c) ==> c.action == action && c.password@ == old(state).password@
            && c.username@.len() > 0 && !white_space(c.username@[0]) && !white_space(
            c.username@.last(),
        ),
        r is Some ==> final(state).status_ok,
        r is None ==> !final(state).status_ok,
        all_white(old(state).username@) ==> final(state).status_msg@
            == "Username cannot be empty."@,
        !all_white(old(state).username@) && old(state).password@.len() == 0 ==> final(state).status_msg@ == "Password cannot be empty."@,
        r is Some && action == 0 ==> final(state).status_msg@ == "Sending "@ + "login"@
            + " request…"@,
        r is Some && action != 0 ==> final(state).status_msg@ == "Sending "@ + "register"@
            + " request…"@,
        final(state).username@ == old(state).username@,
        final(state).password@ == old(state).password@,
        final(state).focused == old(state).focused,
{
    lemma_blank(old(state).username@);
    lemma_trimmed_ends(old(state).username@);
}

/// The buttons submit: the one for a login as action 0, the one for a new account
/// as action 1; outside a login they do nothing.
pub proof fn law_auth_buttons(
    state: &mut AuthUiState,
    other: &mut AuthUiState,
    awaiting: bool,
    button: AuthBtn,
    action: u8,
    r: Option<PendingAuthCredentials>,
    q: Option<PendingAuthCredentials>,
)
    requires
        call_ensures(AuthUiState::handle_button_clicks, (state, awaiting, button), r),
        call_ensures(AuthUiState::submit, (other, action), q),
        *old(other) == *old(state),
        button is Login ==> action == 0,
        button is Register ==> action == 1,
    ensures
        !awaiting ==> r is None && final(state).panel() == old(state).panel(),
        awaiting ==> final(state).panel() == final(other).panel() && r is Some == q is Some,
        awaiting && r is Some ==> r->0.action == q->0.action && r->0.username@ == q->0.username@
            && r->0.password@ == q->0.password@,
{
}

/// One key in the panel: a character is typed into the field in focus, backspace
/// rubs it out, Tab moves to the other field, Enter submits a login, and any other
/// key, or one that comes up, does nothing.
pub proof fn law_panel_key(
    state: &mut AuthUiState,
    submitter: &mut AuthUiState,
    events: &Vec<KeyEvent>,
    r: Vec<PendingAuthCredentials>,
    sent: Option<PendingAuthCredentials>,
    typed: &mut String,
    text: &str,
    rubbed_out: &mut String,
)
    requires
        call_ensures(AuthUiState::handle_keyboard_input, (state, true, events), r),
        call_ensures(AuthUiState::submit, (submitter, 0), sent),
        *old(submitter) == *old(state),
        events@.len() == 1,
        call_ensures(type_text, (typed, text, true), ()),
        call_ensures(rub_out, (rubbed_out,), ()),
        old(typed)@ == (if old(state).focused is Username {
            old(state).username@
        } else {
            old(state).password@
        }),
        old(rubbed_out)@ == old(typed)@,
        events@[0].key matches Key::Character(c) ==> text@ == c@,
    ensures
        ({
            let e = events@[0];
            let on_name = old(state).focused is Username;
            let field = if on_name {
                final(state).username@
            } else {
                final(state).password@
            };
            let other = if on_name {
                final(state).password@ == old(state).password@
            } else {
                final(state).username@ == old(state).username@
            };
            &&& !e.pressed ==> final(state).panel() == old(state).panel() && r@.len() == 0
            &&& e.pressed && e.key is Character ==> field == final(typed)@ && other
            &&& e.pressed && e.key is Backspace ==> field == final(rubbed_out)@ && other
            &&& e.pressed && e.key is Tab ==> final(state).focused != old(state).focused
                && final(state).username@ == old(state).username@ && final(state).password@ == old(state).password@
            &&& !(e.pressed && e.key is Tab) ==> final(state).focused == old(state).focused
            &&& e.pressed && e.key is Enter ==> final(state).panel() == final(submitter).panel() && (
            r@.len() == 1 <==> sent is Some)
            &&& !(e.pressed && e.key is Enter) ==> r@.len() == 0 && final(state).status_msg@ == old(state).status_msg@
        }),
{
    reveal_with_fuel(after_keys, 2);
    reveal_with_fuel(sent_by_keys, 2);
    assert(events@.drop_last() =~= Seq::<KeyEvent>::empty());
    assert(events@.last() == events@[0]);
    assert(requests(r@).len() == r@.len());
}

proof fn lemma_panel_in_turn(p: PanelView, a: Seq<KeyEvent>, b: Seq<KeyEvent>)
    ensures
        after_keys(p, a + b) == after_keys(after_keys(p, a), b),
        sent_by_keys(p, a + b) == sent_by_keys(p, a) + sent_by_keys(after_keys(p, a), b),
    decreases b.len(),
{
    if b.len() == 0 {
        assert(a + b =~= a);
        assert(sent_by_keys(p, a) + Seq::<RequestView>::empty() =~= sent_by_keys(p, a));
    } else {
        let front = b.drop_last();
        lemma_panel_in_turn(p, a, front);
        assert((a + b).drop_last() =~= a + front);
        assert((a + b).last() == b.last());
        let last = sent_by_key(after_keys(after_keys(p, a), front), b.last());
        assert(sent_by_keys(p, a) + sent_by_keys(after_keys(p, a), front) + last =~= sent_by_keys(
            p,
            a,
        ) + (sent_by_keys(after_keys(p, a), front) + last));
    }
}

/// Keys act one after the other: those of two frames in one frame do what they do
/// in two, and send the same requests in the same order. Outside a login they do
/// nothing.
pub proof fn law_panel_keys_in_turn(
    first: &mut AuthUiState,
    second: &mut AuthUiState,
    both: &mut AuthUiState,
    idle: &mut AuthUiState,
    a: &Vec<KeyEvent>,
    b: &Vec<KeyEvent>,
    all: &Vec<KeyEvent>,
    x: Vec<PendingAuthCredentials>,
    y: Vec<PendingAuthCredentials>,
    z: Vec<PendingAuthCredentials>,
    w: Vec<PendingAuthCredentials>,
)
    requires
        call_ensures(AuthUiState::handle_keyboard_input, (first, true, a), x),
        call_ensures(AuthUiState::handle_keyboard_input, (second, true, b), y),
        call_ensures(AuthUiState::handle_keyboard_input, (both, true, all), z),
        call_ensures(AuthUiState::handle_keyboard_input, (idle, false, all), w),
        all@ == a@ + b@,
        *old(second) == *final(first),
        *old(both) == *old(first),
    ensures
        final(both).panel() == final(second).panel(),
        requests(z@) == requests(x@) + requests(y@),
        final(idle).panel() == old(idle).panel(),
        w@.len() == 0,
{
    lemma_panel_in_turn(old(first).panel(), a@, b@);
}

/// The name field shows the name, with a cursor in focus and a note where it is
/// empty out of focus; the password field never shows the password, only as many
/// stars as it has bytes.
pub proof fn law_panel_texts(state: &AuthUiState, name: String, password: String, i: int)
    requires
        call_ensures(AuthUiState::username_text, (state,), name),
        call_ensures(AuthUiState::password_text, (state,), password),
    ensures
        state.focused is Username ==> name@ == state.username@ + "_"@ && password@.len()
            == encode_utf8(state.password@).len(),
        state.focused is Password && state.username@.len() == 0 ==> name@ == "(empty)"@,
        state.focused is Password && state.username@.len() > 0 ==> name@ == state.username@,
        state.focused is Password ==> password@.len() == encode_utf8(state.password@).len() + 1
            && password@.last() == '_',
        0 <= i < encode_utf8(state.password@).len() ==> password@[i] == '*',
{
    reveal_strlit("_");
}

/// A refusal of the server shows below the fields while a login is awaited, and
/// nothing else changes.
pub proof fn law_refusal_shown(state: &mut AuthUiState, awaiting: bool, error: Option<String>)
    requires
        call_ensures(AuthUiState::poll_auth_result, (state, awaiting, error), ()),
    ensures
        awaiting && error is Some ==> final(state).status_msg@ == error->0@ && !final(state).status_ok,
        !awaiting || error is None ==> final(state).status_msg@ == old(state).status_msg@ && final(state).status_ok == old(state).status_ok,
        final(state).username@ == old(state).username@,
        final(state).password@ == old(state).password@,
        final(state).focused == old(state).focused,
{
}

/// At first nothing is filled in, and the name is next.
pub proof fn law_auth_start(r: AuthUiState)
    requires
        call_ensures(AuthUiState::default, (), r),
    ensures
        r.username@.len() == 0 && r.password@.len() == 0 && r.status_msg@.len() == 0,
        r.focused is Username && !r.status_ok,
{
    let p = r.panel();
    assert(p.username == r.username@ && p.password == r.password@);
}

} // verus!
