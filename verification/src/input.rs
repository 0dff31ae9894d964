//! Keys and mouse buttons, and the names under which scripts know them.

use vstd::prelude::*;

use crate::folds::lemma_take_next;
use crate::names::{add_name, views, with_name};
use crate::text::{ascii_lower_all, ascii_lowercase, decimal, decimal_digits};

verus! {

/// A key of the keyboard by its place on it.
#[derive(Clone, Debug)]
pub enum KeyCode {
    KeyA,
    KeyB,
    KeyC,
    KeyD,
    KeyE,
    KeyF,
    KeyG,
    KeyH,
    KeyI,
    KeyJ,
    KeyK,
    KeyL,
    KeyM,
    KeyN,
    KeyO,
    KeyP,
    KeyQ,
    KeyR,
    KeyS,
    KeyT,
    KeyU,
    KeyV,
    KeyW,
    KeyX,
    KeyY,
    KeyZ,
    Digit0,
    Digit1,
    Digit2,
    Digit3,
    Digit4,
    Digit5,
    Digit6,
    Digit7,
    Digit8,
    Digit9,
    Numpad0,
    Numpad1,
    Numpad2,
    Numpad3,
    Numpad4,
    Numpad5,
    Numpad6,
    Numpad7,
    Numpad8,
    Numpad9,
    Space,
    Escape,
    Enter,
    NumpadEnter,
    Tab,
    Backspace,
    Delete,
    Insert,
    Home,
    End,
    PageUp,
    PageDown,
    ArrowUp,
    ArrowDown,
    ArrowLeft,
    ArrowRight,
    ShiftLeft,
    ShiftRight,
    ControlLeft,
    ControlRight,
    AltLeft,
    AltRight,
    SuperLeft,
    SuperRight,
    CapsLock,
    F1,
    F2,
    F3,
    F4,
    F5,
    F6,
    F7,
    F8,
    F9,
    F10,
    F11,
    F12,
    Backquote,
    /// Any further key, by the name of its place, in ASCII.
    Other(String),
}

/// A button of the mouse.
#[derive(Clone, Debug)]
pub enum MouseButton {
    Left,
    Right,
    Middle,
    Back,
    Forward,
    /// Any further button, by its number.
    Other(u16),
}

/// The name of a key as scripts see it.
pub open spec fn key_label(key: KeyCode) -> Seq<char> {
    match key {
        KeyCode::KeyA => "a"@,
        KeyCode::KeyB => "b"@,
        KeyCode::KeyC => "c"@,
        KeyCode::KeyD => "d"@,
        KeyCode::KeyE => "e"@,
        KeyCode::KeyF => "f"@,
        KeyCode::KeyG => "g"@,
        KeyCode::KeyH => "h"@,
        KeyCode::KeyI => "i"@,
        KeyCode::KeyJ => "j"@,
        KeyCode::KeyK => "k"@,
        KeyCode::KeyL => "l"@,
        KeyCode::KeyM => "m"@,
        KeyCode::KeyN => "n"@,
        KeyCode::KeyO => "o"@,
        KeyCode::KeyP => "p"@,
        KeyCode::KeyQ => "q"@,
        KeyCode::KeyR => "r"@,
        KeyCode::KeyS => "s"@,
        KeyCode::KeyT => "t"@,
        KeyCode::KeyU => "u"@,
        KeyCode::KeyV => "v"@,
        KeyCode::KeyW => "w"@,
        KeyCode::KeyX => "x"@,
        KeyCode::KeyY => "y"@,
        KeyCode::KeyZ => "z"@,
        KeyCode::Digit0 => "0"@,
        KeyCode::Digit1 => "1"@,
        KeyCode::Digit2 => "2"@,
        KeyCode::Digit3 => "3"@,
        KeyCode::Digit4 => "4"@,
        KeyCode::Digit5 => "5"@,
        KeyCode::Digit6 => "6"@,
        KeyCode::Digit7 => "7"@,
        KeyCode::Digit8 => "8"@,
        KeyCode::Digit9 => "9"@,
        KeyCode::Numpad0 => "num0"@,
        KeyCode::Numpad1 => "num1"@,
        KeyCode::Numpad2 => "num2"@,
        KeyCode::Numpad3 => "num3"@,
        KeyCode::Numpad4 => "num4"@,
        KeyCode::Numpad5 => "num5"@,
        KeyCode::Numpad6 => "num6"@,
        KeyCode::Numpad7 => "num7"@,
        KeyCode::Numpad8 => "num8"@,
        KeyCode::Numpad9 => "num9"@,
        KeyCode::Space => "space"@,
        KeyCode::Escape => "escape"@,
        KeyCode::Enter => "enter"@,
        KeyCode::NumpadEnter => "enter"@,
        KeyCode::Tab => "tab"@,
        KeyCode::Backspace => "backspace"@,
        KeyCode::Delete => "delete"@,
        KeyCode::Insert => "insert"@,
        KeyCode::Home => "home"@,
        KeyCode::End => "end"@,
        KeyCode::PageUp => "pageup"@,
        KeyCode::PageDown => "pagedown"@,
        KeyCode::ArrowUp => "up"@,
        KeyCode::ArrowDown => "down"@,
        KeyCode::ArrowLeft => "left"@,
        KeyCode::ArrowRight => "right"@,
        KeyCode::ShiftLeft => "lshift"@,
        KeyCode::ShiftRight => "rshift"@,
        KeyCode::ControlLeft => "lctrl"@,
        KeyCode::ControlRight => "rctrl"@,
        KeyCode::AltLeft => "lalt"@,
        KeyCode::AltRight => "ralt"@,
        KeyCode::SuperLeft => "super"@,
        KeyCode::SuperRight => "super"@,
        KeyCode::CapsLock => "capslock"@,
        KeyCode::F1 => "f1"@,
        KeyCode::F2 => "f2"@,
        KeyCode::F3 => "f3"@,
        KeyCode::F4 => "f4"@,
        KeyCode::F5 => "f5"@,
        KeyCode::F6 => "f6"@,
        KeyCode::F7 => "f7"@,
        KeyCode::F8 => "f8"@,
        KeyCode::F9 => "f9"@,
        KeyCode::F10 => "f10"@,
        KeyCode::F11 => "f11"@,
        KeyCode::F12 => "f12"@,
        KeyCode::Backquote => "backquote"@,
        KeyCode::Other(name) => ascii_lower_all(name@),
    }
}

/// The name of a mouse button as scripts see it.
pub open spec fn button_label(button: MouseButton) -> Seq<char> {
    match button {
        MouseButton::Left => "left"@,
        MouseButton::Right => "right"@,
        MouseButton::Middle => "middle"@,
        MouseButton::Back => "back"@,
        MouseButton::Forward => "forward"@,
        MouseButton::Other(value) => "mouse"@ + decimal_digits(value as nat),
    }
}

pub fn keycode_name(key: &KeyCode) -> (r: String)
    ensures
        r@ == key_label(*key),
{
    match key {
        KeyCode::KeyA => "a".to_string(),
        KeyCode::KeyB => "b".to_string(),
        KeyCode::KeyC => "c".to_string(),
        KeyCode::KeyD => "d".to_string(),
        KeyCode::KeyE => "e".to_string(),
        KeyCode::KeyF => "f".to_string(),
        KeyCode::KeyG => "g".to_string(),
        KeyCode::KeyH => "h".to_string(),
        KeyCode::KeyI => "i".to_string(),
        KeyCode::KeyJ => "j".to_string(),
        KeyCode::KeyK => "k".to_string(),
        KeyCode::KeyL => "l".to_string(),
        KeyCode::KeyM => "m".to_string(),
        KeyCode::KeyN => "n".to_string(),
        KeyCode::KeyO => "o".to_string(),
        KeyCode::KeyP => "p".to_string(),
        KeyCode::KeyQ => "q".to_string(),
        KeyCode::KeyR => "r".to_string(),
        KeyCode::KeyS => "s".to_string(),
        KeyCode::KeyT => "t".to_string(),
        KeyCode::KeyU => "u".to_string(),
        KeyCode::KeyV => "v".to_string(),
        KeyCode::KeyW => "w".to_string(),
        KeyCode::KeyX => "x".to_string(),
        KeyCode::KeyY => "y".to_string(),
        KeyCode::KeyZ => "z".to_string(),
        KeyCode::Digit0 => "0".to_string(),
        KeyCode::Digit1 => "1".to_string(),
        KeyCode::Digit2 => "2".to_string(),
        KeyCode::Digit3 => "3".to_string(),
        KeyCode::Digit4 => "4".to_string(),
        KeyCode::Digit5 => "5".to_string(),
        KeyCode::Digit6 => "6".to_string(),
        KeyCode::Digit7 => "7".to_string(),
        KeyCode::Digit8 => "8".to_string(),
        KeyCode::Digit9 => "9".to_string(),
        KeyCode::Numpad0 => "num0".to_string(),
        KeyCode::Numpad1 => "num1".to_string(),
        KeyCode::Numpad2 => "num2".to_string(),
        KeyCode::Numpad3 => "num3".to_string(),
        KeyCode::Numpad4 => "num4".to_string(),
        KeyCode::Numpad5 => "num5".to_string(),
        KeyCode::Numpad6 => "num6".to_string(),
        KeyCode::Numpad7 => "num7".to_string(),
        KeyCode::Numpad8 => "num8".to_string(),
        KeyCode::Numpad9 => "num9".to_string(),
        KeyCode::Space => "space".to_string(),
        KeyCode::Escape => "escape".to_string(),
        KeyCode::Enter => "enter".to_string(),
        KeyCode::NumpadEnter => "enter".to_string(),
        KeyCode::Tab => "tab".to_string(),
        KeyCode::Backspace => "backspace".to_string(),
        KeyCode::Delete => "delete".to_string(),
        KeyCode::Insert => "insert".to_string(),
        KeyCode::Home => "home".to_string(),
        KeyCode::End => "end".to_string(),
        KeyCode::PageUp => "pageup".to_string(),
        KeyCode::PageDown => "pagedown".to_string(),
        KeyCode::ArrowUp => "up".to_string(),
        KeyCode::ArrowDown => "down".to_string(),
        KeyCode::ArrowLeft => "left".to_string(),
        KeyCode::ArrowRight => "right".to_string(),
        KeyCode::ShiftLeft => "lshift".to_string(),
        KeyCode::ShiftRight => "rshift".to_string(),
        KeyCode::ControlLeft => "lctrl".to_string(),
        KeyCode::ControlRight => "rctrl".to_string(),
        KeyCode::AltLeft => "lalt".to_string(),
        KeyCode::AltRight => "ralt".to_string(),
        KeyCode::SuperLeft => "super".to_string(),
        KeyCode::SuperRight => "super".to_string(),
        KeyCode::CapsLock => "capslock".to_string(),
        KeyCode::F1 => "f1".to_string(),
        KeyCode::F2 => "f2".to_string(),
        KeyCode::F3 => "f3".to_string(),
        KeyCode::F4 => "f4".to_string(),
        KeyCode::F5 => "f5".to_string(),
        KeyCode::F6 => "f6".to_string(),
        KeyCode::F7 => "f7".to_string(),
        KeyCode::F8 => "f8".to_string(),
        KeyCode::F9 => "f9".to_string(),
        KeyCode::F10 => "f10".to_string(),
        KeyCode::F11 => "f11".to_string(),
        KeyCode::F12 => "f12".to_string(),
        KeyCode::Backquote => "backquote".to_string(),
        KeyCode::Other(name) => ascii_lowercase(name.as_str()),
    }
}

pub fn mousebutton_name(button: &MouseButton) -> (r: String)
    ensures
        r@ == button_label(*button),
{
    match button {
        MouseButton::Left => "left".to_string(),
        MouseButton::Right => "right".to_string(),
        MouseButton::Middle => "middle".to_string(),
        MouseButton::Back => "back".to_string(),
        MouseButton::Forward => "forward".to_string(),
        MouseButton::Other(value) => {
            let mut r = "mouse".to_string();
            let n = decimal(*value as u64);
            r.append(n.as_str());
            r
        },
    }
}

/// The names of the keys, each once, in the order in which they first occur.
pub open spec fn key_labels(keys: Seq<KeyCode>) -> Seq<Seq<char>>
    decreases keys.len(),
{
    if keys.len() == 0 {
        Seq::empty()
    } else {
        with_name(key_labels(keys.drop_last()), key_label(keys.last()))
    }
}

/// The names of the buttons, each once, in the order in which they first occur.
pub open spec fn button_labels(buttons: Seq<MouseButton>) -> Seq<Seq<char>>
    decreases buttons.len(),
{
    if buttons.len() == 0 {
        Seq::empty()
    } else {
        with_name(button_labels(buttons.drop_last()), button_label(buttons.last()))
    }
}

/// The names of the keys of a frame, as the input snapshot lists them.
pub fn key_names(keys: &Vec<KeyCode>) -> (r: Vec<String>)
    ensures
        views(r@) == key_labels(keys@),
{
    let mut r: Vec<String> = Vec::new();
    let mut i: usize = 0;
    assert(keys@.take(0) =~= Seq::<KeyCode>::empty());
    assert(views(r@) =~= Seq::<Seq<char>>::empty());
    while i < keys.len()
        invariant
            i <= keys.len(),
            views(r@) == key_labels(keys@.take(i as int)),
        decreases keys.len() - i,
    {
        proof {
            lemma_take_next(keys@, i as int);
        }
        let name = keycode_name(&keys[i]);
        add_name(&mut r, name.as_str());
        i = i + 1;
    }
    assert(keys@.take(keys.len() as int) =~= keys@);
    r
}

/// The names of the buttons of a frame, as the input snapshot lists them.
pub fn button_names(buttons: &Vec<MouseButton>) -> (r: Vec<String>)
    ensures
        views(r@) == button_labels(buttons@),
{
    let mut r: Vec<String> = Vec::new();
    let mut i: usize = 0;
    assert(buttons@.take(0) =~= Seq::<MouseButton>::empty());
    assert(views(r@) =~= Seq::<Seq<char>>::empty());
    while i < buttons.len()
        invariant
            i <= buttons.len(),
            views(r@) == button_labels(buttons@.take(i as int)),
        decreases buttons.len() - i,
    {
        proof {
            lemma_take_next(buttons@, i as int);
        }
        let name = mousebutton_name(&buttons[i]);
        add_name(&mut r, name.as_str());
        i = i + 1;
    }
    assert(buttons@.take(buttons.len() as int) =~= buttons@);
    r
}

/// Every key has the name by which scripts know it; a key that is not listed goes
/// by the name of its place in lower case.
pub proof fn law_key_names(key: &KeyCode, r: String, place: &str, lower: String)
    requires
        call_ensures(keycode_name, (key,), r),
        call_ensures(ascii_lowercase, (place,), lower),
    ensures
        key is KeyA ==> r@ == "a"@,
        key is KeyB ==> r@ == "b"@,
        key is KeyC ==> r@ == "c"@,
        key is KeyD ==> r@ == "d"@,
        key is KeyE ==> r@ == "e"@,
        key is KeyF ==> r@ == "f"@,
        key is KeyG ==> r@ == "g"@,
        key is KeyH ==> r@ == "h"@,
        key is KeyI ==> r@ == "i"@,
        key is KeyJ ==> r@ == "j"@,
        key is KeyK ==> r@ == "k"@,
        key is KeyL ==> r@ == "l"@,
        key is KeyM ==> r@ == "m"@,
        key is KeyN ==> r@ == "n"@,
        key is KeyO ==> r@ == "o"@,
        key is KeyP ==> r@ == "p"@,
        key is KeyQ ==> r@ == "q"@,
        key is KeyR ==> r@ == "r"@,
        key is KeyS ==> r@ == "s"@,
        key is KeyT ==> r@ == "t"@,
        key is KeyU ==> r@ == "u"@,
        key is KeyV ==> r@ == "v"@,
        key is KeyW ==> r@ == "w"@,
        key is KeyX ==> r@ == "x"@,
        key is KeyY ==> r@ == "y"@,
        key is KeyZ ==> r@ == "z"@,
        key is Digit0 ==> r@ == "0"@,
        key is Digit1 ==> r@ == "1"@,
        key is Digit2 ==> r@ == "2"@,
        key is Digit3 ==> r@ == "3"@,
        key is Digit4 ==> r@ == "4"@,
        key is Digit5 ==> r@ == "5"@,
        key is Digit6 ==> r@ == "6"@,
        key is Digit7 ==> r@ == "7"@,
        key is Digit8 ==> r@ == "8"@,
        key is Digit9 ==> r@ == "9"@,
        key is Numpad0 ==> r@ == "num0"@,
        key is Numpad1 ==> r@ == "num1"@,
        key is Numpad2 ==> r@ == "num2"@,
        key is Numpad3 ==> r@ == "num3"@,
        key is Numpad4 ==> r@ == "num4"@,
        key is Numpad5 ==> r@ == "num5"@,
        key is Numpad6 ==> r@ == "num6"@,
        key is Numpad7 ==> r@ == "num7"@,
        key is Numpad8 ==> r@ == "num8"@,
        key is Numpad9 ==> r@ == "num9"@,
        key is Space ==> r@ == "space"@,
        key is Escape ==> r@ == "escape"@,
        key is Enter ==> r@ == "enter"@,
        key is NumpadEnter ==> r@ == "enter"@,
        key is Tab ==> r@ == "tab"@,
        key is Backspace ==> r@ == "backspace"@,
        key is Delete ==> r@ == "delete"@,
        key is Insert ==> r@ == "insert"@,
        key is Home ==> r@ == "home"@,
        key is End ==> r@ == "end"@,
        key is PageUp ==> r@ == "pageup"@,
        key is PageDown ==> r@ == "pagedown"@,
        key is ArrowUp ==> r@ == "up"@,
        key is ArrowDown ==> r@ == "down"@,
        key is ArrowLeft ==> r@ == "left"@,
        key is ArrowRight ==> r@ == "right"@,
        key is ShiftLeft ==> r@ == "lshift"@,
        key is ShiftRight ==> r@ == "rshift"@,
        key is ControlLeft ==> r@ == "lctrl"@,
        key is ControlRight ==> r@ == "rctrl"@,
        key is AltLeft ==> r@ == "lalt"@,
        key is AltRight ==> r@ == "ralt"@,
        key is SuperLeft ==> r@ == "super"@,
        key is SuperRight ==> r@ == "super"@,
        key is CapsLock ==> r@ == "capslock"@,
        key is F1 ==> r@ == "f1"@,
        key is F2 ==> r@ == "f2"@,
        key is F3 ==> r@ == "f3"@,
        key is F4 ==> r@ == "f4"@,
        key is F5 ==> r@ == "f5"@,
        key is F6 ==> r@ == "f6"@,
        key is F7 ==> r@ == "f7"@,
        key is F8 ==> r@ == "f8"@,
        key is F9 ==> r@ == "f9"@,
        key is F10 ==> r@ == "f10"@,
        key is F11 ==> r@ == "f11"@,
        key is F12 ==> r@ == "f12"@,
        key is Backquote ==> r@ == "backquote"@,
        key matches KeyCode::Other(name) ==> (name@ == place@ ==> r@ == lower@),
{
}

/// Every button has its name, and a further one its number.
pub proof fn law_button_names(button: &MouseButton, r: String)
    requires
        call_ensures(mousebutton_name, (button,), r),
    ensures
        button is Left ==> r@ == "left"@,
        button is Right ==> r@ == "right"@,
        button is Middle ==> r@ == "middle"@,
        button is Back ==> r@ == "back"@,
        button is Forward ==> r@ == "forward"@,
        button matches MouseButton::Other(n) ==> r@ == "mouse"@ + decimal_digits(n as nat),
{
}

/// The names of a frame are those of its keys, each once: one more key adds its
/// name where it is not there yet.
pub proof fn law_keys_named(
    keys: &Vec<KeyCode>,
    more: &Vec<KeyCode>,
    key: &KeyCode,
    r: Vec<String>,
    s: Vec<String>,
    name: String,
)
    requires
        call_ensures(key_names, (keys,), r),
        call_ensures(key_names, (more,), s),
        more@ == keys@.push(*key),
        call_ensures(keycode_name, (key,), name),
    ensures
        keys@.len() == 0 ==> r@.len() == 0,
        views(r@).contains(name@) ==> views(s@) == views(r@),
        !views(r@).contains(name@) ==> views(s@) == views(r@).push(name@),
{
    assert(more@.drop_last() =~= keys@);
    assert(views(r@).len() == r@.len());
}

/// The same of the buttons.
pub proof fn law_buttons_named(
    buttons: &Vec<MouseButton>,
    more: &Vec<MouseButton>,
    button: &MouseButton,
    r: Vec<String>,
    s: Vec<String>,
    name: String,
)
    requires
        call_ensures(button_names, (buttons,), r),
        call_ensures(button_names, (more,), s),
        more@ == buttons@.push(*button),
        call_ensures(mousebutton_name, (button,), name),
    ensures
        buttons@.len() == 0 ==> r@.len() == 0,
        views(r@).contains(name@) ==> views(s@) == views(r@),
        !views(r@).contains(name@) ==> views(s@) == views(r@).push(name@),
{
    assert(more@.drop_last() =~= buttons@);
    assert(views(r@).len() == r@.len());
}

} // verus!
