//! Key presses that enter text.

use vstd::prelude::*;

use crate::folds::lemma_take_next;
use crate::text::{control, to_chars};

verus! {

/// What a key press means to a text field.
#[derive(Clone, Debug)]
pub enum Key {
    Character(String),
    Backspace,
    Enter,
    Escape,
    Tab,
    Other,
}

/// A key that went down or came up.
#[derive(Clone, Debug)]
pub struct KeyEvent {
    pub pressed: bool,
    pub key: Key,
}

/// A character that a text field takes.
pub open spec fn takes(c: char, spaces: bool) -> bool {
    !control(c) && (spaces || c != ' ')
}

/// The characters of `s` that a text field takes, in order.
pub open spec fn taken(s: Seq<char>, spaces: bool) -> Seq<char>
    decreases s.len(),
{
    if s.len() == 0 {
        s
    } else if takes(s.last(), spaces) {
        taken(s.drop_last(), spaces).push(s.last())
    } else {
        taken(s.drop_last(), spaces)
    }
}

/// `field` without its last character; an empty field stays empty.
pub open spec fn rubbed(field: Seq<char>) -> Seq<char> {
    if field.len() == 0 {
        field
    } else {
        field.drop_last()
    }
}

/// Appends what a text field takes of `s`.
pub fn type_text(field: &mut String, s: &str, spaces: bool)
    ensures
        final(field)@ == old(field)@ + taken(s@, spaces),
{
    let x = to_chars(s);
    let mut i: usize = 0;
    assert(s@.take(0) =~= Seq::<char>::empty());
    assert(field@ =~= old(field)@ + taken(s@.take(0), spaces));
    while i < x.len()
        invariant
            x@ == s@,
            i <= x.len(),
            field@ == old(field)@ + taken(s@.take(i as int), spaces),
        decreases x.len() - i,
    {
        let c: char = x[i];
        proof {
            lemma_take_next(s@, i as int);
            assert(s@.take(i + 1).last() == c);
        }
        if !c.is_control() && (spaces || c != ' ') {
            field.push(c);
        }
        assert(field@ =~= old(field)@ + taken(s@.take(i + 1), spaces));
        i = i + 1;
    }
    assert(s@.take(x.len() as int) =~= s@);
}

/// Takes the last character off the field.
pub fn rub_out(field: &mut String)
    ensures
        final(field)@ == rubbed(old(field)@),
{
    let _ = field.pop();
}

/// A text field only ever takes characters that it accepts.
pub proof fn law_taken_accepted(s: Seq<char>, spaces: bool)
    ensures
        forall|i: int| 0 <= i < taken(s, spaces).len() ==> takes(#[trigger] taken(s, spaces)[i], spaces),
        taken(s, spaces).len() <= s.len(),
    decreases s.len(),
{
    if s.len() > 0 {
        law_taken_accepted(s.drop_last(), spaces);
    }
}

/// A field takes a text character by character: one more character is added to
/// it unless it is a control character, or a space where none are wanted.
pub proof fn law_type_text(
    field: &mut String,
    longer: &mut String,
    s: &str,
    more: &str,
    c: char,
    spaces: bool,
)
    requires
        call_ensures(type_text, (field, s, spaces), ()),
        call_ensures(type_text, (longer, more, spaces), ()),
        old(longer)@ == old(field)@,
        more@ == s@.push(c),
    ensures
        s@.len() == 0 ==> final(field)@ == old(field)@,
        c as u32 <= 0x1f || 0x7f <= c as u32 <= 0x9f || (c == ' ' && !spaces) ==> final(longer)@
            == final(field)@,
        c as u32 >= 0x20 && !(0x7f <= c as u32 <= 0x9f) && (c != ' ' || spaces) ==> final(longer)@
            == final(field)@.push(c),
{
    assert(more@.drop_last() =~= s@);
    assert(old(field)@ + taken(s@, spaces).push(c) =~= (old(field)@ + taken(s@, spaces)).push(c));
    assert(s@.len() == 0 ==> old(field)@ + taken(s@, spaces) =~= old(field)@);
}

/// Rubbing out takes off the character that was typed last, and nothing off an
/// empty field.
pub proof fn law_rub_out(field: &mut String, x: Seq<char>, c: char)
    requires
        call_ensures(rub_out, (field,), ()),
    ensures
        old(field)@ == x.push(c) ==> final(field)@ == x,
        old(field)@.len() == 0 ==> final(field)@.len() == 0,
{
    assert(x.push(c).drop_last() =~= x);
}

} // verus!
