//! Character-level text operations over the views of strings.

use vstd::prelude::*;
use vstd::utf8::encode_utf8;

use crate::folds::lemma_take_next;
use crate::names::{lemma_views_take, views};

verus! {

/// Unicode's `White_Space` property.
pub open spec fn white_space(c: char) -> bool {
    ||| 0x09 <= c as u32 <= 0x0d
    ||| c as u32 == 0x20
    ||| c as u32 == 0x85
    ||| c as u32 == 0xa0
    ||| c as u32 == 0x1680
    ||| 0x2000 <= c as u32 <= 0x200a
    ||| c as u32 == 0x2028
    ||| c as u32 == 0x2029
    ||| c as u32 == 0x202f
    ||| c as u32 == 0x205f
    ||| c as u32 == 0x3000
}

/// Unicode's general category `Cc`: the C0 and C1 control codes and delete.
pub open spec fn control(c: char) -> bool {
    c as u32 <= 0x1f || 0x7f <= c as u32 <= 0x9f
}

/// `char::is_whitespace`: true exactly on the characters with Unicode's
/// `White_Space` property.
pub assume_specification[ char::is_whitespace ](c: char) -> (r: bool)
    ensures
        r == white_space(c),
;

/// `char::is_control`: true exactly on the characters of the general category
/// `Cc`.
pub assume_specification[ char::is_control ](c: char) -> (r: bool)
    ensures
        r == control(c),
;

/// `String::push`: appends the character to the end of the string.
pub assume_specification[ String::push ](s: &mut String, c: char)
    ensures
        final(s)@ == old(s)@.push(c),
;

/// `String::pop`: removes the last character and returns it; an empty string
/// stays empty and gives `None`.
pub assume_specification[ String::pop ](s: &mut String) -> (r: Option<char>)
    ensures
        old(s)@.len() == 0 ==> r is None && final(s)@ == old(s)@,
        old(s)@.len() > 0 ==> r == Some(old(s)@.last()) && final(s)@ == old(s)@.drop_last(),
;

/// Lower case for the letters `A` to `Z`; every other character stays.
pub open spec fn ascii_lower(c: char) -> char {
    if 'A' <= c && c <= 'Z' {
        ((c as u32 + 32) as u32) as char
    } else {
        c
    }
}

pub open spec fn ascii_lower_all(s: Seq<char>) -> Seq<char> {
    s.map_values(|c: char| ascii_lower(c))
}

/// `s` without its leading white space.
pub open spec fn trim_front(s: Seq<char>) -> Seq<char>
    decreases s.len(),
{
    if s.len() > 0 && white_space(s[0]) {
        trim_front(s.drop_first())
    } else {
        s
    }
}

/// `s` without its trailing white space.
pub open spec fn trim_back(s: Seq<char>) -> Seq<char>
    decreases s.len(),
{
    if s.len() > 0 && white_space(s.last()) {
        trim_back(s.drop_last())
    } else {
        s
    }
}

/// `s` without white space at either end.
pub open spec fn trimmed(s: Seq<char>) -> Seq<char> {
    trim_back(trim_front(s))
}

/// `s` ends with `tail`.
pub open spec fn has_tail(s: Seq<char>, tail: Seq<char>) -> bool {
    tail.len() <= s.len() && s.skip(s.len() - tail.len()) == tail
}

/// `s` starts with `head`.
pub open spec fn has_head(s: Seq<char>, head: Seq<char>) -> bool {
    head.len() <= s.len() && s.take(head.len() as int) == head
}

/// `s` without a trailing `tail` that it has.
pub open spec fn drop_tail(s: Seq<char>, tail: Seq<char>) -> Seq<char> {
    s.take(s.len() - tail.len())
}

/// `s` without every repetition of `tail` at its end.
pub open spec fn drop_tails(s: Seq<char>, tail: Seq<char>) -> Seq<char>
    decreases s.len(),
{
    if tail.len() > 0 && has_tail(s, tail) {
        drop_tails(drop_tail(s, tail), tail)
    } else {
        s
    }
}

/// `s` with every `from` replaced by `to`.
pub open spec fn replaced(s: Seq<char>, from: char, to: Seq<char>) -> Seq<char>
    decreases s.len(),
{
    if s.len() == 0 {
        s
    } else {
        replaced(s.drop_last(), from, to) + (if s.last() == from {
            to
        } else {
            seq![s.last()]
        })
    }
}

/// The parts, in order, with `sep` between neighbours.
pub open spec fn joined(parts: Seq<Seq<char>>, sep: Seq<char>) -> Seq<char>
    decreases parts.len(),
{
    if parts.len() == 0 {
        Seq::empty()
    } else if parts.len() == 1 {
        parts[0]
    } else {
        joined(parts.drop_last(), sep) + sep + parts.last()
    }
}

pub open spec fn digit_char(d: int) -> char {
    (('0' as u32 + d) as u32) as char
}

/// The decimal numeral of `n`.
pub open spec fn decimal_digits(n: nat) -> Seq<char>
    decreases n,
{
    if n < 10 {
        seq![digit_char(n as int)]
    } else {
        decimal_digits(n / 10).push(digit_char((n % 10) as int))
    }
}

/// The index at which `c` last stands in `s`, or -1.
pub open spec fn last_index(s: Seq<char>, c: char) -> int
    decreases s.len(),
{
    if s.len() == 0 {
        -1
    } else if s.last() == c {
        s.len() - 1
    } else {
        last_index(s.drop_last(), c)
    }
}

/// The characters of `s`.
pub fn to_chars(s: &str) -> (v: Vec<char>)
    ensures
        v@ == s@,
{
    let mut v: Vec<char> = Vec::new();
    for c in it: s.chars()
        invariant
            it.seq() == s@,
            v@ == s@.take(it.index() as int),
    {
        v.push(c);
        proof {
            assert(s@.take(it.index() as int + 1) == s@.take(it.index() as int).push(c));
        }
    }
    assert(s@.take(s@.len() as int) == s@);
    v
}

/// The string of the characters of `v` from `from` up to `to`.
pub fn slice_string(v: &Vec<char>, from: usize, to: usize) -> (s: String)
    requires
        from <= to <= v.len(),
    ensures
        s@ == v@.subrange(from as int, to as int),
{
    let mut s = String::new();
    let mut i: usize = from;
    while i < to
        invariant
            from <= i <= to <= v.len(),
            s@ == v@.subrange(from as int, i as int),
        decreases to - i,
    {
        s.push(v[i]);
        i = i + 1;
        assert(v@.subrange(from as int, i as int) == v@.subrange(from as int, i - 1).push(v@[i - 1]));
    }
    s
}

/// A string of its own with the text of `s`.
pub fn owned(s: &str) -> (r: String)
    ensures
        r@ == s@,
{
    s.to_string()
}

/// Whether two texts hold the same characters.
pub fn same(a: &str, b: &str) -> (r: bool)
    ensures
        r == (a@ == b@),
{
    let x = to_chars(a);
    let y = to_chars(b);
    same_chars(&x, &y)
}

pub fn same_chars(x: &Vec<char>, y: &Vec<char>) -> (r: bool)
    ensures
        r == (x@ == y@),
{
    if x.len() != y.len() {
        return false;
    }
    let mut i: usize = 0;
    while i < x.len()
        invariant
            x.len() == y.len(),
            i <= x.len(),
            forall|j: int| 0 <= j < i ==> x@[j] == y@[j],
        decreases x.len() - i,
    {
        if x[i] != y[i] {
            return false;
        }
        i = i + 1;
    }
    assert(x@ =~= y@);
    true
}

pub fn starts_with(s: &str, head: &str) -> (r: bool)
    ensures
        r == has_head(s@, head@),
{
    let x = to_chars(s);
    let h = to_chars(head);
    if h.len() > x.len() {
        return false;
    }
    let mut i: usize = 0;
    while i < h.len()
        invariant
            h@ == head@,
            x@ == s@,
            h.len() <= x.len(),
            i <= h.len(),
            forall|j: int| 0 <= j < i ==> x@[j] == h@[j],
        decreases h.len() - i,
    {
        if x[i] != h[i] {
            assert(s@.take(h@.len() as int)[i as int] != head@[i as int]);
            return false;
        }
        i = i + 1;
    }
    assert(s@.take(h@.len() as int) =~= head@);
    true
}

pub fn ends_with(s: &str, tail: &str) -> (r: bool)
    ensures
        r == has_tail(s@, tail@),
{
    let x = to_chars(s);
    let t = to_chars(tail);
    if t.len() > x.len() {
        return false;
    }
    let from: usize = x.len() - t.len();
    let mut i: usize = 0;
    while i < t.len()
        invariant
            t@ == tail@,
            x@ == s@,
            t.len() <= x.len(),
            from == x.len() - t.len(),
            i <= t.len(),
            forall|j: int| 0 <= j < i ==> x@[from + j] == t@[j],
        decreases t.len() - i,
    {
        if x[from + i] != t[i] {
            assert(s@.skip(from as int)[i as int] != tail@[i as int]);
            return false;
        }
        i = i + 1;
    }
    assert(s@.skip(from as int) =~= tail@);
    true
}

/// `part` stands in `s` at the index `i`.
pub open spec fn part_at(s: Seq<char>, part: Seq<char>, i: int) -> bool {
    0 <= i && i + part.len() <= s.len() && s.subrange(i, i + part.len()) == part
}

/// `part` stands somewhere in `s`.
pub open spec fn has_part(s: Seq<char>, part: Seq<char>) -> bool {
    exists|i: int| #[trigger] part_at(s, part, i)
}

/// Whether `part` stands somewhere in `s`.
pub fn contains(s: &str, part: &str) -> (r: bool)
    ensures
        r == has_part(s@, part@),
{
    let x = to_chars(s);
    let p = to_chars(part);
    if p.len() > x.len() {
        return false;
    }
    let mut i: usize = 0;
    while i <= x.len() - p.len()
        invariant
            x@ == s@,
            p@ == part@,
            p.len() <= x.len(),
            i <= x.len() - p.len() + 1,
            forall|k: int| 0 <= k < i ==> !#[trigger] part_at(s@, part@, k),
        decreases x.len() - i + 1,
    {
        let mut j: usize = 0;
        let mut equal = true;
        while equal && j < p.len()
            invariant
                x@ == s@,
                p@ == part@,
                i + p.len() <= x.len(),
                j <= p.len(),
                equal ==> forall|k: int| 0 <= k < j ==> x@[i + k] == p@[k],
                !equal ==> exists|k: int| 0 <= k < p.len() && x@[i + k] != p@[k],
            decreases p.len() - j + (if equal {
                1int
            } else {
                0
            }),
        {
            if x[i + j] != p[j] {
                assert(x@[i + j] != p@[j as int]);
                equal = false;
            } else {
                j = j + 1;
            }
        }
        if equal {
            assert(s@.subrange(i as int, i + part@.len()) =~= part@);
            assert(part_at(s@, part@, i as int));
            return true;
        }
        proof {
            let k = choose|k: int| 0 <= k < p.len() && x@[i + k] != p@[k];
            assert(s@.subrange(i as int, i + part@.len())[k] != part@[k]);
            assert(!part_at(s@, part@, i as int));
        }
        i = i + 1;
    }
    assert forall|k: int| !#[trigger] part_at(s@, part@, k) by {
        if part_at(s@, part@, k) {
            assert(k < i);
        }
    }
    false
}

/// What follows `head` in `s`, where `s` starts with it.
pub fn strip_head(s: &str, head: &str) -> (r: Option<String>)
    ensures
        r is Some <==> has_head(s@, head@),
        r is Some ==> r->0@ == s@.skip(head@.len() as int),
{
    if starts_with(s, head) {
        let x = to_chars(s);
        let h = to_chars(head);
        let rest = slice_string(&x, h.len(), x.len());
        assert(rest@ =~= s@.skip(head@.len() as int));
        Some(rest)
    } else {
        None
    }
}

/// What precedes `tail` in `s`, where `s` ends with it.
pub fn strip_tail(s: &str, tail: &str) -> (r: Option<String>)
    ensures
        r is Some <==> has_tail(s@, tail@),
        r is Some ==> r->0@ == drop_tail(s@, tail@),
{
    if ends_with(s, tail) {
        let x = to_chars(s);
        let t = to_chars(tail);
        let rest = slice_string(&x, 0, x.len() - t.len());
        assert(rest@ =~= drop_tail(s@, tail@));
        Some(rest)
    } else {
        None
    }
}

/// `s` without any repetition of `tail` at its end.
pub fn strip_tails(s: &str, tail: &str) -> (r: String)
    ensures
        r@ == drop_tails(s@, tail@),
{
    let mut r = owned(s);
    if tail.is_empty() {
        return r;
    }
    loop
        invariant
            tail@.len() > 0,
            drop_tails(r@, tail@) == drop_tails(s@, tail@),
        decreases r@.len(),
    {
        match strip_tail(r.as_str(), tail) {
            Some(shorter) => {
                r = shorter;
            },
            None => {
                return r;
            },
        }
    }
}

/// `s` without every `c` at its front.
pub open spec fn drop_front(s: Seq<char>, c: char) -> Seq<char>
    decreases s.len(),
{
    if s.len() > 0 && s[0] == c {
        drop_front(s.drop_first(), c)
    } else {
        s
    }
}

/// `s` without every `c` at its front.
pub fn strip_front(s: &str, c: char) -> (r: String)
    ensures
        r@ == drop_front(s@, c),
{
    let x = to_chars(s);
    let mut from: usize = 0;
    assert(s@.skip(0) =~= s@);
    while from < x.len() && x[from] == c
        invariant
            x@ == s@,
            from <= x.len(),
            drop_front(s@, c) == drop_front(s@.skip(from as int), c),
        decreases x.len() - from,
    {
        assert(s@.skip(from as int).drop_first() =~= s@.skip(from + 1));
        from = from + 1;
    }
    let r = slice_string(&x, from, x.len());
    assert(r@ =~= s@.skip(from as int));
    r
}

/// The parts of `s` between the occurrences of `c`.
pub open spec fn parts(s: Seq<char>, c: char) -> Seq<Seq<char>>
    decreases s.len(),
{
    if s.len() == 0 {
        seq![s]
    } else if s.last() == c {
        parts(s.drop_last(), c).push(Seq::empty())
    } else {
        let before = parts(s.drop_last(), c);
        before.update(before.len() - 1, before.last().push(s.last()))
    }
}

/// The parts of `s` between the occurrences of `c`.
pub fn split(s: &str, c: char) -> (r: Vec<String>)
    ensures
        views(r@) == parts(s@, c),
        r@.len() > 0,
{
    let x = to_chars(s);
    let mut r: Vec<String> = Vec::new();
    let mut part = String::new();
    let mut i: usize = 0;
    assert(s@.take(0) =~= Seq::<char>::empty());
    assert(views(r@).push(part@) =~= parts(s@.take(0), c));
    while i < x.len()
        invariant
            x@ == s@,
            i <= x.len(),
            views(r@).push(part@) == parts(s@.take(i as int), c),
        decreases x.len() - i,
    {
        let ghost before = views(r@).push(part@);
        let ghost text = part@;
        proof {
            lemma_take_next(s@, i as int);
            assert(s@.take(i + 1).last() == x@[i as int]);
        }
        if x[i] == c {
            r.push(part);
            part = String::new();
            assert(views(r@) =~= before);
            assert(part@ =~= Seq::<char>::empty());
        } else {
            part.push(x[i]);
            assert(before.last() == text);
            assert(views(r@).push(part@) =~= before.update(before.len() - 1, text.push(x@[i as int])));
        }
        i = i + 1;
    }
    assert(s@.take(x.len() as int) =~= s@);
    let ghost front = views(r@);
    r.push(part);
    assert(views(r@) =~= front.push(part@));
    r
}

/// `s` without white space at either end.
pub fn trim(s: &str) -> (r: String)
    ensures
        r@ == trimmed(s@),
{
    let x = to_chars(s);
    let mut from: usize = 0;
    assert(s@.skip(0) =~= s@);
    while from < x.len() && x[from].is_whitespace()
        invariant
            x@ == s@,
            from <= x.len(),
            trim_front(s@) == trim_front(s@.skip(from as int)),
        decreases x.len() - from,
    {
        assert(s@.skip(from as int).drop_first() =~= s@.skip(from + 1));
        from = from + 1;
    }
    let ghost front = s@.skip(from as int);
    assert(trim_front(s@) == front);
    let mut to: usize = x.len();
    assert(front.take(to - from) =~= front);
    while to > from && x[to - 1].is_whitespace()
        invariant
            x@ == s@,
            front == s@.skip(from as int),
            from <= to <= x.len(),
            trim_back(front) == trim_back(front.take(to - from)),
        decreases to,
    {
        assert(front.take(to - from).drop_last() =~= front.take(to - from - 1));
        assert(front.take(to - from).last() == x@[to - 1]);
        to = to - 1;
    }
    let ghost kept = front.take(to - from);
    assert(kept.len() > 0 ==> kept.last() == x@[to - 1]);
    assert(trim_back(front) == kept);
    let r = slice_string(&x, from, to);
    assert(r@ =~= kept);
    r
}

/// `s` with every `from` replaced by `to`.
pub fn replace_char(s: &str, from: char, to: &str) -> (r: String)
    ensures
        r@ == replaced(s@, from, to@),
{
    let x = to_chars(s);
    let mut r = String::new();
    let mut i: usize = 0;
    assert(s@.take(0) =~= Seq::<char>::empty());
    while i < x.len()
        invariant
            x@ == s@,
            i <= x.len(),
            r@ == replaced(s@.take(i as int), from, to@),
        decreases x.len() - i,
    {
        if x[i] == from {
            r.append(to);
        } else {
            r.push(x[i]);
        }
        proof {
            let next = s@.take(i + 1);
            assert(next.drop_last() =~= s@.take(i as int));
            assert(next.last() == x@[i as int]);
            assert(r@ =~= replaced(next, from, to@));
        }
        i = i + 1;
    }
    assert(s@.take(x.len() as int) =~= s@);
    r
}

/// The parts, in order, with `sep` between neighbours.
pub fn join(parts: &Vec<String>, sep: &str) -> (r: String)
    ensures
        r@ == joined(views(parts@), sep@),
{
    let mut r = String::new();
    let mut i: usize = 0;
    assert(views(parts@.take(0)) =~= Seq::<Seq<char>>::empty());
    while i < parts.len()
        invariant
            i <= parts.len(),
            r@ == joined(views(parts@.take(i as int)), sep@),
        decreases parts.len() - i,
    {
        proof {
            lemma_views_take(parts@, i as int);
        }
        if i > 0 {
            r.append(sep);
        }
        r.append(parts[i].as_str());
        assert(r@ =~= joined(views(parts@.take(i + 1)), sep@));
        i = i + 1;
    }
    assert(parts@.take(parts.len() as int) =~= parts@);
    r
}

fn digit(d: u64) -> (c: char)
    requires
        d < 10,
    ensures
        c == digit_char(d as int),
{
    ('0' as u8 + d as u8) as char
}

/// The decimal numeral of `n`.
pub fn decimal(n: u64) -> (r: String)
    ensures
        r@ == decimal_digits(n as nat),
    decreases n,
{
    if n < 10 {
        let mut r = String::new();
        r.push(digit(n));
        assert(r@ =~= decimal_digits(n as nat));
        r
    } else {
        let mut r = decimal(n / 10);
        r.push(digit(n % 10));
        r
    }
}

/// The index of the last `c` in `x`.
pub fn find_last(x: &Vec<char>, c: char) -> (r: Option<usize>)
    ensures
        match r {
            Some(i) => i == last_index(x@, c) && i < x.len() && x@[i as int] == c,
            None => last_index(x@, c) == -1,
        },
{
    let mut i: usize = x.len();
    assert(x@.take(i as int) =~= x@);
    while i > 0
        invariant
            i <= x.len(),
            last_index(x@, c) == last_index(x@.take(i as int), c),
        decreases i,
    {
        assert(x@.take(i as int).last() == x@[i - 1]);
        assert(x@.take(i as int).drop_last() =~= x@.take(i - 1));
        if x[i - 1] == c {
            return Some(i - 1);
        }
        i = i - 1;
    }
    None
}

/// The value of a run of decimal digits.
pub open spec fn digits_value(s: Seq<char>) -> nat
    decreases s.len(),
{
    if s.len() == 0 {
        0
    } else {
        10 * digits_value(s.drop_last()) + (s.last() as u32 - '0' as u32) as nat
    }
}

pub open spec fn is_digit(c: char) -> bool {
    '0' <= c && c <= '9'
}

/// `s` without a leading plus sign.
pub open spec fn unsigned_part(s: Seq<char>) -> Seq<char> {
    if s.len() > 0 && s[0] == '+' {
        s.drop_first()
    } else {
        s
    }
}

/// `s` is an optional plus sign and a numeral of a value below `limit`.
pub open spec fn numeral_below(s: Seq<char>, limit: nat) -> bool {
    let digits = unsigned_part(s);
    &&& digits.len() > 0
    &&& forall|i: int| 0 <= i < digits.len() ==> is_digit(#[trigger] digits[i])
    &&& digits_value(digits) < limit
}

proof fn lemma_digits_grow(s: Seq<char>, i: int)
    requires
        0 <= i <= s.len(),
        forall|j: int| 0 <= j < s.len() ==> is_digit(#[trigger] s[j]),
    ensures
        digits_value(s.take(i)) <= digits_value(s),
    decreases s.len() - i,
{
    if i < s.len() {
        lemma_digits_grow(s, i + 1);
        lemma_take_next(s, i);
    } else {
        assert(s.take(i) =~= s);
    }
}

/// Reads an unsigned 32-bit number: an optional plus sign and decimal digits.
pub fn parse_u32(s: &str) -> (r: Option<u32>)
    ensures
        r is Some <==> numeral_below(s@, 0x1_0000_0000),
        r is Some ==> r->0 == digits_value(unsigned_part(s@)),
{
    let x = to_chars(s);
    let from: usize = if x.len() > 0 && x[0] == '+' {
        1
    } else {
        0
    };
    let ghost digits = unsigned_part(s@);
    assert(digits =~= s@.skip(from as int));
    if from == x.len() {
        return None;
    }
    let mut i: usize = from;
    let mut value: u64 = 0;
    assert(digits.take(0) =~= Seq::<char>::empty());
    while i < x.len()
        invariant
            x@ == s@,
            from <= i <= x.len(),
            digits == unsigned_part(s@),
            digits == s@.skip(from as int),
            value == digits_value(digits.take(i - from)),
            value < 0x1_0000_0000,
            forall|j: int| 0 <= j < i - from ==> is_digit(#[trigger] digits[j]),
        decreases x.len() - i,
    {
        let c: char = x[i];
        assert(digits[i - from] == c);
        if !('0' <= c && c <= '9') {
            assert(!is_digit(digits[i - from]));
            return None;
        }
        proof {
            lemma_take_next(digits, i - from);
            assert(digits.take(i - from + 1).last() == c);
        }
        value = 10 * value + (c as u32 - '0' as u32) as u64;
        i = i + 1;
        if value >= 0x1_0000_0000 {
            proof {
                if forall|j: int| 0 <= j < digits.len() ==> is_digit(#[trigger] digits[j]) {
                    lemma_digits_grow(digits, i - from);
                }
            }
            return None;
        }
    }
    assert(digits.take(digits.len() as int) =~= digits);
    Some(value as u32)
}

/// Reading the numeral of a number gives the number back.
pub proof fn law_numeral_round_trip(n: nat)
    ensures
        digits_value(decimal_digits(n)) == n,
        unsigned_part(decimal_digits(n)) == decimal_digits(n),
        decimal_digits(n).len() > 0,
        forall|i: int|
            0 <= i < decimal_digits(n).len() ==> is_digit(#[trigger] decimal_digits(n)[i]),
    decreases n,
{
    let d = (n % 10) as int;
    let c = digit_char(d);
    assert(c as u32 == '0' as u32 + d);
    if n < 10 {
        assert(seq![c].drop_last() =~= Seq::<char>::empty());
        assert(digits_value(Seq::<char>::empty()) == 0);
        assert(seq![c].last() == c);
    } else {
        law_numeral_round_trip(n / 10);
        let front = decimal_digits(n / 10);
        assert(decimal_digits(n).drop_last() =~= front);
        assert(decimal_digits(n).last() == c);
        assert(decimal_digits(n)[0] == front[0]);
        assert forall|i: int| 0 <= i < decimal_digits(n).len() implies is_digit(
            #[trigger] decimal_digits(n)[i],
        ) by {
            if i < front.len() {
                assert(decimal_digits(n)[i] == front[i]);
            }
        }
        assert(is_digit(front[0]));
    }
}

/// `s` with the letters `A` to `Z` in lower case.
pub fn ascii_lowercase(s: &str) -> (r: String)
    ensures
        r@ == ascii_lower_all(s@),
{
    let x = to_chars(s);
    let mut r = String::new();
    let mut i: usize = 0;
    while i < x.len()
        invariant
            x@ == s@,
            i <= x.len(),
            r@ == ascii_lower_all(s@.take(i as int)),
        decreases x.len() - i,
    {
        let c: char = x[i];
        let lower: char = if 'A' <= c && c <= 'Z' {
            (c as u8 + 32) as char
        } else {
            c
        };
        r.push(lower);
        proof {
            assert(s@.take(i + 1) =~= s@.take(i as int).push(c));
            assert(r@ =~= ascii_lower_all(s@.take(i + 1)));
        }
        i = i + 1;
    }
    assert(s@.take(x.len() as int) =~= s@);
    r
}

/// The bytes of a text.
pub fn bytes_of(s: &str) -> (r: Vec<u8>)
    ensures
        r@ == encode_utf8(s@),
{
    let b = s.as_bytes();
    let mut r: Vec<u8> = Vec::new();
    let mut i: usize = 0;
    while i < b.len()
        invariant
            b@ == encode_utf8(s@),
            i <= b@.len(),
            r@ == b@.take(i as int),
        decreases b@.len() - i,
    {
        r.push(b[i]);
        i = i + 1;
        assert(b@.take(i as int) =~= b@.take(i - 1).push(b@[i - 1]));
    }
    assert(b@.take(i as int) =~= b@);
    r
}

/// A truth value in writing.
pub open spec fn truth(b: bool) -> Seq<char> {
    if b {
        "true"@
    } else {
        "false"@
    }
}

pub fn truth_text(b: bool) -> (r: &'static str)
    ensures
        r@ == truth(b),
{
    if b {
        "true"
    } else {
        "false"
    }
}

/// `ON` or `OFF`.
pub open spec fn switch(on: bool) -> Seq<char> {
    if on {
        "ON"@
    } else {
        "OFF"@
    }
}

pub fn switch_text(on: bool) -> (r: &'static str)
    ensures
        r@ == switch(on),
{
    if on {
        "ON"
    } else {
        "OFF"
    }
}

/// One more line at the end of some lines.
pub fn push_line(lines: &mut Vec<String>, line: String)
    ensures
        views(final(lines)@) == views(old(lines)@).push(line@),
{
    lines.push(line);
    assert(views(lines@) =~= views(old(lines)@).push(line@));
}

/// Two texts, one behind the other.
pub fn concat(a: &str, b: &str) -> (r: String)
    ensures
        r@ == a@ + b@,
{
    let mut r = a.to_string();
    r.append(b);
    r
}

/// Every character of `s` is white space.
pub open spec fn all_white(s: Seq<char>) -> bool {
    forall|i: int| 0 <= i < s.len() ==> white_space(#[trigger] s[i])
}

proof fn lemma_trim_front(s: Seq<char>)
    ensures
        trim_front(s).len() <= s.len(),
        s.skip(s.len() - trim_front(s).len()) == trim_front(s),
        all_white(s.take(s.len() - trim_front(s).len())),
        trim_front(s).len() > 0 ==> !white_space(trim_front(s)[0]),
    decreases s.len(),
{
    if s.len() > 0 && white_space(s[0]) {
        let rest = s.drop_first();
        lemma_trim_front(rest);
        let n = rest.len() - trim_front(rest).len();
        assert(s.skip(n + 1) =~= rest.skip(n));
        assert forall|i: int| 0 <= i < s.take(n + 1).len() implies white_space(
            #[trigger] s.take(n + 1)[i],
        ) by {
            if i > 0 {
                assert(rest.take(n)[i - 1] == s[i]);
            }
        }
    } else {
        assert(s.skip(0) =~= s);
    }
}

proof fn lemma_trim_back(s: Seq<char>)
    ensures
        trim_back(s).len() <= s.len(),
        s.take(trim_back(s).len() as int) == trim_back(s),
        all_white(s.skip(trim_back(s).len() as int)),
        trim_back(s).len() > 0 ==> !white_space(trim_back(s).last()),
    decreases s.len(),
{
    if s.len() > 0 && white_space(s.last()) {
        let front = s.drop_last();
        lemma_trim_back(front);
        let n = trim_back(front).len() as int;
        assert(s.take(n) =~= front.take(n));
        assert forall|i: int| 0 <= i < s.skip(n).len() implies white_space(
            #[trigger] s.skip(n)[i],
        ) by {
            if i < front.skip(n).len() {
                assert(front.skip(n)[i] == s[n + i]);
            }
        }
    } else {
        assert(s.take(s.len() as int) =~= s);
    }
}

/// A trimmed text stands in the text between nothing but white space, and has
/// none at its ends.
pub proof fn law_trim(s: &str, r: String)
    requires
        call_ensures(trim, (s,), r),
    ensures
        exists|a: Seq<char>, b: Seq<char>|
            s@ == a + r@ + b && #[trigger] all_white(a) && #[trigger] all_white(b),
        r@.len() > 0 ==> !white_space(r@[0]) && !white_space(r@.last()),
{
    let front = trim_front(s@);
    lemma_trim_front(s@);
    lemma_trim_back(front);
    let n = s@.len() - front.len();
    let a = s@.take(n);
    let b = front.skip(r@.len() as int);
    assert(front =~= r@ + b);
    assert(s@ =~= a + front);
    assert(s@ =~= a + r@ + b);
    assert(all_white(a) && all_white(b));
    if r@.len() > 0 {
        assert(front[0] == r@[0]);
    }
}

/// The parts of a text, joined again, are the text, and none holds the separator.
pub proof fn lemma_parts_char(s: Seq<char>, c: char)
    ensures
        parts(s, c).len() > 0,
        joined(parts(s, c), seq![c]) == s,
        forall|i: int, k: int|
            0 <= i < parts(s, c).len() && 0 <= k < parts(s, c)[i].len() ==> #[trigger] parts(
                s,
                c,
            )[i][k] != c,
    decreases s.len(),
{
    if s.len() > 0 {
        let front = s.drop_last();
        let before = parts(front, c);
        lemma_parts_char(front, c);
        let all = parts(s, c);
        if s.last() == c {
            assert(all.drop_last() =~= before);
            assert(joined(all, seq![c]) =~= front + seq![c] + Seq::<char>::empty());
            assert(joined(all, seq![c]) =~= s);
        } else {
            assert(all.drop_last() =~= before.drop_last());
            assert(all.last() == before.last().push(s.last()));
            if all.len() == 1 {
                assert(joined(all, seq![c]) =~= s);
            } else {
                assert(joined(all, seq![c]) =~= joined(before, seq![c]).push(s.last()));
                assert(joined(all, seq![c]) =~= s);
            }
            assert forall|i: int, k: int|
                0 <= i < all.len() && 0 <= k < all[i].len() implies #[trigger] all[i][k] != c by {
                if i < all.len() - 1 {
                    assert(all[i] == before[i]);
                    assert(before[i][k] != c);
                } else if k < before.last().len() {
                    assert(before[before.len() - 1][k] != c);
                }
            }
        }
    }
}

/// Splitting undoes joining: the parts between the occurrences of a character
/// hold none of them, and joined with it they are the text again.
pub proof fn law_split_join(s: &str, c: char, sep: &str, r: Vec<String>, back: String)
    requires
        call_ensures(split, (s, c), r),
        call_ensures(join, (&r, sep), back),
        sep@ == seq![c],
    ensures
        back@ == s@,
        r@.len() > 0,
        forall|i: int, k: int|
            #![trigger r@[i]@[k]]
            0 <= i < r@.len() && 0 <= k < r@[i]@.len() ==> r@[i]@[k] != c,
{
    lemma_parts_char(s@, c);
    assert forall|i: int, k: int|
        #![trigger r@[i]@[k]]
        0 <= i < r@.len() && 0 <= k < r@[i]@.len() implies r@[i]@[k] != c by {
        assert(views(r@)[i] == r@[i]@);
        assert(parts(s@, c)[i][k] != c);
    }
}

proof fn lemma_replaced_one(s: Seq<char>, from: char, to: char)
    ensures
        replaced(s, from, seq![to]).len() == s.len(),
        forall|i: int|
            0 <= i < s.len() ==> #[trigger] replaced(s, from, seq![to])[i] == if s[i] == from {
                to
            } else {
                s[i]
            },
    decreases s.len(),
{
    if s.len() > 0 {
        lemma_replaced_one(s.drop_last(), from, to);
    }
}

/// Replacing a character by one other changes exactly its occurrences, each in
/// its place.
pub proof fn law_replace_char(s: &str, from: char, to: &str, r: String)
    requires
        call_ensures(replace_char, (s, from, to), r),
        to@.len() == 1,
    ensures
        r@.len() == s@.len(),
        forall|i: int|
            0 <= i < s@.len() ==> #[trigger] r@[i] == if s@[i] == from {
                to@[0]
            } else {
                s@[i]
            },
{
    assert(to@ =~= seq![to@[0]]);
    lemma_replaced_one(s@, from, to@[0]);
}

/// Lower case changes the letters `A` to `Z` alone, each to the letter thirty-two
/// code points on, and leaves none of them.
pub proof fn law_lowercase(s: &str, r: String, i: int)
    requires
        call_ensures(ascii_lowercase, (s,), r),
        0 <= i < s@.len(),
    ensures
        r@.len() == s@.len(),
        'A' <= s@[i] <= 'Z' ==> r@[i] as u32 == s@[i] as u32 + 32,
        !('A' <= s@[i] <= 'Z') ==> r@[i] == s@[i],
        !('A' <= r@[i] <= 'Z'),
{
    assert(r@[i] == ascii_lower(s@[i]));
}

/// A number that was written is read back, also behind a plus sign; what holds a
/// character that is neither a digit nor a leading plus sign is no number.
pub proof fn law_number_read_back(
    n: u32,
    text: String,
    s: &str,
    signed: &str,
    other: &str,
    r: Option<u32>,
    q: Option<u32>,
    o: Option<u32>,
    i: int,
)
    requires
        call_ensures(decimal, (n as u64,), text),
        s@ == text@,
        signed@ == seq!['+'] + text@,
        call_ensures(parse_u32, (s,), r),
        call_ensures(parse_u32, (signed,), q),
        call_ensures(parse_u32, (other,), o),
        0 <= i < other@.len(),
        !is_digit(other@[i]),
        i > 0 || other@[i] != '+',
    ensures
        r == Some(n),
        q == Some(n),
        o is None,
{
    law_numeral_round_trip(n as nat);
    assert(signed@.drop_first() =~= text@);
    assert(signed@[0] == '+');
    let digits = unsigned_part(other@);
    if other@[0] == '+' {
        assert(digits[i - 1] == other@[i]);
    } else {
        assert(digits[i] == other@[i]);
    }
}

/// A text starts with a head, or ends with a tail, where something makes it up
/// with it; what is left is that something.
pub proof fn law_head_and_tail(
    s: &str,
    part: &str,
    rest: Seq<char>,
    starts: bool,
    ends: bool,
    behind: Option<String>,
    before: Option<String>,
)
    requires
        call_ensures(starts_with, (s, part), starts),
        call_ensures(ends_with, (s, part), ends),
        call_ensures(strip_head, (s, part), behind),
        call_ensures(strip_tail, (s, part), before),
    ensures
        s@ == part@ + rest ==> starts && behind is Some && behind->0@ == rest,
        s@ == rest + part@ ==> ends && before is Some && before->0@ == rest,
        starts == (behind is Some),
        ends == (before is Some),
        behind matches Some(b) ==> s@ == part@ + b@,
        before matches Some(b) ==> s@ == b@ + part@,
{
    let n = part@.len() as int;
    if s@ == part@ + rest {
        assert(s@.take(n) =~= part@);
        assert(s@.skip(n) =~= rest);
    }
    if s@ == rest + part@ {
        assert(s@.skip(s@.len() - n) =~= part@);
        assert(s@.take(s@.len() - n) =~= rest);
    }
    if behind is Some {
        assert(s@ =~= s@.take(n) + s@.skip(n));
    }
    if before is Some {
        assert(s@ =~= s@.take(s@.len() - n) + s@.skip(s@.len() - n));
    }
}

/// A text holds a part where something before and behind makes it up.
pub proof fn law_contains(s: &str, part: &str, r: bool, a: Seq<char>, b: Seq<char>)
    requires
        call_ensures(contains, (s, part), r),
    ensures
        s@ == a + part@ + b ==> r,
        r ==> exists|x: Seq<char>, y: Seq<char>| s@ == #[trigger] (x + part@ + y),
{
    if s@ == a + part@ + b {
        assert(s@.subrange(a.len() as int, a.len() as int + part@.len()) =~= part@);
        assert(part_at(s@, part@, a.len() as int));
    }
    if r {
        let i = choose|i: int| #[trigger] part_at(s@, part@, i);
        let x = s@.take(i);
        let y = s@.skip(i + part@.len());
        assert(s@ =~= x + part@ + y);
    }
}

proof fn lemma_drop_front(s: Seq<char>, c: char)
    ensures
        drop_front(s, c).len() <= s.len(),
        s.skip(s.len() - drop_front(s, c).len()) == drop_front(s, c),
        forall|i: int| 0 <= i < s.len() - drop_front(s, c).len() ==> #[trigger] s[i] == c,
        drop_front(s, c).len() > 0 ==> drop_front(s, c)[0] != c,
    decreases s.len(),
{
    if s.len() > 0 && s[0] == c {
        let rest = s.drop_first();
        lemma_drop_front(rest, c);
        let n = rest.len() - drop_front(rest, c).len();
        assert(s.skip(n + 1) =~= rest.skip(n));
        assert forall|i: int| 0 <= i < n + 1 implies #[trigger] s[i] == c by {
            if i > 0 {
                assert(rest[i - 1] == s[i]);
            }
        }
    } else {
        assert(s.skip(0) =~= s);
    }
}

/// What is left of a text once a character is off its front is the end of the
/// text, with nothing but that character before it and another one first.
pub proof fn law_strip_front(s: &str, c: char, r: String)
    requires
        call_ensures(strip_front, (s, c), r),
    ensures
        r@.len() <= s@.len(),
        r@ == s@.skip(s@.len() - r@.len()),
        forall|i: int| 0 <= i < s@.len() - r@.len() ==> #[trigger] s@[i] == c,
        r@.len() > 0 ==> r@[0] != c,
{
    lemma_drop_front(s@, c);
}

proof fn lemma_drop_tails(s: Seq<char>, tail: Seq<char>)
    requires
        tail.len() > 0,
    ensures
        !has_tail(drop_tails(s, tail), tail),
        drop_tails(s, tail).len() <= s.len(),
        s.take(drop_tails(s, tail).len() as int) == drop_tails(s, tail),
    decreases s.len(),
{
    if has_tail(s, tail) {
        let less = drop_tail(s, tail);
        lemma_drop_tails(less, tail);
        let n = drop_tails(less, tail).len() as int;
        assert(s.take(n) =~= less.take(n));
    } else {
        assert(s.take(s.len() as int) =~= s);
    }
}

/// A text whose tails are off is a front of the text that does not end with the
/// tail, and one more tail changes nothing.
pub proof fn law_strip_tails(s: &str, more: &str, tail: &str, r: String, q: String)
    requires
        call_ensures(strip_tails, (s, tail), r),
        call_ensures(strip_tails, (more, tail), q),
        more@ == s@ + tail@,
        tail@.len() > 0,
    ensures
        r@.len() <= s@.len(),
        r@ == s@.take(r@.len() as int),
        !(exists|x: Seq<char>| r@ == #[trigger] (x + tail@)),
        q@ == r@,
{
    lemma_drop_tails(s@, tail@);
    assert(more@.skip(more@.len() - tail@.len()) =~= tail@);
    assert(drop_tail(more@, tail@) =~= s@);
    if exists|x: Seq<char>| r@ == #[trigger] (x + tail@) {
        let x = choose|x: Seq<char>| r@ == #[trigger] (x + tail@);
        assert(r@.skip(r@.len() - tail@.len()) =~= tail@);
        assert(has_tail(r@, tail@));
    }
}

/// The last occurrence of a character has it, and none stands behind it.
pub proof fn law_find_last(x: &Vec<char>, c: char, r: Option<usize>)
    requires
        call_ensures(find_last, (x, c), r),
    ensures
        r is Some <==> x@.contains(c),
        r matches Some(i) ==> x@[i as int] == c && forall|j: int| i < j < x@.len() ==> x@[j] != c,
{
    lemma_last_index_of(x@, c);
    if x@.contains(c) {
        let k = choose|k: int| 0 <= k < x@.len() && x@[k] == c;
        assert(x@[k] == c);
    }
}

/// Behind the last index of a character it does not occur.
pub proof fn lemma_last_index_of(s: Seq<char>, c: char)
    ensures
        -1 <= last_index(s, c) < s.len(),
        forall|j: int| last_index(s, c) < j < s.len() ==> s[j] != c,
        last_index(s, c) >= 0 ==> s[last_index(s, c)] == c,
    decreases s.len(),
{
    if s.len() > 0 && s.last() != c {
        let front = s.drop_last();
        lemma_last_index_of(front, c);
        assert forall|j: int| last_index(s, c) < j < s.len() implies s[j] != c by {
            if j < front.len() {
                assert(front[j] == s[j]);
            }
        }
    }
}

/// Two texts are the same where their characters are; a text of its own, and the
/// characters of a text, are that text.
pub proof fn law_copies(a: &str, b: &str, r: bool, o: String, v: Vec<char>, cat: String)
    requires
        call_ensures(same, (a, b), r),
        call_ensures(owned, (a,), o),
        call_ensures(to_chars, (a,), v),
        call_ensures(concat, (a, b), cat),
    ensures
        r <==> a@ == b@,
        o@ == a@,
        v@ == a@,
        cat@.len() == a@.len() + b@.len(),
        forall|i: int| 0 <= i < a@.len() ==> #[trigger] cat@[i] == a@[i],
        forall|i: int| 0 <= i < b@.len() ==> cat@[a@.len() + i] == #[trigger] b@[i],
{
}

/// Truth and switches in writing.
pub proof fn law_truth_written(b: bool, t: &'static str, s: &'static str)
    requires
        call_ensures(truth_text, (b,), t),
        call_ensures(switch_text, (b,), s),
    ensures
        b ==> t@ == "true"@ && s@ == "ON"@,
        !b ==> t@ == "false"@ && s@ == "OFF"@,
{
}

/// Nothing is left of a text exactly where it is blank.
pub proof fn lemma_blank(s: Seq<char>)
    ensures
        trimmed(s).len() == 0 <==> all_white(s),
{
    let front = trim_front(s);
    lemma_trim_front(s);
    lemma_trim_back(front);
    let n = s.len() - front.len();
    if trimmed(s).len() == 0 {
        assert(front.skip(0) =~= front);
        if front.len() > 0 {
            assert(white_space(front.skip(0)[0]));
        }
        assert(s.take(n) =~= s);
    }
    if all_white(s) && trimmed(s).len() > 0 {
        assert(front[0] == s.skip(n)[0]);
        assert(front[0] == s[n]);
    }
}

/// A trimmed text has no white space at its ends.
pub proof fn lemma_trimmed_ends(s: Seq<char>)
    ensures
        trimmed(s).len() > 0 ==> !white_space(trimmed(s)[0]) && !white_space(trimmed(s).last()),
{
    let front = trim_front(s);
    lemma_trim_front(s);
    lemma_trim_back(front);
    if trimmed(s).len() > 0 {
        assert(front[0] == trimmed(s)[0]);
    }
}

} // verus!
