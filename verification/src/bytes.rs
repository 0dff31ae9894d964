//! Reading numbers and texts from bytes, front to back.

use vstd::prelude::*;
use vstd::utf8::{
    decode_utf8, encode_utf8, encode_utf8_decode_utf8, encode_utf8_valid_utf8, valid_utf8,
};

verus! {

/// `String::from_utf8`: gives the text that the bytes encode, and fails exactly
/// where they are not valid UTF-8.
#[verifier::external_body]
fn utf8_text(bytes: Vec<u8>) -> (r: Option<String>)
    ensures
        r is Some <==> valid_utf8(bytes@),
        r is Some ==> r->0@ == decode_utf8(bytes@),
{
    String::from_utf8(bytes).ok()
}

/// `n` bytes are there from `pos` on. No bytes are there everywhere.
pub open spec fn there(data: Seq<u8>, pos: int, n: int) -> bool {
    n == 0 || pos + n <= data.len()
}

/// The number of two bytes, the low one first.
pub open spec fn le16(data: Seq<u8>, pos: int) -> u16 {
    (data[pos] + 0x100 * data[pos + 1]) as u16
}

/// The number of four bytes, the lowest one first.
pub open spec fn le32(data: Seq<u8>, pos: int) -> u32 {
    (data[pos] + 0x100 * data[pos + 1] + 0x1_0000 * data[pos + 2] + 0x100_0000 * data[pos
        + 3]) as u32
}

/// How a text can be unreadable.
#[derive(Clone, Copy, PartialEq, Eq, Structural, Debug)]
pub enum TextFault {
    /// Its length is not there.
    Length,
    /// Not all of it is there.
    Short,
    /// It is not valid UTF-8.
    Utf8,
}

/// The text at `pos`, its length in two bytes before it, and where it ends.
pub open spec fn text_at(data: Seq<u8>, pos: int) -> Result<(Seq<char>, int), TextFault> {
    if !there(data, pos, 2) {
        Err(TextFault::Length)
    } else {
        let n = le16(data, pos) as int;
        let from = pos + 2;
        if !there(data, from, n) {
            Err(TextFault::Short)
        } else {
            let bytes = data.subrange(from, from + n);
            if valid_utf8(bytes) {
                Ok((decode_utf8(bytes), from + n))
            } else {
                Err(TextFault::Utf8)
            }
        }
    }
}

/// A place in some bytes, from which they are read. It may lie behind their end.
pub struct ByteCursor<'a> {
    pub data: &'a Vec<u8>,
    pub pos: u64,
}

impl<'a> ByteCursor<'a> {
    pub fn new(data: &'a Vec<u8>) -> (r: Self)
        ensures
            r.data == data,
            r.pos == 0,
    {
        ByteCursor { data, pos: 0 }
    }

    /// How many bytes are left to read.
    pub fn left(&self) -> (r: u64)
        ensures
            r == (if self.pos < self.data@.len() {
                self.data@.len() - self.pos
            } else {
                0
            }),
            self.data@.len() <= usize::MAX,
    {
        let len: u64 = self.data.len() as u64;
        if self.pos < len {
            len - self.pos
        } else {
            0
        }
    }

    fn has(&self, n: u64) -> (r: bool)
        ensures
            r == there(self.data@, self.pos as int, n as int),
            self.data@.len() <= usize::MAX,
    {
        let left: u64 = self.left();
        n == 0 || n <= left
    }

    /// The next byte.
    pub fn read_u8(&mut self) -> (r: Option<u8>)
        ensures
            final(self).data == old(self).data,
            r is Some <==> there(old(self).data@, old(self).pos as int, 1),
            r is Some ==> r->0 == old(self).data@[old(self).pos as int] && final(self).pos
                == old(self).pos + 1,
            r is None ==> final(self).pos == old(self).pos,
    {
        if !self.has(1) {
            return None;
        }
        let b: u8 = self.data[self.pos as usize];
        self.pos = self.pos + 1;
        Some(b)
    }

    /// The next two bytes as a number.
    pub fn read_u16(&mut self) -> (r: Option<u16>)
        ensures
            final(self).data == old(self).data,
            r is Some <==> there(old(self).data@, old(self).pos as int, 2),
            r is Some ==> r->0 == le16(old(self).data@, old(self).pos as int) && final(self).pos
                == old(self).pos + 2,
            r is None ==> final(self).pos == old(self).pos,
    {
        if !self.has(2) {
            return None;
        }
        let at: usize = self.pos as usize;
        let low: u16 = self.data[at] as u16;
        let high: u16 = self.data[at + 1] as u16;
        self.pos = self.pos + 2;
        Some(low + 0x100 * high)
    }

    /// The next four bytes as a number.
    pub fn read_u32(&mut self) -> (r: Option<u32>)
        ensures
            final(self).data == old(self).data,
            r is Some <==> there(old(self).data@, old(self).pos as int, 4),
            r is Some ==> r->0 == le32(old(self).data@, old(self).pos as int) && final(self).pos
                == old(self).pos + 4,
            r is None ==> final(self).pos == old(self).pos,
    {
        if !self.has(4) {
            return None;
        }
        let at: usize = self.pos as usize;
        let b0: u32 = self.data[at] as u32;
        let b1: u32 = self.data[at + 1] as u32;
        let b2: u32 = self.data[at + 2] as u32;
        let b3: u32 = self.data[at + 3] as u32;
        self.pos = self.pos + 4;
        Some(b0 + 0x100 * b1 + 0x1_0000 * b2 + 0x100_0000 * b3)
    }

    /// The next `n` bytes.
    pub fn read_bytes(&mut self, n: u64) -> (r: Option<Vec<u8>>)
        ensures
            final(self).data == old(self).data,
            r is Some <==> there(old(self).data@, old(self).pos as int, n as int),
            r is Some ==> final(self).pos == old(self).pos + n && r->0@ == (if n == 0 {
                Seq::empty()
            } else {
                old(self).data@.subrange(old(self).pos as int, old(self).pos + n)
            }),
            r is None ==> final(self).pos == old(self).pos,
    {
        if !self.has(n) {
            return None;
        }
        let mut out: Vec<u8> = Vec::new();
        if n == 0 {
            return Some(out);
        }
        let from: usize = self.pos as usize;
        let to: usize = (self.pos + n) as usize;
        let mut i: usize = from;
        while i < to
            invariant
                from <= i <= to <= self.data@.len(),
                out@ == self.data@.subrange(from as int, i as int),
            decreases to - i,
        {
            out.push(self.data[i]);
            i = i + 1;
            assert(self.data@.subrange(from as int, i as int) =~= self.data@.subrange(
                from as int,
                i - 1,
            ).push(self.data@[i - 1]));
        }
        self.pos = self.pos + n;
        Some(out)
    }

    /// Passes over `n` bytes that must be there.
    pub fn pass(&mut self, n: u64) -> (r: bool)
        ensures
            final(self).data == old(self).data,
            r == there(old(self).data@, old(self).pos as int, n as int),
            final(self).pos == (if r {
                old(self).pos + n
            } else {
                old(self).pos as int
            }),
    {
        if !self.has(n) {
            return false;
        }
        self.pos = self.pos + n;
        true
    }

    /// Moves forward by `n`, even behind the end, unless the place would no
    /// longer be a number of 64 bits.
    pub fn seek(&mut self, n: u64) -> (r: bool)
        ensures
            final(self).data == old(self).data,
            r == (old(self).pos + n <= u64::MAX),
            final(self).pos == (if r {
                old(self).pos + n
            } else {
                old(self).pos as int
            }),
    {
        if n > u64::MAX - self.pos {
            return false;
        }
        self.pos = self.pos + n;
        true
    }

    /// The next text, its length in two bytes before it.
    pub fn read_text(&mut self) -> (r: Result<String, TextFault>)
        ensures
            final(self).data == old(self).data,
            match (r, text_at(old(self).data@, old(self).pos as int)) {
                (Ok(s), Ok(t)) => s@ == t.0 && final(self).pos == t.1,
                (Err(e), Err(f)) => e == f,
                _ => false,
            },
    {
        let ghost data = self.data@;
        let ghost start = self.pos as int;
        let n: u64 = match self.read_u16() {
            Some(n) => n as u64,
            None => {
                return Err(TextFault::Length);
            },
        };
        let bytes = match self.read_bytes(n) {
            Some(b) => b,
            None => {
                return Err(TextFault::Short);
            },
        };
        assert(bytes@ =~= data.subrange(start + 2, start + 2 + n));
        match utf8_text(bytes) {
            Some(s) => Ok(s),
            None => Err(TextFault::Utf8),
        }
    }
}

/// The two bytes of a number, the low one first.
pub open spec fn bytes_of_u16(n: u16) -> Seq<u8> {
    seq![(n % 0x100) as u8, (n / 0x100) as u8]
}

/// The four bytes of a number, the lowest one first.
pub open spec fn bytes_of_u32(n: u32) -> Seq<u8> {
    seq![
        (n % 0x100) as u8,
        (n / 0x100 % 0x100) as u8,
        (n / 0x1_0000 % 0x100) as u8,
        (n / 0x100_0000) as u8,
    ]
}

/// A text as it is written: the number of its bytes, then its bytes in UTF-8.
pub open spec fn bytes_of_text(s: Seq<char>) -> Seq<u8> {
    bytes_of_u16(encode_utf8(s).len() as u16) + encode_utf8(s)
}

/// The text is short enough to be written.
pub open spec fn writable(s: Seq<char>) -> bool {
    encode_utf8(s).len() <= u16::MAX
}

/// The bytes `x` stand in `data` at `pos`.
pub open spec fn stands(data: Seq<u8>, pos: int, x: Seq<u8>) -> bool {
    0 <= pos && pos + x.len() <= data.len() && data.subrange(pos, pos + x.len()) == x
}

/// Of bytes that stand somewhere the first part stands there, and the rest
/// behind it.
pub proof fn lemma_stands_split(data: Seq<u8>, pos: int, a: Seq<u8>, b: Seq<u8>)
    requires
        stands(data, pos, a + b),
    ensures
        stands(data, pos, a),
        stands(data, pos + a.len(), b),
{
    let all = data.subrange(pos, pos + (a + b).len());
    assert(data.subrange(pos, pos + a.len()) =~= all.subrange(0, a.len() as int));
    assert((a + b).subrange(0, a.len() as int) =~= a);
    assert(data.subrange(pos + a.len(), pos + a.len() + b.len()) =~= all.subrange(
        a.len() as int,
        (a + b).len() as int,
    ));
    assert((a + b).subrange(a.len() as int, (a + b).len() as int) =~= b);
}

/// The number that was written as four bytes is read back.
pub proof fn lemma_le32_back(data: Seq<u8>, pos: int, n: u32)
    requires
        stands(data, pos, bytes_of_u32(n)),
    ensures
        there(data, pos, 4),
        le32(data, pos) == n,
{
    let b = bytes_of_u32(n);
    let part = data.subrange(pos, pos + 4);
    assert(part == b);
    assert(data[pos] == part[0] && data[pos + 1] == part[1] && data[pos + 2] == part[2] && data[pos
        + 3] == part[3]);
    assert(n == n % 0x100 + 0x100 * (n / 0x100 % 0x100) + 0x1_0000 * (n / 0x1_0000 % 0x100)
        + 0x100_0000 * (n / 0x100_0000)) by (nonlinear_arith);
    assert(n / 0x100_0000 < 0x100);
}

/// The number that was written as two bytes is read back.
pub proof fn lemma_le16_back(data: Seq<u8>, pos: int, n: u16)
    requires
        stands(data, pos, bytes_of_u16(n)),
    ensures
        there(data, pos, 2),
        le16(data, pos) == n,
{
    let b = bytes_of_u16(n);
    let part = data.subrange(pos, pos + 2);
    assert(part == b);
    assert(data[pos] == part[0] && data[pos + 1] == part[1]);
    assert(n == n % 0x100 + 0x100 * (n / 0x100));
}

/// The text that was written is read back.
pub proof fn lemma_text_back(data: Seq<u8>, pos: int, s: Seq<char>)
    requires
        stands(data, pos, bytes_of_text(s)),
        writable(s),
    ensures
        text_at(data, pos) == Ok::<(Seq<char>, int), TextFault>(
            (s, pos + bytes_of_text(s).len()),
        ),
{
    broadcast use {encode_utf8_valid_utf8, encode_utf8_decode_utf8};

    let n = encode_utf8(s).len() as u16;
    lemma_stands_split(data, pos, bytes_of_u16(n), encode_utf8(s));
    lemma_le16_back(data, pos, n);
    assert(valid_utf8(encode_utf8(s)));
    assert(decode_utf8(encode_utf8(s)) == s);
    assert(data.subrange(pos + 2, pos + 2 + n) == encode_utf8(s));
}

/// A number of four bytes that stands at the cursor is read, and the cursor moves
/// behind it.
pub proof fn law_read_u32<'a>(cur: &mut ByteCursor<'a>, n: u32, r: Option<u32>)
    requires
        call_ensures(ByteCursor::read_u32, (cur,), r),
        stands(old(cur).data@, old(cur).pos as int, bytes_of_u32(n)),
    ensures
        r == Some(n),
        final(cur).pos == old(cur).pos + 4,
        final(cur).data == old(cur).data,
{
    lemma_le32_back(old(cur).data@, old(cur).pos as int, n);
}

/// A number of two bytes that stands at the cursor is read.
pub proof fn law_read_u16<'a>(cur: &mut ByteCursor<'a>, n: u16, r: Option<u16>)
    requires
        call_ensures(ByteCursor::read_u16, (cur,), r),
        stands(old(cur).data@, old(cur).pos as int, bytes_of_u16(n)),
    ensures
        r == Some(n),
        final(cur).pos == old(cur).pos + 2,
        final(cur).data == old(cur).data,
{
    lemma_le16_back(old(cur).data@, old(cur).pos as int, n);
}

/// Bytes that stand at the cursor are read as they are.
pub proof fn law_read_bytes<'a>(cur: &mut ByteCursor<'a>, x: Seq<u8>, n: u64, r: Option<Vec<u8>>)
    requires
        call_ensures(ByteCursor::read_bytes, (cur, n), r),
        stands(old(cur).data@, old(cur).pos as int, x),
        n == x.len(),
    ensures
        r is Some,
        r->0@ == x,
        final(cur).pos == old(cur).pos + x.len(),
{
    assert(n == 0 ==> x =~= Seq::<u8>::empty());
}

/// A text that stands at the cursor is read.
pub proof fn law_read_text<'a>(cur: &mut ByteCursor<'a>, s: Seq<char>, r: Result<String, TextFault>)
    requires
        call_ensures(ByteCursor::read_text, (cur,), r),
        stands(old(cur).data@, old(cur).pos as int, bytes_of_text(s)),
        writable(s),
    ensures
        r is Ok,
        r->Ok_0@ == s,
        final(cur).pos == old(cur).pos + bytes_of_text(s).len(),
{
    lemma_text_back(old(cur).data@, old(cur).pos as int, s);
}

/// A cursor starts at the first byte. A byte is read where one is left, and then
/// passed; several are passed where they are all left. A seek goes on regardless of
/// the end, as long as the place can be counted.
pub proof fn law_cursor_moves(
    c: &mut ByteCursor,
    past: &mut ByteCursor,
    on: &mut ByteCursor,
    before: u64,
    after: u64,
    byte: Option<u8>,
    n: u64,
    passed: bool,
    went: bool,
)
    requires
        call_ensures(ByteCursor::read_u8, (c,), byte),
        call_ensures(ByteCursor::left, (&*old(c),), before),
        call_ensures(ByteCursor::left, (&*final(c),), after),
        call_ensures(ByteCursor::pass, (past, n), passed),
        call_ensures(ByteCursor::seek, (on, n), went),
        *old(past) == *old(c),
        *old(on) == *old(c),
    ensures
        byte is Some <==> before > 0,
        byte is Some ==> after == before - 1 && byte->0 == old(c).data@[old(c).data@.len()
            - before],
        byte is None ==> after == before && final(c).pos == old(c).pos,
        old(c).pos <= old(c).data@.len() ==> (passed <==> n <= before),
        passed ==> final(past).pos == old(past).pos + n,
        !passed ==> final(past).pos == old(past).pos,
        went <==> old(on).pos + n <= 0xffff_ffff_ffff_ffff,
        went ==> final(on).pos == old(on).pos + n,
        !went ==> final(on).pos == old(on).pos,
        final(c).data == old(c).data && final(past).data == old(c).data && final(on).data
            == old(c).data,
{
}

} // verus!
