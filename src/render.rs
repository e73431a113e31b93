use vstd::prelude::*;
use vstd::string::StrSliceExecFns;

use crate::input::Input;

verus! {

/// The UTF-8 encoding of `c`: one byte below U+0080, then two, three or four.
pub open spec fn utf8_of(c: char) -> Seq<u8> {
    let x = c as u32;
    if x < 0x80 {
        seq![x as u8]
    } else if x < 0x800 {
        seq![(0xC0 + x / 64) as u8, (0x80 + x % 64) as u8]
    } else if x < 0x10000 {
        seq![(0xE0 + x / 4096) as u8, (0x80 + (x / 64) % 64) as u8, (0x80 + x % 64) as u8]
    } else {
        seq![
            (0xF0 + x / 262144) as u8,
            (0x80 + (x / 4096) % 64) as u8,
            (0x80 + (x / 64) % 64) as u8,
            (0x80 + x % 64) as u8,
        ]
    }
}

/// The UTF-8 encoding of `s`, character after character.
pub open spec fn utf8_seq(s: Seq<char>) -> Seq<u8>
    decreases s.len(),
{
    if s.len() == 0 {
        Seq::empty()
    } else {
        utf8_seq(s.drop_last()) + utf8_of(s.last())
    }
}

/// `n` copies of `unit`, one after the other.
pub open spec fn repeated(unit: Seq<u8>, n: nat) -> Seq<u8>
    decreases n,
{
    if n == 0 {
        Seq::empty()
    } else {
        repeated(unit, (n - 1) as nat) + unit
    }
}

/// The escape sequence that clears the current line.
pub open spec fn clear_line_seq() -> Seq<u8> {
    seq![0x1bu8, 0x5bu8, 0x32u8, 0x4bu8]
}

/// The escape sequence that moves the cursor one cell right.
pub open spec fn cursor_right_seq() -> Seq<u8> {
    seq![0x1bu8, 0x5bu8, 0x43u8]
}

/// The escape sequences that open a session on the alternate screen: enter
/// it, then move the cursor to row 1, column 1.
pub open spec fn alt_screen_seq() -> Seq<u8> {
    seq![0x1bu8, 0x5bu8, 0x3fu8, 0x31u8, 0x30u8, 0x34u8, 0x39u8, 0x68u8]
        + seq![0x1bu8, 0x5bu8, 0x31u8, 0x3bu8, 0x31u8, 0x66u8]
}

/// The bytes that switch to the alternate screen and home the cursor.
pub fn alt_screen_bytes() -> (r: Vec<u8>)
    ensures
        r@ == alt_screen_seq(),
{
    let mut bytes: Vec<u8> = Vec::new();
    bytes.push(0x1b);
    bytes.push(0x5b);
    bytes.push(0x3f);
    bytes.push(0x31);
    bytes.push(0x30);
    bytes.push(0x34);
    bytes.push(0x39);
    bytes.push(0x68);
    bytes.push(0x1b);
    bytes.push(0x5b);
    bytes.push(0x31);
    bytes.push(0x3b);
    bytes.push(0x31);
    bytes.push(0x66);
    assert(bytes@ =~= alt_screen_seq());
    bytes
}

/// Appends the UTF-8 encoding of `c` to `bytes`: ASCII as one byte, other
/// characters as their multi-byte form.
pub fn encode_char(c: char, bytes: &mut Vec<u8>)
    ensures
        final(bytes)@ == old(bytes)@ + utf8_of(c),
{
    let x = c as u32;
    if x < 0x80 {
        bytes.push(x as u8);
    } else if x < 0x800 {
        bytes.push((0xC0 + x / 64) as u8);
        bytes.push((0x80 + x % 64) as u8);
    } else if x < 0x10000 {
        bytes.push((0xE0 + x / 4096) as u8);
        bytes.push((0x80 + (x / 64) % 64) as u8);
        bytes.push((0x80 + x % 64) as u8);
    } else {
        bytes.push((0xF0 + x / 262144) as u8);
        bytes.push((0x80 + (x / 4096) % 64) as u8);
        bytes.push((0x80 + (x / 64) % 64) as u8);
        bytes.push((0x80 + x % 64) as u8);
    }
    assert(bytes@ =~= old(bytes)@ + utf8_of(c));
}

/// Appends the UTF-8 encoding of each of `chars` to `bytes`.
fn encode_chars(chars: &Vec<char>, bytes: &mut Vec<u8>)
    ensures
        final(bytes)@ == old(bytes)@ + utf8_seq(chars@),
{
    let mut i: usize = 0;
    while i < chars.len()
        invariant
            i <= chars.len(),
            bytes@ == old(bytes)@ + utf8_seq(chars@.subrange(0, i as int)),
        decreases chars.len() - i,
    {
        encode_char(chars[i], bytes);
        proof {
            let s = chars@.subrange(0, i + 1);
            assert(s.drop_last() =~= chars@.subrange(0, i as int));
        }
        i = i + 1;
    }
    assert(chars@.subrange(0, i as int) =~= chars@);
}

/// The UTF-8 bytes of `s`.
pub fn str_to_bytes(s: &str) -> (r: Vec<u8>)
    ensures
        r@ == utf8_seq(s@),
{
    let mut bytes: Vec<u8> = Vec::new();
    let n = s.unicode_len();
    let mut i: usize = 0;
    while i < n
        invariant
            n == s@.len(),
            i <= n,
            bytes@ == utf8_seq(s@.subrange(0, i as int)),
        decreases n - i,
    {
        encode_char(s.get_char(i), &mut bytes);
        proof {
            let t = s@.subrange(0, i + 1);
            assert(t.drop_last() =~= s@.subrange(0, i as int));
        }
        i = i + 1;
    }
    assert(s@.subrange(0, i as int) =~= s@);
    bytes
}

impl Input {
    /// The bytes that repaint the line: clear it, return to its start, then
    /// the prompt and the buffer.
    pub fn prompt_bytes(&self) -> (r: Vec<u8>)
        ensures
            r@ == clear_line_seq() + seq![13u8] + utf8_seq(self.prompt@) + utf8_seq(self.values@),
    {
        let mut bytes: Vec<u8> = Vec::new();
        bytes.push(0x1b);
        bytes.push(0x5b);
        bytes.push(0x32);
        bytes.push(0x4b);
        bytes.push(13);
        assert(bytes@ =~= clear_line_seq() + seq![13u8]);
        let mut p = str_to_bytes(self.prompt.as_str());
        bytes.append(&mut p);
        encode_chars(&self.values, &mut bytes);
        bytes
    }

    /// The bytes that put the terminal cursor where the buffer's cursor is: a
    /// carriage return, then one step right for each character of the
    /// prompt, one more, and one for each character before the cursor.
    pub fn cursor_sync_bytes(&self) -> (r: Vec<u8>)
        ensures
            r@ == seq![13u8] + repeated(
                cursor_right_seq(),
                (self.prompt@.len() + 1 + self.cursor) as nat,
            ),
    {
        let mut bytes: Vec<u8> = Vec::new();
        bytes.push(13);
        let n = self.prompt.as_str().unicode_len();
        push_rights(&mut bytes, n);
        push_rights(&mut bytes, 1);
        push_rights(&mut bytes, self.cursor);
        proof {
            lemma_repeated_add(cursor_right_seq(), n as nat, 1);
            lemma_repeated_add(cursor_right_seq(), (n + 1) as nat, self.cursor as nat);
            assert(bytes@ =~= seq![13u8] + repeated(cursor_right_seq(), (n + 1 + self.cursor) as nat));
        }
        bytes
    }
}

proof fn lemma_repeated_add(unit: Seq<u8>, a: nat, b: nat)
    ensures
        repeated(unit, a + b) == repeated(unit, a) + repeated(unit, b),
    decreases b,
{
    if b == 0 {
        assert(repeated(unit, a) + repeated(unit, 0) =~= repeated(unit, a));
    } else {
        lemma_repeated_add(unit, a, (b - 1) as nat);
        assert(repeated(unit, a + b) == repeated(unit, (a + b - 1) as nat) + unit);
        assert(repeated(unit, a) + repeated(unit, b) =~= repeated(unit, a) + repeated(
            unit,
            (b - 1) as nat,
        ) + unit);
    }
}

/// Appends `k` cursor-right steps to `bytes`.
fn push_rights(bytes: &mut Vec<u8>, k: usize)
    ensures
        final(bytes)@ == old(bytes)@ + repeated(cursor_right_seq(), k as nat),
{
    let mut i: usize = 0;
    while i < k
        invariant
            i <= k,
            bytes@ == old(bytes)@ + repeated(cursor_right_seq(), i as nat),
        decreases k - i,
    {
        bytes.push(0x1b);
        bytes.push(0x5b);
        bytes.push(0x43);
        assert(repeated(cursor_right_seq(), (i + 1) as nat) == repeated(
            cursor_right_seq(),
            i as nat,
        ) + cursor_right_seq());
        assert(bytes@ =~= old(bytes)@ + repeated(cursor_right_seq(), (i + 1) as nat));
        i = i + 1;
    }
}

} // verus!
