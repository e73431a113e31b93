use vstd::prelude::*;

use crate::history::History;

verus! {

/// Relies on `String: FromIterator<char>`: the string holds the characters in
/// order.
#[verifier::external_body]
fn collect_chars(v: &Vec<char>) -> (r: String)
    ensures
        r@ == v@,
{
    v.iter().collect::<String>()
}

/// Whether `c` ends a word for word-wise cursor jumps.
pub open spec fn is_stopper(c: char) -> bool {
    c == '/' || c == ' ' || c == '-' || c == '_' || c == ',' || c == '"' || c == '\''
        || c == ';' || c == ':' || c == '.'
}

/// The characters that end a word for the jumps.
pub const STOPPERS: [char; 10] = ['/', ' ', '-', '_', ',', '"', '\'', ';', ':', '.'];

/// Whether `c` is one of `STOPPERS`.
pub fn stopper(c: char) -> (r: bool)
    ensures
        r == is_stopper(c),
{
    let mut i: usize = 0;
    while i < 10
        invariant
            i <= 10,
            STOPPERS@ == seq!['/', ' ', '-', '_', ',', '"', '\'', ';', ':', '.'],
            forall|k: int| 0 <= k < i ==> STOPPERS@[k] != c,
        decreases 10 - i,
    {
        if STOPPERS[i] == c {
            return true;
        }
        i = i + 1;
    }
    false
}

/// Where a forward word jump from gap `c` in `v` lands.
///
/// At the end it stays. When the character it looks at (the next one, or the
/// current one on the last index) is a space, it advances while the next
/// character is a space. Otherwise it advances while the next character is
/// not a stopper, then one step more: onto the gap after the last character
/// of the word, or the end of the buffer.
pub open spec fn is_right_jump(v: Seq<char>, c: int, r: int) -> bool {
    if c == v.len() {
        r == c
    } else if v[if c + 1 < v.len() { c + 1 } else { c }] == ' ' {
        &&& c <= r < v.len()
        &&& forall|k: int| c < k <= r ==> v[k] == ' '
        &&& !(r + 1 < v.len() && v[r + 1] == ' ')
    } else {
        &&& c + 1 <= r <= v.len()
        &&& forall|k: int| c < k < r ==> !is_stopper(v[k])
        &&& !(r < v.len() && !is_stopper(v[r]))
    }
}

/// Where a backward word jump from gap `c` in `v` lands.
///
/// At the start it stays. After a space it retreats while the character left
/// of the cursor is a space. Otherwise it retreats while the character left of
/// the cursor is not a stopper (never below gap 1 in that walk), then one step
/// more: just before the stopper that precedes the word, or at gap 0.
pub open spec fn is_left_jump(v: Seq<char>, c: int, r: int) -> bool {
    if c == 0 {
        r == 0
    } else if v[c - 1] == ' ' {
        &&& 0 <= r < c
        &&& forall|k: int| r <= k < c ==> v[k] == ' '
        &&& !(r > 0 && v[r - 1] == ' ')
    } else {
        &&& 0 <= r < c
        &&& forall|k: int| r + 1 <= k < c ==> !is_stopper(v[k])
        &&& !(r + 1 > 1 && !is_stopper(v[r]))
    }
}

/// The line being edited: its characters, the cursor, and the prompt shown
/// before it.
///
/// The cursor is a gap: `0` is before the first character, `values.len()`
/// after the last.
#[derive(Debug)]
pub struct Input {
    pub values: Vec<char>,
    pub cursor: usize,
    pub prompt: String,
    pub alt_screen: bool,
}

impl Input {
    /// The cursor lies within the buffer.
    pub open spec fn wf(&self) -> bool {
        self.cursor <= self.values.len()
    }

    /// Creates an empty buffer with the given prompt.
    pub fn new(prompt: &str, alt_screen: bool) -> (r: Self)
        ensures
            r.wf(),
            r.values@ == Seq::<char>::empty(),
            r.cursor == 0,
            r.prompt@ == prompt@,
            r.alt_screen == alt_screen,
    {
        Input { values: Vec::new(), cursor: 0, prompt: prompt.to_owned(), alt_screen }
    }

    /// Inserts `c` at the cursor, shifting what follows to the right, and
    /// moves the cursor past it.
    pub fn put_char(&mut self, c: char)
        requires
            old(self).wf(),
            old(self).values.len() < usize::MAX,
        ensures
            final(self).wf(),
            final(self).values@ == old(self).values@.insert(old(self).cursor as int, c),
            final(self).cursor == old(self).cursor + 1,
            final(self).prompt == old(self).prompt,
            final(self).alt_screen == old(self).alt_screen,
    {
        if self.values.len() == 0 || self.cursor == self.values.len() {
            self.values.push(c);
            assert(self.values@ =~= old(self).values@.insert(old(self).cursor as int, c));
        } else {
            self.values.insert(self.cursor, c);
        }
        self.cursor = self.cursor + 1;
    }

    /// Submits the line: records it in `h` (see `History::push`), hands its
    /// text to `user_input` and empties the buffer.
    pub fn cr_lf(&mut self, h: &mut History, user_input: &mut String)
        requires
            old(self).wf(),
            old(h).wf(),
        ensures
            final(self).wf(),
            final(h).wf(),
            final(h).entries() == old(h).submitted(old(self).values@),
            final(h).temp is None,
            final(h).cursor == final(h).values.len(),
            final(user_input)@ == old(self).values@,
            final(self).values@ == Seq::<char>::empty(),
            final(self).cursor == 0,
            final(self).prompt == old(self).prompt,
            final(self).alt_screen == old(self).alt_screen,
    {
        let line = self.values.clone();
        assert(line@ =~= self.values@);
        h.push(line);
        *user_input = collect_chars(&self.values);
        self.values.clear();
        self.cursor = 0;
    }

    /// Deletes the character left of the cursor; nothing at the start.
    pub fn backspace(&mut self)
        requires
            old(self).wf(),
        ensures
            final(self).wf(),
            old(self).cursor == 0 ==> *final(self) == *old(self),
            old(self).cursor > 0 ==> final(self).values@ == old(self).values@.remove(
                old(self).cursor - 1,
            ) && final(self).cursor == old(self).cursor - 1,
            final(self).prompt == old(self).prompt,
            final(self).alt_screen == old(self).alt_screen,
    {
        if self.values.len() == 0 || self.cursor == 0 {
            return;
        }
        self.values.remove(self.cursor - 1);
        self.cursor = self.cursor - 1;
    }

    /// Moves the cursor one cell right; false at the end.
    pub fn to_the_right(&mut self) -> (r: bool)
        requires
            old(self).wf(),
        ensures
            final(self).wf(),
            r == (old(self).cursor < old(self).values.len()),
            final(self).cursor == if r { old(self).cursor + 1 } else { old(self).cursor as int },
            final(self).values == old(self).values,
            final(self).prompt == old(self).prompt,
            final(self).alt_screen == old(self).alt_screen,
    {
        if self.values.len() == 0 || self.cursor == self.values.len() {
            return false;
        }
        self.cursor = self.cursor + 1;
        true
    }

    /// Moves the cursor one cell left; false at the start.
    pub fn to_the_left(&mut self) -> (r: bool)
        requires
            old(self).wf(),
        ensures
            final(self).wf(),
            r == (old(self).cursor > 0),
            final(self).cursor == if r { old(self).cursor - 1 } else { old(self).cursor as int },
            final(self).values == old(self).values,
            final(self).prompt == old(self).prompt,
            final(self).alt_screen == old(self).alt_screen,
    {
        if self.values.len() == 0 || self.cursor == 0 {
            return false;
        }
        self.cursor = self.cursor - 1;
        true
    }

    /// Moves the cursor after the last character and returns how far it
    /// moved.
    pub fn to_end(&mut self) -> (r: usize)
        requires
            old(self).wf(),
        ensures
            final(self).wf(),
            r == old(self).values.len() - old(self).cursor,
            final(self).cursor == old(self).values.len(),
            final(self).values == old(self).values,
            final(self).prompt == old(self).prompt,
            final(self).alt_screen == old(self).alt_screen,
    {
        let diff = self.values.len() - self.cursor;
        if diff > 0 {
            self.cursor = self.values.len();
        }
        diff
    }

    /// The buffer with its cursor moved to the start.
    pub open spec fn homed(self) -> Input {
        Input { cursor: 0, ..self }
    }

    /// Moves the cursor before the first character; false if it was there.
    pub fn to_home(&mut self) -> (r: bool)
        requires
            old(self).wf(),
        ensures
            final(self).wf(),
            r == (old(self).cursor != 0),
            *final(self) == old(self).homed(),
    {
        if self.cursor == 0 {
            return false;
        }
        self.cursor = 0;
        true
    }

    /// Empties the buffer.
    pub fn clear_line(&mut self)
        requires
            old(self).wf(),
        ensures
            final(self).wf(),
            final(self).values@ == Seq::<char>::empty(),
            final(self).cursor == 0,
            final(self).prompt == old(self).prompt,
            final(self).alt_screen == old(self).alt_screen,
    {
        self.cursor = 0;
        self.values.clear();
    }

    /// Drops the characters right of the cursor.
    pub fn clear_right(&mut self)
        requires
            old(self).wf(),
        ensures
            final(self).wf(),
            final(self).values@ == old(self).values@.subrange(0, old(self).cursor as int),
            final(self).cursor == old(self).cursor,
            final(self).prompt == old(self).prompt,
            final(self).alt_screen == old(self).alt_screen,
    {
        self.values.truncate(self.cursor);
    }

    /// Drops the characters left of the cursor and moves it to the start.
    pub fn clear_left(&mut self)
        requires
            old(self).wf(),
        ensures
            final(self).wf(),
            final(self).values@ == old(self).values@.subrange(
                old(self).cursor as int,
                old(self).values.len() as int,
            ),
            final(self).cursor == 0,
            final(self).prompt == old(self).prompt,
            final(self).alt_screen == old(self).alt_screen,
    {
        let rest = self.values.split_off(self.cursor);
        self.values = rest;
        self.cursor = 0;
    }

    /// Replaces the prompt.
    pub fn overwrite_prompt(&mut self, new_prompt: &str)
        requires
            old(self).wf(),
        ensures
            final(self).wf(),
            final(self).prompt@ == new_prompt@,
            final(self).values == old(self).values,
            final(self).cursor == old(self).cursor,
            final(self).alt_screen == old(self).alt_screen,
    {
        self.prompt = new_prompt.to_owned();
    }

    /// Moves the cursor forward past the current word (see `is_right_jump`).
    pub fn to_right_jump(&mut self)
        requires
            old(self).wf(),
        ensures
            final(self).wf(),
            final(self).values == old(self).values,
            is_right_jump(old(self).values@, old(self).cursor as int, final(self).cursor as int),
            final(self).prompt == old(self).prompt,
            final(self).alt_screen == old(self).alt_screen,
    {
        let len = self.values.len();
        if self.cursor == len {
            return;
        }
        let start = self.cursor;
        let look = if self.cursor + 1 < len {
            self.cursor + 1
        } else {
            self.cursor
        };
        if self.values[look] == ' ' {
            while self.cursor + 1 < len && self.values[self.cursor + 1] == ' '
                invariant
                    len == self.values.len(),
                    start <= self.cursor < len,
                    self.values == old(self).values,
                    self.prompt == old(self).prompt,
                    self.alt_screen == old(self).alt_screen,
                    forall|k: int| start < k <= self.cursor ==> self.values@[k] == ' ',
                decreases len - self.cursor,
            {
                self.cursor = self.cursor + 1;
            }
        } else {
            while self.cursor + 1 < len && !stopper(self.values[self.cursor + 1])
                invariant
                    len == self.values.len(),
                    start <= self.cursor < len,
                    self.values == old(self).values,
                    self.prompt == old(self).prompt,
                    self.alt_screen == old(self).alt_screen,
                    forall|k: int| start < k <= self.cursor ==> !is_stopper(self.values@[k]),
                decreases len - self.cursor,
            {
                self.cursor = self.cursor + 1;
            }
            self.cursor = self.cursor + 1;
        }
    }

    /// Moves the cursor back to the start of the current word (see
    /// `is_left_jump`).
    pub fn to_left_jump(&mut self)
        requires
            old(self).wf(),
        ensures
            final(self).wf(),
            final(self).values == old(self).values,
            is_left_jump(old(self).values@, old(self).cursor as int, final(self).cursor as int),
            final(self).prompt == old(self).prompt,
            final(self).alt_screen == old(self).alt_screen,
    {
        if self.cursor == 0 {
            return;
        }
        let start = self.cursor;
        if self.values[self.cursor - 1] == ' ' {
            while self.cursor > 0 && self.values[self.cursor - 1] == ' '
                invariant
                    self.cursor <= start <= self.values.len(),
                    self.values == old(self).values,
                    self.prompt == old(self).prompt,
                    self.alt_screen == old(self).alt_screen,
                    self.values@[start - 1] == ' ',
                    forall|k: int| self.cursor <= k < start ==> self.values@[k] == ' ',
                decreases self.cursor,
            {
                self.cursor = self.cursor - 1;
            }
        } else {
            while self.cursor > 1 && !stopper(self.values[self.cursor - 1])
                invariant
                    1 <= self.cursor <= start <= self.values.len(),
                    self.values == old(self).values,
                    self.prompt == old(self).prompt,
                    self.alt_screen == old(self).alt_screen,
                    forall|k: int| self.cursor <= k < start ==> !is_stopper(self.values@[k]),
                decreases self.cursor,
            {
                self.cursor = self.cursor - 1;
            }
            self.cursor = self.cursor - 1;
        }
    }
}

/// The buffer and cursor after typing `s` one character at a time, starting
/// from buffer `v` with cursor `c`.
pub open spec fn typed(v: Seq<char>, c: int, s: Seq<char>) -> (Seq<char>, int)
    decreases s.len(),
{
    if s.len() == 0 {
        (v, c)
    } else {
        let (w, d) = typed(v, c, s.drop_last());
        (w.insert(d, s.last()), d + 1)
    }
}

proof fn lemma_typed_at_end(v: Seq<char>, s: Seq<char>)
    ensures
        typed(v, v.len() as int, s) == (v + s, (v.len() + s.len()) as int),
    decreases s.len(),
{
    if s.len() > 0 {
        lemma_typed_at_end(v, s.drop_last());
        let d = v.len() + s.len() - 1;
        assert((v + s.drop_last()).insert(d, s.last()) =~= v + s);
    }
}

/// Typing characters at the end of a buffer appends them in order and leaves
/// the cursor after them; from an empty buffer, the buffer then reads back
/// exactly what was typed.
pub proof fn lemma_typed_round_trip(v: Seq<char>, s: Seq<char>)
    ensures
        typed(v, v.len() as int, s) == (v + s, (v.len() + s.len()) as int),
        typed(Seq::empty(), 0, s) == (s, s.len() as int),
{
    lemma_typed_at_end(v, s);
    lemma_typed_at_end(Seq::empty(), s);
    assert(Seq::<char>::empty() + s =~= s);
}

/// Moving home twice: the second move finds the cursor at the start, so it
/// reports no movement and changes nothing.
pub proof fn lemma_to_home_idempotent(i: Input)
    ensures
        i.homed().cursor == 0,
        i.homed().homed() == i.homed(),
{
}

} // verus!
