use vstd::prelude::*;

verus! {

/// Whether `s` holds a character other than a space.
pub open spec fn has_non_space(s: Seq<char>) -> bool {
    exists|k: int| 0 <= k < s.len() && s[k] != ' '
}

/// The lines submitted so far, oldest first, and the position of a history
/// walk.
///
/// `cursor == values.len()` is the live position: the line being typed, whose
/// draft `temp` keeps while older entries are shown.
#[derive(Debug)]
pub struct History {
    pub values: Vec<Vec<char>>,
    pub cursor: usize,
    pub temp: Option<Vec<char>>,
}

impl History {
    /// The entries as character sequences.
    pub open spec fn entries(&self) -> Seq<Seq<char>> {
        self.values@.map_values(|v: Vec<char>| v@)
    }

    /// The saved draft, if any.
    pub open spec fn draft(&self) -> Option<Seq<char>> {
        match self.temp {
            Some(v) => Some(v@),
            None => None,
        }
    }

    /// The cursor lies within the entries, a draft is saved whenever the walk
    /// has left the live position, and the entries are distinct and not blank.
    pub open spec fn wf(&self) -> bool {
        &&& self.cursor <= self.values.len()
        &&& self.cursor < self.values.len() ==> self.temp is Some
        &&& forall|i: int| 0 <= i < self.values.len() ==> has_non_space(#[trigger] self.values@[i]@)
        &&& forall|i: int, j: int|
            0 <= i < j < self.values.len() ==> #[trigger] self.values@[i]@ != #[trigger] self.values@[j]@
    }

    /// Whether submitting `v` adds it: it is not blank and not yet an entry.
    pub open spec fn admits(&self, v: Seq<char>) -> bool {
        has_non_space(v) && !self.entries().contains(v)
    }

    /// The entries after submitting `v`.
    pub open spec fn submitted(&self, v: Seq<char>) -> Seq<Seq<char>> {
        if self.admits(v) {
            self.entries().push(v)
        } else {
            self.entries()
        }
    }

    /// Creates an empty history at the live position.
    pub fn new() -> (r: Self)
        ensures
            r.wf(),
            r.values@ == Seq::<Vec<char>>::empty(),
            r.cursor == 0,
            r.temp is None,
    {
        History { values: Vec::new(), cursor: 0, temp: None }
    }

    /// Shows the entry before the current one in `value` and steps back;
    /// false at the oldest entry. Leaving the live position saves `value` as
    /// the draft.
    pub fn prev(&mut self, value: &mut Vec<char>) -> (r: bool)
        requires
            old(self).wf(),
        ensures
            final(self).wf(),
            r == (old(self).cursor > 0),
            !r ==> *final(self) == *old(self) && *final(value) == *old(value),
            r ==> final(self).cursor == old(self).cursor - 1 && final(value)@ == old(
                self,
            ).entries()[old(self).cursor - 1] && final(self).values == old(self).values && (if old(
                self,
            ).temp is None || old(self).cursor == old(self).values.len() {
                final(self).draft() == Some(old(value)@)
            } else {
                final(self).temp == old(self).temp
            }),
    {
        if self.cursor == 0 {
            return false;
        }
        if self.temp.is_none() || self.cursor == self.values.len() {
            self.temp = Some(value.clone());
            assert(self.draft()->0 =~= old(value)@);
        }
        *value = self.values[self.cursor - 1].clone();
        assert(value@ =~= self.values@[self.cursor - 1]@);
        self.cursor = self.cursor - 1;
        true
    }

    /// Shows the entry after the current one in `value` and steps forward;
    /// false at the live position. Reaching the live position restores the
    /// draft.
    pub fn next(&mut self, value: &mut Vec<char>) -> (r: bool)
        requires
            old(self).wf(),
        ensures
            final(self).wf(),
            r == (old(self).cursor < old(self).values.len()),
            !r ==> *final(self) == *old(self) && *final(value) == *old(value),
            r ==> final(self).cursor == old(self).cursor + 1 && final(self).values == old(
                self,
            ).values && final(self).temp == old(self).temp && final(value)@ == (if old(
                self,
            ).cursor + 1 == old(self).values.len() {
                old(self).draft()->0
            } else {
                old(self).entries()[old(self).cursor + 1]
            }),
    {
        if self.cursor == self.values.len() {
            return false;
        }
        if self.cursor + 1 == self.values.len() {
            match &self.temp {
                Some(t) => {
                    *value = t.clone();
                    assert(value@ =~= t@);
                },
                None => {},
            }
        } else {
            *value = self.values[self.cursor + 1].clone();
            assert(value@ =~= self.values@[self.cursor + 1]@);
        }
        self.cursor = self.cursor + 1;
        true
    }

    /// Adds `value` unless it is blank or already an entry, then drops the
    /// draft and returns to the live position.
    pub fn push(&mut self, value: Vec<char>)
        requires
            old(self).wf(),
        ensures
            final(self).wf(),
            final(self).entries() == old(self).submitted(value@),
            final(self).temp is None,
            final(self).cursor == final(self).values.len(),
    {
        let blank = !has_non_space_exec(&value);
        let present = contains_entry(&self.values, &value);
        if !blank && !present {
            let ghost before = self.values@;
            proof {
                assert forall|i: int| 0 <= i < before.len() implies before[i]@ != value@ by {
                    assert(old(self).entries()[i] == before[i]@);
                }
            }
            self.values.push(value);
            assert(self.entries() =~= old(self).entries().push(value@));
        }
        self.temp = None;
        self.cursor = self.values.len();
    }
}

/// Whether `v` holds a character other than a space.
fn has_non_space_exec(v: &Vec<char>) -> (r: bool)
    ensures
        r == has_non_space(v@),
{
    let mut i: usize = 0;
    while i < v.len()
        invariant
            i <= v.len(),
            forall|k: int| 0 <= k < i ==> v@[k] == ' ',
        decreases v.len() - i,
    {
        if v[i] != ' ' {
            return true;
        }
        i = i + 1;
    }
    false
}

/// Whether `a` and `b` hold the same characters.
fn same_chars(a: &Vec<char>, b: &Vec<char>) -> (r: bool)
    ensures
        r == (a@ == b@),
{
    if a.len() != b.len() {
        return false;
    }
    let mut i: usize = 0;
    while i < a.len()
        invariant
            i <= a.len() == b.len(),
            forall|k: int| 0 <= k < i ==> a@[k] == b@[k],
        decreases a.len() - i,
    {
        if a[i] != b[i] {
            return false;
        }
        i = i + 1;
    }
    assert(a@ =~= b@);
    true
}

/// Whether one of `values` holds the same characters as `v`.
fn contains_entry(values: &Vec<Vec<char>>, v: &Vec<char>) -> (r: bool)
    ensures
        r == values@.map_values(|e: Vec<char>| e@).contains(v@),
{
    let mut i: usize = 0;
    while i < values.len()
        invariant
            i <= values.len(),
            forall|k: int| 0 <= k < i ==> values@[k]@ != v@,
        decreases values.len() - i,
    {
        if same_chars(&values[i], v) {
            assert(values@.map_values(|e: Vec<char>| e@)[i as int] == v@);
            return true;
        }
        i = i + 1;
    }
    let ghost seen = values@.map_values(|e: Vec<char>| e@);
    assert(!seen.contains(v@)) by {
        if seen.contains(v@) {
            let k = choose|k: int| 0 <= k < seen.len() && #[trigger] seen[k] == v@;
            assert(values@[k]@ == v@);
        }
    }
    false
}

/// Submitting the same non-blank line twice leaves exactly one entry with it:
/// after the first submission it is present, so the second adds nothing.
pub proof fn lemma_submit_twice_once(h0: History, h1: History, v: Seq<char>)
    requires
        h0.wf(),
        h1.wf(),
        has_non_space(v),
        h1.entries() == h0.submitted(v),
    ensures
        h1.submitted(v) == h1.entries(),
        exists|i: int|
            0 <= i < h1.entries().len() && h1.entries()[i] == v && forall|j: int|
                0 <= j < h1.entries().len() && #[trigger] h1.entries()[j] == v ==> j == i,
{
    let e = h1.entries();
    let i = if h0.admits(v) {
        e.len() - 1
    } else {
        choose|k: int| 0 <= k < h0.entries().len() && #[trigger] h0.entries()[k] == v
    };
    assert(e[i] == v);
    assert(e.contains(v));
    assert forall|j: int| 0 <= j < e.len() && #[trigger] e[j] == v implies j == i by {
        if j != i {
            assert(h1.values@[i]@ == e[i]);
            assert(h1.values@[j]@ == e[j]);
            if j < i {
                assert(h1.values@[j]@ != h1.values@[i]@);
            } else {
                assert(h1.values@[i]@ != h1.values@[j]@);
            }
        }
    }
}

/// A line of spaces alone is never added: submitting it leaves the entries as
/// they are.
pub proof fn lemma_blank_rejected(h: History, v: Seq<char>)
    requires
        forall|k: int| 0 <= k < v.len() ==> v[k] == ' ',
    ensures
        !h.admits(v),
        h.submitted(v) == h.entries(),
{
}

} // verus!
