//! The history of entered lines, walked with the arrow keys.

use vstd::prelude::*;

verus! {

/// What a history holds: the entered lines, oldest first, and the
/// position that the arrow keys walk.
#[verifier::ext_equal]
pub struct HistoryModel {
    pub entries: Seq<Seq<char>>,
    pub position: nat,
}

impl HistoryModel {
    /// The entry at `i`, or the empty text past the end.
    pub open spec fn entry_at(self, i: int) -> Seq<char> {
        if 0 <= i < self.entries.len() {
            self.entries[i]
        } else {
            Seq::empty()
        }
    }

    /// The state after the down arrow: one step on, at most to just past
    /// the last entry.
    pub open spec fn down(self) -> HistoryModel {
        HistoryModel {
            entries: self.entries,
            position: if self.position + 1 > self.entries.len() {
                self.entries.len()
            } else {
                self.position + 1
            },
        }
    }

    /// What the down arrow shows: the entry at the new position.
    pub open spec fn down_result(self) -> Seq<char> {
        self.down().entry_at(self.down().position as int)
    }

    /// The state after the up arrow: one step back, not below the first
    /// entry.
    pub open spec fn up(self) -> HistoryModel {
        HistoryModel {
            entries: self.entries,
            position: if self.position >= 1 {
                (self.position - 1) as nat
            } else {
                self.position
            },
        }
    }

    /// What the up arrow shows: the entry at the position before the step.
    pub open spec fn up_result(self) -> Seq<char> {
        self.entry_at(self.position as int)
    }

    /// The position moved to the most recent entry, where there is one.
    pub open spec fn go_to_last(self) -> HistoryModel {
        HistoryModel {
            entries: self.entries,
            position: if self.entries.len() > 0 {
                (self.entries.len() - 1) as nat
            } else {
                self.position
            },
        }
    }

    /// A new entry recorded, with the position one step on.
    pub open spec fn push(self, line: Seq<char>) -> HistoryModel {
        HistoryModel { entries: self.entries.push(line), position: self.position + 1 }
    }

    /// The empty history.
    pub open spec fn initial() -> HistoryModel {
        HistoryModel { entries: Seq::empty(), position: 0 }
    }
}

impl HistoryModel {
    /// The state after the down arrow pressed `n` times.
    pub open spec fn downs(self, n: nat) -> HistoryModel
        decreases n,
    {
        if n == 0 {
            self
        } else {
            self.downs((n - 1) as nat).down()
        }
    }

    /// The position is on an entry or just past the last one.
    pub open spec fn in_range(self) -> bool {
        self.position <= self.entries.len()
    }
}

/// Walking and recording keep the position on an entry or just past the
/// last one.
pub proof fn lemma_walk_stays_in_range(m: HistoryModel, line: Seq<char>)
    requires
        m.in_range(),
    ensures
        m.up().in_range(),
        m.down().in_range(),
        m.go_to_last().in_range(),
        m.push(line).in_range(),
{
}

/// Once a line is recorded and the history sent to its most recent entry,
/// the up arrow brings that line back.
pub proof fn lemma_up_recalls_last_entry(m: HistoryModel, line: Seq<char>)
    ensures
        m.push(line).go_to_last().up_result() == line,
{
}

/// Right after the up arrow, the down arrow shows again the entry that the
/// up arrow showed (unless the up arrow was already at the first entry).
pub proof fn lemma_down_undoes_up(m: HistoryModel)
    requires
        m.in_range(),
        m.position >= 1,
    ensures
        m.up().down_result() == m.up_result(),
        m.up().down().position == m.position,
{
}

/// Each press of the down arrow moves one step on until just past the
/// last entry.
pub proof fn lemma_downs_position(m: HistoryModel, n: nat)
    requires
        m.in_range(),
    ensures
        m.downs(n).entries == m.entries,
        m.downs(n).position == if m.position + n > m.entries.len() {
            m.entries.len()
        } else {
            m.position + n
        },
    decreases n,
{
    if n > 0 {
        lemma_downs_position(m, (n - 1) as nat);
    }
}

/// Once the down arrow has been pressed as often as there are entries
/// after the position, it stays just past the last entry and shows the
/// empty text.
pub proof fn lemma_downs_reach_the_end(m: HistoryModel, n: nat)
    requires
        m.in_range(),
        m.position + n >= m.entries.len(),
    ensures
        m.downs(n).position == m.entries.len(),
        m.downs(n).down() == m.downs(n),
        m.downs(n).down_result() == Seq::<char>::empty(),
{
    lemma_downs_position(m, n);
}

/// `line_idx` numbers the prompts `0, 1, ..., n`.
pub open spec fn numbered_up_to(line_idx: Seq<usize>, n: nat) -> bool {
    &&& line_idx.len() == n + 1
    &&& forall|i: int| 0 <= i < line_idx.len() ==> #[trigger] line_idx[i] == i
}

pub struct History {
    buffer_vec: Vec<String>,
    line_idx: Vec<usize>,
    cursor: usize,
    empty: String,
}

impl View for History {
    type V = HistoryModel;

    closed spec fn view(&self) -> HistoryModel {
        HistoryModel {
            entries: self.buffer_vec@.map_values(|s: String| s@),
            position: self.cursor as nat,
        }
    }
}

impl Default for History {
    fn default() -> (h: Self)
        ensures
            h.wf(),
            h@ == HistoryModel::initial(),
            h.prompt_numbers() == seq![0usize],
    {
        let h = Self {
            line_idx: vec![0],
            buffer_vec: Vec::new(),
            cursor: 0,
            empty: String::new(),
        };
        assert(h@.entries =~= Seq::<Seq<char>>::empty());
        h
    }
}

impl History {
    /// The prompt numbers handed out so far.
    pub closed spec fn prompt_numbers(&self) -> Seq<usize> {
        self.line_idx@
    }

    /// The position stays within the entries (or just past them), the
    /// prompt numbers run from zero to the number of entries, and the
    /// filler for missing entries is empty.
    pub closed spec fn wf(&self) -> bool {
        &&& self.cursor <= self.buffer_vec.len()
        &&& numbered_up_to(self.line_idx@, self.buffer_vec.len() as nat)
        &&& self.empty@ == Seq::<char>::empty()
    }

    /// In a well-formed history the prompt numbers run from zero to the
    /// number of entries.
    pub proof fn lemma_prompt_numbers(&self)
        requires
            self.wf(),
        ensures
            numbered_up_to(self.prompt_numbers(), self@.entries.len()),
            self@.position <= self@.entries.len(),
    {
    }

    /// The entries, oldest first.
    pub fn buffer_vec(&self) -> (v: &Vec<String>)
        ensures
            crate::text::string_views(v@) == self@.entries,
    {
        proof {
            self.lemma_view_len();
        }
        assert(crate::text::string_views(self.buffer_vec@) =~= self@.entries);
        &self.buffer_vec
    }

    /// The prompt numbers handed out so far.
    pub fn line_idx(&self) -> (v: &Vec<usize>)
        ensures
            v@ == self.prompt_numbers(),
    {
        &self.line_idx
    }

    /// The number of entries.
    pub fn len(&self) -> (n: usize)
        ensures
            n == self@.entries.len(),
    {
        self.buffer_vec.len()
    }

    proof fn lemma_view_len(&self)
        ensures
            self@.entries.len() == self.buffer_vec.len(),
            self@.position == self.cursor,
            forall|i: int| 0 <= i < self.buffer_vec.len() ==> self@.entries[i] == #[trigger] self.buffer_vec@[i]@,
    {
    }

    fn entry(&self, i: usize) -> (res: String)
        requires
            self.wf(),
        ensures
            res@ == self@.entry_at(i as int),
    {
        proof {
            self.lemma_view_len();
        }
        if i < self.buffer_vec.len() {
            self.buffer_vec[i].clone()
        } else {
            self.empty.clone()
        }
    }

    /// The length in bytes of the entry that `up` would return.
    pub fn up_entry_len(&self) -> (n: usize)
        requires
            self.wf(),
        ensures
            n == crate::text::byte_len(self@.up_result()),
    {
        crate::text::byte_length(self.entry(self.cursor).as_str())
    }

    /// The length in bytes of the entry that `down` would return.
    pub fn down_entry_len(&self) -> (n: usize)
        requires
            self.wf(),
        ensures
            n == crate::text::byte_len(self@.down_result()),
    {
        proof {
            self.lemma_view_len();
        }
        let next = if self.cursor < self.buffer_vec.len() { self.cursor + 1 } else { self.cursor };
        crate::text::byte_length(self.entry(next).as_str())
    }

    /// Steps forward and returns the entry reached (empty past the end).
    pub fn down(&mut self) -> (res: String)
        requires
            old(self).wf(),
        ensures
            final(self).wf(),
            final(self)@ == old(self)@.down(),
            res@ == old(self)@.down_result(),
            final(self).prompt_numbers() == old(self).prompt_numbers(),
    {
        proof {
            self.lemma_view_len();
        }
        // one step on, but never past the end
        if self.cursor < self.buffer_vec.len() {
            self.cursor = self.cursor + 1;
        }
        proof {
            self.lemma_view_len();
        }
        self.entry(self.cursor)
    }

    /// Returns the entry at the position (empty past the end), then steps
    /// back unless already at the first entry.
    pub fn up(&mut self) -> (res: String)
        requires
            old(self).wf(),
        ensures
            final(self).wf(),
            final(self)@ == old(self)@.up(),
            res@ == old(self)@.up_result(),
            final(self).prompt_numbers() == old(self).prompt_numbers(),
    {
        proof {
            self.lemma_view_len();
        }
        let res = self.entry(self.cursor);
        if self.cursor >= 1 {
            self.cursor = self.cursor - 1;
        }
        res
    }

    /// Moves the position to the most recent entry.
    pub fn go_to_last(&mut self)
        requires
            old(self).wf(),
        ensures
            final(self).wf(),
            final(self)@ == old(self)@.go_to_last(),
            final(self).prompt_numbers() == old(self).prompt_numbers(),
    {
        proof {
            self.lemma_view_len();
        }
        if !self.buffer_vec.is_empty() {
            self.cursor = self.buffer_vec.len() - 1;
        }
    }

    /// Records an entered line and numbers the next prompt.
    pub fn push(&mut self, buffer: String)
        requires
            old(self).wf(),
            old(self)@.entries.len() < usize::MAX,
        ensures
            final(self).wf(),
            final(self)@ == old(self)@.push(buffer@),
            final(self).prompt_numbers() == old(self).prompt_numbers().push(
                (old(self)@.entries.len() + 1) as usize,
            ),
    {
        proof {
            self.lemma_view_len();
        }
        let ghost old_entries = self@.entries;
        self.buffer_vec.push(buffer);
        self.cursor = self.cursor + 1;
        self.increase_line_idx();
        proof {
            self.lemma_view_len();
            assert(self@.entries =~= old_entries.push(buffer@));
        }
    }

    fn increase_line_idx(&mut self)
        requires
            numbered_up_to(old(self).line_idx@, (old(self).buffer_vec.len() - 1) as nat),
            old(self).buffer_vec.len() >= 1,
        ensures
            numbered_up_to(final(self).line_idx@, old(self).buffer_vec.len() as nat),
            final(self).line_idx@ == old(self).line_idx@.push(old(self).buffer_vec.len() as usize),
            final(self).buffer_vec == old(self).buffer_vec,
            final(self).cursor == old(self).cursor,
            final(self).empty == old(self).empty,
    {
        let next = self.last_idx() + 1;
        self.line_idx.push(next);
    }

    /// The number shown in the current prompt: the last prompt number.
    pub fn last_idx(&self) -> (idx: usize)
        requires
            self.prompt_numbers().len() > 0,
        ensures
            idx == self.prompt_numbers().last(),
            self.wf() ==> idx == self@.entries.len(),
    {
        proof {
            self.lemma_view_len();
        }
        self.line_idx[self.line_idx.len() - 1]
    }

    /// Forgets every entry.
    pub fn reset(&mut self)
        ensures
            final(self).wf(),
            final(self)@ == HistoryModel::initial(),
            final(self).prompt_numbers() == seq![0usize],
    {
        *self = Self::default();
    }
}

} // verus!
