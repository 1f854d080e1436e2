use vstd::prelude::*;

use crate::item::{Item, ItemModel};

verus! {

/// One of the three fixed sections of a status snapshot, in display order.
#[derive(Clone, Copy, PartialEq, Eq, Structural, Debug)]
pub enum Section {
    Untracked,
    Unstaged,
    Staged,
}

/// The parsed state of the working tree: a branch name, three ordered
/// sections of entries, and a single cursor over their concatenation.
#[derive(Debug)]
pub struct Status {
    pub branch: String,
    pub untracked: Vec<Item>,
    pub unstaged: Vec<Item>,
    pub staged: Vec<Item>,
    pub cursor: usize,
}

/// The mathematical model of a `Status`.
#[verifier::ext_equal]
pub ghost struct StatusModel {
    pub branch: Seq<char>,
    pub untracked: Seq<ItemModel>,
    pub unstaged: Seq<ItemModel>,
    pub staged: Seq<ItemModel>,
    pub cursor: int,
}

impl View for Status {
    type V = StatusModel;

    open spec fn view(&self) -> StatusModel {
        StatusModel {
            branch: self.branch@,
            untracked: self.untracked@.map_values(|it: Item| it@),
            unstaged: self.unstaged@.map_values(|it: Item| it@),
            staged: self.staged@.map_values(|it: Item| it@),
            cursor: self.cursor as int,
        }
    }
}

impl StatusModel {
    /// Number of entries over all three sections.
    pub open spec fn total(self) -> int {
        self.untracked.len() + self.unstaged.len() + self.staged.len() as int
    }

    /// The logical concatenation the cursor addresses.
    pub open spec fn entries(self) -> Seq<ItemModel> {
        self.untracked + self.unstaged + self.staged
    }

    /// The entries of one section.
    pub open spec fn section_entries(self, sec: Section) -> Seq<ItemModel> {
        match sec {
            Section::Untracked => self.untracked,
            Section::Unstaged => self.unstaged,
            Section::Staged => self.staged,
        }
    }

    /// Index in the concatenation of the first entry of a section.
    pub open spec fn section_base(self, sec: Section) -> int {
        match sec {
            Section::Untracked => 0,
            Section::Unstaged => self.untracked.len() as int,
            Section::Staged => self.untracked.len() + self.unstaged.len() as int,
        }
    }

    /// The snapshot invariant: the cursor stays inside the concatenation,
    /// or at zero when there is nothing to address, and the entry count
    /// fits the machine.
    pub open spec fn wf(self) -> bool {
        &&& self.total() <= usize::MAX
        &&& if self.total() == 0 {
            self.cursor == 0
        } else {
            0 <= self.cursor < self.total()
        }
    }
}

/// Which section, and which index inside it, a concatenation index
/// addresses: the first `untracked.len()` indices fall in the untracked
/// section, the next `unstaged.len()` in the unstaged one, the rest in
/// the staged one.
pub open spec fn spec_locate(v: StatusModel, i: int) -> (Section, int) {
    if i < v.untracked.len() {
        (Section::Untracked, i)
    } else if i - v.untracked.len() < v.unstaged.len() {
        (Section::Unstaged, i - v.untracked.len())
    } else {
        (Section::Staged, i - v.untracked.len() - v.unstaged.len())
    }
}

/// Where the cursor stands after one step down: forward by one, clamped
/// to the last entry, and unmoved on an empty snapshot.
pub open spec fn spec_down(v: StatusModel) -> StatusModel {
    StatusModel {
        cursor: if v.total() == 0 {
            v.cursor
        } else if v.cursor + 1 < v.total() {
            v.cursor + 1
        } else {
            v.total() - 1
        },
        ..v
    }
}

/// Where the cursor stands after one step up: back by one, clamped to the
/// first entry.
pub open spec fn spec_up(v: StatusModel) -> StatusModel {
    StatusModel {
        cursor: if v.cursor > 0 {
            v.cursor - 1
        } else {
            0
        },
        ..v
    }
}

/// The same entry with its expansion flag flipped.
pub open spec fn spec_flip(e: ItemModel) -> ItemModel {
    ItemModel { expanded: !e.expanded, ..e }
}

/// What toggling under the cursor does to a snapshot: nothing on an empty
/// one, otherwise exactly the addressed entry has its flag flipped.
pub open spec fn spec_toggle(v: StatusModel) -> StatusModel {
    if v.total() == 0 {
        v
    } else {
        let sec = spec_locate(v, v.cursor).0;
        let j = spec_locate(v, v.cursor).1;
        match sec {
            Section::Untracked => StatusModel {
                untracked: v.untracked.update(j, spec_flip(v.untracked[j])),
                ..v
            },
            Section::Unstaged => StatusModel {
                unstaged: v.unstaged.update(j, spec_flip(v.unstaged[j])),
                ..v
            },
            Section::Staged => StatusModel {
                staged: v.staged.update(j, spec_flip(v.staged[j])),
                ..v
            },
        }
    }
}

impl Status {
    /// An empty snapshot for the given branch name.
    pub fn empty(branch: String) -> (r: Self)
        ensures
            r@.branch == branch@,
            r@.untracked.len() == 0,
            r@.unstaged.len() == 0,
            r@.staged.len() == 0,
            r@.cursor == 0,
            r@.wf(),
    {
        Status {
            branch,
            untracked: Vec::new(),
            unstaged: Vec::new(),
            staged: Vec::new(),
            cursor: 0,
        }
    }

    /// Number of entries over all three sections.
    pub fn len(&self) -> (r: usize)
        requires
            self@.total() <= usize::MAX,
        ensures
            r == self@.total(),
    {
        self.untracked.len() + self.unstaged.len() + self.staged.len()
    }

    /// Move the cursor one row down, clamped to the last entry; a no-op on
    /// an empty snapshot.
    pub fn move_down(&mut self)
        requires
            old(self)@.wf(),
        ensures
            final(self)@ == spec_down(old(self)@),
            final(self)@.wf(),
    {
        let total = self.len();
        if total > 0 && self.cursor + 1 < total {
            self.cursor = self.cursor + 1;
        } else if total > 0 {
            self.cursor = total - 1;
        }
        proof {
            assert(self@ =~~= spec_down(old(self)@));
        }
    }

    /// Move the cursor one row up, clamped to the first entry.
    pub fn move_up(&mut self)
        requires
            old(self)@.wf(),
        ensures
            final(self)@ == spec_up(old(self)@),
            final(self)@.wf(),
    {
        if self.cursor > 0 {
            self.cursor = self.cursor - 1;
        }
        proof {
            assert(self@ =~~= spec_up(old(self)@));
        }
    }

    /// Which section, and which index inside it, concatenation index `i`
    /// addresses. Recomputed from the section lengths on every call, never
    /// cached.
    pub fn index_to_entry(&self, i: usize) -> (r: (Section, usize))
        requires
            self@.total() <= usize::MAX,
            i < self@.total(),
        ensures
            r.0 == spec_locate(self@, i as int).0,
            r.1 as int == spec_locate(self@, i as int).1,
    {
        if i < self.untracked.len() {
            (Section::Untracked, i)
        } else if i - self.untracked.len() < self.unstaged.len() {
            (Section::Unstaged, i - self.untracked.len())
        } else {
            (Section::Staged, i - self.untracked.len() - self.unstaged.len())
        }
    }

    /// The entry that concatenation index `i` addresses.
    pub fn entry_at(&self, i: usize) -> (r: &Item)
        requires
            self@.total() <= usize::MAX,
            i < self@.total(),
        ensures
            r@ == self@.entries()[i as int],
    {
        let (sec, j) = self.index_to_entry(i);
        match sec {
            Section::Untracked => &self.untracked[j],
            Section::Unstaged => &self.unstaged[j],
            Section::Staged => &self.staged[j],
        }
    }

    /// Flip the expansion flag of the entry under the cursor; a no-op on an
    /// empty snapshot.
    pub fn expand(&mut self)
        requires
            old(self)@.wf(),
        ensures
            final(self)@ == spec_toggle(old(self)@),
            final(self)@.wf(),
    {
        let total = self.len();
        if total == 0 {
            return ;
        }
        let (sec, j) = self.index_to_entry(self.cursor);
        match sec {
            Section::Untracked => {
                let flipped = Item {
                    path: self.untracked[j].path.clone(),
                    expanded: !self.untracked[j].expanded,
                };
                self.untracked.set(j, flipped);
            },
            Section::Unstaged => {
                let flipped = Item {
                    path: self.unstaged[j].path.clone(),
                    expanded: !self.unstaged[j].expanded,
                };
                self.unstaged.set(j, flipped);
            },
            Section::Staged => {
                let flipped = Item {
                    path: self.staged[j].path.clone(),
                    expanded: !self.staged[j].expanded,
                };
                self.staged.set(j, flipped);
            },
        }
        proof {
            assert(self@ =~~= spec_toggle(old(self)@));
        }
    }
}

/// Every local mutation keeps the snapshot invariant: however many steps
/// down, steps up and toggles follow one another, the cursor never leaves
/// `[0, total)`, or stays at zero while there is nothing to address.
pub proof fn lemma_steps_preserve_wf(v: StatusModel)
    requires
        v.wf(),
    ensures
        spec_down(v).wf(),
        spec_up(v).wf(),
        spec_toggle(v).wf(),
{
}

/// `spec_locate` partitions the concatenation indices exactly across the
/// three sections, in order: each index gets one in-range section slot, the
/// slot holds the same entry as direct indexing into the concatenation, and
/// no other section slot maps back to the same index.
pub proof fn lemma_locate_partitions(v: StatusModel, i: int)
    requires
        0 <= i < v.total(),
    ensures
        ({
            let sec = spec_locate(v, i).0;
            let j = spec_locate(v, i).1;
            &&& 0 <= j < v.section_entries(sec).len()
            &&& v.section_base(sec) + j == i
            &&& v.entries()[i] == v.section_entries(sec)[j]
        }),
        forall|sec2: Section, j2: int|
            #![trigger v.section_entries(sec2)[j2]]
            0 <= j2 < v.section_entries(sec2).len() && v.section_base(sec2) + j2 == i
                ==> sec2 == spec_locate(v, i).0 && j2 == spec_locate(v, i).1,
{
}

/// Toggling the entry under the cursor is its own inverse: two consecutive
/// toggles on the same cursor position restore the snapshot exactly.
pub proof fn lemma_toggle_involutive(v: StatusModel)
    requires
        v.wf(),
    ensures
        spec_toggle(spec_toggle(v)) == v,
{
    if v.total() > 0 {
        assert(spec_toggle(spec_toggle(v)) =~~= v);
    }
}

} // verus!
