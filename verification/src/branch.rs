use vstd::prelude::*;

verus! {

/// The branch-listing panel's state: the raw lines of a branch listing,
/// each with its two marker characters still in front, and a cursor over
/// them.
pub struct BranchList {
    pub branches: Vec<String>,
    pub cursor: usize,
}

/// One display row of the branch panel: the listing line, whether the
/// cursor stands on it, and whether it names the branch currently checked
/// out (the listing marks that one with a star).
#[derive(Debug, PartialEq, Eq)]
pub struct BranchRow {
    pub line: String,
    pub highlighted: bool,
    pub current: bool,
}

/// The mathematical model of a `BranchRow`.
#[verifier::ext_equal]
pub ghost struct BranchRowModel {
    pub line: Seq<char>,
    pub highlighted: bool,
    pub current: bool,
}

impl View for BranchRow {
    type V = BranchRowModel;

    open spec fn view(&self) -> BranchRowModel {
        BranchRowModel {
            line: self.line@,
            highlighted: self.highlighted,
            current: self.current,
        }
    }
}

/// The panel's frame: one row per listing line, highlighted exactly where
/// the cursor stands, the current branch marked by its leading star.
pub open spec fn spec_branch_rows(branches: Seq<Seq<char>>, cursor: int) -> Seq<BranchRowModel> {
    Seq::new(
        branches.len(),
        |i: int|
            BranchRowModel {
                line: branches[i],
                highlighted: i == cursor,
                current: branches[i].len() > 0 && branches[i][0] == '*',
            },
    )
}

impl BranchList {
    /// An empty list; whoever talks to the version-control tool fills
    /// `branches` with the listing's lines.
    pub fn new() -> (r: Self)
        ensures
            r.branches@.len() == 0,
            r.cursor == 0,
    {
        BranchList { branches: Vec::new(), cursor: 0 }
    }

    /// The branch name under the cursor: its listing line without the two
    /// marker characters. Nothing when the cursor is out of range or the
    /// line is too short to carry a name.
    pub fn selected_name(&self) -> (r: Option<String>)
        ensures
            match r {
                Some(name) => self.cursor < self.branches@.len() && self.branches@[
                    self.cursor as int
                ]@.len() >= 2 && name@ == self.branches@[self.cursor as int]@.skip(2),
                None => self.cursor >= self.branches@.len() || self.branches@[
                    self.cursor as int
                ]@.len() < 2,
            },
    {
        if self.cursor >= self.branches.len() {
            return None;
        }
        let line: &String = &self.branches[self.cursor];
        let n = line.as_str().unicode_len();
        if n < 2 {
            return None;
        }
        let name = line.as_str().substring_char(2, n);
        proof {
            assert(name@ =~= self.branches@[self.cursor as int]@.skip(2));
        }
        Some(name.to_owned())
    }

    /// The frame this panel shows, as `spec_branch_rows` lays it out.
    pub fn render(&self) -> (rows: Vec<BranchRow>)
        ensures
            rows@.map_values(|r: BranchRow| r@) == spec_branch_rows(
                self.branches@.map_values(|l: String| l@),
                self.cursor as int,
            ),
    {
        let ghost bv = self.branches@.map_values(|l: String| l@);
        let mut rows: Vec<BranchRow> = Vec::new();
        let mut i: usize = 0;
        while i < self.branches.len()
            invariant
                i <= self.branches@.len(),
                bv == self.branches@.map_values(|l: String| l@),
                rows@.map_values(|r: BranchRow| r@) == spec_branch_rows(
                    bv,
                    self.cursor as int,
                ).take(i as int),
            decreases self.branches@.len() - i,
        {
            let line: &String = &self.branches[i];
            let current = line.as_str().unicode_len() > 0 && line.as_str().get_char(0) == '*';
            rows.push(
                BranchRow { line: line.clone(), highlighted: i == self.cursor, current },
            );
            proof {
                let all = spec_branch_rows(bv, self.cursor as int);
                assert(all.take(i as int + 1) =~= all.take(i as int).push(all[i as int]));
                assert(rows@.map_values(|r: BranchRow| r@) =~= all.take(i as int + 1));
            }
            i = i + 1;
        }
        proof {
            assert(spec_branch_rows(bv, self.cursor as int).take(self.branches@.len() as int)
                =~= spec_branch_rows(bv, self.cursor as int));
        }
        rows
    }
}

} // verus!
