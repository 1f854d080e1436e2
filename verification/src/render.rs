use vstd::prelude::*;

use crate::item::{Item, ItemModel};
use crate::status::{Status, StatusModel};

verus! {

/// The header row of the untracked section.
pub open spec fn untracked_title() -> Seq<char> {
    "Untracked files:"@
}

/// The header row of the changed-but-unstaged section.
pub open spec fn unstaged_title() -> Seq<char> {
    "Changed files:"@
}

/// The header row of the staged section.
pub open spec fn staged_title() -> Seq<char> {
    "Staged for commit:"@
}

/// One display row of a rendered snapshot. How a row is painted (colors,
/// glyphs, the inverse-video highlight) is left to the terminal side; the
/// row says only what it shows.
#[derive(Debug, PartialEq, Eq)]
pub enum Row {
    /// The branch line at the top of the frame.
    Branch { name: String },
    /// A section header.
    Header { title: String },
    /// One entry: its path, its expansion glyph state, and whether the
    /// cursor stands on it.
    Entry { path: String, expanded: bool, highlighted: bool },
    /// One line of an expanded entry's preview.
    Preview { text: String },
}

/// The mathematical model of a `Row`.
#[verifier::ext_equal]
pub ghost enum RowModel {
    Branch { name: Seq<char> },
    Header { title: Seq<char> },
    Entry { path: Seq<char>, expanded: bool, highlighted: bool },
    Preview { text: Seq<char> },
}

impl View for Row {
    type V = RowModel;

    open spec fn view(&self) -> RowModel {
        match self {
            Row::Branch { name } => RowModel::Branch { name: name@ },
            Row::Header { title } => RowModel::Header { title: title@ },
            Row::Entry { path, expanded, highlighted } => RowModel::Entry {
                path: path@,
                expanded: *expanded,
                highlighted: *highlighted,
            },
            Row::Preview { text } => RowModel::Preview { text: text@ },
        }
    }
}

/// The rows of one section's entries: each entry one row, highlighted
/// exactly when the cursor's concatenation index reaches it, and, when it
/// is expanded, its preview lines right below it. `previews` runs in
/// lockstep with `entries`.
pub open spec fn spec_entry_rows(
    entries: Seq<ItemModel>,
    previews: Seq<Seq<Seq<char>>>,
    base: int,
    cursor: int,
) -> Seq<RowModel>
    decreases entries.len(),
{
    if entries.len() == 0 {
        Seq::empty()
    } else {
        let head = seq![
            RowModel::Entry {
                path: entries[0].path,
                expanded: entries[0].expanded,
                highlighted: cursor == base,
            },
        ];
        let pv = if entries[0].expanded {
            previews[0].map_values(|t: Seq<char>| RowModel::Preview { text: t })
        } else {
            Seq::<RowModel>::empty()
        };
        head + pv + spec_entry_rows(entries.skip(1), previews.skip(1), base + 1, cursor)
    }
}

/// The whole frame: the branch line, then the three sections in fixed
/// order, each a header followed by its entry rows. `previews` holds one
/// preview (a sequence of lines) per concatenation index.
pub open spec fn spec_render(v: StatusModel, previews: Seq<Seq<Seq<char>>>) -> Seq<RowModel> {
    let u = v.untracked.len() as int;
    let g = v.unstaged.len() as int;
    seq![RowModel::Branch { name: v.branch }] + seq![
        RowModel::Header { title: untracked_title() },
    ] + spec_entry_rows(v.untracked, previews.subrange(0, u), 0, v.cursor) + seq![
        RowModel::Header { title: unstaged_title() },
    ] + spec_entry_rows(v.unstaged, previews.subrange(u, u + g), u, v.cursor) + seq![
        RowModel::Header { title: staged_title() },
    ] + spec_entry_rows(v.staged, previews.subrange(u + g, v.total()), u + g, v.cursor)
}

/// Append one section's header and entry rows, reading the previews of
/// the entries at concatenation indices `base` onwards.
fn push_section_rows(
    rows: &mut Vec<Row>,
    title: &str,
    entries: &Vec<Item>,
    previews: &Vec<Vec<String>>,
    base: usize,
    cursor: usize,
)
    requires
        base + entries@.len() <= previews@.len(),
    ensures
        final(rows)@.map_values(|r: Row| r@) == old(rows)@.map_values(|r: Row| r@) + seq![
            RowModel::Header { title: title@ },
        ] + spec_entry_rows(
            entries@.map_values(|it: Item| it@),
            previews.deep_view().subrange(base as int, base + entries@.len()),
            base as int,
            cursor as int,
        ),
{
    let ghost pre = rows@.map_values(|r: Row| r@);
    let ghost ev = entries@.map_values(|it: Item| it@);
    let ghost ps = previews.deep_view().subrange(base as int, base + entries@.len());
    rows.push(Row::Header { title: title.to_owned() });
    proof {
        assert(rows@.map_values(|r: Row| r@) =~= pre + seq![RowModel::Header { title: title@ }]);
        assert(ev.skip(0) =~= ev);
        assert(ps.skip(0) =~= ps);
    }
    let total_previews = previews.len();
    let mut j: usize = 0;
    while j < entries.len()
        invariant
            j <= entries@.len(),
            base + entries@.len() <= previews@.len(),
            previews@.len() == total_previews,
            ev == entries@.map_values(|it: Item| it@),
            ps == previews.deep_view().subrange(base as int, base + entries@.len()),
            pre + seq![RowModel::Header { title: title@ }] + spec_entry_rows(
                ev,
                ps,
                base as int,
                cursor as int,
            ) == rows@.map_values(|r: Row| r@) + spec_entry_rows(
                ev.skip(j as int),
                ps.skip(j as int),
                base + j as int,
                cursor as int,
            ),
        decreases entries@.len() - j,
    {
        let ghost m0 = rows@.map_values(|r: Row| r@);
        proof {
            assert(ev.skip(j as int)[0] == ev[j as int]);
            assert(ps.skip(j as int)[0] == ps[j as int]);
            assert(ev.skip(j as int).skip(1) =~= ev.skip(j as int + 1));
            assert(ps.skip(j as int).skip(1) =~= ps.skip(j as int + 1));
        }
        let it = &entries[j];
        let hl = cursor == base + j;
        rows.push(
            Row::Entry { path: it.path.clone(), expanded: it.expanded, highlighted: hl },
        );
        proof {
            assert(rows@.map_values(|r: Row| r@) =~= m0 + seq![
                RowModel::Entry {
                    path: ev[j as int].path,
                    expanded: ev[j as int].expanded,
                    highlighted: cursor as int == base + j as int,
                },
            ]);
        }
        let ghost m1 = rows@.map_values(|r: Row| r@);
        let ghost pvrows = if ev[j as int].expanded {
            ps[j as int].map_values(|t: Seq<char>| RowModel::Preview { text: t })
        } else {
            Seq::<RowModel>::empty()
        };
        if it.expanded {
            let pv: &Vec<String> = &previews[base + j];
            proof {
                assert(previews.deep_view()[base + j as int] == previews@[base + j as int
                ].deep_view());
                assert(ps[j as int] =~= pv.deep_view());
                assert(pv.deep_view().len() == pv@.len());
            }
            let mut k: usize = 0;
            while k < pv.len()
                invariant
                    k <= pv@.len(),
                    ps[j as int] == pv.deep_view(),
                    pvrows == ps[j as int].map_values(
                        |t: Seq<char>| RowModel::Preview { text: t },
                    ),
                    pv.deep_view().len() == pv@.len(),
                    rows@.map_values(|r: Row| r@) == m1 + pvrows.take(k as int),
                decreases pv@.len() - k,
            {
                let ghost mrows = rows@.map_values(|r: Row| r@);
                rows.push(Row::Preview { text: pv[k].clone() });
                proof {
                    assert(pv.deep_view()[k as int] == pv@[k as int].deep_view());
                    assert(pvrows[k as int] == (RowModel::Preview {
                        text: ps[j as int][k as int],
                    }));
                    assert(ps[j as int][k as int] == pv@[k as int]@);
                    assert(rows@.map_values(|r: Row| r@) =~= mrows.push(
                        RowModel::Preview { text: pv@[k as int]@ },
                    ));
                    assert(pvrows.take(k as int + 1) =~= pvrows.take(k as int).push(
                        pvrows[k as int],
                    ));
                    assert(mrows.push(RowModel::Preview { text: pv@[k as int]@ }) =~= m1
                        + pvrows.take(k as int + 1));
                }
                k = k + 1;
            }
            proof {
                assert(pvrows.take(pv@.len() as int) =~= pvrows);
            }
        } else {
            proof {
                assert(rows@.map_values(|r: Row| r@) =~= m1 + pvrows);
            }
        }
        proof {
            assert(m0 + spec_entry_rows(
                ev.skip(j as int),
                ps.skip(j as int),
                base + j as int,
                cursor as int,
            ) =~= rows@.map_values(|r: Row| r@) + spec_entry_rows(
                ev.skip(j as int + 1),
                ps.skip(j as int + 1),
                base + j as int + 1,
                cursor as int,
            ));
        }
        j = j + 1;
    }
    proof {
        assert(ev.skip(entries@.len() as int) =~= Seq::<ItemModel>::empty());
        assert(rows@.map_values(|r: Row| r@) =~= pre + seq![
            RowModel::Header { title: title@ },
        ] + spec_entry_rows(ev, ps, base as int, cursor as int));
    }
}

impl Status {
    /// The frame this snapshot shows, as `spec_render` lays it out.
    /// `previews` holds, for each concatenation index, the preview lines
    /// its entry would show when expanded; whoever reads the files fills
    /// it, and an unreadable file is simply an empty preview.
    pub fn render(&self, previews: &Vec<Vec<String>>) -> (rows: Vec<Row>)
        requires
            self@.wf(),
            previews@.len() == self@.total(),
        ensures
            rows@.map_values(|r: Row| r@) == spec_render(self@, previews.deep_view()),
    {
        let mut rows: Vec<Row> = Vec::new();
        rows.push(Row::Branch { name: self.branch.clone() });
        proof {
            assert(rows@.map_values(|r: Row| r@) =~= seq![
                RowModel::Branch { name: self@.branch },
            ]);
        }
        let u = self.untracked.len();
        let g = self.unstaged.len();
        push_section_rows(&mut rows, "Untracked files:", &self.untracked, previews, 0, self.cursor);
        push_section_rows(&mut rows, "Changed files:", &self.unstaged, previews, u, self.cursor);
        push_section_rows(
            &mut rows,
            "Staged for commit:",
            &self.staged,
            previews,
            u + g,
            self.cursor,
        );
        proof {
            assert(rows@.map_values(|r: Row| r@) =~= spec_render(self@, previews.deep_view()));
        }
        rows
    }
}

} // verus!
