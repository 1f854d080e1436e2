use vstd::prelude::*;

use crate::parse::{
    branch_prefix, modified_label, spec_parse, spec_scan, spec_scan_after, spec_strip_label,
    staged_marker, untracked_marker, ParseOutcome, ScanMode, ScanOutcome,
};
use crate::text::{spec_is_space, spec_lines, spec_starts_with, spec_trim_start};

verus! {

/// The blanks a report puts before an entry line.
pub open spec fn report_indent() -> Seq<char> {
    seq![' ', ' ']
}

/// The blanks a report puts between a staged entry's label and its path.
pub open spec fn report_label_gap() -> Seq<char> {
    seq![' ', ' ', ' ']
}

/// No character of `s` is a newline.
pub open spec fn spec_no_newline(s: Seq<char>) -> bool {
    forall|k: int| 0 <= k < s.len() ==> s[k] != '\n'
}

/// A path a report line can carry faithfully: no newline inside it, and
/// no blank at its front for the trimming to eat.
pub open spec fn spec_path_ok(p: Seq<char>) -> bool {
    spec_no_newline(p) && (p.len() > 0 ==> !spec_is_space(p[0]))
}

/// The entry line a report gives an untracked path.
pub open spec fn spec_untracked_line(p: Seq<char>) -> Seq<char> {
    report_indent() + p
}

/// The entry line a report gives a staged path.
pub open spec fn spec_staged_line(p: Seq<char>) -> Seq<char> {
    report_indent() + modified_label() + report_label_gap() + p
}

/// The lines of a well-formed report: the branch line, a blank, each
/// section under its marker with a discarded explanatory line (here
/// blank) and a closing blank line.
pub open spec fn spec_report_lines(
    branch: Seq<char>,
    untracked: Seq<Seq<char>>,
    staged: Seq<Seq<char>>,
) -> Seq<Seq<char>> {
    seq![branch_prefix() + branch, Seq::<char>::empty(), untracked_marker(), Seq::<char>::empty()]
        + untracked.map_values(|p: Seq<char>| spec_untracked_line(p)) + seq![
        Seq::<char>::empty(),
        staged_marker(),
        Seq::<char>::empty(),
    ] + staged.map_values(|p: Seq<char>| spec_staged_line(p)) + seq![Seq::<char>::empty()]
}

/// The lines glued back into one text, a newline after each.
pub open spec fn spec_join_lines(ls: Seq<Seq<char>>) -> Seq<char>
    decreases ls.len(),
{
    if ls.len() == 0 {
        Seq::empty()
    } else {
        ls[0] + seq!['\n'] + spec_join_lines(ls.skip(1))
    }
}

/// A whole well-formed report as one text.
pub open spec fn spec_report(
    branch: Seq<char>,
    untracked: Seq<Seq<char>>,
    staged: Seq<Seq<char>>,
) -> Seq<char> {
    spec_join_lines(spec_report_lines(branch, untracked, staged))
}

/// Trimming drops a run of blanks down to the first steady character.
proof fn lemma_trim_spaces_prefix(sp: Seq<char>, t: Seq<char>)
    requires
        forall|k: int| 0 <= k < sp.len() ==> spec_is_space(#[trigger] sp[k]),
        t.len() > 0 ==> !spec_is_space(t[0]),
    ensures
        spec_trim_start(sp + t) == t,
    decreases sp.len(),
{
    if sp.len() == 0 {
        assert(sp + t =~= t);
    } else {
        assert((sp + t)[0] == sp[0]);
        assert((sp + t).skip(1) =~= sp.skip(1) + t);
        lemma_trim_spaces_prefix(sp.skip(1), t);
    }
}

/// A line without newlines, closed by one, is the first line of the text.
proof fn lemma_lines_single(l: Seq<char>, rest: Seq<char>)
    requires
        spec_no_newline(l),
    ensures
        spec_lines(l + seq!['\n'] + rest) == seq![l] + spec_lines(rest),
    decreases l.len(),
{
    let s = l + seq!['\n'] + rest;
    if l.len() == 0 {
        assert(s[0] == '\n');
        assert(s.skip(1) =~= rest);
        assert(l =~= Seq::<char>::empty());
        assert(spec_lines(s) =~= seq![l] + spec_lines(rest));
    } else {
        assert(s[0] == l[0]);
        assert(s.skip(1) =~= l.skip(1) + seq!['\n'] + rest);
        lemma_lines_single(l.skip(1), rest);
        assert(spec_lines(s.skip(1)) == seq![l.skip(1)] + spec_lines(rest));
        assert(spec_lines(s.skip(1)).len() > 0);
        assert(spec_lines(s) == seq![seq![s[0]] + spec_lines(s.skip(1))[0]] + spec_lines(
            s.skip(1),
        ).skip(1));
        assert(seq![s[0]] + spec_lines(s.skip(1))[0] =~= l);
        assert(spec_lines(s.skip(1)).skip(1) =~= spec_lines(rest));
        assert(spec_lines(s) =~= seq![l] + spec_lines(rest));
    }
}

/// Splitting the glued lines gives the lines back, when none holds a
/// newline of its own.
proof fn lemma_lines_join(ls: Seq<Seq<char>>)
    requires
        forall|k: int| 0 <= k < ls.len() ==> spec_no_newline(#[trigger] ls[k]),
    ensures
        spec_lines(spec_join_lines(ls)) == ls,
    decreases ls.len(),
{
    if ls.len() == 0 {
        assert(spec_lines(spec_join_lines(ls)) =~= ls);
    } else {
        lemma_lines_single(ls[0], spec_join_lines(ls.skip(1)));
        lemma_lines_join(ls.skip(1));
        assert(seq![ls[0]] + ls.skip(1) =~= ls);
    }
}

/// Scanning an untracked section's entry lines gathers exactly its paths
/// in front of what the lines after the closing blank yield.
proof fn lemma_scan_untracked(paths: Seq<Seq<char>>, tail: Seq<Seq<char>>)
    requires
        forall|k: int| 0 <= k < paths.len() ==> spec_path_ok(#[trigger] paths[k]),
    ensures
        spec_scan(
            paths.map_values(|p: Seq<char>| spec_untracked_line(p)) + seq![Seq::<char>::empty()]
                + tail,
            ScanMode::InUntracked,
        ) == spec_scan_after(paths, Seq::empty(), spec_scan(tail, ScanMode::Top)),
    decreases paths.len(),
{
    let lines = paths.map_values(|p: Seq<char>| spec_untracked_line(p)) + seq![
        Seq::<char>::empty(),
    ] + tail;
    if paths.len() == 0 {
        assert(lines[0].len() == 0);
        assert(lines.skip(1) =~= tail);
        match spec_scan(tail, ScanMode::Top) {
            ScanOutcome::Done { untracked, staged } => {
                assert(spec_scan_after(Seq::empty(), Seq::empty(), spec_scan(tail, ScanMode::Top))
                    =~~= spec_scan(tail, ScanMode::Top));
            },
            _ => {},
        }
    } else {
        let p0 = paths[0];
        assert(lines[0] == spec_untracked_line(p0));
        assert(lines[0].len() > 0);
        lemma_trim_spaces_prefix(report_indent(), p0);
        assert(spec_trim_start(lines[0]) == p0);
        assert(lines.skip(1) =~= paths.skip(1).map_values(|p: Seq<char>| spec_untracked_line(p))
            + seq![Seq::<char>::empty()] + tail) by {
            assert(paths.map_values(|p: Seq<char>| spec_untracked_line(p)).skip(1)
                =~= paths.skip(1).map_values(|p: Seq<char>| spec_untracked_line(p)));
        }
        lemma_scan_untracked(paths.skip(1), tail);
        match spec_scan(tail, ScanMode::Top) {
            ScanOutcome::Done { untracked, staged } => {
                assert(seq![p0] + (paths.skip(1) + untracked) =~= paths + untracked);
                assert(spec_scan(lines, ScanMode::InUntracked) =~~= spec_scan_after(
                    paths,
                    Seq::empty(),
                    spec_scan(tail, ScanMode::Top),
                ));
            },
            _ => {},
        }
    }
}

/// Scanning a staged section's entry lines gathers exactly its paths in
/// front of what the lines after the closing blank yield.
proof fn lemma_scan_staged(paths: Seq<Seq<char>>, tail: Seq<Seq<char>>)
    requires
        forall|k: int| 0 <= k < paths.len() ==> spec_path_ok(#[trigger] paths[k]),
    ensures
        spec_scan(
            paths.map_values(|p: Seq<char>| spec_staged_line(p)) + seq![Seq::<char>::empty()]
                + tail,
            ScanMode::InStaged,
        ) == spec_scan_after(Seq::empty(), paths, spec_scan(tail, ScanMode::Top)),
    decreases paths.len(),
{
    let lines = paths.map_values(|p: Seq<char>| spec_staged_line(p)) + seq![Seq::<char>::empty()]
        + tail;
    if paths.len() == 0 {
        assert(lines[0].len() == 0);
        assert(lines.skip(1) =~= tail);
        match spec_scan(tail, ScanMode::Top) {
            ScanOutcome::Done { untracked, staged } => {
                assert(spec_scan_after(Seq::empty(), Seq::empty(), spec_scan(tail, ScanMode::Top))
                    =~~= spec_scan(tail, ScanMode::Top));
            },
            _ => {},
        }
    } else {
        let p0 = paths[0];
        assert(lines[0] == spec_staged_line(p0));
        assert(lines[0].len() > 0) by {
            reveal_strlit("modified:");
        }
        lemma_staged_line_label(p0);
        assert(lines.skip(1) =~= paths.skip(1).map_values(|p: Seq<char>| spec_staged_line(p))
            + seq![Seq::<char>::empty()] + tail) by {
            assert(paths.map_values(|p: Seq<char>| spec_staged_line(p)).skip(1)
                =~= paths.skip(1).map_values(|p: Seq<char>| spec_staged_line(p)));
        }
        lemma_scan_staged(paths.skip(1), tail);
        match spec_scan(tail, ScanMode::Top) {
            ScanOutcome::Done { untracked, staged } => {
                assert(seq![p0] + (paths.skip(1) + staged) =~= paths + staged);
                assert(spec_scan(lines, ScanMode::InStaged) =~~= spec_scan_after(
                    Seq::empty(),
                    paths,
                    spec_scan(tail, ScanMode::Top),
                ));
            },
            _ => {},
        }
    }
}

/// A staged entry line built for a path strips back to that path.
proof fn lemma_staged_line_label(p: Seq<char>)
    requires
        spec_path_ok(p),
    ensures
        spec_strip_label(spec_staged_line(p)) == Some(p),
{
    reveal_strlit("modified:");
    let body = modified_label() + report_label_gap() + p;
    assert(body.len() > 0 && !spec_is_space(body[0]));
    lemma_trim_spaces_prefix(report_indent(), body);
    assert(spec_trim_start(spec_staged_line(p)) == body) by {
        assert(report_indent() + body =~= spec_staged_line(p));
    }
    assert(spec_starts_with(body, modified_label())) by {
        assert(body.subrange(0, modified_label().len() as int) =~= modified_label());
    }
    lemma_trim_spaces_prefix(report_label_gap(), p);
    assert(body.skip(modified_label().len() as int) =~= report_label_gap() + p);
}

/// Parsing a well-formed report recovers the exact branch name and the
/// exact ordered path lists of the untracked and staged sections.
pub proof fn lemma_parse_round_trip(
    branch: Seq<char>,
    untracked: Seq<Seq<char>>,
    staged: Seq<Seq<char>>,
)
    requires
        spec_no_newline(branch),
        forall|k: int| 0 <= k < untracked.len() ==> spec_path_ok(#[trigger] untracked[k]),
        forall|k: int| 0 <= k < staged.len() ==> spec_path_ok(#[trigger] staged[k]),
    ensures
        spec_parse(spec_report(branch, untracked, staged)) == (ParseOutcome::Parsed {
            branch,
            untracked,
            staged,
        }),
{
    reveal_strlit("On branch ");
    reveal_strlit("Untracked files:");
    reveal_strlit("Changes to be committed:");
    reveal_strlit("modified:");
    let ls = spec_report_lines(branch, untracked, staged);
    let u_lines = untracked.map_values(|p: Seq<char>| spec_untracked_line(p));
    let s_lines = staged.map_values(|p: Seq<char>| spec_staged_line(p));
    assert forall|k: int| 0 <= k < ls.len() implies spec_no_newline(#[trigger] ls[k]) by {
        if 4 <= k < 4 + u_lines.len() {
            assert(ls[k] == spec_untracked_line(untracked[k - 4]));
        } else if 7 + u_lines.len() <= k < 7 + u_lines.len() + s_lines.len() {
            assert(ls[k] == spec_staged_line(staged[k - 7 - u_lines.len()]));
        }
    }
    lemma_lines_join(ls);
    let text = spec_report(branch, untracked, staged);
    assert(spec_lines(text) == ls);
    assert(spec_starts_with(ls[0], branch_prefix())) by {
        assert(ls[0] == branch_prefix() + branch);
        assert((branch_prefix() + branch).subrange(0, branch_prefix().len() as int)
            =~= branch_prefix());
    }
    assert(ls[0].skip(branch_prefix().len() as int) =~= branch);

    let tail_staged: Seq<Seq<char>> = seq![Seq::<char>::empty()];
    let tail_mid: Seq<Seq<char>> = seq![staged_marker(), Seq::<char>::empty()] + s_lines
        + tail_staged;

    // the scan after the staged section's closing blank: no lines left
    assert(spec_scan(Seq::<Seq<char>>::empty(), ScanMode::Top) == (ScanOutcome::Done {
        untracked: Seq::<Seq<char>>::empty(),
        staged: Seq::<Seq<char>>::empty(),
    }));

    // the staged section
    assert(s_lines + seq![Seq::<char>::empty()] + Seq::<Seq<char>>::empty() =~= s_lines
        + tail_staged);
    lemma_scan_staged(staged, Seq::<Seq<char>>::empty());
    assert(spec_scan(s_lines + tail_staged, ScanMode::InStaged) == (ScanOutcome::Done {
        untracked: Seq::<Seq<char>>::empty() + Seq::<Seq<char>>::empty(),
        staged: staged + Seq::<Seq<char>>::empty(),
    }));

    // the marker line and the discarded explanatory line that lead into it
    assert(tail_mid[0] == staged_marker());
    assert(staged_marker() != untracked_marker());
    assert(spec_scan(tail_mid, ScanMode::Top) == spec_scan(
        tail_mid.skip(1),
        ScanMode::SkipStaged,
    ));
    assert(spec_scan(tail_mid.skip(1), ScanMode::SkipStaged) == spec_scan(
        tail_mid.skip(1).skip(1),
        ScanMode::InStaged,
    ));
    assert(tail_mid.skip(1).skip(1) =~= s_lines + tail_staged);
    assert(spec_scan(tail_mid, ScanMode::Top) == (ScanOutcome::Done {
        untracked: Seq::<Seq<char>>::empty() + Seq::<Seq<char>>::empty(),
        staged: staged + Seq::<Seq<char>>::empty(),
    }));

    // the untracked section, with everything after it as the tail
    lemma_scan_untracked(untracked, tail_mid);
    assert(u_lines + seq![Seq::<char>::empty()] + tail_mid =~= ls.skip(4) + Seq::<Seq<
        char,
    >>::empty()) by {
        assert(ls.skip(4) =~= u_lines + seq![Seq::<char>::empty()] + tail_mid);
    }
    assert(u_lines + seq![Seq::<char>::empty()] + tail_mid =~= ls.skip(4));
    let done_mid = ScanOutcome::Done {
        untracked: Seq::<Seq<char>>::empty() + Seq::<Seq<char>>::empty(),
        staged: staged + Seq::<Seq<char>>::empty(),
    };
    assert(spec_scan(ls.skip(4), ScanMode::InUntracked) == spec_scan_after(
        untracked,
        Seq::empty(),
        done_mid,
    ));
    assert(spec_scan(ls.skip(4), ScanMode::InUntracked) =~~= (ScanOutcome::Done {
        untracked: untracked,
        staged: staged,
    })) by {
        assert(untracked + (Seq::<Seq<char>>::empty() + Seq::<Seq<char>>::empty()) =~= untracked);
        assert(Seq::<Seq<char>>::empty() + (staged + Seq::<Seq<char>>::empty()) =~= staged);
    }

    // the three lines that lead into the untracked section
    assert(ls.skip(1)[0].len() == 0);
    assert(ls.skip(1).skip(1) =~= ls.skip(2));
    assert(ls.skip(2)[0] == untracked_marker());
    assert(ls.skip(2).skip(1) =~= ls.skip(3));
    assert(ls.skip(3)[0].len() == 0);
    assert(ls.skip(3).skip(1) =~= ls.skip(4));
    assert(spec_scan(ls.skip(1), ScanMode::Top) == spec_scan(ls.skip(2), ScanMode::Top));
    assert(spec_scan(ls.skip(2), ScanMode::Top) == spec_scan(ls.skip(3), ScanMode::SkipUntracked));
    assert(spec_scan(ls.skip(3), ScanMode::SkipUntracked) == spec_scan(
        ls.skip(4),
        ScanMode::InUntracked,
    ));
    assert(spec_parse(text) =~~= (ParseOutcome::Parsed { branch, untracked, staged }));
}

} // verus!
