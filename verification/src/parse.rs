use vstd::prelude::*;

use crate::item::{Item, ItemModel};
use crate::status::{Status, StatusModel};
use crate::text::{
    spec_lines, spec_starts_with, spec_trim_start, split_lines, str_eq, trim_start,
    try_strip_prefix,
};

verus! {

/// The fixed prefix of the report's first line; what follows it is the
/// branch name.
pub open spec fn branch_prefix() -> Seq<char> {
    "On branch "@
}

/// The marker line that opens the untracked section.
pub open spec fn untracked_marker() -> Seq<char> {
    "Untracked files:"@
}

/// The marker line that opens the staged section.
pub open spec fn staged_marker() -> Seq<char> {
    "Changes to be committed:"@
}

/// The label of a staged entry for an already tracked path.
pub open spec fn modified_label() -> Seq<char> {
    "modified:"@
}

/// The label of a staged entry for a freshly added path.
pub open spec fn new_file_label() -> Seq<char> {
    "new file:"@
}

/// The path of a staged entry line: the line without its leading blanks,
/// without its label, and without the blanks between label and path; or
/// nothing when neither label fits.
pub open spec fn spec_strip_label(l: Seq<char>) -> Option<Seq<char>> {
    let t = spec_trim_start(l);
    if spec_starts_with(t, modified_label()) {
        Some(spec_trim_start(t.skip(modified_label().len() as int)))
    } else if spec_starts_with(t, new_file_label()) {
        Some(spec_trim_start(t.skip(new_file_label().len() as int)))
    } else {
        None
    }
}

/// Where the line scanner stands: outside any section, about to discard a
/// section's explanatory line, or inside a section's entry lines.
pub enum ScanMode {
    Top,
    SkipUntracked,
    InUntracked,
    SkipStaged,
    InStaged,
}

/// What scanning the lines after the branch line yields: the ordered
/// untracked and staged path lists, or the first failure.
#[verifier::ext_equal]
pub ghost enum ScanOutcome {
    Done { untracked: Seq<Seq<char>>, staged: Seq<Seq<char>> },
    Truncated,
    BadLabel { line: Seq<char> },
}

/// The line scanner, one line per step. A marker line opens its section;
/// the line after a marker is discarded; inside a section a blank line
/// closes it and any other line becomes a path, trimmed for the untracked
/// section and stripped of its label for the staged one. An unlabelled
/// staged line is the first failure; a discarded line that is missing is
/// the other.
pub open spec fn spec_scan(lines: Seq<Seq<char>>, mode: ScanMode) -> ScanOutcome
    decreases lines.len(),
{
    if lines.len() == 0 {
        match mode {
            ScanMode::SkipUntracked => ScanOutcome::Truncated,
            ScanMode::SkipStaged => ScanOutcome::Truncated,
            _ => ScanOutcome::Done { untracked: Seq::empty(), staged: Seq::empty() },
        }
    } else {
        let l = lines[0];
        let rest = lines.skip(1);
        match mode {
            ScanMode::Top => {
                if l == untracked_marker() {
                    spec_scan(rest, ScanMode::SkipUntracked)
                } else if l == staged_marker() {
                    spec_scan(rest, ScanMode::SkipStaged)
                } else {
                    spec_scan(rest, ScanMode::Top)
                }
            },
            ScanMode::SkipUntracked => spec_scan(rest, ScanMode::InUntracked),
            ScanMode::InUntracked => {
                if l.len() == 0 {
                    spec_scan(rest, ScanMode::Top)
                } else {
                    match spec_scan(rest, ScanMode::InUntracked) {
                        ScanOutcome::Done { untracked, staged } => ScanOutcome::Done {
                            untracked: seq![spec_trim_start(l)] + untracked,
                            staged,
                        },
                        o => o,
                    }
                }
            },
            ScanMode::SkipStaged => spec_scan(rest, ScanMode::InStaged),
            ScanMode::InStaged => {
                if l.len() == 0 {
                    spec_scan(rest, ScanMode::Top)
                } else {
                    match spec_strip_label(l) {
                        Some(path) => match spec_scan(rest, ScanMode::InStaged) {
                            ScanOutcome::Done { untracked, staged } => ScanOutcome::Done {
                                untracked,
                                staged: seq![path] + staged,
                            },
                            o => o,
                        },
                        None => ScanOutcome::BadLabel { line: l },
                    }
                }
            },
        }
    }
}

/// A scan outcome with path lists already gathered in front of it.
pub open spec fn spec_scan_after(
    u0: Seq<Seq<char>>,
    s0: Seq<Seq<char>>,
    o: ScanOutcome,
) -> ScanOutcome {
    match o {
        ScanOutcome::Done { untracked, staged } => ScanOutcome::Done {
            untracked: u0 + untracked,
            staged: s0 + staged,
        },
        _ => o,
    }
}

/// What parsing a whole report yields.
#[verifier::ext_equal]
pub ghost enum ParseOutcome {
    Parsed { branch: Seq<char>, untracked: Seq<Seq<char>>, staged: Seq<Seq<char>> },
    Empty,
    NoBranchPrefix { line: Seq<char> },
    Truncated,
    BadLabel { line: Seq<char> },
}

/// The parser's model: the first line must carry the branch prefix and
/// names the branch; the remaining lines go through the scanner.
pub open spec fn spec_parse(s: Seq<char>) -> ParseOutcome {
    let lines = spec_lines(s);
    if lines.len() == 0 {
        ParseOutcome::Empty
    } else if !spec_starts_with(lines[0], branch_prefix()) {
        ParseOutcome::NoBranchPrefix { line: lines[0] }
    } else {
        let branch = lines[0].skip(branch_prefix().len() as int);
        match spec_scan(lines.skip(1), ScanMode::Top) {
            ScanOutcome::Done { untracked, staged } => ParseOutcome::Parsed {
                branch,
                untracked,
                staged,
            },
            ScanOutcome::Truncated => ParseOutcome::Truncated,
            ScanOutcome::BadLabel { line } => ParseOutcome::BadLabel { line },
        }
    }
}

/// The snapshot a fresh, successful parse delivers: the given branch and
/// path lists, every entry collapsed, the unstaged section empty (the
/// report's changes-not-staged block is not recognized, so that section
/// is never filled), and the cursor at the top.
pub open spec fn spec_snapshot(
    branch: Seq<char>,
    untracked: Seq<Seq<char>>,
    staged: Seq<Seq<char>>,
) -> StatusModel {
    StatusModel {
        branch,
        untracked: untracked.map_values(|p: Seq<char>| ItemModel { path: p, expanded: false }),
        unstaged: Seq::empty(),
        staged: staged.map_values(|p: Seq<char>| ItemModel { path: p, expanded: false }),
        cursor: 0,
    }
}

/// Why a report was rejected; the offending line is carried where there
/// is one.
#[derive(Debug, PartialEq, Eq)]
pub enum ParseError {
    /// The report held no lines at all.
    EmptyReport,
    /// The first line does not begin with `On branch `.
    NoBranchPrefix { line: String },
    /// A section marker was the report's last line, so the explanatory
    /// line that is always discarded is missing.
    TruncatedSection,
    /// A staged entry line begins with neither `modified:` nor `new file:`.
    UnknownLabel { line: String },
}

/// Relies on `nom::bytes::complete::tag` on string input: the parser it
/// builds succeeds exactly when the input's bytes begin with the prefix's
/// bytes, and then splits the input at the prefix's byte length. Since
/// the prefix is a whole, valid string, that byte-level match is the same
/// as a character-level one, and the remainder starts at a character
/// boundary, so the contract can speak of the views.
#[verifier::external_body]
fn strip_prefix_tag<'a>(prefix: &str, line: &'a str) -> (r: Option<&'a str>)
    ensures
        match r {
            Some(rest) => spec_starts_with(line@, prefix@) && rest@ == line@.skip(
                prefix@.len() as int,
            ),
            None => !spec_starts_with(line@, prefix@),
        },
{
    let res: nom::IResult<&str, &str> = nom::bytes::complete::tag(prefix)(line);
    match res {
        Ok((rest, _)) => Some(rest),
        Err(_) => None,
    }
}

/// The path of a staged entry line, as `spec_strip_label` describes it.
fn strip_label<'a>(l: &'a str) -> (r: Option<&'a str>)
    ensures
        match r {
            Some(p) => spec_strip_label(l@) == Some(p@),
            None => spec_strip_label(l@) is None,
        },
{
    let t = trim_start(l);
    match try_strip_prefix(t, "modified:") {
        Some(rest) => Some(trim_start(rest)),
        None => match try_strip_prefix(t, "new file:") {
            Some(rest) => Some(trim_start(rest)),
            None => None,
        },
    }
}

/// Parse the raw textual report into a fresh snapshot, or say exactly why
/// it was rejected. Success and each error happen precisely when
/// `spec_parse` says so of the report's characters.
pub fn parse_status(input: &str) -> (r: Result<Status, ParseError>)
    ensures
        match r {
            Ok(st) => {
                &&& spec_parse(input@) matches ParseOutcome::Parsed { branch, untracked, staged }
                    && st@ == spec_snapshot(branch, untracked, staged)
                &&& st@.wf()
            },
            Err(e) => match e {
                ParseError::EmptyReport => spec_parse(input@) is Empty,
                ParseError::NoBranchPrefix { line } => spec_parse(input@)
                    == (ParseOutcome::NoBranchPrefix { line: line@ }),
                ParseError::TruncatedSection => spec_parse(input@) is Truncated,
                ParseError::UnknownLabel { line } => spec_parse(input@)
                    == (ParseOutcome::BadLabel { line: line@ }),
            },
        },
{
    let lines = split_lines(input);
    let ghost lv = lines@.map_values(|l: String| l@);
    if lines.len() == 0 {
        return Err(ParseError::EmptyReport);
    }
    let branch: String = match strip_prefix_tag("On branch ", lines[0].as_str()) {
        Some(rest) => rest.to_owned(),
        None => {
            return Err(ParseError::NoBranchPrefix { line: lines[0].clone() });
        },
    };
    let mut untracked: Vec<Item> = Vec::new();
    let mut staged: Vec<Item> = Vec::new();
    let mut mode = ScanMode::Top;
    let mut i: usize = 1;
    proof {
        lemma_scan_after_nil(spec_scan(lv.skip(1), ScanMode::Top));
    }
    while i < lines.len()
        invariant
            1 <= i <= lines.len(),
            lv == lines@.map_values(|l: String| l@),
            lv == spec_lines(input@),
            spec_starts_with(lv[0], branch_prefix()),
            branch@ == lv[0].skip(branch_prefix().len() as int),
            untracked@.len() + staged@.len() < i,
            forall|k: int|
                0 <= k < untracked@.len() ==> !(#[trigger] untracked@[k])@.expanded,
            forall|k: int| 0 <= k < staged@.len() ==> !(#[trigger] staged@[k])@.expanded,
            spec_scan(lv.skip(1), ScanMode::Top) == spec_scan_after(
                untracked@.map_values(|it: Item| it@.path),
                staged@.map_values(|it: Item| it@.path),
                spec_scan(lv.skip(i as int), mode),
            ),
        decreases lines.len() - i,
    {
        let ghost u0 = untracked@.map_values(|it: Item| it@.path);
        let ghost s0 = staged@.map_values(|it: Item| it@.path);
        let ghost l = lv[i as int];
        proof {
            assert(lv.skip(i as int)[0] == lv[i as int]);
            assert(lv.skip(i as int).skip(1) =~= lv.skip(i as int + 1));
        }
        match mode {
            ScanMode::Top => {
                if str_eq(lines[i].as_str(), "Untracked files:") {
                    mode = ScanMode::SkipUntracked;
                } else if str_eq(lines[i].as_str(), "Changes to be committed:") {
                    mode = ScanMode::SkipStaged;
                }
            },
            ScanMode::SkipUntracked => {
                mode = ScanMode::InUntracked;
            },
            ScanMode::InUntracked => {
                if lines[i].as_str().is_empty() {
                    mode = ScanMode::Top;
                } else {
                    let path = trim_start(lines[i].as_str());
                    untracked.push(Item::new(path));
                    proof {
                        assert(untracked@.map_values(|it: Item| it@.path) =~= u0.push(
                            spec_trim_start(l),
                        ));
                        lemma_scan_after_push_untracked(
                            u0,
                            s0,
                            spec_trim_start(l),
                            spec_scan(lv.skip(i as int + 1), ScanMode::InUntracked),
                        );
                    }
                }
            },
            ScanMode::SkipStaged => {
                mode = ScanMode::InStaged;
            },
            ScanMode::InStaged => {
                if lines[i].as_str().is_empty() {
                    mode = ScanMode::Top;
                } else {
                    match strip_label(lines[i].as_str()) {
                        Some(path) => {
                            staged.push(Item::new(path));
                            proof {
                                assert(staged@.map_values(|it: Item| it@.path) =~= s0.push(
                                    path@,
                                ));
                                lemma_scan_after_push_staged(
                                    u0,
                                    s0,
                                    path@,
                                    spec_scan(lv.skip(i as int + 1), ScanMode::InStaged),
                                );
                            }
                        },
                        None => {
                            return Err(ParseError::UnknownLabel { line: lines[i].clone() });
                        },
                    }
                }
            },
        }
        i = i + 1;
    }
    proof {
        assert(lv.skip(i as int) =~= Seq::<Seq<char>>::empty());
    }
    match mode {
        ScanMode::SkipUntracked => Err(ParseError::TruncatedSection),
        ScanMode::SkipStaged => Err(ParseError::TruncatedSection),
        _ => {
            let st = Status {
                branch,
                untracked,
                unstaged: Vec::new(),
                staged,
                cursor: 0,
            };
            proof {
                let u0 = st.untracked@.map_values(|it: Item| it@.path);
                let s0 = st.staged@.map_values(|it: Item| it@.path);
                assert(u0 + Seq::<Seq<char>>::empty() =~= u0);
                assert(s0 + Seq::<Seq<char>>::empty() =~= s0);
                assert(spec_scan(lv.skip(1), ScanMode::Top) == (ScanOutcome::Done {
                    untracked: u0,
                    staged: s0,
                }));
                assert(st@ =~~= spec_snapshot(st.branch@, u0, s0));
            }
            Ok(st)
        },
    }
}

/// Gathering nothing in front of an outcome leaves it as it is.
proof fn lemma_scan_after_nil(o: ScanOutcome)
    ensures
        spec_scan_after(Seq::empty(), Seq::empty(), o) == o,
{
    match o {
        ScanOutcome::Done { untracked, staged } => {
            assert(spec_scan_after(Seq::empty(), Seq::empty(), o) =~~= o);
        },
        _ => {},
    }
}

/// A path the scanner would put first in the untracked list can instead
/// be gathered at the back of what is already in front.
proof fn lemma_scan_after_push_untracked(
    u0: Seq<Seq<char>>,
    s0: Seq<Seq<char>>,
    p: Seq<char>,
    o: ScanOutcome,
)
    ensures
        spec_scan_after(
            u0,
            s0,
            match o {
                ScanOutcome::Done { untracked, staged } => ScanOutcome::Done {
                    untracked: seq![p] + untracked,
                    staged,
                },
                e => e,
            },
        ) == spec_scan_after(u0.push(p), s0, o),
{
    match o {
        ScanOutcome::Done { untracked, staged } => {
            assert(u0 + (seq![p] + untracked) =~= u0.push(p) + untracked);
            assert(spec_scan_after(
                u0,
                s0,
                ScanOutcome::Done { untracked: seq![p] + untracked, staged },
            ) =~~= spec_scan_after(u0.push(p), s0, o));
        },
        _ => {},
    }
}

/// The same, for the staged list.
proof fn lemma_scan_after_push_staged(
    u0: Seq<Seq<char>>,
    s0: Seq<Seq<char>>,
    p: Seq<char>,
    o: ScanOutcome,
)
    ensures
        spec_scan_after(
            u0,
            s0,
            match o {
                ScanOutcome::Done { untracked, staged } => ScanOutcome::Done {
                    untracked,
                    staged: seq![p] + staged,
                },
                e => e,
            },
        ) == spec_scan_after(u0, s0.push(p), o),
{
    match o {
        ScanOutcome::Done { untracked, staged } => {
            assert(s0 + (seq![p] + staged) =~= s0.push(p) + staged);
            assert(spec_scan_after(
                u0,
                s0,
                ScanOutcome::Done { untracked, staged: seq![p] + staged },
            ) =~~= spec_scan_after(u0, s0.push(p), o));
        },
        _ => {},
    }
}

} // verus!
