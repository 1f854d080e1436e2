use vstd::prelude::*;

verus! {

/// Blank-trimmable characters at the front of a report line.
pub open spec fn spec_is_space(c: char) -> bool {
    c == ' ' || c == '\t'
}

/// `s` begins with `p`.
pub open spec fn spec_starts_with(s: Seq<char>, p: Seq<char>) -> bool {
    s.len() >= p.len() && s.subrange(0, p.len() as int) == p
}

/// `s` without its longest prefix of spaces and tabs.
pub open spec fn spec_trim_start(s: Seq<char>) -> Seq<char>
    decreases s.len(),
{
    if s.len() > 0 && spec_is_space(s[0]) {
        spec_trim_start(s.skip(1))
    } else {
        s
    }
}

/// The lines of `s`: maximal runs between newline characters. A final
/// newline closes the last line without opening an empty one, so
/// `"a\nb"` and `"a\nb\n"` both have the lines `a` and `b`.
pub open spec fn spec_lines(s: Seq<char>) -> Seq<Seq<char>>
    decreases s.len(),
{
    if s.len() == 0 {
        Seq::empty()
    } else if s[0] == '\n' {
        seq![Seq::<char>::empty()] + spec_lines(s.skip(1))
    } else {
        let rest = spec_lines(s.skip(1));
        if rest.len() == 0 {
            seq![seq![s[0]]]
        } else {
            seq![seq![s[0]] + rest[0]] + rest.skip(1)
        }
    }
}

/// The lines of a text with an unfinished first line `p` still open: `p`
/// extends the first line, and an empty leftover adds no line.
pub open spec fn spec_open_line(p: Seq<char>, ls: Seq<Seq<char>>) -> Seq<Seq<char>> {
    if ls.len() == 0 {
        if p.len() == 0 {
            Seq::empty()
        } else {
            seq![p]
        }
    } else {
        seq![p + ls[0]] + ls.skip(1)
    }
}

/// Consuming an ordinary character moves it from the text into the open
/// line.
proof fn lemma_open_line_step(p: Seq<char>, s: Seq<char>)
    requires
        s.len() > 0,
        s[0] != '\n',
    ensures
        spec_open_line(p, spec_lines(s)) == spec_open_line(p.push(s[0]), spec_lines(s.skip(1))),
{
    let rest = spec_lines(s.skip(1));
    if rest.len() == 0 {
        assert(spec_open_line(p, spec_lines(s)) =~~= spec_open_line(p.push(s[0]), rest));
    } else {
        assert(spec_open_line(p, spec_lines(s)) =~~= spec_open_line(p.push(s[0]), rest));
    }
}

/// Consuming a newline closes the open line.
proof fn lemma_open_line_newline(p: Seq<char>, s: Seq<char>)
    requires
        s.len() > 0,
        s[0] == '\n',
    ensures
        spec_open_line(p, spec_lines(s)) == seq![p] + spec_lines(s.skip(1)),
{
    assert(spec_open_line(p, spec_lines(s)) =~~= seq![p] + spec_lines(s.skip(1)));
}

/// Split a text into its lines, as `spec_lines` describes them.
pub fn split_lines(s: &str) -> (r: Vec<String>)
    ensures
        r@.map_values(|l: String| l@) == spec_lines(s@),
{
    let n = s.unicode_len();
    let mut out: Vec<String> = Vec::new();
    let mut start: usize = 0;
    let mut i: usize = 0;
    proof {
        assert(s@.skip(0) =~= s@);
        assert(s@.subrange(0, 0) =~= Seq::<char>::empty());
        assert(spec_open_line(Seq::<char>::empty(), spec_lines(s@)) =~= spec_lines(s@));
    }
    while i < n
        invariant
            n == s@.len(),
            start <= i <= n,
            spec_lines(s@) == out@.map_values(|l: String| l@) + spec_open_line(
                s@.subrange(start as int, i as int),
                spec_lines(s@.skip(i as int)),
            ),
        decreases n - i,
    {
        let ghost p = s@.subrange(start as int, i as int);
        proof {
            assert(s@.skip(i as int).skip(1) =~= s@.skip(i as int + 1));
            assert(s@.skip(i as int)[0] == s@[i as int]);
        }
        if s.get_char(i) == '\n' {
            let ghost done = out@;
            let line = s.substring_char(start, i);
            out.push(line.to_owned());
            proof {
                lemma_open_line_newline(p, s@.skip(i as int));
                assert(out@.map_values(|l: String| l@) =~= done.map_values(|l: String| l@)
                    + seq![p]);
                assert(spec_open_line(
                    Seq::<char>::empty(),
                    spec_lines(s@.skip(i as int + 1)),
                ) =~= spec_lines(s@.skip(i as int + 1)));
                assert(s@.subrange(i as int + 1, i as int + 1) =~= Seq::<char>::empty());
            }
            start = i + 1;
        } else {
            proof {
                lemma_open_line_step(p, s@.skip(i as int));
                assert(s@.subrange(start as int, i as int + 1) =~= p.push(s@[i as int]));
            }
        }
        i = i + 1;
    }
    proof {
        assert(s@.skip(n as int) =~= Seq::<char>::empty());
    }
    if start < n {
        let ghost done = out@;
        let line = s.substring_char(start, n);
        out.push(line.to_owned());
        proof {
            assert(out@.map_values(|l: String| l@) =~= done.map_values(|l: String| l@)
                + seq![s@.subrange(start as int, n as int)]);
            assert(out@.map_values(|l: String| l@) =~= spec_lines(s@));
        }
    } else {
        proof {
            assert(s@.subrange(start as int, n as int) =~= Seq::<char>::empty());
            assert(out@.map_values(|l: String| l@) =~= spec_lines(s@));
        }
    }
    out
}

/// Two string slices hold the same characters.
pub fn str_eq(a: &str, b: &str) -> (r: bool)
    ensures
        r == (a@ == b@),
{
    let n = a.unicode_len();
    if n != b.unicode_len() {
        return false;
    }
    let mut i: usize = 0;
    while i < n
        invariant
            n == a@.len(),
            n == b@.len(),
            i <= n,
            forall|k: int| 0 <= k < i ==> a@[k] == b@[k],
        decreases n - i,
    {
        if a.get_char(i) != b.get_char(i) {
            return false;
        }
        i = i + 1;
    }
    proof {
        assert(a@ =~= b@);
    }
    true
}

/// `s` without `p` at its front, or nothing when `s` does not begin
/// with `p`.
pub fn try_strip_prefix<'a>(s: &'a str, p: &str) -> (r: Option<&'a str>)
    ensures
        match r {
            Some(rest) => spec_starts_with(s@, p@) && rest@ == s@.skip(p@.len() as int),
            None => !spec_starts_with(s@, p@),
        },
{
    let n = s.unicode_len();
    let m = p.unicode_len();
    if m > n {
        return None;
    }
    let mut i: usize = 0;
    while i < m
        invariant
            n == s@.len(),
            m == p@.len(),
            m <= n,
            i <= m,
            forall|k: int| 0 <= k < i ==> s@[k] == p@[k],
        decreases m - i,
    {
        if s.get_char(i) != p.get_char(i) {
            proof {
                assert(s@.subrange(0, m as int)[i as int] == s@[i as int]);
            }
            return None;
        }
        i = i + 1;
    }
    proof {
        assert(s@.subrange(0, m as int) =~= p@);
    }
    let rest = s.substring_char(m, n);
    proof {
        assert(rest@ =~= s@.skip(m as int));
    }
    Some(rest)
}

/// `s` without its leading spaces and tabs.
pub fn trim_start<'a>(s: &'a str) -> (r: &'a str)
    ensures
        r@ == spec_trim_start(s@),
{
    let n = s.unicode_len();
    let mut i: usize = 0;
    proof {
        assert(s@.skip(0) =~= s@);
    }
    while i < n && (s.get_char(i) == ' ' || s.get_char(i) == '\t')
        invariant
            n == s@.len(),
            i <= n,
            spec_trim_start(s@) == spec_trim_start(s@.skip(i as int)),
        decreases n - i,
    {
        proof {
            assert(s@.skip(i as int)[0] == s@[i as int]);
            assert(s@.skip(i as int).skip(1) =~= s@.skip(i as int + 1));
        }
        i = i + 1;
    }
    let r = s.substring_char(i, n);
    proof {
        if i < n {
            assert(s@.skip(i as int)[0] == s@[i as int]);
        }
        assert(spec_trim_start(s@.skip(i as int)) == s@.skip(i as int));
        assert(r@ =~= s@.skip(i as int));
    }
    r
}

} // verus!
