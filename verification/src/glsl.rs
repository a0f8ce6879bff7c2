use vstd::prelude::*;

verus! {

/// Index of the first occurrence of `c` in `s`, or -1 when `c` is absent.
pub open spec fn find_char(s: Seq<char>, c: char) -> int
    decreases s.len(),
{
    if s.len() == 0 {
        -1
    } else if s[0] == c {
        0
    } else {
        let r = find_char(s.drop_first(), c);
        if r < 0 {
            -1
        } else {
            r + 1
        }
    }
}

/// `find_char` points at the first occurrence: the character there is `c`
/// and nothing before it is.
pub proof fn lemma_find_char(s: Seq<char>, c: char)
    ensures
        find_char(s, c) >= 0 ==> find_char(s, c) < s.len() && s[find_char(s, c)] == c && (forall|
            j: int,
        | 0 <= j < find_char(s, c) ==> s[j] != c),
        find_char(s, c) < 0 ==> forall|j: int| 0 <= j < s.len() ==> s[j] != c,
    decreases s.len(),
{
    if s.len() == 0 {
    } else if s[0] == c {
    } else {
        lemma_find_char(s.drop_first(), c);
        let r = find_char(s.drop_first(), c);
        if r >= 0 {
            assert forall|j: int| 0 <= j < r + 1 implies s[j] != c by {
                if j > 0 {
                    assert(s.drop_first()[j - 1] == s[j]);
                }
            }
        } else {
            assert forall|j: int| 0 <= j < s.len() implies s[j] != c by {
                if j > 0 {
                    assert(s.drop_first()[j - 1] == s[j]);
                }
            }
        }
    }
}

/// First occurrence of `c` in `s`, scanning left to right.
pub fn find_in(s: &str, c: char) -> (r: Option<usize>)
    ensures
        match r {
            Some(i) => find_char(s@, c) == i as int,
            None => find_char(s@, c) == -1,
        },
{
    let n = s.unicode_len();
    let mut i: usize = 0;
    while i < n
        invariant
            i <= n,
            n == s@.len(),
            forall|j: int| 0 <= j < i ==> s@[j] != c,
        decreases n - i,
    {
        if s.get_char(i) == c {
            proof {
                lemma_find_char(s@, c);
                let f = find_char(s@, c);
                assert(f >= 0) by {
                    if f < 0 {
                        assert(s@[i as int] != c);
                    }
                }
                assert(f == i as int) by {
                    if f < i as int {
                        assert(s@[f] != c);
                    }
                    if f > i as int {
                        assert(s@[i as int] != c);
                    }
                }
            }
            return Some(i);
        }
        i = i + 1;
    }
    proof {
        lemma_find_char(s@, c);
        if find_char(s@, c) >= 0 {
            assert(s@[find_char(s@, c)] != c);
        }
    }
    None
}

/// The attribute name a single source line declares, if any: a line of the
/// form `in <type> <name>;` (the trailing semicolon may be missing) names
/// `<name>`; any other line names nothing.
pub open spec fn spec_line_attrib(l: Seq<char>) -> Option<Seq<char>> {
    if l.len() > 3 && l.subrange(0, 3) == "in "@ {
        let rest = l.subrange(3, l.len() as int);
        let sp = find_char(rest, ' ');
        if sp >= 0 {
            let tail = rest.subrange(sp + 1, rest.len() as int);
            let sc = find_char(tail, ';');
            let name = if sc >= 0 {
                tail.subrange(0, sc)
            } else {
                tail
            };
            if name.len() > 0 {
                Some(name)
            } else {
                None
            }
        } else {
            None
        }
    } else {
        None
    }
}

/// Extract the attribute name a single line declares.
pub fn line_attrib(l: &str) -> (r: Option<String>)
    ensures
        match r {
            Some(name) => spec_line_attrib(l@) == Some(name@),
            None => spec_line_attrib(l@) is None,
        },
{
    let n = l.unicode_len();
    proof {
        reveal_strlit("in ");
    }
    if n <= 3 {
        return None;
    }
    let c0 = l.get_char(0);
    let c1 = l.get_char(1);
    let c2 = l.get_char(2);
    if !(c0 == 'i' && c1 == 'n' && c2 == ' ') {
        proof {
            if l@.subrange(0, 3) == "in "@ {
                assert(l@.subrange(0, 3)[0] == l@[0]);
                assert(l@.subrange(0, 3)[1] == l@[1]);
                assert(l@.subrange(0, 3)[2] == l@[2]);
            }
        }
        return None;
    }
    proof {
        assert(l@.subrange(0, 3) =~= "in "@);
    }
    let rest = l.substring_char(3, n);
    let sp = match find_in(rest, ' ') {
        None => {
            return None;
        },
        Some(sp) => sp,
    };
    proof {
        lemma_find_char(rest@, ' ');
    }
    let m = rest.unicode_len();
    let tail = rest.substring_char(sp + 1, m);
    let tn = tail.unicode_len();
    proof {
        lemma_find_char(tail@, ';');
    }
    let name = match find_in(tail, ';') {
        None => tail,
        Some(sc) => tail.substring_char(0, sc),
    };
    if name.unicode_len() > 0 {
        Some(name.to_owned())
    } else {
        None
    }
}

/// The source split at every newline; the separators are dropped and the
/// final fragment is kept even when empty.
pub open spec fn spec_split_lines(s: Seq<char>) -> Seq<Seq<char>>
    decreases s.len(),
    via spec_split_lines_decreases
{
    let i = find_char(s, '\n');
    if i < 0 {
        seq![s]
    } else {
        seq![s.subrange(0, i)] + spec_split_lines(s.subrange(i + 1, s.len() as int))
    }
}

#[via_fn]
proof fn spec_split_lines_decreases(s: Seq<char>) {
    lemma_find_char(s, '\n');
}

/// Split a source text into its lines.
pub fn split_lines(s: &str) -> (lines: Vec<String>)
    ensures
        lines@.map_values(|l: String| l@) == spec_split_lines(s@),
{
    let mut lines: Vec<String> = Vec::new();
    let mut rest: &str = s;
    loop
        invariant
            spec_split_lines(s@) == lines@.map_values(|l: String| l@) + spec_split_lines(rest@),
        decreases rest@.len(),
    {
        let n = rest.unicode_len();
        match find_in(rest, '\n') {
            None => {
                lines.push(rest.to_owned());
                proof {
                    assert(spec_split_lines(rest@) =~= seq![rest@]);
                    assert(lines@.map_values(|l: String| l@) =~= spec_split_lines(s@));
                }
                return lines;
            },
            Some(i) => {
                proof {
                    lemma_find_char(rest@, '\n');
                }
                let ghost old_rest = rest@;
                let ghost old_lines = lines@;
                let line = rest.substring_char(0, i);
                lines.push(line.to_owned());
                rest = rest.substring_char(i + 1, n);
                proof {
                    assert(spec_split_lines(old_rest) == seq![old_rest.subrange(0, i as int)]
                        + spec_split_lines(old_rest.subrange(i + 1, old_rest.len() as int)));
                    assert(lines@.map_values(|l: String| l@) =~= old_lines.map_values(
                        |l: String| l@,
                    ) + seq![old_rest.subrange(0, i as int)]);
                    assert(lines@.map_values(|l: String| l@) + spec_split_lines(rest@)
                        =~= old_lines.map_values(|l: String| l@) + spec_split_lines(old_rest));
                }
            },
        }
    }
}

/// Every attribute name the lines declare, in order of declaration.
pub open spec fn spec_attribs_in_lines(ls: Seq<Seq<char>>) -> Seq<Seq<char>>
    decreases ls.len(),
{
    if ls.len() == 0 {
        Seq::empty()
    } else {
        (match spec_line_attrib(ls[0]) {
            Some(n) => seq![n],
            None => Seq::empty(),
        }) + spec_attribs_in_lines(ls.drop_first())
    }
}

/// Every attribute name a source text declares, first line first.
pub open spec fn spec_attribs(s: Seq<char>) -> Seq<Seq<char>> {
    spec_attribs_in_lines(spec_split_lines(s))
}

/// Collect the attribute names a source text declares, in order.
pub fn parse_attribs(s: &str) -> (names: Vec<String>)
    ensures
        names@.map_values(|n: String| n@) == spec_attribs(s@),
{
    let lines = split_lines(s);
    let ghost lviews = lines@.map_values(|l: String| l@);
    let mut names: Vec<String> = Vec::new();
    let mut i: usize = 0;
    proof {
        assert(lviews.skip(0) =~= lviews);
    }
    while i < lines.len()
        invariant
            i <= lines@.len(),
            lviews == lines@.map_values(|l: String| l@),
            spec_attribs(s@) == names@.map_values(|n: String| n@) + spec_attribs_in_lines(
                lviews.skip(i as int),
            ),
        decreases lines@.len() - i,
    {
        let ghost old_names = names@;
        match line_attrib(&lines[i]) {
            Some(name) => {
                names.push(name);
            },
            None => {},
        }
        proof {
            assert(lviews.skip(i as int)[0] == lviews[i as int]);
            assert(lviews[i as int] == lines@[i as int]@);
            assert(lviews.skip(i as int).drop_first() =~= lviews.skip(i as int + 1));
            assert(names@.map_values(|n: String| n@) + spec_attribs_in_lines(
                lviews.skip(i as int + 1),
            ) =~= old_names.map_values(|n: String| n@) + spec_attribs_in_lines(
                lviews.skip(i as int),
            ));
        }
        i = i + 1;
    }
    proof {
        assert(lviews.skip(lviews.len() as int) =~= Seq::<Seq<char>>::empty());
        assert(names@.map_values(|n: String| n@) + spec_attribs_in_lines(
            lviews.skip(lviews.len() as int),
        ) =~= names@.map_values(|n: String| n@));
    }
    names
}

/// How often `c` occurs in `s`.
pub open spec fn count_char(s: Seq<char>, c: char) -> nat
    decreases s.len(),
{
    if s.len() == 0 {
        0
    } else {
        count_char(s.drop_last(), c) + (if s.last() == c {
            1nat
        } else {
            0nat
        })
    }
}

/// Count the occurrences of `c` in `s`.
pub fn count_char_in(s: &str, c: char) -> (r: usize)
    ensures
        r == count_char(s@, c),
{
    let n = s.unicode_len();
    let mut cnt: usize = 0;
    let mut i: usize = 0;
    proof {
        assert(s@.subrange(0, 0) =~= Seq::<char>::empty());
    }
    while i < n
        invariant
            i <= n,
            n == s@.len(),
            cnt <= i,
            cnt == count_char(s@.subrange(0, i as int), c),
        decreases n - i,
    {
        let ch = s.get_char(i);
        proof {
            assert(s@.subrange(0, i as int + 1).drop_last() =~= s@.subrange(0, i as int));
            assert(s@.subrange(0, i as int + 1).last() == s@[i as int]);
        }
        if ch == c {
            cnt = cnt + 1;
        }
        i = i + 1;
    }
    proof {
        assert(s@.subrange(0, n as int) =~= s@);
    }
    cnt
}

/// The model driver's compile rule: a source compiles when it opens with a
/// `#version` directive and its braces pair up by count.
pub open spec fn source_accepted(s: Seq<char>) -> bool {
    s.len() >= 8 && s.subrange(0, 8) == "#version"@ && count_char(s, '{') == count_char(s, '}')
}

/// Decide whether a source text compiles under the model driver's rule.
pub fn check_source(s: &str) -> (ok: bool)
    ensures
        ok == source_accepted(s@),
{
    let n = s.unicode_len();
    proof {
        reveal_strlit("#version");
    }
    if n < 8 {
        return false;
    }
    let lit: &str = "#version";
    let mut i: usize = 0;
    while i < 8
        invariant
            i <= 8,
            n == s@.len(),
            8 <= n,
            lit@ == "#version"@,
            lit@.len() == 8,
            forall|j: int| 0 <= j < i ==> s@[j] == lit@[j],
        decreases 8 - i,
    {
        if s.get_char(i) != lit.get_char(i) {
            proof {
                if s@.subrange(0, 8) == "#version"@ {
                    assert(s@.subrange(0, 8)[i as int] == s@[i as int]);
                }
            }
            return false;
        }
        i = i + 1;
    }
    proof {
        assert(s@.subrange(0, 8) =~= "#version"@);
    }
    let opens = count_char_in(s, '{');
    let closes = count_char_in(s, '}');
    opens == closes
}

} // verus!
