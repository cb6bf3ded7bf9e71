//! Package descriptor parsing: extract the package name and the version
//! field from a descriptor document. Both are simple line patterns: a
//! `name = "<value>"` assignment and a `version = "<d>.<d>.<d>"` line.

use vstd::prelude::*;
use vstd::string::StrSliceExecFns;
use vstd::string::StringExecFns;
use crate::strutil::{spec_trim_start, spec_split, trim_start, starts_with, split_char};
use crate::semver::{is_digit, digit_char};

verus! {

/// A descriptor that lacks a required field.
#[derive(Clone, Copy, PartialEq, Eq, Structural, Debug)]
pub enum ParseError {
    /// No `name = "<value>"` assignment was found.
    MissingName,
}

/// The index of the last occurrence of `c` in `s`, or -1 when there is
/// none.
pub open spec fn spec_rfind(s: Seq<char>, c: char) -> int
    decreases s.len(),
{
    if s.len() == 0 {
        -1
    } else if s.last() == c {
        s.len() - 1
    } else {
        spec_rfind(s.drop_last(), c)
    }
}

/// Find the last occurrence of `c` in `s`.
pub fn rfind_char(s: &str, c: char) -> (r: Option<usize>)
    ensures
        match r {
            Some(i) => i == spec_rfind(s@, c) && i < s@.len(),
            None => spec_rfind(s@, c) == -1,
        },
    decreases s@.len(),
{
    let n = s.unicode_len();
    if n == 0 {
        None
    } else if s.get_char(n - 1) == c {
        Some(n - 1)
    } else {
        let r = rfind_char(s.substring_char(0, n - 1), c);
        proof {
            assert(s@.subrange(0, n - 1) == s@.drop_last());
        }
        r
    }
}

/// The length of the leading run of decimal digits in `s`.
pub open spec fn spec_digit_run(s: Seq<char>) -> int
    decreases s.len(),
{
    if s.len() == 0 || !is_digit(s[0]) {
        0
    } else {
        1 + spec_digit_run(s.subrange(1, s.len() as int))
    }
}

proof fn lemma_digit_run_bound(s: Seq<char>)
    ensures
        0 <= spec_digit_run(s) <= s.len(),
    decreases s.len(),
{
    if s.len() > 0 && is_digit(s[0]) {
        lemma_digit_run_bound(s.subrange(1, s.len() as int));
    }
}

/// Count the leading run of decimal digits.
pub fn digit_run(s: &str) -> (r: usize)
    ensures
        r == spec_digit_run(s@),
        r <= s@.len(),
    decreases s@.len(),
{
    proof {
        lemma_digit_run_bound(s@);
    }
    let n = s.unicode_len();
    if n == 0 || !digit_char(s.get_char(0)) {
        0
    } else {
        1 + digit_run(s.substring_char(1, n))
    }
}

/// The value captured by a `name = "<value>"` line: after optional
/// leading whitespace, the word `name`, optional whitespace, `=`,
/// optional whitespace and an opening quote, everything up to the last
/// quote of the line, which must be non-empty.
pub open spec fn spec_name_line(line: Seq<char>) -> Option<Seq<char>> {
    let key = "name"@;
    let t = spec_trim_start(line);
    if t.len() < key.len() || t.subrange(0, key.len() as int) != key {
        None
    } else {
        let u = spec_trim_start(t.subrange(key.len() as int, t.len() as int));
        if u.len() < 1 || u[0] != '=' {
            None
        } else {
            let w = spec_trim_start(u.subrange(1, u.len() as int));
            if w.len() < 1 || w[0] != '"' {
                None
            } else {
                let rest = w.subrange(1, w.len() as int);
                let q = spec_rfind(rest, '"');
                if q >= 1 {
                    Some(rest.subrange(0, q))
                } else {
                    None
                }
            }
        }
    }
}

/// Match one line against the `name` pattern.
pub fn name_line(line: &str) -> (r: Option<String>)
    ensures
        match r {
            Some(v) => spec_name_line(line@) == Some(v@),
            None => spec_name_line(line@) is None,
        },
{
    let t = trim_start(line);
    let klen = "name".unicode_len();
    if !starts_with(t.as_str(), "name") {
        return None;
    }
    let u = trim_start(t.as_str().substring_char(klen, t.as_str().unicode_len()));
    if u.as_str().unicode_len() < 1 || u.as_str().get_char(0) != '=' {
        return None;
    }
    let w = trim_start(u.as_str().substring_char(1, u.as_str().unicode_len()));
    if w.as_str().unicode_len() < 1 || w.as_str().get_char(0) != '"' {
        return None;
    }
    let rest = w.as_str().substring_char(1, w.as_str().unicode_len());
    match rfind_char(rest, '"') {
        Some(q) if q >= 1 => Some(String::from_str(rest.substring_char(0, q))),
        _ => None,
    }
}

/// The first hit of the `name` pattern over `lines`, from index `k` on.
pub open spec fn spec_first_name(lines: Seq<Seq<char>>, k: int) -> Option<Seq<char>>
    decreases lines.len() - k,
    when 0 <= k <= lines.len()
{
    if k >= lines.len() {
        None
    } else if spec_name_line(lines[k]) is Some {
        spec_name_line(lines[k])
    } else {
        spec_first_name(lines, k + 1)
    }
}

/// The name declared by a descriptor: the capture of the first line that
/// matches the `name` pattern.
pub open spec fn spec_project_name(s: Seq<char>) -> Option<Seq<char>> {
    spec_first_name(spec_split(s, '\n'), 0)
}

/// Extract the package name from descriptor contents: the first
/// `name = "<value>"` assignment. Fails when no line carries one.
pub fn find_project_name(contents: &str) -> (r: Result<String, ParseError>)
    ensures
        match r {
            Ok(n) => spec_project_name(contents@) == Some(n@),
            Err(e) => spec_project_name(contents@) is None && e == ParseError::MissingName,
        },
{
    proof {
        reveal_strlit("\n");
        assert("\n"@ =~= seq!['\n']);
    }
    let lines = split_char(contents, '\n', "\n");
    let ghost lviews = lines@.map_values(|p: String| p@);
    let mut i: usize = 0;
    while i < lines.len()
        invariant
            0 <= i <= lines.len(),
            lviews == lines@.map_values(|p: String| p@),
            lviews == spec_split(contents@, '\n'),
            spec_first_name(lviews, 0) == spec_first_name(lviews, i as int),
        decreases lines.len() - i,
    {
        match name_line(lines[i].as_str()) {
            Some(v) => {
                proof {
                    assert(lviews[i as int] == lines@[i as int]@);
                    assert(spec_first_name(lviews, i as int) == Some(v@));
                }
                return Ok(v);
            },
            None => {
                proof {
                    assert(lviews[i as int] == lines@[i as int]@);
                    assert(spec_first_name(lviews, i as int) == spec_first_name(lviews, i + 1));
                }
            },
        }
        i = i + 1;
    }
    Err(ParseError::MissingName)
}

/// The three digit runs captured by a `version = "<d>.<d>.<d>"` line:
/// the word `version` at the very start of the line, optional
/// whitespace, `=`, optional whitespace, then a quoted dotted triple of
/// digit runs closing the line.
pub open spec fn spec_version_line(line: Seq<char>) -> Option<(Seq<char>, Seq<char>, Seq<char>)> {
    let key = "version"@;
    if line.len() < key.len() || line.subrange(0, key.len() as int) != key {
        None
    } else {
        let u = spec_trim_start(line.subrange(key.len() as int, line.len() as int));
        if u.len() < 1 || u[0] != '=' {
            None
        } else {
            let w = spec_trim_start(u.subrange(1, u.len() as int));
            if w.len() < 1 || w[0] != '"' {
                None
            } else {
                let rest = w.subrange(1, w.len() as int);
                let a = spec_digit_run(rest);
                if a < 1 || a >= rest.len() || rest[a] != '.' {
                    None
                } else {
                    let r2 = rest.subrange(a + 1, rest.len() as int);
                    let b = spec_digit_run(r2);
                    if b < 1 || b >= r2.len() || r2[b] != '.' {
                        None
                    } else {
                        let r3 = r2.subrange(b + 1, r2.len() as int);
                        let c = spec_digit_run(r3);
                        if c < 1 || c + 1 != r3.len() || r3[c] != '"' {
                            None
                        } else {
                            Some((rest.subrange(0, a), r2.subrange(0, b), r3.subrange(0, c)))
                        }
                    }
                }
            }
        }
    }
}

/// Match one line against the `version` pattern.
pub fn version_line(line: &str) -> (r: Option<(String, String, String)>)
    ensures
        match r {
            Some(p) => spec_version_line(line@) == Some((p.0@, p.1@, p.2@)),
            None => spec_version_line(line@) is None,
        },
{
    let klen = "version".unicode_len();
    if !starts_with(line, "version") {
        return None;
    }
    let u = trim_start(line.substring_char(klen, line.unicode_len()));
    if u.as_str().unicode_len() < 1 || u.as_str().get_char(0) != '=' {
        return None;
    }
    let w = trim_start(u.as_str().substring_char(1, u.as_str().unicode_len()));
    if w.as_str().unicode_len() < 1 || w.as_str().get_char(0) != '"' {
        return None;
    }
    let rest = w.as_str().substring_char(1, w.as_str().unicode_len());
    let rn = rest.unicode_len();
    let a = digit_run(rest);
    if a < 1 || a >= rn || rest.get_char(a) != '.' {
        return None;
    }
    let r2 = rest.substring_char(a + 1, rn);
    let r2n = r2.unicode_len();
    let b = digit_run(r2);
    if b < 1 || b >= r2n || r2.get_char(b) != '.' {
        return None;
    }
    let r3 = r2.substring_char(b + 1, r2n);
    let r3n = r3.unicode_len();
    let c = digit_run(r3);
    if c < 1 || c + 1 != r3n || r3.get_char(c) != '"' {
        return None;
    }
    Some(
        (
            String::from_str(rest.substring_char(0, a)),
            String::from_str(r2.substring_char(0, b)),
            String::from_str(r3.substring_char(0, c)),
        ),
    )
}

/// The first hit of the `version` pattern over `lines`, from index `k` on.
pub open spec fn spec_first_version(lines: Seq<Seq<char>>, k: int) -> Option<
    (Seq<char>, Seq<char>, Seq<char>),
>
    decreases lines.len() - k,
    when 0 <= k <= lines.len()
{
    if k >= lines.len() {
        None
    } else if spec_version_line(lines[k]) is Some {
        spec_version_line(lines[k])
    } else {
        spec_first_version(lines, k + 1)
    }
}

/// The version field of a descriptor: the digit runs of the first line
/// that matches the `version` pattern.
pub open spec fn spec_version_field(s: Seq<char>) -> Option<(Seq<char>, Seq<char>, Seq<char>)> {
    spec_first_version(spec_split(s, '\n'), 0)
}

/// Extract the version components from descriptor contents: the first
/// strict `version = "<major>.<minor>.<patch>"` line.
pub fn find_version_parts(contents: &str) -> (r: Option<(String, String, String)>)
    ensures
        match r {
            Some(p) => spec_version_field(contents@) == Some((p.0@, p.1@, p.2@)),
            None => spec_version_field(contents@) is None,
        },
{
    proof {
        reveal_strlit("\n");
        assert("\n"@ =~= seq!['\n']);
    }
    let lines = split_char(contents, '\n', "\n");
    let ghost lviews = lines@.map_values(|p: String| p@);
    let mut i: usize = 0;
    while i < lines.len()
        invariant
            0 <= i <= lines.len(),
            lviews == lines@.map_values(|p: String| p@),
            lviews == spec_split(contents@, '\n'),
            spec_first_version(lviews, 0) == spec_first_version(lviews, i as int),
        decreases lines.len() - i,
    {
        match version_line(lines[i].as_str()) {
            Some(p) => {
                proof {
                    assert(lviews[i as int] == lines@[i as int]@);
                    assert(spec_first_version(lviews, i as int) == Some((p.0@, p.1@, p.2@)));
                }
                return Some(p);
            },
            None => {
                proof {
                    assert(lviews[i as int] == lines@[i as int]@);
                    assert(spec_first_version(lviews, i as int) == spec_first_version(
                        lviews,
                        i + 1,
                    ));
                }
            },
        }
        i = i + 1;
    }
    None
}

} // verus!
