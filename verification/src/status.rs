//! Parsing the output of the version-control status collaborator: one
//! changed path per line, each optionally prefixed by one or two status
//! code characters and whitespace. Only that leading prefix is stripped;
//! status-code letters inside a path are left alone.

use vstd::prelude::*;
use vstd::string::StrSliceExecFns;
use crate::strutil::{
    string_views, is_space, space_char, spec_trim, spec_trim_start, spec_split, trim, trim_start,
    split_char,
};

verus! {

/// The status codes a prefix is built from.
pub open spec fn is_status_char(c: char) -> bool {
    c == 'M' || c == 'T' || c == 'A' || c == 'D' || c == 'R' || c == 'C' || c == 'U' || c == '?'
        || c == '!'
}

/// Executable status-code test.
pub fn status_char(c: char) -> (r: bool)
    ensures
        r == is_status_char(c),
{
    c == 'M' || c == 'T' || c == 'A' || c == 'D' || c == 'R' || c == 'C' || c == 'U' || c == '?'
        || c == '!'
}

/// The length of the status prefix at the very start of `t`: two status
/// codes followed by a whitespace character when possible, else one
/// status code followed by a whitespace character, else nothing.
pub open spec fn spec_status_prefix_len(t: Seq<char>) -> int {
    if t.len() >= 3 && is_status_char(t[0]) && is_status_char(t[1]) && is_space(t[2]) {
        3
    } else if t.len() >= 2 && is_status_char(t[0]) && is_space(t[1]) {
        2
    } else {
        0
    }
}

/// `l` with its leading status markers removed: leading whitespace, then
/// the status prefix, when one stands there. A line with no leading
/// status prefix keeps all of its text (less the leading whitespace).
pub open spec fn spec_strip_status(l: Seq<char>) -> Seq<char> {
    let t = spec_trim_start(l);
    t.subrange(spec_status_prefix_len(t), t.len() as int)
}

/// One reported line turned into a changed path: the leading status
/// prefix removed, then the line trimmed. A path with no status prefix
/// comes back trimmed, as it stands.
pub open spec fn spec_status_line(l: Seq<char>) -> Seq<char> {
    spec_trim(spec_strip_status(l))
}

/// All changed paths a status report denotes, one per line.
pub open spec fn spec_status_lines(out: Seq<char>) -> Seq<Seq<char>> {
    spec_split(out, '\n').map_values(|l: Seq<char>| spec_status_line(l))
}

/// The length of the status prefix at the start of `t`.
fn status_prefix_len(t: &str) -> (r: usize)
    ensures
        r == spec_status_prefix_len(t@),
        r <= t@.len(),
{
    let n = t.unicode_len();
    if n >= 3 && status_char(t.get_char(0)) && status_char(t.get_char(1)) && space_char(
        t.get_char(2),
    ) {
        3
    } else if n >= 2 && status_char(t.get_char(0)) && space_char(t.get_char(1)) {
        2
    } else {
        0
    }
}

/// Strip the leading status prefix from one line and trim it.
pub fn status_line(l: &str) -> (r: String)
    ensures
        r@ == spec_status_line(l@),
{
    let t = trim_start(l);
    let p = status_prefix_len(t.as_str());
    let rest = t.as_str().substring_char(p, t.as_str().unicode_len());
    trim(rest)
}

/// Split a status report into changed paths: one per line, each with its
/// leading status prefix removed and its whitespace trimmed.
pub fn status_lines(output: &str) -> (r: Vec<String>)
    ensures
        string_views(r@) == spec_status_lines(output@),
{
    proof {
        reveal_strlit("\n");
        assert("\n"@ =~= seq!['\n']);
    }
    let lines = split_char(output, '\n', "\n");
    let ghost lviews = lines@.map_values(|p: String| p@);
    let mut out: Vec<String> = Vec::new();
    let mut k: usize = 0;
    while k < lines.len()
        invariant
            0 <= k <= lines.len(),
            lviews == lines@.map_values(|p: String| p@),
            lviews == spec_split(output@, '\n'),
            out@.len() == k,
            forall|j: int| 0 <= j < k ==> out@[j]@ == spec_status_line(#[trigger] lviews[j]),
        decreases lines.len() - k,
    {
        proof {
            assert(lviews[k as int] == lines@[k as int]@);
        }
        let cleaned = status_line(lines[k].as_str());
        out.push(cleaned);
        k = k + 1;
    }
    proof {
        assert(string_views(out@) =~= spec_status_lines(output@));
    }
    out
}

} // verus!
