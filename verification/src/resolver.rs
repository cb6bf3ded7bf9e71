//! The workspace resolver: read the workspace-members declaration out of
//! the root configuration text, turn each member entry into an
//! unanchored wildcard pattern, and test changed-file paths against the
//! patterns with a regular-expression search.

use vstd::prelude::*;
use vstd::string::StrSliceExecFns;
use vstd::string::StringExecFns;
use vstd::seq_lib::group_to_multiset_ensures;
use crate::strutil::{
    string_views, spec_trim, spec_trim_start, spec_split, spec_replace, spec_find, trim,
    trim_start, replace, split_char, find, starts_with,
};

verus! {

/// A workspace manifest whose members declaration is absent or
/// malformed.
#[derive(Clone, Copy, PartialEq, Eq, Structural, Debug)]
pub enum ConfigError {
    /// No well-formed workspace members declaration was found.
    MissingMembers,
}

/// Whether a regular-expression pattern compiles. Whether compilation
/// succeeds depends on the pattern alone.
pub uninterp spec fn regex_valid(pattern: Seq<char>) -> bool;

/// Whether an unanchored regular-expression search of `pattern` finds a
/// match anywhere in `text`. The outcome depends on the pattern and the
/// text alone.
pub uninterp spec fn regex_match(pattern: Seq<char>, text: Seq<char>) -> bool;

/// Relies on regex::Regex::new and regex::Regex::is_match: compiling a
/// pattern succeeds or fails by the pattern alone, and an unanchored
/// search of the compiled pattern over `text` is a function of the
/// pattern and the text. A pattern that does not compile yields `None`.
#[verifier::external_body]
fn regex_search(pattern: &str, text: &str) -> (r: Option<bool>)
    ensures
        (r is Some) == regex_valid(pattern@),
        r matches Some(b) ==> b == regex_match(pattern@, text@),
{
    match regex::Regex::new(pattern) {
        Ok(re) => Some(re.is_match(text)),
        Err(_) => None,
    }
}

/// Whether some pattern of `pats` is valid and matches `path`.
pub open spec fn spec_is_member(pats: Seq<Seq<char>>, path: Seq<char>) -> bool {
    exists|i: int|
        0 <= i < pats.len() && regex_valid(#[trigger] pats[i]) && regex_match(pats[i], path)
}

/// Whether a changed-file path belongs to the workspace: true exactly
/// when some member pattern compiles and its unanchored search matches
/// the path. A pattern that does not compile matches nothing.
pub fn is_workspace_member(members: &Vec<String>, file: &str) -> (r: bool)
    ensures
        r == spec_is_member(string_views(members@), file@),
{
    let ghost pats = string_views(members@);
    let mut k: usize = 0;
    while k < members.len()
        invariant
            0 <= k <= members.len(),
            pats == string_views(members@),
            forall|j: int|
                0 <= j < k ==> !(regex_valid(#[trigger] pats[j]) && regex_match(pats[j], file@)),
        decreases members.len() - k,
    {
        proof {
            assert(pats[k as int] == members@[k as int]@);
        }
        match regex_search(members[k].as_str(), file) {
            Some(true) => {
                proof {
                    assert(regex_valid(pats[k as int]) && regex_match(pats[k as int], file@));
                }
                return true;
            },
            _ => {},
        }
        k = k + 1;
    }
    false
}

/// Law: membership depends on which patterns are present, not on their
/// order — two pattern lists with the same multiset of patterns accept
/// exactly the same paths.
pub proof fn lemma_member_order_irrelevant(p1: Seq<Seq<char>>, p2: Seq<Seq<char>>, path: Seq<char>)
    requires
        p1.to_multiset() == p2.to_multiset(),
    ensures
        spec_is_member(p1, path) == spec_is_member(p2, path),
{
    broadcast use group_to_multiset_ensures;

    if spec_is_member(p1, path) {
        let i = choose|i: int|
            0 <= i < p1.len() && regex_valid(#[trigger] p1[i]) && regex_match(p1[i], path);
        assert(p1.contains(p1[i]));
        assert(p2.to_multiset().count(p1[i]) > 0);
        assert(p2.contains(p1[i]));
        let j = choose|j: int| 0 <= j < p2.len() && p2[j] == p1[i];
        assert(regex_valid(p2[j]) && regex_match(p2[j], path));
    }
    if spec_is_member(p2, path) {
        let i = choose|i: int|
            0 <= i < p2.len() && regex_valid(#[trigger] p2[i]) && regex_match(p2[i], path);
        assert(p2.contains(p2[i]));
        assert(p1.to_multiset().count(p2[i]) > 0);
        assert(p1.contains(p2[i]));
        let j = choose|j: int| 0 <= j < p1.len() && p1[j] == p2[i];
        assert(regex_valid(p1[j]) && regex_match(p1[j], path));
    }
}

/// The raw members list declared directly after one header occurrence:
/// at least one whitespace character, then `members`, `=` and an opening
/// bracket; the capture runs to the first closing bracket and must be
/// non-empty and stay on one line.
pub open spec fn spec_capture_after(after: Seq<char>) -> Option<Seq<char>> {
    let t = spec_trim_start(after);
    if t.len() >= after.len() {
        None
    } else if t.len() < "members"@.len() || t.subrange(0, "members"@.len() as int)
        != "members"@ {
        None
    } else {
        let u = spec_trim_start(t.subrange("members"@.len() as int, t.len() as int));
        if u.len() < 1 || u[0] != '=' {
            None
        } else {
            let w = spec_trim_start(u.subrange(1, u.len() as int));
            if w.len() < 1 || w[0] != '[' {
                None
            } else {
                let rest = w.subrange(1, w.len() as int);
                let e = spec_find(rest, "]"@);
                if e < 1 {
                    None
                } else {
                    let cap = rest.subrange(0, e);
                    if spec_find(cap, "\n"@) >= 0 {
                        None
                    } else {
                        Some(cap)
                    }
                }
            }
        }
    }
}

/// The raw text of the members list: the declaration after the first
/// occurrence of the workspace section header that a well-formed
/// declaration follows. A header occurrence that no declaration follows
/// is passed over, and the search goes on in the text after it.
pub open spec fn spec_members_capture(s: Seq<char>) -> Option<Seq<char>>
    decreases s.len(),
    via spec_members_capture_decreases
{
    let h = spec_find(s, "[tool.uv.workspace]"@);
    if h < 0 || h + "[tool.uv.workspace]"@.len() > s.len() {
        None
    } else {
        let after = s.subrange(h + "[tool.uv.workspace]"@.len(), s.len() as int);
        match spec_capture_after(after) {
            Some(cap) => Some(cap),
            None => spec_members_capture(after),
        }
    }
}

#[via_fn]
proof fn spec_members_capture_decreases(s: Seq<char>) {
    reveal_strlit("[tool.uv.workspace]");
}

/// A member entry turned into a pattern: trimmed, quotes removed, and
/// each `*` wildcard replaced by the unanchored `.*`.
pub open spec fn spec_transform_entry(e: Seq<char>) -> Seq<char> {
    spec_replace(spec_replace(spec_trim(e), "\""@, Seq::empty()), "*"@, ".*"@)
}

/// The member patterns a captured list denotes: one per comma-separated
/// entry, in order.
pub open spec fn spec_member_patterns(cap: Seq<char>) -> Seq<Seq<char>> {
    spec_split(cap, ',').map_values(|e: Seq<char>| spec_transform_entry(e))
}

/// Turn one captured entry into a pattern.
fn transform_entry(e: &str) -> (r: String)
    ensures
        r@ == spec_transform_entry(e@),
{
    proof {
        reveal_strlit("\"");
        reveal_strlit("");
        reveal_strlit("*");
        assert(""@ =~= Seq::<char>::empty());
    }
    let t = trim(e);
    let unquoted = replace(t.as_str(), "\"", "");
    replace(unquoted.as_str(), "*", ".*")
}

/// Parse the declaration directly after one header occurrence.
fn capture_after(after: &str) -> (r: Option<String>)
    ensures
        match r {
            Some(cap) => spec_capture_after(after@) == Some(cap@),
            None => spec_capture_after(after@) is None,
        },
{
    proof {
        reveal_strlit("]");
        reveal_strlit("\n");
    }
    let t = trim_start(after);
    if t.as_str().unicode_len() >= after.unicode_len() {
        return None;
    }
    if !starts_with(t.as_str(), "members") {
        return None;
    }
    let mlen = "members".unicode_len();
    let u = trim_start(t.as_str().substring_char(mlen, t.as_str().unicode_len()));
    if u.as_str().unicode_len() < 1 || u.as_str().get_char(0) != '=' {
        return None;
    }
    let w = trim_start(u.as_str().substring_char(1, u.as_str().unicode_len()));
    if w.as_str().unicode_len() < 1 || w.as_str().get_char(0) != '[' {
        return None;
    }
    let rest = String::from_str(w.as_str().substring_char(1, w.as_str().unicode_len()));
    let e = match find(rest.as_str(), "]") {
        Some(i) => i,
        None => {
            return None;
        },
    };
    if e < 1 {
        return None;
    }
    let cap = String::from_str(rest.as_str().substring_char(0, e));
    match find(cap.as_str(), "\n") {
        Some(_) => None,
        None => Some(cap),
    }
}

/// Resolve the workspace members declared by the root configuration
/// text: one pattern per declared entry, in order, quotes stripped and
/// `*` turned into `.*`. Fails exactly when no occurrence of the
/// workspace section header is followed by a well-formed declaration.
pub fn find_workspace_members(contents: &str) -> (r: Result<Vec<String>, ConfigError>)
    ensures
        match r {
            Ok(pats) => spec_members_capture(contents@) is Some && string_views(pats@)
                == spec_member_patterns(spec_members_capture(contents@)->0),
            Err(e) => spec_members_capture(contents@) is None && e == ConfigError::MissingMembers,
        },
    decreases contents@.len(),
{
    proof {
        reveal_strlit("[tool.uv.workspace]");
    }
    let n = contents.unicode_len();
    let h = match find(contents, "[tool.uv.workspace]") {
        Some(i) => i,
        None => {
            return Err(ConfigError::MissingMembers);
        },
    };
    let hlen = "[tool.uv.workspace]".unicode_len();
    let after = String::from_str(contents.substring_char(h + hlen, n));
    let cap = match capture_after(after.as_str()) {
        Some(cap) => cap,
        None => {
            let r = find_workspace_members(after.as_str());
            proof {
                assert(spec_members_capture(contents@) == spec_members_capture(after@));
            }
            return r;
        },
    };
    let ghost capv = spec_members_capture(contents@)->0;
    proof {
        assert(cap@ == capv);
        reveal_strlit("\n");
        assert("\n"@ =~= seq!['\n']);
        reveal_strlit(",");
        assert(","@ =~= seq![',']);
    }
    let entries = split_char(cap.as_str(), ',', ",");
    let ghost eviews = entries@.map_values(|p: String| p@);
    let mut out: Vec<String> = Vec::new();
    let mut k: usize = 0;
    while k < entries.len()
        invariant
            0 <= k <= entries.len(),
            eviews == entries@.map_values(|p: String| p@),
            out@.len() == k,
            forall|j: int| 0 <= j < k ==> out@[j]@ == spec_transform_entry(#[trigger] eviews[j]),
        decreases entries.len() - k,
    {
        proof {
            assert(eviews[k as int] == entries@[k as int]@);
        }
        let pat = transform_entry(entries[k].as_str());
        out.push(pat);
        k = k + 1;
    }
    proof {
        assert(string_views(out@) =~= spec_member_patterns(capv));
    }
    Ok(out)
}

/// Law: a declaration of N comma-separated entries resolves to exactly N
/// patterns, and each pattern is its entry trimmed, unquoted, and with
/// `*` turned into `.*`.
pub proof fn lemma_resolver_one_pattern_per_entry(cap: Seq<char>)
    ensures
        spec_member_patterns(cap).len() == spec_split(cap, ',').len(),
        forall|i: int|
            0 <= i < spec_split(cap, ',').len() ==> spec_member_patterns(cap)[i]
                == spec_transform_entry(#[trigger] spec_split(cap, ',')[i]),
{
}

} // verus!
