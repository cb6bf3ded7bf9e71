//! The package locator: walk a file path and its ancestor directories,
//! nearest first, and return the first one known to hold a package
//! descriptor. Paths are `/`-separated strings.

use vstd::prelude::*;
use vstd::string::StrSliceExecFns;
use vstd::string::StringExecFns;

verus! {

/// `s` without its trailing `/` characters.
pub open spec fn spec_strip_slashes(s: Seq<char>) -> Seq<char>
    decreases s.len(),
{
    if s.len() > 0 && s.last() == '/' {
        spec_strip_slashes(s.drop_last())
    } else {
        s
    }
}

/// `s` without its trailing run of non-`/` characters.
pub open spec fn spec_drop_component(s: Seq<char>) -> Seq<char>
    decreases s.len(),
{
    if s.len() > 0 && s.last() != '/' {
        spec_drop_component(s.drop_last())
    } else {
        s
    }
}

/// The parent directory of a path: trailing slashes removed, then the
/// last path component, then the slashes before it. The parent of a
/// path without `/` is the empty path.
pub open spec fn spec_parent(s: Seq<char>) -> Seq<char> {
    spec_strip_slashes(spec_drop_component(spec_strip_slashes(s)))
}

proof fn lemma_strip_slashes_len(s: Seq<char>)
    ensures
        spec_strip_slashes(s).len() <= s.len(),
        spec_strip_slashes(s).len() > 0 ==> spec_strip_slashes(s).last() != '/',
    decreases s.len(),
{
    if s.len() > 0 && s.last() == '/' {
        lemma_strip_slashes_len(s.drop_last());
    }
}

proof fn lemma_drop_component_len(s: Seq<char>)
    ensures
        spec_drop_component(s).len() <= s.len(),
        s.len() > 0 && s.last() != '/' ==> spec_drop_component(s).len() < s.len(),
    decreases s.len(),
{
    if s.len() > 0 && s.last() != '/' {
        lemma_drop_component_len(s.drop_last());
    }
}

/// The parent of a non-empty path is strictly shorter.
pub proof fn lemma_parent_len(s: Seq<char>)
    requires
        s.len() > 0,
    ensures
        spec_parent(s).len() < s.len(),
{
    let q = spec_strip_slashes(s);
    lemma_strip_slashes_len(s);
    lemma_drop_component_len(q);
    lemma_strip_slashes_len(spec_drop_component(q));
    if q.len() == 0 {
    } else {
        assert(q.last() != '/');
    }
}

/// The chain of ancestors of a path, the path itself first, ending with
/// the empty path.
pub open spec fn spec_ancestors(s: Seq<char>) -> Seq<Seq<char>>
    decreases s.len(),
    via spec_ancestors_decreases
{
    if s.len() == 0 {
        seq![s]
    } else {
        seq![s] + spec_ancestors(spec_parent(s))
    }
}

#[via_fn]
proof fn spec_ancestors_decreases(s: Seq<char>) {
    if s.len() > 0 {
        lemma_parent_len(s);
    }
}

/// Strip trailing `/` characters.
pub fn strip_slashes(s: &str) -> (r: String)
    ensures
        r@ == spec_strip_slashes(s@),
    decreases s@.len(),
{
    let n = s.unicode_len();
    if n > 0 && s.get_char(n - 1) == '/' {
        strip_slashes(s.substring_char(0, n - 1))
    } else {
        String::from_str(s)
    }
}

/// Strip the trailing run of non-`/` characters.
pub fn drop_component(s: &str) -> (r: String)
    ensures
        r@ == spec_drop_component(s@),
    decreases s@.len(),
{
    let n = s.unicode_len();
    if n > 0 && s.get_char(n - 1) != '/' {
        drop_component(s.substring_char(0, n - 1))
    } else {
        String::from_str(s)
    }
}

/// The parent directory of a path.
pub fn parent(s: &str) -> (r: String)
    ensures
        r@ == spec_parent(s@),
{
    let q = strip_slashes(s);
    let d = drop_component(q.as_str());
    strip_slashes(d.as_str())
}

/// All ancestors of a path, the path itself first, ending with the
/// empty path.
pub fn ancestors(s: &str) -> (r: Vec<String>)
    ensures
        r@.map_values(|p: String| p@) == spec_ancestors(s@),
    decreases s@.len(),
{
    let mut out: Vec<String> = Vec::new();
    out.push(String::from_str(s));
    if s.unicode_len() == 0 {
        proof {
            assert(out@.map_values(|p: String| p@) =~= spec_ancestors(s@));
        }
        out
    } else {
        proof {
            lemma_parent_len(s@);
        }
        let p = parent(s);
        let rest = ancestors(p.as_str());
        let mut k: usize = 0;
        while k < rest.len()
            invariant
                0 <= k <= rest.len(),
                out@.len() == 1 + k,
                out@[0]@ == s@,
                forall|j: int| 0 <= j < k ==> out@[j + 1]@ == #[trigger] rest@[j]@,
            decreases rest.len() - k,
        {
            let piece = rest[k].clone();
            out.push(piece);
            k = k + 1;
        }
        proof {
            assert(out@.map_values(|p: String| p@) =~= spec_ancestors(s@));
        }
        out
    }
}

/// Whether some string of `items` equals `s`.
pub fn contains_str(items: &Vec<String>, s: &str) -> (r: bool)
    ensures
        r == items@.map_values(|p: String| p@).contains(s@),
{
    let ghost views = items@.map_values(|p: String| p@);
    let target = String::from_str(s);
    let mut k: usize = 0;
    while k < items.len()
        invariant
            0 <= k <= items.len(),
            views == items@.map_values(|p: String| p@),
            target@ == s@,
            forall|j: int| 0 <= j < k ==> views[j] != s@,
        decreases items.len() - k,
    {
        if items[k] == target {
            assert(views[k as int] == s@);
            return true;
        }
        k = k + 1;
    }
    false
}

/// Locate the package a file belongs to: the nearest ancestor directory
/// of `file` that is listed in `descriptor_dirs` (the directories known
/// to contain a package descriptor). Fails, with the fixed message, when
/// no ancestor is listed.
pub fn find_pyproject(file: &str, descriptor_dirs: &Vec<String>) -> (r: Result<String, String>)
    ensures
        match r {
            Ok(d) => {
                let anc = spec_ancestors(file@);
                let dirs = descriptor_dirs@.map_values(|p: String| p@);
                exists|i: int|
                    0 <= i < anc.len() && #[trigger] anc[i] == d@ && dirs.contains(anc[i])
                        && forall|j: int| 0 <= j < i ==> !dirs.contains(#[trigger] anc[j])
            },
            Err(e) => {
                let anc = spec_ancestors(file@);
                let dirs = descriptor_dirs@.map_values(|p: String| p@);
                e@ == "Could not find a parent path that contains a pyproject.toml"@ && forall|
                    i: int,
                |
                    0 <= i < anc.len() ==> !dirs.contains(#[trigger] anc[i])
            },
        },
    decreases file@.len(),
{
    let ghost anc = spec_ancestors(file@);
    let ghost dirs = descriptor_dirs@.map_values(|p: String| p@);
    if contains_str(descriptor_dirs, file) {
        proof {
            assert(anc[0] == file@);
        }
        Ok(String::from_str(file))
    } else if file.unicode_len() == 0 {
        Err(String::from_str("Could not find a parent path that contains a pyproject.toml"))
    } else {
        proof {
            lemma_parent_len(file@);
        }
        let p = parent(file);
        let r = find_pyproject(p.as_str(), descriptor_dirs);
        proof {
            let panc = spec_ancestors(p@);
            assert(anc == seq![file@] + panc);
            match &r {
                Ok(d) => {
                    let i = choose|i: int|
                        0 <= i < panc.len() && #[trigger] panc[i] == d@ && dirs.contains(panc[i])
                            && forall|j: int| 0 <= j < i ==> !dirs.contains(#[trigger] panc[j]);
                    assert(anc[i + 1] == panc[i]);
                    assert forall|j: int| 0 <= j < i + 1 implies !dirs.contains(
                        #[trigger] anc[j],
                    ) by {
                        if j > 0 {
                            assert(anc[j] == panc[j - 1]);
                        }
                    }
                },
                Err(_) => {
                    assert forall|i: int| 0 <= i < anc.len() implies !dirs.contains(
                        #[trigger] anc[i],
                    ) by {
                        if i > 0 {
                            assert(anc[i] == panc[i - 1]);
                        }
                    }
                },
            }
        }
        r
    }
}

} // verus!
