//! The release planner: read the persisted release manifest into the
//! list of package roots to build and publish. With no manifest present
//! there is nothing to release, and that outcome is not an error.

use vstd::prelude::*;
use vstd::string::StringExecFns;
use crate::strutil::{string_views, spec_split, split_char};

verus! {

/// What a release run is to do.
pub enum ReleasePlan {
    /// No release manifest exists: there is nothing to release, and no
    /// build is invoked.
    NothingToRelease,
    /// Build each listed package root, in order, then publish once.
    Build(Vec<String>),
}

/// The package roots a manifest text lists: its non-empty lines.
pub open spec fn spec_release_paths(m: Seq<char>) -> Seq<Seq<char>> {
    spec_split(m, '\n').filter(|p: Seq<char>| p.len() > 0)
}

/// Plan a release from the manifest contents, when the manifest file
/// exists. An absent manifest means nothing is to be released — an
/// empty, non-error outcome. A present manifest yields one build per
/// non-empty line, in order.
pub fn plan_release(manifest: &Option<String>) -> (r: ReleasePlan)
    ensures
        match manifest {
            None => r is NothingToRelease,
            Some(m) => r matches ReleasePlan::Build(p) && string_views(p@) == spec_release_paths(
                m@,
            ),
        },
{
    let m = match manifest {
        None => {
            return ReleasePlan::NothingToRelease;
        },
        Some(m) => m,
    };
    proof {
        reveal_strlit("\n");
        assert("\n"@ =~= seq!['\n']);
    }
    let ghost f = |p: Seq<char>| p.len() > 0;
    let lines = split_char(m.as_str(), '\n', "\n");
    let ghost lviews = lines@.map_values(|p: String| p@);
    let mut out: Vec<String> = Vec::new();
    let mut k: usize = 0;
    proof {
        assert(lviews.take(0).filter(f) =~= Seq::<Seq<char>>::empty());
    }
    while k < lines.len()
        invariant
            0 <= k <= lines.len(),
            lviews == lines@.map_values(|p: String| p@),
            lviews == spec_split(m@, '\n'),
            f == (|p: Seq<char>| p.len() > 0),
            string_views(out@) == lviews.take(k as int).filter(f),
        decreases lines.len() - k,
    {
        proof {
            assert(lviews[k as int] == lines@[k as int]@);
        }
        let ghost prev = string_views(out@);
        if lines[k].as_str().unicode_len() > 0 {
            out.push(lines[k].clone());
        }
        proof {
            assert(lviews.take(k + 1).drop_last() =~= lviews.take(k as int));
            assert(lviews.take(k + 1).last() == lviews[k as int]);
            reveal_with_fuel(Seq::filter, 2);
            assert(string_views(out@) =~= lviews.take(k + 1).filter(f));
        }
        k = k + 1;
    }
    proof {
        assert(lviews.take(lines@.len() as int) =~= lviews);
    }
    ReleasePlan::Build(out)
}

} // verus!
