//! The shared changelog: a single cumulative document to which each
//! applied version bump prepends a section, newest first. When the
//! document is first created the section header carries the new version;
//! sections prepended to an existing document carry the name alone.

use vstd::prelude::*;
use vstd::string::StringExecFns;

verus! {

/// The view of an optional document.
pub open spec fn opt_view(c: Option<String>) -> Option<Seq<char>> {
    match c {
        Some(s) => Some(s@),
        None => None,
    }
}

/// The opening section of a brand-new changelog: header with the new
/// version, blank line, the description, blank line.
pub open spec fn spec_section_new(name: Seq<char>, ver: Seq<char>, msg: Seq<char>) -> Seq<char> {
    "## "@ + name + " "@ + ver + "\n\n"@ + msg + "\n\n"@
}

/// A section prepended to an existing changelog: header without the
/// version, blank line, the description, blank line.
pub open spec fn spec_section_more(name: Seq<char>, msg: Seq<char>) -> Seq<char> {
    "## "@ + name + "\n\n"@ + msg + "\n\n"@
}

/// The changelog after one section is prepended for `name`.
pub open spec fn spec_prepend(
    existing: Option<Seq<char>>,
    name: Seq<char>,
    ver: Seq<char>,
    msg: Seq<char>,
) -> Seq<char> {
    match existing {
        None => spec_section_new(name, ver, msg),
        Some(c) => spec_section_more(name, msg) + c,
    }
}

/// Prepend a section for `name` to the changelog: above all existing
/// content, or as the opening section (with the version) of a new
/// document.
pub fn prepend_changelog(existing: &Option<String>, name: &str, ver: &str, msg: &str) -> (r: String)
    ensures
        r@ == spec_prepend(opt_view(*existing), name@, ver@, msg@),
{
    match existing {
        None => {
            let mut out = String::from_str("## ");
            out.append(name);
            out.append(" ");
            out.append(ver);
            out.append("\n\n");
            out.append(msg);
            out.append("\n\n");
            out
        },
        Some(c) => {
            let mut out = String::from_str("## ");
            out.append(name);
            out.append("\n\n");
            out.append(msg);
            out.append("\n\n");
            out.append(c.as_str());
            out
        },
    }
}

/// Law: prepending a section for package X and then one for package Y
/// leaves Y's section at the very top of the document, with X's section
/// directly below it — the changelog reads newest first.
pub proof fn lemma_changelog_newest_first(
    c0: Option<Seq<char>>,
    xn: Seq<char>,
    xv: Seq<char>,
    xm: Seq<char>,
    yn: Seq<char>,
    yv: Seq<char>,
    ym: Seq<char>,
)
    ensures
        ({
            let c1 = spec_prepend(c0, xn, xv, xm);
            let c2 = spec_prepend(Some(c1), yn, yv, ym);
            let ysec = spec_section_more(yn, ym);
            let xsec = if c0 is None {
                spec_section_new(xn, xv, xm)
            } else {
                spec_section_more(xn, xm)
            };
            c2.len() == ysec.len() + c1.len() && c2.subrange(0, ysec.len() as int) == ysec
                && c2.subrange(ysec.len() as int, c2.len() as int) == c1 && c1.subrange(
                0,
                xsec.len() as int,
            ) == xsec
        }),
{
    let c1 = spec_prepend(c0, xn, xv, xm);
    let c2 = spec_prepend(Some(c1), yn, yv, ym);
    let ysec = spec_section_more(yn, ym);
    let xsec = if c0 is None {
        spec_section_new(xn, xv, xm)
    } else {
        spec_section_more(xn, xm)
    };
    assert(c2.subrange(0, ysec.len() as int) =~= ysec);
    assert(c2.subrange(ysec.len() as int, c2.len() as int) =~= c1);
    assert(c1.subrange(0, xsec.len() as int) =~= xsec);
}

} // verus!
