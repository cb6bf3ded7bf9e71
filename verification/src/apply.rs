//! The version applier: consume every pending intent record, bump each
//! package's version in its descriptor text, prepend a changelog
//! section, and accumulate the release manifest. Records are processed
//! in the order given; all file traffic stays with the caller, which
//! hands in the record texts and the descriptor contents and writes the
//! results back.

use vstd::prelude::*;
use vstd::string::StrSliceExecFns;
use vstd::string::StringExecFns;
use crate::strutil::{spec_replace, spec_join, replace, join};
use crate::semver::{
    BumpKind, is_digits, spec_digits_val, spec_u64_digits, parse_u64, render_u64,
};
use crate::descriptor::{spec_version_field, find_version_parts};
use crate::record::{
    ApplyError, spec_field, spec_record_pyproject, spec_record_root, spec_record_message,
    spec_stored_kind, parse_record, stored_kind, lemma_record_root_clean,
};
use crate::strutil::{spec_split, lemma_split_join};
use crate::semver::{Version, spec_version_string, lemma_digits_round_trip};
use crate::changelog::{opt_view, spec_prepend, prepend_changelog};

verus! {

/// The views of a path-to-contents association list.
pub open spec fn desc_views(descs: Seq<(String, String)>) -> Seq<(Seq<char>, Seq<char>)> {
    descs.map_values(|p: (String, String)| (p.0@, p.1@))
}

/// The contents stored for `path`: the first entry with that path.
pub open spec fn spec_lookup_from(
    descs: Seq<(Seq<char>, Seq<char>)>,
    k: int,
    path: Seq<char>,
) -> Option<Seq<char>>
    decreases descs.len() - k,
    when 0 <= k <= descs.len()
{
    if k >= descs.len() {
        None
    } else if descs[k].0 == path {
        Some(descs[k].1)
    } else {
        spec_lookup_from(descs, k + 1, path)
    }
}

/// The index of the first entry for `path`, or -1 when there is none.
pub open spec fn spec_index_of(
    descs: Seq<(Seq<char>, Seq<char>)>,
    k: int,
    path: Seq<char>,
) -> int
    decreases descs.len() - k,
    when 0 <= k <= descs.len()
{
    if k >= descs.len() {
        -1
    } else if descs[k].0 == path {
        k
    } else {
        spec_index_of(descs, k + 1, path)
    }
}

/// The association list with the first entry for `path` replaced by
/// `content`; unchanged when no entry carries `path`.
pub open spec fn spec_store(
    descs: Seq<(Seq<char>, Seq<char>)>,
    path: Seq<char>,
    content: Seq<char>,
) -> Seq<(Seq<char>, Seq<char>)> {
    let i = spec_index_of(descs, 0, path);
    if i == -1 {
        descs
    } else {
        descs.update(i, (path, content))
    }
}

/// Look up the contents stored for `path`.
pub fn lookup(descs: &Vec<(String, String)>, path: &str) -> (r: Option<String>)
    ensures
        match r {
            Some(c) => spec_lookup_from(desc_views(descs@), 0, path@) == Some(c@),
            None => spec_lookup_from(desc_views(descs@), 0, path@) is None,
        },
{
    let ghost views = desc_views(descs@);
    let target = String::from_str(path);
    let mut k: usize = 0;
    while k < descs.len()
        invariant
            0 <= k <= descs.len(),
            views == desc_views(descs@),
            target@ == path@,
            spec_lookup_from(views, 0, path@) == spec_lookup_from(views, k as int, path@),
        decreases descs.len() - k,
    {
        proof {
            assert(views[k as int] == (descs@[k as int].0@, descs@[k as int].1@));
        }
        if descs[k].0 == target {
            return Some(descs[k].1.clone());
        }
        k = k + 1;
    }
    None
}

/// Store `content` as the contents of the first entry for `path`.
fn store(descs: Vec<(String, String)>, path: &str, content: String) -> (r: Vec<(String, String)>)
    ensures
        desc_views(r@) == spec_store(desc_views(descs@), path@, content@),
{
    let ghost views = desc_views(descs@);
    let target = String::from_str(path);
    let mut out: Vec<(String, String)> = Vec::new();
    let mut k: usize = 0;
    let mut stored: bool = false;
    while k < descs.len()
        invariant
            0 <= k <= descs.len(),
            views == desc_views(descs@),
            target@ == path@,
            out@.len() == k,
            !stored ==> spec_index_of(views, 0, path@) == spec_index_of(views, k as int, path@)
                && desc_views(out@) == views.take(k as int),
            stored ==> {
                let i = spec_index_of(views, 0, path@);
                0 <= i < k && desc_views(out@) == views.take(k as int).update(i, (path@, content@))
            },
        decreases descs.len() - k,
    {
        proof {
            assert(views[k as int] == (descs@[k as int].0@, descs@[k as int].1@));
        }
        let ghost prev = desc_views(out@);
        if !stored && descs[k].0 == target {
            out.push((String::from_str(path), content.clone()));
            stored = true;
            proof {
                assert(desc_views(out@) =~= prev.push((path@, content@)));
                assert(desc_views(out@) =~= views.take(k + 1).update(k as int, (path@, content@)));
            }
        } else {
            out.push((descs[k].0.clone(), descs[k].1.clone()));
            proof {
                assert(desc_views(out@) =~= prev.push(views[k as int]));
                if stored {
                    let i = spec_index_of(views, 0, path@);
                    assert(desc_views(out@) =~= views.take(k + 1).update(i, (path@, content@)));
                } else {
                    assert(desc_views(out@) =~= views.take(k + 1));
                }
            }
        }
        k = k + 1;
    }
    proof {
        assert(views.take(descs@.len() as int) =~= views);
        if !stored {
            assert(spec_index_of(views, 0, path@) == -1);
            assert(desc_views(out@) =~= spec_store(views, path@, content@));
        } else {
            assert(desc_views(out@) =~= spec_store(views, path@, content@));
        }
    }
    out
}

/// The literal version text a matched version field denotes, and the
/// text that replaces it after the bump: the bumped component is
/// re-rendered from its incremented value, the components below it reset
/// to `0`, and the components above it kept letter for letter. `None`
/// exactly when the bumped component is not a digit run whose successor
/// fits.
pub open spec fn spec_new_text(
    kind: BumpKind,
    a: Seq<char>,
    b: Seq<char>,
    c: Seq<char>,
) -> Option<(Seq<char>, Seq<char>)> {
    let old = a + "."@ + b + "."@ + c;
    match kind {
        BumpKind::Patch => if !is_digits(c) || spec_digits_val(c) >= u64::MAX {
            None
        } else {
            Some((old, a + "."@ + b + "."@ + spec_u64_digits(spec_digits_val(c) + 1)))
        },
        BumpKind::Minor => if !is_digits(b) || spec_digits_val(b) >= u64::MAX {
            None
        } else {
            Some((old, a + "."@ + spec_u64_digits(spec_digits_val(b) + 1) + "."@ + "0"@))
        },
        BumpKind::Major => if !is_digits(a) || spec_digits_val(a) >= u64::MAX {
            None
        } else {
            Some((old, spec_u64_digits(spec_digits_val(a) + 1) + "."@ + "0"@ + "."@ + "0"@))
        },
    }
}

/// Compute the old and new version texts for a bump.
pub fn new_text(kind: BumpKind, a: &str, b: &str, c: &str) -> (r: Option<(String, String)>)
    ensures
        match r {
            Some(t) => spec_new_text(kind, a@, b@, c@) == Some((t.0@, t.1@)),
            None => spec_new_text(kind, a@, b@, c@) is None,
        },
{
    let mut old = String::from_str(a);
    old.append(".");
    old.append(b);
    old.append(".");
    old.append(c);
    match kind {
        BumpKind::Patch => {
            let val = match parse_u64(c) {
                Some(v) => v,
                None => {
                    return None;
                },
            };
            if val == u64::MAX {
                return None;
            }
            let mut new = String::from_str(a);
            new.append(".");
            new.append(b);
            new.append(".");
            let rendered = render_u64(val + 1);
            new.append(rendered.as_str());
            Some((old, new))
        },
        BumpKind::Minor => {
            let val = match parse_u64(b) {
                Some(v) => v,
                None => {
                    return None;
                },
            };
            if val == u64::MAX {
                return None;
            }
            let mut new = String::from_str(a);
            new.append(".");
            let rendered = render_u64(val + 1);
            new.append(rendered.as_str());
            new.append(".");
            new.append("0");
            Some((old, new))
        },
        BumpKind::Major => {
            let val = match parse_u64(a) {
                Some(v) => v,
                None => {
                    return None;
                },
            };
            if val == u64::MAX {
                return None;
            }
            let rendered = render_u64(val + 1);
            let mut new = rendered;
            new.append(".");
            new.append("0");
            new.append(".");
            new.append("0");
            Some((old, new))
        },
    }
}

/// What applying one record does to the state: parse the record's
/// fields, find the package's descriptor contents, bump the version
/// named by its version field by a literal text substitution over the
/// whole document, prepend the changelog section, and yield the package
/// root for the release manifest. Each failure is the first one the
/// checks meet, in this order.
pub open spec fn spec_apply_record(
    descs: Seq<(Seq<char>, Seq<char>)>,
    chl: Option<Seq<char>>,
    rec: Seq<char>,
) -> Result<(Seq<(Seq<char>, Seq<char>)>, Option<Seq<char>>, Seq<char>), ApplyError> {
    match spec_field(rec, "package:"@) {
        None => Err(ApplyError::MissingPackage),
        Some(pkg) => match spec_record_pyproject(rec) {
            None => Err(ApplyError::MissingPyproject),
            Some(path) => match spec_field(rec, "release:"@) {
                None => Err(ApplyError::MissingRelease),
                Some(rel) => match spec_record_message(rec) {
                    None => Err(ApplyError::MissingBody),
                    Some(msg) => match spec_lookup_from(descs, 0, path) {
                        None => Err(ApplyError::DescriptorMissing),
                        Some(content) => match spec_version_field(content) {
                            None => Err(ApplyError::MissingVersion),
                            Some(parts) => match spec_new_text(
                                spec_stored_kind(rel),
                                parts.0,
                                parts.1,
                                parts.2,
                            ) {
                                None => Err(ApplyError::VersionOverflow),
                                Some(texts) => Ok(
                                    (
                                        spec_store(
                                            descs,
                                            path,
                                            spec_replace(content, texts.0, texts.1),
                                        ),
                                        Some(spec_prepend(chl, pkg, texts.1, msg)),
                                        spec_record_root(rec)->0,
                                    ),
                                ),
                            },
                        },
                    },
                },
            },
        },
    }
}

/// Apply one intent record to the in-memory state.
pub fn apply_record(descs: Vec<(String, String)>, chl: Option<String>, rec: &str) -> (r: Result<
    (Vec<(String, String)>, Option<String>, String),
    ApplyError,
>)
    ensures
        match r {
            Ok(t) => spec_apply_record(desc_views(descs@), opt_view(chl), rec@) == Ok::<
                _,
                ApplyError,
            >((desc_views(t.0@), opt_view(t.1), t.2@)),
            Err(e) => spec_apply_record(desc_views(descs@), opt_view(chl), rec@) == Err::<
                (Seq<(Seq<char>, Seq<char>)>, Option<Seq<char>>, Seq<char>),
                _,
            >(e),
        },
{
    let parsed = match parse_record(rec) {
        Ok(p) => p,
        Err(e) => {
            return Err(e);
        },
    };
    let content = match lookup(&descs, parsed.pyproject_path.as_str()) {
        Some(c) => c,
        None => {
            return Err(ApplyError::DescriptorMissing);
        },
    };
    let parts = match find_version_parts(content.as_str()) {
        Some(p) => p,
        None => {
            return Err(ApplyError::MissingVersion);
        },
    };
    let kind = stored_kind(parsed.release_raw.as_str());
    let texts = match new_text(kind, parts.0.as_str(), parts.1.as_str(), parts.2.as_str()) {
        Some(t) => t,
        None => {
            return Err(ApplyError::VersionOverflow);
        },
    };
    proof {
        reveal_strlit(".");
    }
    let new_content = replace(content.as_str(), texts.0.as_str(), texts.1.as_str());
    let new_descs = store(descs, parsed.pyproject_path.as_str(), new_content);
    let new_chl = prepend_changelog(
        &chl,
        parsed.package.as_str(),
        texts.1.as_str(),
        parsed.message.as_str(),
    );
    Ok((new_descs, Some(new_chl), parsed.package_root))
}

/// The state after all records from index `k` on are applied in order,
/// or the first failure.
pub open spec fn spec_apply_all(
    descs: Seq<(Seq<char>, Seq<char>)>,
    chl: Option<Seq<char>>,
    records: Seq<Seq<char>>,
    k: int,
    roots: Seq<Seq<char>>,
) -> Result<(Seq<(Seq<char>, Seq<char>)>, Option<Seq<char>>, Seq<Seq<char>>), ApplyError>
    decreases records.len() - k,
    when 0 <= k <= records.len()
{
    if k >= records.len() {
        Ok((descs, chl, roots))
    } else {
        match spec_apply_record(descs, chl, records[k]) {
            Err(e) => Err(e),
            Ok(t) => spec_apply_all(t.0, t.1, records, k + 1, roots.push(t.2)),
        }
    }
}

/// A successful run yields one package root per record processed.
pub proof fn lemma_apply_all_count(
    descs: Seq<(Seq<char>, Seq<char>)>,
    chl: Option<Seq<char>>,
    records: Seq<Seq<char>>,
    k: int,
    roots: Seq<Seq<char>>,
)
    requires
        0 <= k <= records.len(),
        spec_apply_all(descs, chl, records, k, roots) is Ok,
    ensures
        spec_apply_all(descs, chl, records, k, roots)->Ok_0.2.len() == roots.len() + records.len()
            - k,
    decreases records.len() - k,
{
    if k < records.len() {
        match spec_apply_record(descs, chl, records[k]) {
            Err(_) => {},
            Ok(t) => {
                lemma_apply_all_count(t.0, t.1, records, k + 1, roots.push(t.2));
            },
        }
    }
}

/// Copy a path-to-contents association list.
fn clone_descs(descs: &Vec<(String, String)>) -> (r: Vec<(String, String)>)
    ensures
        desc_views(r@) == desc_views(descs@),
{
    let mut out: Vec<(String, String)> = Vec::new();
    let mut k: usize = 0;
    while k < descs.len()
        invariant
            0 <= k <= descs.len(),
            out@.len() == k,
            forall|j: int|
                0 <= j < k ==> (#[trigger] out@[j].0@, out@[j].1@) == (
                    descs@[j].0@,
                    descs@[j].1@,
                ),
        decreases descs.len() - k,
    {
        out.push((descs[k].0.clone(), descs[k].1.clone()));
        k = k + 1;
    }
    proof {
        assert(desc_views(out@) =~= desc_views(descs@));
    }
    out
}

/// Copy an optional document.
fn clone_opt(c: &Option<String>) -> (r: Option<String>)
    ensures
        opt_view(r) == opt_view(*c),
{
    match c {
        Some(s) => Some(s.clone()),
        None => None,
    }
}

/// Every package root of a successful run holds no newline.
proof fn lemma_apply_all_clean(
    descs: Seq<(Seq<char>, Seq<char>)>,
    chl: Option<Seq<char>>,
    records: Seq<Seq<char>>,
    k: int,
    roots: Seq<Seq<char>>,
)
    requires
        0 <= k <= records.len(),
        spec_apply_all(descs, chl, records, k, roots) is Ok,
        forall|i: int| 0 <= i < roots.len() ==> !#[trigger] roots[i].contains('\n'),
    ensures
        ({
            let t = spec_apply_all(descs, chl, records, k, roots)->Ok_0;
            forall|i: int| 0 <= i < t.2.len() ==> !#[trigger] t.2[i].contains('\n')
        }),
    decreases records.len() - k,
{
    if k < records.len() {
        match spec_apply_record(descs, chl, records[k]) {
            Err(_) => {},
            Ok(t) => {
                assert(spec_record_root(records[k]) is Some);
                lemma_record_root_clean(records[k]);
                let pushed = roots.push(t.2);
                assert forall|i: int| 0 <= i < pushed.len() implies !#[trigger] pushed[i].contains(
                    '\n',
                ) by {
                    if i < roots.len() {
                        assert(pushed[i] == roots[i]);
                    } else {
                        assert(pushed[i] == t.2);
                    }
                }
                lemma_apply_all_clean(t.0, t.1, records, k + 1, pushed);
            },
        }
    }
}

/// Law: a successful version run consumes every pending record, and the
/// release manifest lists exactly one line per record processed — that
/// record's package root, in processing order. With records for distinct
/// packages this is one line per package.
pub proof fn lemma_manifest_one_line_per_record(
    descs: Seq<(Seq<char>, Seq<char>)>,
    chl: Option<Seq<char>>,
    records: Seq<Seq<char>>,
)
    requires
        records.len() >= 1,
        spec_apply_all(descs, chl, records, 0, Seq::empty()) is Ok,
    ensures
        ({
            let t = spec_apply_all(descs, chl, records, 0, Seq::empty())->Ok_0;
            t.2.len() == records.len() && spec_split(spec_join(t.2, '\n'), '\n') == t.2
        }),
{
    lemma_apply_all_count(descs, chl, records, 0, Seq::empty());
    lemma_apply_all_clean(descs, chl, records, 0, Seq::empty());
    let t = spec_apply_all(descs, chl, records, 0, Seq::empty())->Ok_0;
    lemma_split_join(t.2, '\n');
}

/// Law: on canonical version texts the literal text substitution agrees
/// with the version arithmetic — the replacement text renders exactly
/// the bumped version triple.
pub proof fn lemma_new_text_is_bump(v: Version, kind: BumpKind)
    requires
        match kind {
            BumpKind::Patch => v.patch < u64::MAX,
            BumpKind::Minor => v.minor < u64::MAX,
            BumpKind::Major => v.major < u64::MAX,
        },
    ensures
        ({
            let bumped = match kind {
                BumpKind::Patch => Version {
                    major: v.major,
                    minor: v.minor,
                    patch: (v.patch + 1) as u64,
                },
                BumpKind::Minor => Version { major: v.major, minor: (v.minor + 1) as u64, patch: 0u64 },
                BumpKind::Major => Version { major: (v.major + 1) as u64, minor: 0u64, patch: 0u64 },
            };
            spec_new_text(
                kind,
                spec_u64_digits(v.major as nat),
                spec_u64_digits(v.minor as nat),
                spec_u64_digits(v.patch as nat),
            ) == Some((spec_version_string(v), spec_version_string(bumped)))
        }),
{
    reveal_strlit(".");
    assert("."@ =~= seq!['.']);
    reveal_strlit("0");
    assert("0"@ =~= seq!['0']);
    lemma_digits_round_trip(v.major as nat);
    lemma_digits_round_trip(v.minor as nat);
    lemma_digits_round_trip(v.patch as nat);
    assert(spec_u64_digits(0) =~= seq!['0']);
}

/// Everything a version run produces: the final descriptor contents per
/// path, the changelog document to write (when any record was applied or
/// one existed before), and the release manifest text.
pub struct VersionOutcome {
    /// Final contents for each descriptor path handed in.
    pub descriptors: Vec<(String, String)>,
    /// The changelog document after all prepends.
    pub changelog: Option<String>,
    /// The release manifest: the package roots, newline-joined.
    pub release_manifest: String,
}

/// Apply every pending intent record, in the order given: bump each
/// package's version, thread the changelog through every prepend, and
/// list each package root in the release manifest. A malformed record or
/// descriptor aborts the whole run with the first error met, and every
/// record before it is reflected in no output.
#[verifier::rlimit(50)]
pub fn version(
    records: &Vec<String>,
    descriptors: &Vec<(String, String)>,
    changelog: &Option<String>,
) -> (r: Result<VersionOutcome, ApplyError>)
    ensures
        match spec_apply_all(
            desc_views(descriptors@),
            opt_view(*changelog),
            records@.map_values(|p: String| p@),
            0,
            Seq::empty(),
        ) {
            Ok(t) => r is Ok && {
                let out = r->Ok_0;
                desc_views(out.descriptors@) == t.0 && opt_view(out.changelog) == t.1
                    && out.release_manifest@ == spec_join(t.2, '\n') && t.2.len()
                    == records@.len()
            },
            Err(e) => r == Err::<VersionOutcome, ApplyError>(e),
        },
{
    let ghost rviews = records@.map_values(|p: String| p@);
    let ghost d0 = desc_views(descriptors@);
    let ghost c0 = opt_view(*changelog);
    let mut descs = clone_descs(descriptors);
    let mut chl = clone_opt(changelog);
    let mut roots: Vec<String> = Vec::new();
    let mut i: usize = 0;
    proof {
        assert(roots@.map_values(|p: String| p@) =~= Seq::<Seq<char>>::empty());
    }
    while i < records.len()
        invariant
            0 <= i <= records.len(),
            rviews == records@.map_values(|p: String| p@),
            d0 == desc_views(descriptors@),
            c0 == opt_view(*changelog),
            spec_apply_all(d0, c0, rviews, 0, Seq::empty()) == spec_apply_all(
                desc_views(descs@),
                opt_view(chl),
                rviews,
                i as int,
                roots@.map_values(|p: String| p@),
            ),
        decreases records.len() - i,
    {
        proof {
            assert(rviews[i as int] == records@[i as int]@);
        }
        let ghost prev_roots = roots@.map_values(|p: String| p@);
        let ghost dv = desc_views(descs@);
        let ghost cv = opt_view(chl);
        match apply_record(descs, chl, records[i].as_str()) {
            Ok(t) => {
                proof {
                    assert(spec_apply_record(dv, cv, rviews[i as int]) == Ok::<_, ApplyError>(
                        (desc_views(t.0@), opt_view(t.1), t.2@),
                    ));
                    assert(spec_apply_all(dv, cv, rviews, i as int, prev_roots)
                        == spec_apply_all(
                        desc_views(t.0@),
                        opt_view(t.1),
                        rviews,
                        i + 1,
                        prev_roots.push(t.2@),
                    ));
                }
                descs = t.0;
                chl = t.1;
                roots.push(t.2);
                proof {
                    assert(roots@.map_values(|p: String| p@) =~= prev_roots.push(
                        roots@.last()@,
                    ));
                }
            },
            Err(e) => {
                proof {
                    assert(spec_apply_all(dv, cv, rviews, i as int, prev_roots)
                        == Err::<
                        (Seq<(Seq<char>, Seq<char>)>, Option<Seq<char>>, Seq<Seq<char>>),
                        ApplyError,
                    >(e));
                    assert(spec_apply_all(d0, c0, rviews, 0, Seq::empty()) == Err::<
                        (Seq<(Seq<char>, Seq<char>)>, Option<Seq<char>>, Seq<Seq<char>>),
                        ApplyError,
                    >(e));
                }
                return Err(e);
            },
        }
        i = i + 1;
    }
    proof {
        reveal_strlit("\n");
        assert("\n"@ =~= seq!['\n']);
        lemma_apply_all_count(d0, c0, rviews, 0, Seq::empty());
    }
    let manifest = join(&roots, "\n", '\n');
    Ok(VersionOutcome { descriptors: descs, changelog: chl, release_manifest: manifest })
}

} // verus!
