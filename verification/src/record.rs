//! Intent records: one small document per accepted version bump. A
//! record holds a front-matter-like header (`package`, `pyproject`,
//! `release`) between `---` fences, followed by the free-text change
//! description. This module writes and reads that format, classifies the
//! operator's bump choice, and names new record files.

use vstd::prelude::*;
use vstd::string::StrSliceExecFns;
use vstd::string::StringExecFns;
use crate::strutil::{
    spec_trim, spec_trim_start, spec_split, spec_replace, spec_find, trim, trim_start,
    starts_with, replace, split_char, find, lemma_split_pieces, lemma_subrange_not_contains,
    lemma_trim_start_not_contains, lemma_replace_not_contains,
};
use crate::semver::BumpKind;
use crate::descriptor::spec_rfind;
use crate::descriptor::rfind_char;

verus! {

/// An intent record or managed state file that cannot be used.
#[derive(Clone, Copy, PartialEq, Eq, Structural, Debug)]
pub enum ApplyError {
    /// The record has no `package:` line.
    MissingPackage,
    /// The record has no `pyproject:` line.
    MissingPyproject,
    /// The record has no `release:` line.
    MissingRelease,
    /// The record has no body after the closing `---` fence.
    MissingBody,
    /// No descriptor contents were supplied for the record's package.
    DescriptorMissing,
    /// The package descriptor has no strict `version = "..."` line.
    MissingVersion,
    /// The bumped version component does not fit the version type.
    VersionOverflow,
    /// A state-directory entry has no file extension.
    MissingExtension,
}

/// The value of a `<key> <rest>` line: the rest of a line that starts
/// with `key`, its leading whitespace stripped.
pub open spec fn spec_field_line(line: Seq<char>, key: Seq<char>) -> Option<Seq<char>> {
    if line.len() >= key.len() && line.subrange(0, key.len() as int) == key {
        Some(spec_trim_start(line.subrange(key.len() as int, line.len() as int)))
    } else {
        None
    }
}

/// The first hit of the field pattern for `key` over `lines`, from `k` on.
pub open spec fn spec_first_field(lines: Seq<Seq<char>>, k: int, key: Seq<char>) -> Option<
    Seq<char>,
>
    decreases lines.len() - k,
    when 0 <= k <= lines.len()
{
    if k >= lines.len() {
        None
    } else if spec_field_line(lines[k], key) is Some {
        spec_field_line(lines[k], key)
    } else {
        spec_first_field(lines, k + 1, key)
    }
}

/// The value of the first line of `s` that starts with `key`.
pub open spec fn spec_field(s: Seq<char>, key: Seq<char>) -> Option<Seq<char>> {
    spec_first_field(spec_split(s, '\n'), 0, key)
}

/// Match one line against the field pattern for `key`.
pub fn field_line(line: &str, key: &str) -> (r: Option<String>)
    ensures
        match r {
            Some(v) => spec_field_line(line@, key@) == Some(v@),
            None => spec_field_line(line@, key@) is None,
        },
{
    if !starts_with(line, key) {
        return None;
    }
    let klen = key.unicode_len();
    Some(trim_start(line.substring_char(klen, line.unicode_len())))
}

/// Extract the value of the first line of `s` that starts with `key`.
pub fn field_value(s: &str, key: &str) -> (r: Option<String>)
    ensures
        match r {
            Some(v) => spec_field(s@, key@) == Some(v@),
            None => spec_field(s@, key@) is None,
        },
{
    proof {
        reveal_strlit("\n");
        assert("\n"@ =~= seq!['\n']);
    }
    let lines = split_char(s, '\n', "\n");
    let ghost lviews = lines@.map_values(|p: String| p@);
    let mut i: usize = 0;
    while i < lines.len()
        invariant
            0 <= i <= lines.len(),
            lviews == lines@.map_values(|p: String| p@),
            lviews == spec_split(s@, '\n'),
            spec_first_field(lviews, 0, key@) == spec_first_field(lviews, i as int, key@),
        decreases lines.len() - i,
    {
        match field_line(lines[i].as_str(), key) {
            Some(v) => {
                proof {
                    assert(lviews[i as int] == lines@[i as int]@);
                    assert(spec_first_field(lviews, i as int, key@) == Some(v@));
                }
                return Some(v);
            },
            None => {
                proof {
                    assert(lviews[i as int] == lines@[i as int]@);
                    assert(spec_first_field(lviews, i as int, key@) == spec_first_field(
                        lviews,
                        i + 1,
                        key@,
                    ));
                }
            },
        }
        i = i + 1;
    }
    None
}

/// The description body of a record: the third piece of the document
/// when it is split on `---` fences (the text between the second fence
/// and the third, or the end). `None` when fewer than two fences exist.
pub open spec fn spec_record_message(s: Seq<char>) -> Option<Seq<char>> {
    let fence = "---"@;
    let i1 = spec_find(s, fence);
    if i1 < 0 || i1 + 3 > s.len() {
        None
    } else {
        let r1 = s.subrange(i1 + 3, s.len() as int);
        let i2 = spec_find(r1, fence);
        if i2 < 0 || i2 + 3 > r1.len() {
            None
        } else {
            let r2 = r1.subrange(i2 + 3, r1.len() as int);
            let i3 = spec_find(r2, fence);
            if i3 < 0 {
                Some(r2)
            } else {
                Some(r2.subrange(0, i3))
            }
        }
    }
}

/// Extract the description body of a record.
pub fn record_message(s: &str) -> (r: Option<String>)
    ensures
        match r {
            Some(v) => spec_record_message(s@) == Some(v@),
            None => spec_record_message(s@) is None,
        },
{
    proof {
        reveal_strlit("---");
    }
    let flen = "---".unicode_len();
    let n = s.unicode_len();
    let i1 = match find(s, "---") {
        Some(i) => i,
        None => {
            return None;
        },
    };
    let r1s = String::from_str(s.substring_char(i1 + flen, n));
    let r1 = r1s.as_str();
    let i2 = match find(r1, "---") {
        Some(i) => i,
        None => {
            return None;
        },
    };
    let r2s = String::from_str(r1.substring_char(i2 + flen, r1.unicode_len()));
    let r2 = r2s.as_str();
    match find(r2, "---") {
        Some(i3) => Some(String::from_str(r2.substring_char(0, i3))),
        None => Some(String::from_str(r2)),
    }
}

/// One parsed intent record.
pub struct IntentRecord {
    /// The package name stored in the record.
    pub package: String,
    /// The descriptor path stored in the record, its quotes removed.
    pub pyproject_path: String,
    /// The package root: the descriptor path without its
    /// `/pyproject.toml` suffix.
    pub package_root: String,
    /// The stored bump kind, as written.
    pub release_raw: String,
    /// The free-text change description.
    pub message: String,
}

/// The descriptor path stored in a record: the `pyproject:` field with
/// every quote removed.
pub open spec fn spec_record_pyproject(s: Seq<char>) -> Option<Seq<char>> {
    match spec_field(s, "pyproject:"@) {
        Some(v) => Some(spec_replace(v, "\""@, Seq::empty())),
        None => None,
    }
}

/// The package root named by a record: its descriptor path without the
/// `/pyproject.toml` suffix.
pub open spec fn spec_record_root(s: Seq<char>) -> Option<Seq<char>> {
    match spec_record_pyproject(s) {
        Some(p) => Some(spec_replace(p, "/pyproject.toml"@, Seq::empty())),
        None => None,
    }
}

/// Parse an intent record. Each required part is reported missing by its
/// own error, checked in the order package, pyproject, release, body.
pub fn parse_record(s: &str) -> (r: Result<IntentRecord, ApplyError>)
    ensures
        match r {
            Ok(rec) => spec_field(s@, "package:"@) == Some(rec.package@) && spec_record_pyproject(
                s@,
            ) == Some(rec.pyproject_path@) && spec_record_root(s@) == Some(rec.package_root@)
                && spec_field(s@, "release:"@) == Some(rec.release_raw@) && spec_record_message(s@)
                == Some(rec.message@),
            Err(e) => {
                &&& (e == ApplyError::MissingPackage || e == ApplyError::MissingPyproject || e
                    == ApplyError::MissingRelease || e == ApplyError::MissingBody)
                &&& (e == ApplyError::MissingPackage <==> spec_field(s@, "package:"@) is None)
                &&& (e == ApplyError::MissingPyproject <==> (spec_field(s@, "package:"@) is Some
                    && spec_field(s@, "pyproject:"@) is None))
                &&& (e == ApplyError::MissingRelease <==> (spec_field(s@, "package:"@) is Some
                    && spec_field(s@, "pyproject:"@) is Some && spec_field(
                    s@,
                    "release:"@,
                ) is None))
                &&& (e == ApplyError::MissingBody <==> (spec_field(s@, "package:"@) is Some
                    && spec_field(s@, "pyproject:"@) is Some && spec_field(s@, "release:"@) is Some
                    && spec_record_message(s@) is None))
            },
        },
{
    let package = match field_value(s, "package:") {
        Some(v) => v,
        None => {
            return Err(ApplyError::MissingPackage);
        },
    };
    let pyp_raw = match field_value(s, "pyproject:") {
        Some(v) => v,
        None => {
            return Err(ApplyError::MissingPyproject);
        },
    };
    let release_raw = match field_value(s, "release:") {
        Some(v) => v,
        None => {
            return Err(ApplyError::MissingRelease);
        },
    };
    let message = match record_message(s) {
        Some(v) => v,
        None => {
            return Err(ApplyError::MissingBody);
        },
    };
    proof {
        reveal_strlit("\"");
        reveal_strlit("/pyproject.toml");
        reveal_strlit("");
        assert(""@ =~= Seq::<char>::empty());
    }
    let pyproject_path = replace(pyp_raw.as_str(), "\"", "");
    let package_root = replace(pyproject_path.as_str(), "/pyproject.toml", "");
    Ok(
        IntentRecord {
            package,
            pyproject_path,
            package_root,
            release_raw,
            message,
        },
    )
}

proof fn lemma_first_field_not_newline(lines: Seq<Seq<char>>, k: int, key: Seq<char>)
    requires
        0 <= k <= lines.len(),
        forall|i: int| 0 <= i < lines.len() ==> !#[trigger] lines[i].contains('\n'),
        spec_first_field(lines, k, key) is Some,
    ensures
        !spec_first_field(lines, k, key)->0.contains('\n'),
    decreases lines.len() - k,
{
    if k < lines.len() {
        if spec_field_line(lines[k], key) is Some {
            lemma_subrange_not_contains(lines[k], '\n', key.len() as int, lines[k].len() as int);
            lemma_trim_start_not_contains(
                lines[k].subrange(key.len() as int, lines[k].len() as int),
                '\n',
            );
        } else {
            lemma_first_field_not_newline(lines, k + 1, key);
        }
    }
}

/// A field value comes from one line, so it holds no newline.
pub proof fn lemma_field_not_newline(s: Seq<char>, key: Seq<char>)
    requires
        spec_field(s, key) is Some,
    ensures
        !spec_field(s, key)->0.contains('\n'),
{
    lemma_split_pieces(s, '\n');
    lemma_first_field_not_newline(spec_split(s, '\n'), 0, key);
}

/// The package root a record names holds no newline.
pub proof fn lemma_record_root_clean(s: Seq<char>)
    requires
        spec_record_root(s) is Some,
    ensures
        !spec_record_root(s)->0.contains('\n'),
{
    lemma_field_not_newline(s, "pyproject:"@);
    let v = spec_field(s, "pyproject:"@)->0;
    assert(!Seq::<char>::empty().contains('\n'));
    lemma_replace_not_contains(v, "\""@, Seq::empty(), '\n');
    lemma_replace_not_contains(
        spec_replace(v, "\""@, Seq::empty()),
        "/pyproject.toml"@,
        Seq::empty(),
        '\n',
    );
}

/// The bump kind denoted by a stored `release` field: `patch` and
/// `minor` after trimming, and any other value falling through to a
/// major bump.
pub open spec fn spec_stored_kind(raw: Seq<char>) -> BumpKind {
    if spec_trim(raw) == "patch"@ {
        BumpKind::Patch
    } else if spec_trim(raw) == "minor"@ {
        BumpKind::Minor
    } else {
        BumpKind::Major
    }
}

/// Read the bump kind stored in a record's `release` field.
pub fn stored_kind(raw: &str) -> (r: BumpKind)
    ensures
        r == spec_stored_kind(raw@),
{
    let t = trim(raw);
    let patch = String::from_str("patch");
    let minor = String::from_str("minor");
    if t == patch {
        BumpKind::Patch
    } else if t == minor {
        BumpKind::Minor
    } else {
        BumpKind::Major
    }
}

/// Whether `c` spells the lowercase letter `lower`, in either case.
pub open spec fn eq_ignore_case(c: char, lower: char) -> bool {
    c == lower || ('a' <= lower <= 'z' && c as u32 + 32 == lower as u32 + 0)
}

/// Whether `s` spells the lowercase word `w`, case-insensitively.
pub open spec fn spec_spells(s: Seq<char>, w: Seq<char>) -> bool {
    s.len() == w.len() && forall|i: int| 0 <= i < s.len() ==> eq_ignore_case(#[trigger] s[i], w[i])
}

/// Whether `s` spells the lowercase word `w`, case-insensitively.
pub fn spells(s: &str, w: &str) -> (r: bool)
    ensures
        r == spec_spells(s@, w@),
{
    let n = s.unicode_len();
    if n != w.unicode_len() {
        return false;
    }
    let mut i: usize = 0;
    while i < n
        invariant
            0 <= i <= n,
            n == s@.len() == w@.len(),
            forall|j: int| 0 <= j < i ==> eq_ignore_case(#[trigger] s@[j], w@[j]),
        decreases n - i,
    {
        let c = s.get_char(i);
        let l = w.get_char(i);
        let ok = c == l || ('a' <= l && l <= 'z' && c as u32 + 32 == l as u32);
        if !ok {
            return false;
        }
        i = i + 1;
    }
    true
}

/// The bump kind an operator's answer selects: `major`, `minor` or
/// `patch`, case-insensitively after trimming; anything else means the
/// change is to be ignored.
pub open spec fn spec_classify(input: Seq<char>) -> Option<BumpKind> {
    let t = spec_trim(input);
    if spec_spells(t, "major"@) {
        Some(BumpKind::Major)
    } else if spec_spells(t, "minor"@) {
        Some(BumpKind::Minor)
    } else if spec_spells(t, "patch"@) {
        Some(BumpKind::Patch)
    } else {
        None
    }
}

/// Classify an operator's bump answer.
pub fn classify_bump(input: &str) -> (r: Option<BumpKind>)
    ensures
        r == spec_classify(input@),
{
    let t = trim(input);
    if spells(t.as_str(), "major") {
        Some(BumpKind::Major)
    } else if spells(t.as_str(), "minor") {
        Some(BumpKind::Minor)
    } else if spells(t.as_str(), "patch") {
        Some(BumpKind::Patch)
    } else {
        None
    }
}

/// The canonical word for a bump kind.
pub open spec fn spec_kind_word(k: BumpKind) -> Seq<char> {
    match k {
        BumpKind::Major => "major"@,
        BumpKind::Minor => "minor"@,
        BumpKind::Patch => "patch"@,
    }
}

/// The canonical word for a bump kind.
pub fn kind_word(k: BumpKind) -> (r: &'static str)
    ensures
        r@ == spec_kind_word(k),
{
    match k {
        BumpKind::Major => "major",
        BumpKind::Minor => "minor",
        BumpKind::Patch => "patch",
    }
}

/// The text of a new intent record: the three header fields between
/// `---` fences, the descriptor path quoted, then the description.
pub open spec fn spec_record_text(
    package: Seq<char>,
    pyproject: Seq<char>,
    kind: BumpKind,
    message: Seq<char>,
) -> Seq<char> {
    "---\npackage: "@ + package + "\npyproject: \""@ + pyproject + "\"\nrelease: "@
        + spec_kind_word(kind) + "\n---\n"@ + message
}

/// Write the text of a new intent record.
pub fn format_record(package: &str, pyproject: &str, kind: BumpKind, message: &str) -> (r: String)
    ensures
        r@ == spec_record_text(package@, pyproject@, kind, message@),
{
    let mut out = String::from_str("---\npackage: ");
    out.append(package);
    out.append("\npyproject: \"");
    out.append(pyproject);
    out.append("\"\nrelease: ");
    out.append(kind_word(kind));
    out.append("\n---\n");
    out.append(message);
    out
}

/// The state-directory path for a record file named `name`: under
/// `.workspyce/`, spaces turned to dashes, with the `.md` extension.
pub open spec fn spec_record_path(name: Seq<char>) -> Seq<char> {
    ".workspyce/"@ + spec_replace(name, " "@, "-"@) + ".md"@
}

/// Build the state-directory path for a record file named `name`.
pub fn make_record_path(name: &str) -> (r: String)
    ensures
        r@ == spec_record_path(name@),
{
    proof {
        reveal_strlit(" ");
    }
    let mut out = String::from_str(".workspyce/");
    let dashed = replace(name, " ", "-");
    out.append(dashed.as_str());
    out.append(".md");
    out
}

/// Relies on random_name::generate_name: the result is two words from
/// fixed lists of lowercase ASCII names, joined by a single space. Which
/// words come back is random, so nothing relates two calls.
#[verifier::external_body]
fn generate_name() -> (r: String)
    ensures
        r@.len() >= 1,
        forall|i: int| 0 <= i < r@.len() ==> ('a' <= #[trigger] r@[i] <= 'z' || r@[i] == ' '),
{
    random_name::generate_name()
}

/// A fresh state-directory path for a new record: a generated readable
/// name, made dash-separated, under `.workspyce/` with the `.md`
/// extension. The name is random; only the path's shape is promised.
pub fn fresh_record_path() -> (r: String)
    ensures
        exists|name: Seq<char>| r@ == spec_record_path(name),
{
    let name = generate_name();
    let r = make_record_path(name.as_str());
    proof {
        assert(r@ == spec_record_path(name@));
    }
    r
}

/// Record that a package was handled in this session: when `name` is
/// not yet in `processed` it is appended and the call reports true; when
/// it already is, nothing changes and the call reports false.
pub fn note_processed(processed: &mut Vec<String>, name: &str) -> (r: bool)
    ensures
        ({
            let views = old(processed)@.map_values(|p: String| p@);
            if views.contains(name@) {
                r == false && final(processed)@ == old(processed)@
            } else {
                r == true && final(processed)@.map_values(|p: String| p@) == views.push(name@)
            }
        }),
{
    let ghost views = old(processed)@.map_values(|p: String| p@);
    let target = String::from_str(name);
    let mut k: usize = 0;
    while k < processed.len()
        invariant
            0 <= k <= processed.len(),
            processed@ == old(processed)@,
            views == processed@.map_values(|p: String| p@),
            target@ == name@,
            forall|j: int| 0 <= j < k ==> views[j] != name@,
        decreases processed.len() - k,
    {
        if processed[k] == target {
            assert(views[k as int] == name@);
            return false;
        }
        k = k + 1;
    }
    proof {
        if views.contains(name@) {
            let j = choose|j: int| 0 <= j < views.len() && views[j] == name@;
            assert(false);
        }
    }
    processed.push(target);
    proof {
        assert(final(processed)@.map_values(|p: String| p@) =~= views.push(name@));
    }
    true
}

/// The extension of a path: what follows the last dot of the last
/// path component, provided that dot is not the component's first
/// character.
pub open spec fn spec_extension(p: Seq<char>) -> Option<Seq<char>> {
    let name = p.subrange(spec_rfind(p, '/') + 1, p.len() as int);
    let d = spec_rfind(name, '.');
    if d <= 0 {
        None
    } else {
        Some(name.subrange(d + 1, name.len() as int))
    }
}

/// The extension of a path.
pub fn extension(p: &str) -> (r: Option<String>)
    ensures
        match r {
            Some(v) => spec_extension(p@) == Some(v@),
            None => spec_extension(p@) is None,
        },
{
    let n = p.unicode_len();
    let start = match rfind_char(p, '/') {
        Some(i) => i + 1,
        None => 0,
    };
    let names = String::from_str(p.substring_char(start, n));
    let name = names.as_str();
    match rfind_char(name, '.') {
        Some(d) if d >= 1 => Some(String::from_str(name.substring_char(d + 1, name.unicode_len()))),
        _ => None,
    }
}

/// Keep the state-directory entries that are record files: those whose
/// extension is `md`. Fails when an entry has no extension at all.
pub fn select_records(paths: &Vec<String>) -> (r: Result<Vec<String>, ApplyError>)
    ensures
        match r {
            Ok(out) => {
                let views = paths@.map_values(|p: String| p@);
                out@.map_values(|p: String| p@) == views.filter(
                    |p: Seq<char>| spec_extension(p) == Some("md"@),
                ) && forall|i: int|
                    0 <= i < views.len() ==> spec_extension(#[trigger] views[i]) is Some
            },
            Err(e) => e == ApplyError::MissingExtension && exists|i: int|
                0 <= i < paths@.len() && spec_extension(#[trigger] paths@[i]@) is None,
        },
{
    let ghost views = paths@.map_values(|p: String| p@);
    let ghost f = |p: Seq<char>| spec_extension(p) == Some("md"@);
    let md = String::from_str("md");
    let mut out: Vec<String> = Vec::new();
    let mut k: usize = 0;
    proof {
        assert(views.take(0).filter(f) =~= Seq::<Seq<char>>::empty());
    }
    while k < paths.len()
        invariant
            0 <= k <= paths.len(),
            views == paths@.map_values(|p: String| p@),
            md@ == "md"@,
            f == (|p: Seq<char>| spec_extension(p) == Some("md"@)),
            out@.map_values(|p: String| p@) == views.take(k as int).filter(f),
            forall|i: int| 0 <= i < k ==> spec_extension(#[trigger] views[i]) is Some,
        decreases paths.len() - k,
    {
        let ghost prev = out@.map_values(|p: String| p@);
        match extension(paths[k].as_str()) {
            Some(ext) => {
                proof {
                    assert(views[k as int] == paths@[k as int]@);
                }
                if ext == md {
                    out.push(paths[k].clone());
                } else {
                }
                proof {
                    assert(views.take(k + 1).drop_last() =~= views.take(k as int));
                    assert(views.take(k + 1).last() == views[k as int]);
                    reveal_with_fuel(Seq::filter, 2);
                    assert(out@.map_values(|p: String| p@) =~= views.take(k + 1).filter(f));
                }
            },
            None => {
                proof {
                    assert(views[k as int] == paths@[k as int]@);
                }
                return Err(ApplyError::MissingExtension);
            },
        }
        k = k + 1;
    }
    proof {
        assert(views.take(paths@.len() as int) =~= views);
    }
    Ok(out)
}

} // verus!
