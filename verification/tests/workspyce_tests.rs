use workspyce::apply::version;
use workspyce::changelog::prepend_changelog;
use workspyce::descriptor::{find_project_name, find_version_parts, ParseError};
use workspyce::locator::{ancestors, find_pyproject, parent};
use workspyce::record::{
    classify_bump, format_record, fresh_record_path, make_record_path, note_processed,
    parse_record, select_records, stored_kind, ApplyError,
};
use workspyce::release::{plan_release, ReleasePlan};
use workspyce::resolver::{find_workspace_members, is_workspace_member};
use workspyce::semver::{bump_version, parse_u64, render_u64, render_version, BumpKind, Version};
use workspyce::status::status_lines;
use workspyce::strutil::{join, replace, split_char, trim};

const MANIFEST: &str = "[project]\nname = \"toml-workspace\"\nversion = \"0.1.0\"\n\n[tool.uv.workspace]\nmembers = [\"testfiles/*\"]\n";

#[test]
fn test_find_workspace_members() {
    assert_eq!(find_workspace_members(MANIFEST).unwrap()[0], "testfiles/.*");
}

#[test]
fn test_find_pyproject() {
    let dirs: Vec<String> = vec!["testfiles/proj".to_string()];
    match find_pyproject("testfiles/proj/childpath/anotherfile.txt", &dirs) {
        Ok(path) => {
            assert_eq!(path, "testfiles/proj")
        }
        Err(e) => {
            println!("Error during test when no error should have happened: {}", e);
            assert!(false)
        }
    }
    match find_pyproject("testfiles/notapyproject.toml", &dirs) {
        Ok(_path) => {
            println!("No error was thrown where it should have");
            assert!(false)
        }
        Err(e) => {
            assert_eq!(e, "Could not find a parent path that contains a pyproject.toml")
        }
    }
}

#[test]
fn test_find_project_name() {
    assert_eq!(find_project_name(MANIFEST).unwrap(), "toml-workspace");
}

#[test]
fn test_is_workspace_member() {
    let members: Vec<String> = vec!["packages/.*".to_string()];
    assert!(is_workspace_member(&members, "packages/coding_agent/hello.py"));
    assert!(!is_workspace_member(&members, "package/coding_agent/hello.py"))
}

#[test]
// test that status output parses without an error
fn test_git_status_files() {
    let lines = status_lines(" M packages/foo/x.py\n?? newfile.txt\nA  added.py\n");
    assert_eq!(lines[0], "packages/foo/x.py");
    assert_eq!(lines[1], "newfile.txt");
    assert_eq!(lines[2], "added.py");
}

#[test]
fn status_strips_only_the_leading_prefix() {
    // a status-code letter inside a path is not a prefix
    let lines = status_lines("a/M x\nM  kept/M in.txt\nplain.txt ");
    assert_eq!(lines[0], "a/M x");
    assert_eq!(lines[1], "kept/M in.txt");
    assert_eq!(lines[2], "plain.txt");
}

#[test]
fn test_release_failure() {
    match plan_release(&None) {
        ReleasePlan::NothingToRelease => {}
        ReleasePlan::Build(_) => {
            println!("A build was planned where nothing should be released");
            assert!(false)
        }
    }
}

#[test]
fn test_list_all_changelog() {
    let entries: Vec<String> = vec![".workspyce/test-file.md".to_string()];
    let paths = select_records(&entries).unwrap();
    assert_eq!(paths[0], ".workspyce/test-file.md");
}

#[test]
fn resolver_yields_one_pattern_per_entry() {
    let content = "[tool.uv.workspace]\nmembers = [\"a/*\", \"b\", \"c*d\"]\n";
    let pats = find_workspace_members(content).unwrap();
    assert_eq!(pats.len(), 3);
    assert_eq!(pats[0], "a/.*");
    assert_eq!(pats[1], "b");
    assert_eq!(pats[2], "c.*d");
}

#[test]
fn resolver_rejects_missing_or_empty_declaration() {
    assert!(find_workspace_members("[project]\nname = \"x\"\n").is_err());
    assert!(find_workspace_members("[tool.uv.workspace]\nmembers = []\n").is_err());
}

#[test]
fn resolver_passes_over_a_bare_header_occurrence() {
    let content =
        "text [tool.uv.workspace] mentioned\n[tool.uv.workspace]\nmembers = [\"a/*\"]\n";
    assert_eq!(find_workspace_members(content).unwrap(), vec!["a/.*"]);
}

#[test]
fn membership_ignores_pattern_order() {
    let a: Vec<String> = vec!["packages/.*".to_string(), "libs/.*".to_string()];
    let b: Vec<String> = vec!["libs/.*".to_string(), "packages/.*".to_string()];
    for path in ["packages/x/y.py", "libs/z.py", "other/w.py"] {
        assert_eq!(is_workspace_member(&a, path), is_workspace_member(&b, path));
    }
}

#[test]
fn locator_nearest_ancestor_wins() {
    let dirs: Vec<String> = vec!["a/b".to_string(), "a".to_string()];
    assert_eq!(find_pyproject("a/b/c/file.txt", &dirs).unwrap(), "a/b");
    let only_outer: Vec<String> = vec!["a".to_string()];
    assert_eq!(find_pyproject("a/b/c/file.txt", &only_outer).unwrap(), "a");
    let none: Vec<String> = vec![];
    assert!(find_pyproject("a/b/c/file.txt", &none).is_err());
}

#[test]
fn locator_walks_all_ancestors() {
    let anc = ancestors("a/b/c/file.txt");
    assert_eq!(anc, vec!["a/b/c/file.txt", "a/b/c", "a/b", "a", ""]);
    assert_eq!(parent("a/b/"), "a");
    assert_eq!(parent("file.txt"), "");
}

#[test]
fn version_arithmetic() {
    let v = Version { major: 1, minor: 2, patch: 3 };
    assert_eq!(bump_version(&v, BumpKind::Patch).unwrap(), Version { major: 1, minor: 2, patch: 4 });
    assert_eq!(bump_version(&v, BumpKind::Minor).unwrap(), Version { major: 1, minor: 3, patch: 0 });
    assert_eq!(bump_version(&v, BumpKind::Major).unwrap(), Version { major: 2, minor: 0, patch: 0 });
    let nines = Version { major: 9, minor: 9, patch: 9 };
    assert_eq!(
        bump_version(&nines, BumpKind::Patch).unwrap(),
        Version { major: 9, minor: 9, patch: 10 }
    );
    assert_eq!(render_version(&Version { major: 9, minor: 9, patch: 10 }), "9.9.10");
    assert!(bump_version(&Version { major: 1, minor: 0, patch: u64::MAX }, BumpKind::Patch).is_none());
}

#[test]
fn digit_parsing_and_rendering() {
    assert_eq!(parse_u64("007"), Some(7));
    assert_eq!(parse_u64("18446744073709551615"), Some(u64::MAX));
    assert_eq!(parse_u64("18446744073709551616"), None);
    assert_eq!(parse_u64(""), None);
    assert_eq!(parse_u64("12a"), None);
    assert_eq!(render_u64(0), "0");
    assert_eq!(render_u64(1230), "1230");
}

#[test]
fn version_field_is_strict() {
    let parts = find_version_parts("name = \"x\"\nversion = \"1.2.3\"\n").unwrap();
    assert_eq!(parts.0, "1");
    assert_eq!(parts.1, "2");
    assert_eq!(parts.2, "3");
    assert!(find_version_parts("  version = \"1.2.3\"\n").is_none());
    assert!(find_version_parts("version = \"1.2\"\n").is_none());
    assert!(find_version_parts("version = \"1.2.3\" \n").is_none());
}

#[test]
fn project_name_needs_a_quoted_value() {
    assert_eq!(find_project_name("  name = \"pkg\" # tail\n").unwrap(), "pkg");
    assert_eq!(find_project_name("names = \"pkg\"\n"), Err(ParseError::MissingName));
    assert_eq!(find_project_name("name = \"\"\n"), Err(ParseError::MissingName));
}

#[test]
fn bump_answers_are_classified_case_insensitively() {
    assert_eq!(classify_bump(" MAJOR \n"), Some(BumpKind::Major));
    assert_eq!(classify_bump("Minor"), Some(BumpKind::Minor));
    assert_eq!(classify_bump("patch\n"), Some(BumpKind::Patch));
    assert_eq!(classify_bump(""), None);
    assert_eq!(classify_bump("skip"), None);
}

#[test]
fn stored_kinds_fall_through_to_major() {
    assert_eq!(stored_kind("patch"), BumpKind::Patch);
    assert_eq!(stored_kind(" minor \n"), BumpKind::Minor);
    assert_eq!(stored_kind("major"), BumpKind::Major);
    assert_eq!(stored_kind("anything else"), BumpKind::Major);
}

#[test]
fn record_text_round_trips() {
    let text = format_record("foo", "packages/foo/pyproject.toml", BumpKind::Minor, "msg\n");
    assert_eq!(
        text,
        "---\npackage: foo\npyproject: \"packages/foo/pyproject.toml\"\nrelease: minor\n---\nmsg\n"
    );
    let rec = parse_record(&text).unwrap();
    assert_eq!(rec.package, "foo");
    assert_eq!(rec.pyproject_path, "packages/foo/pyproject.toml");
    assert_eq!(rec.package_root, "packages/foo");
    assert_eq!(rec.release_raw, "minor");
    assert_eq!(rec.message, "\nmsg\n");
}

#[test]
fn record_errors_name_the_missing_part() {
    assert!(matches!(parse_record("x"), Err(ApplyError::MissingPackage)));
    assert!(matches!(parse_record("package: a"), Err(ApplyError::MissingPyproject)));
    assert!(matches!(
        parse_record("package: a\npyproject: \"p\""),
        Err(ApplyError::MissingRelease)
    ));
    assert!(matches!(
        parse_record("package: a\npyproject: \"p\"\nrelease: patch"),
        Err(ApplyError::MissingBody)
    ));
}

#[test]
fn record_paths_are_dashed_markdown() {
    assert_eq!(make_record_path("bold eagle"), ".workspyce/bold-eagle.md");
    let fresh = fresh_record_path();
    assert!(fresh.starts_with(".workspyce/"));
    assert!(fresh.ends_with(".md"));
    assert!(!fresh.contains(' '));
    assert!(fresh.len() > ".workspyce/.md".len());
}

#[test]
fn processed_packages_are_deduplicated() {
    let mut processed: Vec<String> = Vec::new();
    assert!(note_processed(&mut processed, "foo"));
    assert!(!note_processed(&mut processed, "foo"));
    assert!(note_processed(&mut processed, "bar"));
    assert_eq!(processed, vec!["foo", "bar"]);
}

#[test]
fn end_to_end_minor_bump() {
    let members = find_workspace_members("[tool.uv.workspace]\nmembers = [\"packages/*\"]\n").unwrap();
    assert_eq!(members, vec!["packages/.*"]);
    assert!(is_workspace_member(&members, "packages/foo/x.py"));
    let record = format_record("foo", "packages/foo/pyproject.toml", BumpKind::Minor, "add feature\n");
    let records = vec![record];
    let descriptors = vec![(
        "packages/foo/pyproject.toml".to_string(),
        "name = \"foo\"\nversion = \"0.1.0\"\n".to_string(),
    )];
    let out = version(&records, &descriptors, &None).unwrap();
    assert_eq!(out.descriptors[0].0, "packages/foo/pyproject.toml");
    assert_eq!(out.descriptors[0].1, "name = \"foo\"\nversion = \"0.2.0\"\n");
    let changelog = out.changelog.unwrap();
    assert!(changelog.starts_with("## foo"));
    assert!(changelog.contains("add feature"));
    assert_eq!(changelog, "## foo 0.2.0\n\n\nadd feature\n\n\n");
    assert_eq!(out.release_manifest, "packages/foo");
}

#[test]
fn manifest_lists_one_line_per_package() {
    let rx = format_record("x", "pkgs/x/pyproject.toml", BumpKind::Patch, "one\n");
    let ry = format_record("y", "pkgs/y/pyproject.toml", BumpKind::Patch, "two\n");
    let records = vec![rx, ry];
    let descriptors = vec![
        ("pkgs/x/pyproject.toml".to_string(), "version = \"1.2.3\"\n".to_string()),
        ("pkgs/y/pyproject.toml".to_string(), "version = \"0.0.1\"\n".to_string()),
    ];
    let out = version(&records, &descriptors, &None).unwrap();
    assert_eq!(out.release_manifest, "pkgs/x\npkgs/y");
    let lines: Vec<&str> = out.release_manifest.split('\n').collect();
    assert_eq!(lines.len(), 2);
    assert_eq!(out.descriptors[0].1, "version = \"1.2.4\"\n");
    assert_eq!(out.descriptors[1].1, "version = \"0.0.2\"\n");
    // the changelog reads newest first: y's section above x's
    let changelog = out.changelog.unwrap();
    assert!(changelog.starts_with("## y"));
    assert!(changelog.find("## y").unwrap() < changelog.find("## x").unwrap());
}

#[test]
fn repeated_records_for_one_package_stack() {
    let r1 = format_record("foo", "p/foo/pyproject.toml", BumpKind::Patch, "a\n");
    let r2 = format_record("foo", "p/foo/pyproject.toml", BumpKind::Minor, "b\n");
    let records = vec![r1, r2];
    let descriptors =
        vec![("p/foo/pyproject.toml".to_string(), "version = \"0.1.0\"\n".to_string())];
    let out = version(&records, &descriptors, &None).unwrap();
    assert_eq!(out.descriptors[0].1, "version = \"0.2.0\"\n");
    assert_eq!(out.release_manifest, "p/foo\np/foo");
}

#[test]
fn version_run_with_no_records_is_empty() {
    let records: Vec<String> = vec![];
    let descriptors: Vec<(String, String)> = vec![];
    let out = version(&records, &descriptors, &None).unwrap();
    assert_eq!(out.release_manifest, "");
    assert!(out.changelog.is_none());
    assert!(out.descriptors.is_empty());
}

#[test]
fn version_run_reports_the_first_failure() {
    let r = format_record("foo", "p/foo/pyproject.toml", BumpKind::Patch, "a\n");
    let records = vec![r];
    let none: Vec<(String, String)> = vec![];
    assert!(matches!(version(&records, &none, &None), Err(ApplyError::DescriptorMissing)));
    let unversioned =
        vec![("p/foo/pyproject.toml".to_string(), "name = \"foo\"\n".to_string())];
    assert!(matches!(version(&records, &unversioned, &None), Err(ApplyError::MissingVersion)));
}

#[test]
fn changelog_prepends_above_existing_content() {
    let first = prepend_changelog(&None, "x", "1.0.1", "one");
    assert_eq!(first, "## x 1.0.1\n\none\n\n");
    let second = prepend_changelog(&Some(first.clone()), "y", "2.0.0", "two");
    assert_eq!(second, format!("## y\n\ntwo\n\n{}", first));
}

#[test]
fn release_plan_keeps_nonempty_lines() {
    match plan_release(&Some("a\n\nb".to_string())) {
        ReleasePlan::Build(paths) => assert_eq!(paths, vec!["a", "b"]),
        ReleasePlan::NothingToRelease => assert!(false),
    }
    match plan_release(&Some(String::new())) {
        ReleasePlan::Build(paths) => assert!(paths.is_empty()),
        ReleasePlan::NothingToRelease => assert!(false),
    }
}

#[test]
fn string_helpers_behave_like_their_contracts() {
    assert_eq!(trim("  a b \n"), "a b");
    assert_eq!(replace("a*b*c", "*", ".*"), "a.*b.*c");
    let pieces = split_char("a,b,,c", ',', ",");
    assert_eq!(pieces, vec!["a", "b", "", "c"]);
    let joined = join(&pieces, "\n", '\n');
    assert_eq!(joined, "a\nb\n\nc");
}
