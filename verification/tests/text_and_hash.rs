//! Tests for the string helpers, version rendering, hash codec, path rules
//! and the snapshot constructor.

use nexlint::allowed_paths::{AllowedPaths, DEFAULT_ALLOWED_PATHS_REGEX};
use nexlint::context::{FilePathContext, NexLintContext};
use nexlint::errors::{HexDecodeError, SystemError};
use nexlint::git::GitHash;
use nexlint::graph::{PackageGraph, Version};
use nexlint::license::FileType;
use nexlint::message::LintKind;
use nexlint::strutil::{join_strings, split_char, split_components, u64_to_string};

fn empty_ctx() -> NexLintContext {
    NexLintContext::new(
        "/repo".to_string(),
        "/repo".to_string(),
        vec![],
        PackageGraph { packages: vec![], edges: vec![] },
        None,
    )
    .expect("snapshot should build")
}

#[test]
fn u64_rendering() {
    assert_eq!(u64_to_string(0), "0");
    assert_eq!(u64_to_string(7), "7");
    assert_eq!(u64_to_string(10), "10");
    assert_eq!(u64_to_string(987654321), "987654321");
    assert_eq!(u64_to_string(u64::MAX), "18446744073709551615");
}

#[test]
fn version_rendering() {
    assert_eq!(Version::new(1, 2, 0).render(), "1.2.0");
    assert_eq!(Version::new(0, 0, 0).render(), "0.0.0");
    assert_eq!(Version::new(10, 20, 30).render(), "10.20.30");
}

#[test]
fn splitting_and_joining() {
    assert_eq!(split_char("a/b/c", '/'), vec!["a", "b", "c"]);
    assert_eq!(split_char("", '/'), vec![""]);
    assert_eq!(split_char("a//b/", '/'), vec!["a", "", "b", ""]);
    assert_eq!(split_components("a//b/", '/'), vec!["a", "b"]);
    assert_eq!(split_components("", '/'), Vec::<String>::new());
    assert_eq!(join_strings(&vec!["a".to_string(), "b".to_string()], ", "), "a, b");
    assert_eq!(join_strings(&vec![], ", "), "");
}

#[test]
fn git_hash_round_trip() {
    let hex = "0123456789abcdef0123456789abcdef01234567";
    let hash = GitHash::from_hex(hex.as_bytes()).expect("forty hex digits decode");
    assert_eq!(hash.to_hex_string(), hex);
    // Uppercase digits decode to the same hash and render lowercase.
    let upper = "0123456789ABCDEF0123456789ABCDEF01234567";
    let hash2 = GitHash::from_hex(upper.as_bytes()).expect("uppercase decodes too");
    assert_eq!(hash, hash2);
    assert_eq!(hash2.to_hex_string(), hex);
}

#[test]
fn git_hash_errors() {
    assert!(matches!(
        GitHash::from_hex(b"abc"),
        Err(SystemError::FromHex(HexDecodeError::OddLength))
    ));
    assert!(matches!(
        GitHash::from_hex(b"abcd"),
        Err(SystemError::FromHex(HexDecodeError::InvalidStringLength))
    ));
    assert!(matches!(
        GitHash::from_hex(b"z123456789abcdef0123456789abcdef01234567"),
        Err(SystemError::FromHex(HexDecodeError::InvalidHexCharacter { c: 'z', index: 0 }))
    ));
}

#[test]
fn allowed_paths_accepts_and_rejects() {
    let rule = AllowedPaths::new(DEFAULT_ALLOWED_PATHS_REGEX).expect("default regex compiles");
    let ctx = empty_ctx();
    let good = "crates/foo/src/lib.rs".to_string();
    let fctx = FilePathContext::new(&ctx, &good);
    assert_eq!(rule.run(&fctx).len(), 0);
    let bad = "has a space".to_string();
    let fctx = FilePathContext::new(&ctx, &bad);
    let emits = rule.run(&fctx);
    assert_eq!(emits.len(), 1);
    assert_eq!(emits[0].kind, LintKind::File("has a space".to_string()));
    assert_eq!(
        emits[0].message,
        format!("path doesn't match allowed regex: {}", DEFAULT_ALLOWED_PATHS_REGEX)
    );
}

#[test]
fn invalid_regex_is_rejected() {
    match AllowedPaths::new("(") {
        Err(SystemError::InvalidRegex { pattern }) => assert_eq!(pattern, "("),
        other => panic!("expected an invalid-regex error, got {:?}", other),
    }
}

#[test]
fn invalid_glob_is_rejected() {
    match nexlint::whitespace::build_exceptions(&vec!["a{".to_string()]) {
        Err(SystemError::InvalidGlob { pattern }) => assert_eq!(pattern, "a{"),
        other => panic!("expected an invalid-glob error, got {:?}", other.map(|_| ())),
    }
}

#[test]
fn file_types_by_extension() {
    let ctx = empty_ctx();
    let cases: Vec<(&str, Option<FileType>)> = vec![
        ("src/lib.rs", Some(FileType::Rust)),
        ("run.sh", Some(FileType::Shell)),
        ("api.proto", Some(FileType::Proto)),
        ("a.js", Some(FileType::JavaScript)),
        ("a.tsx", Some(FileType::TypeScript)),
        ("m.move", Some(FileType::Move)),
        ("t.py", Some(FileType::Python)),
        ("archive.tar.gz", None),
        (".gitignore", None),
        ("Makefile", None),
    ];
    for (path, expected) in cases {
        let p = path.to_string();
        let fctx = FilePathContext::new(&ctx, &p);
        assert_eq!(FileType::new(&fctx), expected, "for {}", path);
    }
}

#[test]
fn snapshot_rejects_directory_outside_root() {
    let graph = PackageGraph { packages: vec![], edges: vec![] };
    match NexLintContext::new(
        "/repo".to_string(),
        "/elsewhere/dir".to_string(),
        vec![],
        graph,
        None,
    ) {
        Err(SystemError::CwdNotInProjectRoot { current_dir, project_root }) => {
            assert_eq!(current_dir, "/elsewhere/dir");
            assert_eq!(project_root, "/repo");
        },
        other => panic!("expected a cwd error, got {:?}", other.map(|_| ())),
    }
}

#[test]
fn snapshot_rejects_out_of_range_edge() {
    let graph = PackageGraph {
        packages: vec![],
        edges: vec![nexlint::graph::DependencyEdge {
            from: 0,
            to: 3,
            req: "*".to_string(),
            kind: nexlint::graph::DepKind::Normal,
        }],
    };
    match NexLintContext::new("/repo".to_string(), "/repo".to_string(), vec![], graph, None) {
        Err(SystemError::InvalidGraph) => {},
        other => panic!("expected an invalid-graph error, got {:?}", other.map(|_| ())),
    }
}

#[test]
fn snapshot_relative_directory() {
    let graph = PackageGraph { packages: vec![], edges: vec![] };
    let c = NexLintContext::new(
        "/repo".to_string(),
        "/repo/crates/foo".to_string(),
        vec![],
        graph,
        None,
    )
    .expect("inside the root");
    assert_eq!(c.current_rel_dir(), "crates/foo");
    assert!(!c.current_dir_is_root());
    let graph = PackageGraph { packages: vec![], edges: vec![] };
    let c2 = NexLintContext::new("/repo".to_string(), "/repo".to_string(), vec![], graph, None)
        .expect("at the root");
    assert_eq!(c2.current_rel_dir(), "");
    assert!(c2.current_dir_is_root());
}

#[test]
fn partition_workspace_names_splits_known_and_unknown() {
    let graph = PackageGraph {
        packages: vec![
            nexlint::graph::Package {
                name: "known".to_string(),
                version: Version::new(0, 1, 0),
                workspace_path: Some("crates/known".to_string()),
                publish: nexlint::graph::PublishPolicy::Unrestricted,
                authors: vec![],
                license: None,
                build_targets: vec![],
                has_build_script: false,
                source: nexlint::graph::PackageSource::Workspace,
            },
        ],
        edges: vec![],
    };
    let c = NexLintContext::new("/repo".to_string(), "/repo".to_string(), vec![], graph, None)
        .expect("snapshot should build");
    let names = vec!["known".to_string(), "stranger".to_string()];
    let (known, unknown) = c.partition_workspace_names(&names);
    assert_eq!(known, vec!["known".to_string()]);
    assert_eq!(unknown, vec!["stranger".to_string()]);
}

#[test]
fn error_descriptions() {
    let e = SystemError::InvalidRegex { pattern: "(".to_string() };
    assert_eq!(e.describe(), "error while parsing allowed-paths regex (");
    let e = SystemError::CwdNotInProjectRoot {
        current_dir: "/a".to_string(),
        project_root: "/b".to_string(),
    };
    assert_eq!(e.describe(), "current directory /a is not within the project root /b");
}

#[test]
fn project_full_path_joins_root() {
    let ctx = empty_ctx();
    let pctx = nexlint::context::ProjectContext::new(&ctx);
    assert_eq!(pctx.full_path("crates/foo"), "/repo/crates/foo");
}

#[test]
fn version_rendering_with_identifiers() {
    assert_eq!(
        Version::full(1, 0, 0, "alpha.1".to_string(), String::new()).render(),
        "1.0.0-alpha.1"
    );
    assert_eq!(
        Version::full(2, 1, 3, String::new(), "001".to_string()).render(),
        "2.1.3+001"
    );
    assert_eq!(
        Version::full(1, 0, 0, "rc.1".to_string(), "sha.5114f85".to_string()).render(),
        "1.0.0-rc.1+sha.5114f85"
    );
}

#[test]
fn invalid_glob_names_first_offending_pattern() {
    let patterns = vec!["*.md".to_string(), "a{".to_string(), "b{".to_string()];
    match nexlint::whitespace::build_exceptions(&patterns) {
        Err(SystemError::InvalidGlob { pattern }) => assert_eq!(pattern, "a{"),
        other => panic!("expected an invalid-glob error, got {:?}", other.map(|_| ())),
    }
}
