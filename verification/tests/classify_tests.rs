use cargo_bitbake::classify::classify;
use cargo_bitbake::classify::GitReferenceKind;
use cargo_bitbake::classify::ResolvedDependency;
use cargo_bitbake::classify::SourceKind;
use cargo_bitbake::errors::RecipeError;

fn dep(name: &str, version: &str, source: SourceKind) -> ResolvedDependency {
    ResolvedDependency { name: name.to_string(), version: version.to_string(), source }
}

#[test]
fn registry_dependency_uri() {
    let deps = vec![dep("foo", "1.2.3", SourceKind::Registry)];
    let c = classify("root", &deps).unwrap();
    assert_eq!(c.src_uris, vec!["crate://crates.io/foo/1.2.3".to_string()]);
    assert!(c.extras.is_empty());
}

#[test]
fn excludes_root_and_path_and_sorts() {
    let deps = vec![
        dep("zeta", "2.0.0", SourceKind::Registry),
        dep("root", "1.0.0", SourceKind::Registry),
        dep("local", "0.1.0", SourceKind::Path),
        dep("alpha", "1.0.0", SourceKind::Registry),
    ];
    let c = classify("root", &deps).unwrap();
    assert_eq!(
        c.src_uris,
        vec![
            "crate://crates.io/alpha/1.0.0".to_string(),
            "crate://crates.io/zeta/2.0.0".to_string(),
        ]
    );
}

#[test]
fn duplicate_uris_are_emitted_once() {
    let deps = vec![
        dep("foo", "1.2.3", SourceKind::Registry),
        dep("foo", "1.2.3", SourceKind::Registry),
    ];
    let c = classify("root", &deps).unwrap();
    assert_eq!(c.src_uris.len(), 1);
}

#[test]
fn git_branch_master_pins_autorev() {
    let deps = vec![dep(
        "gitdep",
        "0.5.0",
        SourceKind::Git {
            url: "https://example.com/gitdep.git".to_string(),
            reference: Some(GitReferenceKind::Branch("master".to_string())),
        },
    )];
    let c = classify("root", &deps).unwrap();
    assert!(c.extras.contains(&"SRCREV_gitdep = \"${AUTOREV}\"".to_string()));
    assert!(!c.extras.iter().any(|e| e.contains("\"master\"")));
}

#[test]
fn git_other_branch_pins_literally() {
    let deps = vec![dep(
        "gitdep",
        "0.5.0",
        SourceKind::Git {
            url: "https://example.com/gitdep.git".to_string(),
            reference: Some(GitReferenceKind::Branch("develop".to_string())),
        },
    )];
    let c = classify("root", &deps).unwrap();
    assert!(c.extras.contains(&"SRCREV_gitdep = \"develop\"".to_string()));
}

#[test]
fn git_default_branch_pins_autorev() {
    let deps = vec![dep(
        "gitdep",
        "0.5.0",
        SourceKind::Git {
            url: "https://example.com/gitdep.git".to_string(),
            reference: Some(GitReferenceKind::DefaultBranch),
        },
    )];
    let c = classify("root", &deps).unwrap();
    assert!(c.extras.contains(&"SRCREV_gitdep = \"${AUTOREV}\"".to_string()));
}

#[test]
fn git_tag_pins_exactly() {
    let deps = vec![dep(
        "gitdep",
        "0.5.0",
        SourceKind::Git {
            url: "https://example.com/gitdep.git".to_string(),
            reference: Some(GitReferenceKind::Tag("v1.0".to_string())),
        },
    )];
    let c = classify("root", &deps).unwrap();
    assert_eq!(
        c.extras,
        vec![
            "SRCREV_FORMAT .= \"_gitdep\"".to_string(),
            "SRCREV_gitdep = \"v1.0\"".to_string(),
            "EXTRA_OECARGO_PATHS += \"${WORKDIR}/gitdep\"".to_string(),
        ]
    );
}

#[test]
fn git_rev_pins_exactly() {
    let deps = vec![dep(
        "gitdep",
        "0.5.0",
        SourceKind::Git {
            url: "https://example.com/gitdep.git".to_string(),
            reference: Some(GitReferenceKind::Rev("0123abcd".to_string())),
        },
    )];
    let c = classify("root", &deps).unwrap();
    assert!(c.extras.contains(&"SRCREV_gitdep = \"0123abcd\"".to_string()));
}

#[test]
fn git_dependency_uri_is_normalized() {
    let deps = vec![dep(
        "gitdep",
        "0.5.0",
        SourceKind::Git {
            url: "https://example.com/gitdep.git".to_string(),
            reference: Some(GitReferenceKind::Tag("v1.0".to_string())),
        },
    )];
    let c = classify("root", &deps).unwrap();
    assert_eq!(
        c.src_uris,
        vec![
            "git://example.com/gitdep.git;protocol=https;name=gitdep;destsuffix=gitdep"
                .to_string(),
        ]
    );
}

#[test]
fn other_source_uri_is_verbatim() {
    let deps = vec![dep(
        "tarball",
        "0.1.0",
        SourceKind::Other { url: "https://example.com/tarball-0.1.0.tar.gz".to_string() },
    )];
    let c = classify("root", &deps).unwrap();
    assert_eq!(c.src_uris, vec!["https://example.com/tarball-0.1.0.tar.gz".to_string()]);
}

#[test]
fn git_without_reference_is_an_error() {
    let deps = vec![dep(
        "gitdep",
        "0.5.0",
        SourceKind::Git { url: "https://example.com/gitdep.git".to_string(), reference: None },
    )];
    let err = classify("root", &deps).unwrap_err();
    assert!(matches!(&err, RecipeError::MissingGitReference { name } if name == "gitdep"));
    assert!(err.message().contains("gitdep"));
}

#[test]
fn root_named_git_without_reference_is_ignored() {
    let deps = vec![dep(
        "root",
        "1.0.0",
        SourceKind::Git { url: "https://example.com/root.git".to_string(), reference: None },
    )];
    let c = classify("root", &deps).unwrap();
    assert!(c.src_uris.is_empty());
    assert!(c.extras.is_empty());
}

#[test]
fn empty_dependency_set() {
    let deps: Vec<ResolvedDependency> = vec![];
    let c = classify("root", &deps).unwrap();
    assert!(c.src_uris.is_empty());
    assert!(c.extras.is_empty());
}
