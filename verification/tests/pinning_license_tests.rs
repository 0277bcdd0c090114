use cargo_bitbake::errors::RecipeError;
use cargo_bitbake::license::resolve_license;
use cargo_bitbake::metadata::homepage_field;
use cargo_bitbake::metadata::relative_subdir;
use cargo_bitbake::metadata::summary_field;
use cargo_bitbake::pinning::version_suffix;
use cargo_bitbake::pinning::ProjectRepoFact;

const FULL_REV: &str = "0123456789abcdef0123456789abcdef01234567";

fn fact(uri: &str, rev: &str, tag: bool) -> ProjectRepoFact {
    ProjectRepoFact { uri: uri.to_string(), rev: rev.to_string(), tag }
}

#[test]
fn tagged_full_revision_needs_no_suffix() {
    let r = version_suffix(&fact("git://example.com/p", FULL_REV, true)).unwrap();
    assert_eq!(r, "");
}

#[test]
fn untagged_full_revision_embeds_first_ten() {
    let r = version_suffix(&fact("git://example.com/p", FULL_REV, false)).unwrap();
    assert_eq!(r, "PV_append = \".AUTOINC+0123456789\"");
}

#[test]
fn exactly_ten_characters_still_gets_a_suffix() {
    let r = version_suffix(&fact("", "0123456789", true)).unwrap();
    assert_eq!(r, "PV_append = \".AUTOINC+0123456789\"");
}

#[test]
fn short_revision_is_rejected() {
    let err = version_suffix(&fact("", "short", false)).unwrap_err();
    assert!(matches!(&err, RecipeError::ShortRevision { rev } if rev == "short"));
    assert!(err.message().contains("short"));
    assert!(err.message().contains("10"));
}

#[test]
fn default_repo_fact_is_empty_and_untagged() {
    let f = ProjectRepoFact::default();
    assert_eq!(f.uri, "");
    assert_eq!(f.rev, "");
    assert!(!f.tag);
}

#[test]
fn dual_license_expression() {
    let files: Vec<String> = vec![];
    let r = resolve_license(Some("MIT/Apache-2.0"), None, &files);
    assert_eq!(r.normalized, "MIT | Apache-2.0");
    assert!(!r.single);
    assert_eq!(r.entries.len(), 2);
    assert_eq!(r.entries[0].identifier, "MIT");
    assert_eq!(r.entries[1].identifier, "Apache-2.0");
}

#[test]
fn license_expression_is_trimmed() {
    let files: Vec<String> = vec![];
    let r = resolve_license(Some(" MIT / Apache-2.0 "), None, &files);
    assert_eq!(r.normalized, "MIT | Apache-2.0");
    assert_eq!(r.entries[0].identifier, "MIT");
}

#[test]
fn single_license_expression() {
    let files: Vec<String> = vec![];
    let r = resolve_license(Some("MIT"), None, &files);
    assert_eq!(r.normalized, "MIT");
    assert!(r.single);
    assert_eq!(r.entries.len(), 1);
}

#[test]
fn exact_file_match_wins() {
    let files = vec!["COPYING".to_string(), "MIT".to_string()];
    let r = resolve_license(Some("MIT"), None, &files);
    assert_eq!(r.entries[0].relative_path, "MIT");
    assert!(r.advisories.is_empty());
}

#[test]
fn case_insensitive_match_is_second() {
    let files = vec!["mit".to_string()];
    let r = resolve_license(Some("MIT"), None, &files);
    assert_eq!(r.entries[0].relative_path, "mit");
}

#[test]
fn generic_license_file_for_single_license() {
    let files = vec!["LICENSE".to_string()];
    let r = resolve_license(Some("MIT"), None, &files);
    assert_eq!(r.entries[0].relative_path, "LICENSE");
    assert!(r.advisories.is_empty());
}

#[test]
fn generic_license_file_skipped_for_multi_license() {
    let files = vec!["LICENSE".to_string()];
    let r = resolve_license(Some("MIT/Apache-2.0"), None, &files);
    assert_eq!(r.entries[0].relative_path, "MIT");
    assert_eq!(r.advisories.len(), 2);
    assert!(r.advisories[0].contains("MIT"));
    assert!(r.advisories[1].contains("Apache-2.0"));
}

#[test]
fn missing_file_yields_synthetic_path_and_warning() {
    let files: Vec<String> = vec![];
    let r = resolve_license(Some("MIT"), None, &files);
    assert_eq!(r.entries[0].relative_path, "MIT");
    assert_eq!(r.advisories.len(), 1);
    assert!(r.advisories[0].contains("could not find a license file"));
}

#[test]
fn license_file_fallback() {
    let files: Vec<String> = vec![];
    let r = resolve_license(None, Some("COPYRIGHT.txt"), &files);
    assert_eq!(r.normalized, "COPYRIGHT.txt");
    assert!(r.single);
    assert_eq!(r.entries.len(), 1);
    assert_eq!(r.entries[0].relative_path, "COPYRIGHT.txt");
    assert_eq!(r.advisories.len(), 1);
}

#[test]
fn closed_fallback_when_nothing_is_declared() {
    let files: Vec<String> = vec![];
    let r = resolve_license(None, None, &files);
    assert_eq!(r.normalized, "CLOSED");
    assert!(r.single);
    assert_eq!(r.entries.len(), 1);
    assert_eq!(r.entries[0].identifier, "CLOSED");
    assert_eq!(r.entries[0].relative_path, "LICENSE.CLOSED");
    assert_eq!(r.advisories.len(), 2);
}

#[test]
fn summary_prefers_trimmed_description() {
    let (s, advisories) = summary_field(Some("  A tool.  "), "pkg");
    assert_eq!(s, "A tool.");
    assert!(advisories.is_empty());
}

#[test]
fn summary_falls_back_to_name() {
    let (s, advisories) = summary_field(None, "pkg");
    assert_eq!(s, "pkg");
    assert_eq!(advisories.len(), 1);
}

#[test]
fn homepage_prefers_homepage() {
    let (h, advisories) = homepage_field(Some(" https://example.com "), Some("repo")).unwrap();
    assert_eq!(h, "https://example.com");
    assert!(advisories.is_empty());
}

#[test]
fn homepage_falls_back_to_repository() {
    let (h, advisories) = homepage_field(None, Some("https://example.com/repo")).unwrap();
    assert_eq!(h, "https://example.com/repo");
    assert_eq!(advisories.len(), 1);
}

#[test]
fn homepage_missing_entirely_is_an_error() {
    let err = homepage_field(None, None).unwrap_err();
    assert!(matches!(err, RecipeError::MissingHomepage));
    assert!(err.message().contains("homepage"));
}

#[test]
fn relative_subdir_of_itself_is_empty() {
    assert_eq!(relative_subdir("/ws", "/ws").unwrap(), "");
}

#[test]
fn relative_subdir_strips_the_root() {
    assert_eq!(relative_subdir("/ws", "/ws/member/pkg").unwrap(), "member/pkg");
}

#[test]
fn relative_subdir_outside_the_root_is_none() {
    assert!(relative_subdir("/ws", "/elsewhere/pkg").is_none());
    assert!(relative_subdir("/ws", "/wsx/pkg").is_none());
}
