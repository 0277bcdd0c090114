use cargo_bitbake::assemble::assemble_fields;
use cargo_bitbake::assemble::recipe_file_name;
use cargo_bitbake::classify::classify;
use cargo_bitbake::classify::ResolvedDependency;
use cargo_bitbake::classify::SourceKind;
use cargo_bitbake::errors::RecipeError;
use cargo_bitbake::giturl::git_to_yocto_git_url;
use cargo_bitbake::giturl::GitPrefix;
use cargo_bitbake::license::resolve_license;
use cargo_bitbake::pinning::version_suffix;
use cargo_bitbake::pinning::ProjectRepoFact;
use cargo_bitbake::render::render_recipe;
use cargo_bitbake::render::RecipeFields;
use cargo_bitbake::text::join;
use cargo_bitbake::text::split;
use cargo_bitbake::text::trim;

fn sample_fields() -> RecipeFields {
    RecipeFields {
        name: "pkg".to_string(),
        version: "1.2.3".to_string(),
        summary: "a summary".to_string(),
        homepage: "https://example.com".to_string(),
        license: "MIT".to_string(),
        lic_files: "    file://LICENSE \\\n".to_string(),
        src_uri: "    crate://crates.io/foo/1.0.0 \\\n".to_string(),
        src_uri_extras: "SRCREV_x = \"v1\"".to_string(),
        project_rel_dir: "member".to_string(),
        project_src_uri: "git://example.com/pkg.git;protocol=https".to_string(),
        project_src_rev: "0123456789abcdef".to_string(),
        git_srcpv: "PV_append = \".AUTOINC+0123456789\"".to_string(),
        cargo_bitbake_ver: "0.1.0".to_string(),
    }
}

const ALL_NAMES: [&str; 13] = [
    "name",
    "version",
    "summary",
    "homepage",
    "license",
    "lic_files",
    "src_uri",
    "src_uri_extras",
    "project_rel_dir",
    "project_src_uri",
    "project_src_rev",
    "git_srcpv",
    "cargo_bitbake_ver",
];

fn field_of<'a>(f: &'a RecipeFields, name: &str) -> &'a str {
    match name {
        "name" => &f.name,
        "version" => &f.version,
        "summary" => &f.summary,
        "homepage" => &f.homepage,
        "license" => &f.license,
        "lic_files" => &f.lic_files,
        "src_uri" => &f.src_uri,
        "src_uri_extras" => &f.src_uri_extras,
        "project_rel_dir" => &f.project_rel_dir,
        "project_src_uri" => &f.project_src_uri,
        "project_src_rev" => &f.project_src_rev,
        "git_srcpv" => &f.git_srcpv,
        "cargo_bitbake_ver" => &f.cargo_bitbake_ver,
        _ => panic!("not a field"),
    }
}

#[test]
fn substitutes_a_placeholder() {
    let f = sample_fields();
    let out = render_recipe("NAME = \"{name}\"\n", &f).unwrap();
    assert_eq!(out, "NAME = \"pkg\"\n");
}

#[test]
fn literal_text_passes_through_unchanged() {
    let f = sample_fields();
    let template = "no placeholders here, only text\n";
    assert_eq!(render_recipe(template, &f).unwrap(), template);
}

#[test]
fn full_round_trip_preserves_every_field() {
    let f = sample_fields();
    let mut template = String::new();
    for name in ALL_NAMES {
        template.push_str(name);
        template.push_str("\u{1}{");
        template.push_str(name);
        template.push_str("}\u{2}");
    }
    let rendered = render_recipe(&template, &f).unwrap();
    // Re-parse the rendered text: each field stands between its marker pair.
    let mut rest = rendered.as_str();
    for name in ALL_NAMES {
        let start = rest.find('\u{1}').unwrap();
        assert_eq!(&rest[..start], name);
        let end = rest.find('\u{2}').unwrap();
        assert_eq!(&rest[start + 1..end], field_of(&f, name), "field {} lost", name);
        rest = &rest[end + 1..];
    }
    assert!(rest.is_empty());
}

#[test]
fn unbound_placeholder_fails_without_output() {
    let f = sample_fields();
    let err = render_recipe("before {no_such_field} after", &f).unwrap_err();
    assert!(matches!(&err, RecipeError::UnboundPlaceholder { name } if name == "no_such_field"));
    assert!(err.message().contains("no_such_field"));
}

#[test]
fn unclosed_placeholder_fails() {
    let f = sample_fields();
    let err = render_recipe("before {name", &f).unwrap_err();
    assert!(matches!(err, RecipeError::UnclosedPlaceholder));
    assert!(err.message().contains("never closed"));
}

#[test]
fn values_are_not_rescanned_for_placeholders() {
    let mut f = sample_fields();
    f.summary = "{name}".to_string();
    let out = render_recipe("{summary}", &f).unwrap();
    assert_eq!(out, "{name}");
}

#[test]
fn https_url_is_rewritten_for_the_git_fetcher() {
    let url = git_to_yocto_git_url("https://github.com/o/r.git", Some("r"), GitPrefix::default());
    assert_eq!(url, "git://github.com/o/r.git;protocol=https;name=r;destsuffix=r");
}

#[test]
fn ssh_url_keeps_its_transport() {
    let url = git_to_yocto_git_url("ssh://git@host/r.git", None, GitPrefix::default());
    assert_eq!(url, "git://git@host/r.git;protocol=ssh");
}

#[test]
fn git_url_is_only_reprefixed() {
    let url = git_to_yocto_git_url("git://host/r.git", None, GitPrefix::default());
    assert_eq!(url, "git://host/r.git");
}

#[test]
fn gitsm_prefix_is_honoured() {
    let url = git_to_yocto_git_url("https://host/r.git", None, GitPrefix::Gitsm);
    assert_eq!(url, "gitsm://host/r.git;protocol=https");
}

#[test]
fn schemeless_url_gains_the_prefix() {
    let url = git_to_yocto_git_url("host/r.git", None, GitPrefix::default());
    assert_eq!(url, "git://host/r.git");
}

#[test]
fn unknown_scheme_passes_through() {
    let url = git_to_yocto_git_url("file:///local/r", None, GitPrefix::default());
    assert_eq!(url, "file:///local/r");
}

#[test]
fn pinning_query_parameters_survive() {
    let url = git_to_yocto_git_url(
        "https://host/r.git?rev=abc123",
        Some("r"),
        GitPrefix::default(),
    );
    assert_eq!(url, "git://host/r.git?rev=abc123;protocol=https;name=r;destsuffix=r");
}

#[test]
fn assembled_fields_render_the_blocks() {
    let deps = vec![ResolvedDependency {
        name: "foo".to_string(),
        version: "1.0.0".to_string(),
        source: SourceKind::Registry,
    }];
    let sources = classify("pkg", &deps).unwrap();
    let files = vec!["LICENSE".to_string()];
    let resolution = resolve_license(Some("MIT"), None, &files);
    let repo = ProjectRepoFact {
        uri: "git://example.com/pkg.git;protocol=https".to_string(),
        rev: "0123456789abcdef0123456789abcdef01234567".to_string(),
        tag: false,
    };
    let srcpv = version_suffix(&repo).unwrap();
    let fields = assemble_fields(
        "pkg",
        "1.2.3",
        "a summary",
        "https://example.com",
        &resolution,
        &sources,
        "",
        &repo,
        &srcpv,
        "0.1.0",
    );
    assert_eq!(fields.src_uri, "    crate://crates.io/foo/1.0.0 \\\n");
    assert_eq!(fields.lic_files, "    file://LICENSE \\\n");
    assert_eq!(fields.license, "MIT");
    assert_eq!(fields.git_srcpv, "PV_append = \".AUTOINC+0123456789\"");
    assert_eq!(fields.src_uri_extras, "");
    let out = render_recipe("SRC_URI = \"\\\n{src_uri}\"\n", &fields).unwrap();
    assert_eq!(out, "SRC_URI = \"\\\n    crate://crates.io/foo/1.0.0 \\\n\"\n");
}

#[test]
fn recipe_file_name_joins_identity_and_extension() {
    assert_eq!(recipe_file_name("pkg", "1.2.3", "bb"), "pkg_1.2.3.bb");
}

#[test]
fn split_keeps_empty_parts() {
    let parts = split("a//b", '/');
    assert_eq!(parts, vec!["a".to_string(), "".to_string(), "b".to_string()]);
}

#[test]
fn trim_removes_surrounding_whitespace_only() {
    assert_eq!(trim("  a b\t\n"), "a b");
    assert_eq!(trim(""), "");
    assert_eq!(trim(" \t "), "");
}

#[test]
fn join_uses_the_separator_between_parts() {
    let parts = vec!["a".to_string(), "b".to_string(), "c".to_string()];
    assert_eq!(join(&parts, " | "), "a | b | c");
    let one = vec!["a".to_string()];
    assert_eq!(join(&one, " | "), "a");
    let none: Vec<String> = vec![];
    assert_eq!(join(&none, " | "), "");
}
