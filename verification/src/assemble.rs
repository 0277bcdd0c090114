//! Binds the outputs of classification, license resolution and revision
//! pinning, together with the package identity, into the full placeholder
//! set a template can draw from.

use vstd::prelude::*;
use vstd::string::StringExecFns;

use crate::classify::ClassifiedSources;
use crate::license::LicenseFileEntry;
use crate::license::LicenseResolution;
use crate::pinning::ProjectRepoFact;
use crate::render::RecipeFields;
use crate::text::join;
use crate::text::join_spec;

verus! {

/// One fetch-URI directive as it appears in the recipe text.
pub open spec fn uri_line(u: Seq<char>) -> Seq<char> {
    "    "@ + u + " \\\n"@
}

/// The `src_uri` block: one indented continuation line per URI.
pub open spec fn src_uri_text(uris: Seq<Seq<char>>) -> Seq<char>
    decreases uris.len(),
{
    if uris.len() == 0 {
        Seq::<char>::empty()
    } else {
        uri_line(uris[0]) + src_uri_text(uris.skip(1))
    }
}

/// One license-file directive as it appears in the recipe text.
pub open spec fn lic_file_line(p: Seq<char>) -> Seq<char> {
    "    file://"@ + p + " \\\n"@
}

/// The `lic_files` block: one indented continuation line per file.
pub open spec fn lic_files_text(paths: Seq<Seq<char>>) -> Seq<char>
    decreases paths.len(),
{
    if paths.len() == 0 {
        Seq::<char>::empty()
    } else {
        lic_file_line(paths[0]) + lic_files_text(paths.skip(1))
    }
}

fn build_src_uri(uris: &Vec<String>) -> (r: String)
    ensures
        r@ == src_uri_text(uris@.map_values(|u: String| u@)),
{
    let ghost uv = uris@.map_values(|u: String| u@);
    let mut acc = String::new();
    let mut i: usize = 0;
    proof {
        assert(uv.skip(0) =~= uv);
    }
    while i < uris.len()
        invariant
            i <= uris@.len(),
            uv == uris@.map_values(|u: String| u@),
            src_uri_text(uv) == acc@ + src_uri_text(uv.skip(i as int)),
        decreases uris@.len() - i,
    {
        proof {
            assert(uv.skip(i as int)[0] == uv[i as int]);
            assert(uv.skip(i as int).skip(1) =~= uv.skip(i + 1));
            assert(uv[i as int] == uris@[i as int]@);
        }
        acc.append("    ");
        acc.append(uris[i].as_str());
        acc.append(" \\\n");
        i = i + 1;
    }
    proof {
        assert(uv.skip(uris@.len() as int) =~= Seq::<Seq<char>>::empty());
        assert(acc@ + Seq::<char>::empty() =~= acc@);
    }
    acc
}

fn build_lic_files(entries: &Vec<LicenseFileEntry>) -> (r: String)
    ensures
        r@ == lic_files_text(entries@.map_values(|e: LicenseFileEntry| e.relative_path@)),
{
    let ghost pv = entries@.map_values(|e: LicenseFileEntry| e.relative_path@);
    let mut acc = String::new();
    let mut i: usize = 0;
    proof {
        assert(pv.skip(0) =~= pv);
    }
    while i < entries.len()
        invariant
            i <= entries@.len(),
            pv == entries@.map_values(|e: LicenseFileEntry| e.relative_path@),
            lic_files_text(pv) == acc@ + lic_files_text(pv.skip(i as int)),
        decreases entries@.len() - i,
    {
        proof {
            assert(pv.skip(i as int)[0] == pv[i as int]);
            assert(pv.skip(i as int).skip(1) =~= pv.skip(i + 1));
            assert(pv[i as int] == entries@[i as int].relative_path@);
        }
        acc.append("    file://");
        acc.append(entries[i].relative_path.as_str());
        acc.append(" \\\n");
        i = i + 1;
    }
    proof {
        assert(pv.skip(entries@.len() as int) =~= Seq::<Seq<char>>::empty());
        assert(acc@ + Seq::<char>::empty() =~= acc@);
    }
    acc
}

/// Binds everything a template can name. The URI and license blocks are
/// rendered as indented continuation lines, the auxiliary directives are
/// joined one per line, and the identity and checkout fields pass through
/// unchanged.
pub fn assemble_fields(
    name: &str,
    version: &str,
    summary: &str,
    homepage: &str,
    resolution: &LicenseResolution,
    sources: &ClassifiedSources,
    rel_dir: &str,
    repo: &ProjectRepoFact,
    git_srcpv: &str,
    tool_version: &str,
) -> (r: RecipeFields)
    ensures
        r.name@ == name@,
        r.version@ == version@,
        r.summary@ == summary@,
        r.homepage@ == homepage@,
        r.license@ == resolution.normalized@,
        r.lic_files@ == lic_files_text(
            resolution.entries@.map_values(|e: LicenseFileEntry| e.relative_path@),
        ),
        r.src_uri@ == src_uri_text(sources.src_uris@.map_values(|u: String| u@)),
        r.src_uri_extras@ == join_spec(sources.extras@.map_values(|u: String| u@), "\n"@),
        r.project_rel_dir@ == rel_dir@,
        r.project_src_uri@ == repo.uri@,
        r.project_src_rev@ == repo.rev@,
        r.git_srcpv@ == git_srcpv@,
        r.cargo_bitbake_ver@ == tool_version@,
{
    RecipeFields {
        name: String::from_str(name),
        version: String::from_str(version),
        summary: String::from_str(summary),
        homepage: String::from_str(homepage),
        license: resolution.normalized.clone(),
        lic_files: build_lic_files(&resolution.entries),
        src_uri: build_src_uri(&sources.src_uris),
        src_uri_extras: join(&sources.extras, "\n"),
        project_rel_dir: String::from_str(rel_dir),
        project_src_uri: repo.uri.clone(),
        project_src_rev: repo.rev.clone(),
        git_srcpv: String::from_str(git_srcpv),
        cargo_bitbake_ver: String::from_str(tool_version),
    }
}

/// The output file is named by the package identity: `<name>_<version>.<ext>`.
pub fn recipe_file_name(name: &str, version: &str, ext: &str) -> (r: String)
    ensures
        r@ == name@ + "_"@ + version@ + "."@ + ext@,
{
    let mut r = String::from_str(name);
    r.append("_");
    r.append(version);
    r.append(".");
    r.append(ext);
    r
}

} // verus!
