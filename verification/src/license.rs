//! Resolves a declared license expression into a normalized license field
//! and a list of candidate on-disk license files, with fallbacks for
//! packages that declare a license file instead of an expression, or
//! nothing at all.

use vstd::prelude::*;
use vstd::string::StrSliceExecFns;
use vstd::string::StringExecFns;

use crate::text::join;
use crate::text::join_spec;
use crate::text::split;
use crate::text::split_spec;
use crate::text::str_eq;
use crate::text::trim;
use crate::text::trim_spec;

verus! {

/// The identifier assumed when a package declares no license at all.
pub open spec fn closed_license_spec() -> Seq<char> {
    "CLOSED"@
}

/// The identifier assumed when a package declares no license at all.
pub fn closed_license() -> (r: &'static str)
    ensures
        r@ == closed_license_spec(),
{
    "CLOSED"
}

/// One component of the license expression, mapped to the on-disk file
/// believed to hold its text; the path is relative to the fetch root.
pub struct LicenseFileEntry {
    pub identifier: String,
    pub relative_path: String,
}

/// The outcome of license resolution: the normalized license field, the
/// per-component file entries, whether the expression had exactly one
/// component, and the advisory messages the fallbacks produced.
pub struct LicenseResolution {
    pub normalized: String,
    pub single: bool,
    pub entries: Vec<LicenseFileEntry>,
    pub advisories: Vec<String>,
}

/// The components of a license expression: split on `/`, trimmed.
pub open spec fn license_identifiers(expr: Seq<char>) -> Seq<Seq<char>> {
    split_spec(expr, '/').map_values(|p: Seq<char>| trim_spec(p))
}

/// The first element satisfying `pred`, in file order.
pub open spec fn find_first(files: Seq<Seq<char>>, pred: spec_fn(Seq<char>) -> bool) -> Option<
    Seq<char>,
>
    decreases files.len(),
{
    if files.len() == 0 {
        None
    } else if pred(files[0]) {
        Some(files[0])
    } else {
        find_first(files.skip(1), pred)
    }
}

/// ASCII-case-insensitive equality of two characters.
pub open spec fn char_ci_eq(x: char, y: char) -> bool {
    x == y || (65 <= x as u32 <= 90 && y as u32 == x as u32 + 32) || (65 <= y as u32 <= 90
        && x as u32 == y as u32 + 32)
}

/// ASCII-case-insensitive equality of two strings.
pub open spec fn chars_ci_eq(a: Seq<char>, b: Seq<char>) -> bool {
    a.len() == b.len() && forall|i: int| 0 <= i < a.len() ==> char_ci_eq(a[i], #[trigger] b[i])
}

/// Where the text of `ident` is believed to live, and whether a file was
/// actually found. The search order is fixed: an exact name match first,
/// then an ASCII-case-insensitive match, then — only for a single-license
/// package, where it cannot be ambiguous — the generic `LICENSE` file;
/// with no hit the identifier itself stands in as a synthetic path.
pub open spec fn license_file_path(ident: Seq<char>, files: Seq<Seq<char>>, single: bool) -> (
    Seq<char>,
    bool,
) {
    match find_first(files, |f: Seq<char>| f == ident) {
        Some(f) => (f, true),
        None => match find_first(files, |f: Seq<char>| chars_ci_eq(f, ident)) {
            Some(f) => (f, true),
            None => if single {
                match find_first(files, |f: Seq<char>| f == "LICENSE"@) {
                    Some(f) => (f, true),
                    None => (ident, false),
                }
            } else {
                (ident, false)
            },
        },
    }
}

/// The advisory raised for a component whose file was not found.
pub open spec fn missing_file_warning(ident: Seq<char>) -> Seq<char> {
    "could not find a license file for "@ + ident
}

/// The advisories raised by file lookup, in component order.
pub open spec fn lookup_warnings(ids: Seq<Seq<char>>, files: Seq<Seq<char>>, single: bool) -> Seq<
    Seq<char>,
>
    decreases ids.len(),
{
    if ids.len() == 0 {
        Seq::<Seq<char>>::empty()
    } else {
        (if license_file_path(ids[0], files, single).1 {
            Seq::<Seq<char>>::empty()
        } else {
            seq![missing_file_warning(ids[0])]
        }) + lookup_warnings(ids.skip(1), files, single)
    }
}

pub open spec fn advisory_no_license() -> Seq<char> {
    "package.license is not set, trying package.license_file"@
}

pub open spec fn advisory_no_license_file() -> Seq<char> {
    "package.license_file is not set either, assuming a CLOSED license"@
}

/// The synthetic file entry path used for a CLOSED package.
pub open spec fn closed_placeholder_path() -> Seq<char> {
    "LICENSE.CLOSED"@
}

fn char_ci(x: char, y: char) -> (r: bool)
    ensures
        r == char_ci_eq(x, y),
{
    if x == y {
        true
    } else {
        let xu = x as u32;
        let yu = y as u32;
        (65 <= xu && xu <= 90 && yu == xu + 32) || (65 <= yu && yu <= 90 && xu == yu + 32)
    }
}

fn str_ci_eq(a: &str, b: &str) -> (r: bool)
    ensures
        r == chars_ci_eq(a@, b@),
{
    let alen = a.unicode_len();
    let blen = b.unicode_len();
    if alen != blen {
        return false;
    }
    let mut i: usize = 0;
    while i < alen
        invariant
            i <= alen,
            alen == a@.len(),
            alen == b@.len(),
            forall|k: int| 0 <= k < i ==> char_ci_eq(a@[k], #[trigger] b@[k]),
        decreases alen - i,
    {
        if !char_ci(a.get_char(i), b.get_char(i)) {
            return false;
        }
        i = i + 1;
    }
    true
}

/// Finds the first file whose name equals `target` exactly.
fn find_eq(files: &Vec<String>, target: &str) -> (r: Option<String>)
    ensures
        r matches Some(s) ==> find_first(
            files@.map_values(|f: String| f@),
            |f: Seq<char>| f == target@,
        ) == Some(s@),
        r is None ==> find_first(
            files@.map_values(|f: String| f@),
            |f: Seq<char>| f == target@,
        ) is None,
{
    let ghost fv = files@.map_values(|f: String| f@);
    let ghost pred = |f: Seq<char>| f == target@;
    let mut i: usize = 0;
    proof {
        assert(fv.skip(0) =~= fv);
    }
    while i < files.len()
        invariant
            i <= files@.len(),
            fv == files@.map_values(|f: String| f@),
            pred == (|f: Seq<char>| f == target@),
            find_first(fv, pred) == find_first(fv.skip(i as int), pred),
        decreases files@.len() - i,
    {
        proof {
            assert(fv.skip(i as int)[0] == fv[i as int]);
            assert(fv.skip(i as int).skip(1) =~= fv.skip(i + 1));
        }
        if str_eq(files[i].as_str(), target) {
            return Some(files[i].clone());
        }
        i = i + 1;
    }
    proof {
        assert(fv.skip(files@.len() as int) =~= Seq::<Seq<char>>::empty());
    }
    None
}

/// Finds the first file whose name matches `target` case-insensitively.
fn find_ci(files: &Vec<String>, target: &str) -> (r: Option<String>)
    ensures
        r matches Some(s) ==> find_first(
            files@.map_values(|f: String| f@),
            |f: Seq<char>| chars_ci_eq(f, target@),
        ) == Some(s@),
        r is None ==> find_first(
            files@.map_values(|f: String| f@),
            |f: Seq<char>| chars_ci_eq(f, target@),
        ) is None,
{
    let ghost fv = files@.map_values(|f: String| f@);
    let ghost pred = |f: Seq<char>| chars_ci_eq(f, target@);
    let mut i: usize = 0;
    proof {
        assert(fv.skip(0) =~= fv);
    }
    while i < files.len()
        invariant
            i <= files@.len(),
            fv == files@.map_values(|f: String| f@),
            pred == (|f: Seq<char>| chars_ci_eq(f, target@)),
            find_first(fv, pred) == find_first(fv.skip(i as int), pred),
        decreases files@.len() - i,
    {
        proof {
            assert(fv.skip(i as int)[0] == fv[i as int]);
            assert(fv.skip(i as int).skip(1) =~= fv.skip(i + 1));
        }
        if str_ci_eq(files[i].as_str(), target) {
            return Some(files[i].clone());
        }
        i = i + 1;
    }
    proof {
        assert(fv.skip(files@.len() as int) =~= Seq::<Seq<char>>::empty());
    }
    None
}

/// Looks up the file for one identifier, as `license_file_path` says.
fn lookup_path(ident: &str, files: &Vec<String>, single: bool) -> (r: (String, bool))
    ensures
        r.0@ == license_file_path(ident@, files@.map_values(|f: String| f@), single).0,
        r.1 == license_file_path(ident@, files@.map_values(|f: String| f@), single).1,
{
    match find_eq(files, ident) {
        Some(f) => (f, true),
        None => {
            match find_ci(files, ident) {
                Some(f) => (f, true),
                None => {
                    if single {
                        match find_eq(files, "LICENSE") {
                            Some(f) => (f, true),
                            None => (String::from_str(ident), false),
                        }
                    } else {
                        (String::from_str(ident), false)
                    }
                },
            }
        },
    }
}

/// Resolves the package's license metadata. With an expression the
/// components are split out, normalized and each mapped to a file; with
/// only a declared license file that file stands alone; with neither the
/// package is treated as CLOSED. The number of file entries always equals
/// the number of components (one in the fallback cases), and every
/// fallback or lookup miss is reported as an advisory, never a failure.
pub fn resolve_license(
    expr: Option<&str>,
    license_file: Option<&str>,
    files: &Vec<String>,
) -> (r: LicenseResolution)
    ensures
        expr matches Some(e) ==> {
            let ids = license_identifiers(e@);
            let fv = files@.map_values(|f: String| f@);
            &&& r.normalized@ == join_spec(ids, " | "@)
            &&& r.single == (ids.len() == 1)
            &&& r.entries@.len() == ids.len()
            &&& forall|k: int|
                0 <= k < ids.len() ==> (#[trigger] r.entries@[k]).identifier@ == ids[k]
                    && r.entries@[k].relative_path@ == license_file_path(
                    ids[k],
                    fv,
                    ids.len() == 1,
                ).0
            &&& r.advisories@.map_values(|a: String| a@) == lookup_warnings(
                ids,
                fv,
                ids.len() == 1,
            )
        },
        expr is None && license_file is Some ==> (license_file matches Some(lf) && r.normalized@
            == lf@ && r.single && r.entries@.len() == 1 && r.entries@[0].identifier@ == lf@
            && r.entries@[0].relative_path@ == lf@ && r.advisories@.map_values(|a: String| a@)
            == seq![advisory_no_license()]),
        expr is None && license_file is None ==> r.normalized@ == closed_license_spec() && r.single
            && r.entries@.len() == 1 && r.entries@[0].identifier@ == closed_license_spec()
            && r.entries@[0].relative_path@ == closed_placeholder_path()
            && r.advisories@.map_values(|a: String| a@) == seq![
            advisory_no_license(),
            advisory_no_license_file(),
        ],
{
    match expr {
        Some(e) => {
            let ghost fv = files@.map_values(|f: String| f@);
            let parts = split(e, '/');
            let mut ids: Vec<String> = Vec::new();
            let mut k: usize = 0;
            while k < parts.len()
                invariant
                    k == ids@.len() <= parts@.len(),
                    forall|j: int| 0 <= j < k ==> (#[trigger] ids@[j])@ == trim_spec(parts@[j]@),
                decreases parts@.len() - k,
            {
                ids.push(trim(parts[k].as_str()));
                k = k + 1;
            }
            let ghost idv = license_identifiers(e@);
            proof {
                assert(parts@.map_values(|p: String| p@) == split_spec(e@, '/'));
                assert forall|j: int| 0 <= j < idv.len() implies idv[j] == ids@[j]@ by {
                    assert(split_spec(e@, '/')[j] == parts@[j]@);
                }
                assert(ids@.map_values(|p: String| p@) =~= idv);
            }
            let single = ids.len() == 1;
            let normalized = join(&ids, " | ");
            let mut entries: Vec<LicenseFileEntry> = Vec::new();
            let mut advisories: Vec<String> = Vec::new();
            let mut n: usize = 0;
            proof {
                assert(idv.skip(0) =~= idv);
                assert(lookup_warnings(idv, fv, single) =~= advisories@.map_values(|a: String| a@)
                    + lookup_warnings(idv.skip(0), fv, single));
            }
            while n < ids.len()
                invariant
                    n <= ids@.len(),
                    entries@.len() == n,
                    single == (ids@.len() == 1),
                    fv == files@.map_values(|f: String| f@),
                    idv == ids@.map_values(|p: String| p@),
                    forall|j: int|
                        0 <= j < n ==> (#[trigger] entries@[j]).identifier@ == idv[j]
                            && entries@[j].relative_path@ == license_file_path(
                            idv[j],
                            fv,
                            single,
                        ).0,
                    lookup_warnings(idv, fv, single) == advisories@.map_values(|a: String| a@)
                        + lookup_warnings(idv.skip(n as int), fv, single),
                decreases ids@.len() - n,
            {
                let ghost before = advisories@.map_values(|a: String| a@);
                proof {
                    assert(idv.skip(n as int)[0] == idv[n as int]);
                    assert(idv.skip(n as int).skip(1) =~= idv.skip(n + 1));
                    assert(idv[n as int] == ids@[n as int]@);
                }
                let (path, found) = lookup_path(ids[n].as_str(), files, single);
                entries.push(LicenseFileEntry { identifier: ids[n].clone(), relative_path: path });
                if !found {
                    let mut w = String::from_str("could not find a license file for ");
                    w.append(ids[n].as_str());
                    advisories.push(w);
                    proof {
                        assert(advisories@.map_values(|a: String| a@) =~= before + seq![
                            missing_file_warning(idv[n as int]),
                        ]);
                    }
                }
                n = n + 1;
            }
            proof {
                assert(idv.skip(ids@.len() as int) =~= Seq::<Seq<char>>::empty());
                assert(lookup_warnings(idv, fv, single) =~= advisories@.map_values(
                    |a: String| a@,
                ));
            }
            LicenseResolution { normalized, single, entries, advisories }
        },
        None => {
            let mut advisories: Vec<String> = Vec::new();
            advisories.push(
                String::from_str("package.license is not set, trying package.license_file"),
            );
            match license_file {
                Some(lf) => {
                    let owned = String::from_str(lf);
                    let mut entries: Vec<LicenseFileEntry> = Vec::new();
                    entries.push(
                        LicenseFileEntry { identifier: owned.clone(), relative_path: owned.clone() },
                    );
                    proof {
                        assert(advisories@.map_values(|a: String| a@) =~= seq![
                            advisory_no_license(),
                        ]);
                    }
                    LicenseResolution { normalized: owned, single: true, entries, advisories }
                },
                None => {
                    advisories.push(
                        String::from_str(
                            "package.license_file is not set either, assuming a CLOSED license",
                        ),
                    );
                    let mut entries: Vec<LicenseFileEntry> = Vec::new();
                    entries.push(
                        LicenseFileEntry {
                            identifier: String::from_str(closed_license()),
                            relative_path: String::from_str("LICENSE.CLOSED"),
                        },
                    );
                    proof {
                        assert(advisories@.map_values(|a: String| a@) =~= seq![
                            advisory_no_license(),
                            advisory_no_license_file(),
                        ]);
                    }
                    LicenseResolution {
                        normalized: String::from_str(closed_license()),
                        single: true,
                        entries,
                        advisories,
                    }
                },
            }
        },
    }
}

} // verus!
