//! Fills the root package's descriptive fields, applying the documented
//! fallbacks and reporting each fallback as an advisory message rather
//! than failing.

use vstd::prelude::*;
use vstd::string::StrSliceExecFns;
use vstd::string::StringExecFns;

use crate::errors::RecipeError;
use crate::text::str_eq;
use crate::text::trim;
use crate::text::trim_spec;

verus! {

pub open spec fn advisory_no_description() -> Seq<char> {
    "package.description is not set, using the package name as the summary"@
}

pub open spec fn advisory_no_homepage() -> Seq<char> {
    "package.homepage is not set, trying package.repository"@
}

/// The recipe summary: the trimmed description, or the package name when
/// no description is declared (with an advisory saying so).
pub fn summary_field(description: Option<&str>, name: &str) -> (r: (String, Vec<String>))
    ensures
        description matches Some(d) ==> r.0@ == trim_spec(d@) && r.1@.len() == 0,
        description is None ==> r.0@ == name@ && r.1@.map_values(|a: String| a@) == seq![
            advisory_no_description(),
        ],
{
    match description {
        Some(d) => (trim(d), Vec::new()),
        None => {
            let mut advisories: Vec<String> = Vec::new();
            advisories.push(
                String::from_str(
                    "package.description is not set, using the package name as the summary",
                ),
            );
            proof {
                assert(advisories@.map_values(|a: String| a@) =~= seq![advisory_no_description()]);
            }
            (String::from_str(name), advisories)
        },
    }
}

/// The recipe homepage: the trimmed declared homepage, else the trimmed
/// repository (with an advisory), else a failure — a recipe needs some
/// upstream location.
pub fn homepage_field(homepage: Option<&str>, repository: Option<&str>) -> (r: Result<
    (String, Vec<String>),
    RecipeError,
>)
    ensures
        r is Ok <==> homepage is Some || repository is Some,
        homepage matches Some(h) ==> (r matches Ok(p) && p.0@ == trim_spec(h@) && p.1@.len() == 0),
        homepage is None && repository is Some ==> (repository matches Some(rp) && r matches Ok(p)
            && p.0@ == trim_spec(rp@) && p.1@.map_values(|a: String| a@) == seq![
            advisory_no_homepage(),
        ]),
        r matches Err(e) ==> e is MissingHomepage,
{
    match homepage {
        Some(h) => Ok((trim(h), Vec::new())),
        None => match repository {
            Some(rp) => {
                let mut advisories: Vec<String> = Vec::new();
                advisories.push(
                    String::from_str("package.homepage is not set, trying package.repository"),
                );
                proof {
                    assert(advisories@.map_values(|a: String| a@) =~= seq![
                        advisory_no_homepage(),
                    ]);
                }
                Ok((trim(rp), advisories))
            },
            None => Err(RecipeError::MissingHomepage),
        },
    }
}

/// The directory of the package relative to the workspace root: empty
/// when they coincide, the remainder after `root/` when the package lives
/// in a subdirectory, and nothing when `dir` is not under `root` at all.
pub fn relative_subdir(root: &str, dir: &str) -> (r: Option<String>)
    ensures
        r matches Some(p) ==> (dir@ == root@ && p@ == Seq::<char>::empty()) || dir@ == root@ + "/"@
            + p@,
        r is None ==> dir@ != root@ && forall|p: Seq<char>| dir@ != root@ + "/"@ + p,
{
    let rlen = root.unicode_len();
    let dlen = dir.unicode_len();
    if str_eq(dir, root) {
        return Some(String::new());
    }
    if dlen <= rlen {
        proof {
            reveal_strlit("/");
            assert forall|p: Seq<char>| dir@ != root@ + "/"@ + p by {
                assert((root@ + "/"@ + p).len() >= root@.len() + 1);
            }
        }
        return None;
    }
    let mut k: usize = 0;
    while k < rlen
        invariant
            k <= rlen,
            rlen == root@.len(),
            dlen == dir@.len(),
            dlen >= rlen + 1,
            forall|j: int| 0 <= j < k ==> dir@[j] == root@[j],
        decreases rlen - k,
    {
        if dir.get_char(k) != root.get_char(k) {
            proof {
                reveal_strlit("/");
                assert forall|p: Seq<char>| dir@ != root@ + "/"@ + p by {
                    assert((root@ + "/"@ + p)[k as int] == root@[k as int]);
                }
            }
            return None;
        }
        k = k + 1;
    }
    if dir.get_char(rlen) != '/' {
        proof {
            reveal_strlit("/");
            assert forall|p: Seq<char>| dir@ != root@ + "/"@ + p by {
                assert((root@ + "/"@ + p)[rlen as int] == '/');
            }
        }
        return None;
    }
    let rest = dir.substring_char(rlen + 1, dlen);
    proof {
        reveal_strlit("/");
        assert(dir@ =~= root@ + "/"@ + dir@.subrange(rlen + 1, dlen as int));
    }
    Some(String::from_str(rest))
}

} // verus!
