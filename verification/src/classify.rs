//! Classifies every resolved dependency by its origin and turns it into
//! fetch-URI directives plus the auxiliary directives (revision pins,
//! extra fetch paths) that git sources need.

use vstd::prelude::*;
use vstd::string::StrSliceExecFns;
use vstd::string::StringExecFns;

use crate::errors::RecipeError;
use crate::giturl::GitPrefix;
use crate::giturl::yocto_git_url_spec;
use crate::giturl::git_to_yocto_git_url;
use crate::text::sorted_unique;
use crate::text::insert_sorted_unique;
use crate::text::str_eq;

verus! {

/// How a git dependency names the commit to fetch.
pub enum GitReferenceKind {
    Tag(String),
    Rev(String),
    Branch(String),
    DefaultBranch,
}

/// Where a resolved dependency comes from. A git source should always
/// carry its reference; classification checks that defensively rather
/// than assuming it.
pub enum SourceKind {
    Registry,
    Path,
    Git { url: String, reference: Option<GitReferenceKind> },
    Other { url: String },
}

/// One package of the resolved graph, the root package excluded.
pub struct ResolvedDependency {
    pub name: String,
    pub version: String,
    pub source: SourceKind,
}

/// The placeholder revision that asks the builder to resolve the latest
/// revision itself.
pub open spec fn autorev() -> Seq<char> {
    "${AUTOREV}"@
}

/// The revision a git reference pins: tags, explicit revisions and named
/// branches are taken literally, except that the branch named `master`
/// and the default-branch marker both mean "resolve automatically".
pub open spec fn pinned_revision(r: GitReferenceKind) -> Seq<char> {
    match r {
        GitReferenceKind::Tag(s) => s@,
        GitReferenceKind::Rev(s) => s@,
        GitReferenceKind::Branch(s) => if s@ == "master"@ {
            autorev()
        } else {
            s@
        },
        GitReferenceKind::DefaultBranch => autorev(),
    }
}

/// The fetch directive for a registry dependency.
pub open spec fn registry_uri_spec(name: Seq<char>, version: Seq<char>) -> Seq<char> {
    "crate://crates.io/"@ + name + "/"@ + version
}

/// The fetch URI a dependency contributes: none for the root package
/// itself and for path sources, the registry form for registry sources,
/// the normalized git URL for git sources, and the URL verbatim for any
/// other remote source.
pub open spec fn dep_uri(root: Seq<char>, d: ResolvedDependency) -> Option<Seq<char>> {
    if d.name@ == root {
        None
    } else {
        match d.source {
            SourceKind::Registry => Some(registry_uri_spec(d.name@, d.version@)),
            SourceKind::Path => None,
            SourceKind::Git { url, reference: _ } => Some(
                yocto_git_url_spec(url@, Some(d.name@), GitPrefix::Git),
            ),
            SourceKind::Other { url } => Some(url@),
        }
    }
}

/// The URIs of a dependency sequence, in input order, exclusions dropped.
pub open spec fn uri_seq(root: Seq<char>, deps: Seq<ResolvedDependency>) -> Seq<Seq<char>>
    decreases deps.len(),
{
    if deps.len() == 0 {
        Seq::<Seq<char>>::empty()
    } else {
        (match dep_uri(root, deps[0]) {
            None => Seq::<Seq<char>>::empty(),
            Some(u) => seq![u],
        }) + uri_seq(root, deps.skip(1))
    }
}

pub open spec fn srcrev_format_line(name: Seq<char>) -> Seq<char> {
    "SRCREV_FORMAT .= \"_"@ + name + "\""@
}

pub open spec fn srcrev_line(name: Seq<char>, rev: Seq<char>) -> Seq<char> {
    "SRCREV_"@ + name + " = \""@ + rev + "\""@
}

pub open spec fn oecargo_path_line(name: Seq<char>) -> Seq<char> {
    "EXTRA_OECARGO_PATHS += \"${WORKDIR}/"@ + name + "\""@
}

/// The auxiliary directives a dependency contributes: a format tag, a
/// revision pin and a fetch path for each git source that is not the
/// root package.
pub open spec fn dep_extras(root: Seq<char>, d: ResolvedDependency) -> Seq<Seq<char>> {
    if d.name@ == root {
        Seq::<Seq<char>>::empty()
    } else {
        match d.source {
            SourceKind::Git { url: _, reference } => match reference {
                Some(r) => seq![
                    srcrev_format_line(d.name@),
                    srcrev_line(d.name@, pinned_revision(r)),
                    oecargo_path_line(d.name@),
                ],
                None => Seq::<Seq<char>>::empty(),
            },
            _ => Seq::<Seq<char>>::empty(),
        }
    }
}

/// The auxiliary directives of a dependency sequence, in input order.
pub open spec fn extras_seq(root: Seq<char>, deps: Seq<ResolvedDependency>) -> Seq<Seq<char>>
    decreases deps.len(),
{
    if deps.len() == 0 {
        Seq::<Seq<char>>::empty()
    } else {
        dep_extras(root, deps[0]) + extras_seq(root, deps.skip(1))
    }
}

/// A dependency that matters for classification must not be a git source
/// without its reference.
pub open spec fn dep_ok(root: Seq<char>, d: ResolvedDependency) -> bool {
    match d.source {
        SourceKind::Git { url: _, reference } => d.name@ == root || reference is Some,
        _ => true,
    }
}

pub open spec fn all_ok(root: Seq<char>, deps: Seq<ResolvedDependency>) -> bool {
    forall|i: int| 0 <= i < deps.len() ==> dep_ok(root, #[trigger] deps[i])
}

/// What classification emits: the fetch URIs, strictly sorted and
/// deduplicated for reproducible output, and the auxiliary directives in
/// input order.
#[derive(Debug)]
pub struct ClassifiedSources {
    pub src_uris: Vec<String>,
    pub extras: Vec<String>,
}

/// The set of a concatenation is the union of the sets.
proof fn lemma_concat_to_set<A>(a: Seq<A>, b: Seq<A>)
    ensures
        (a + b).to_set() == a.to_set().union(b.to_set()),
{
    assert forall|x: A| (a + b).to_set().contains(x) implies a.to_set().contains(x)
        || b.to_set().contains(x) by {
        let k = choose|k: int| 0 <= k < (a + b).len() && (a + b)[k] == x;
        if k < a.len() {
            assert(a[k] == x);
        } else {
            assert(b[k - a.len()] == x);
        }
    }
    assert forall|x: A| a.to_set().contains(x) || b.to_set().contains(x) implies (a
        + b).to_set().contains(x) by {
        if a.to_set().contains(x) {
            let k = choose|k: int| 0 <= k < a.len() && a[k] == x;
            assert((a + b)[k] == x);
        } else {
            let k = choose|k: int| 0 <= k < b.len() && b[k] == x;
            assert((a + b)[k + a.len()] == x);
        }
    }
    assert((a + b).to_set() =~= a.to_set().union(b.to_set()));
}

/// Every URI directive comes from a dependency that is neither the root
/// package nor path-sourced: those two kinds are excluded from the fetch
/// list by construction.
pub proof fn lemma_uri_directives_exclude_root_and_path(
    root: Seq<char>,
    deps: Seq<ResolvedDependency>,
    u: Seq<char>,
)
    requires
        uri_seq(root, deps).contains(u),
    ensures
        exists|i: int|
            0 <= i < deps.len() && (#[trigger] deps[i]).name@ != root && !(deps[i].source is Path)
                && dep_uri(root, deps[i]) == Some(u),
    decreases deps.len(),
{
    if deps.len() == 0 {
        assert(false);
    } else {
        let head = match dep_uri(root, deps[0]) {
            None => Seq::<Seq<char>>::empty(),
            Some(w) => seq![w],
        };
        if dep_uri(root, deps[0]) == Some(u) {
            assert(deps[0].name@ != root && !(deps[0].source is Path));
        } else {
            assert(uri_seq(root, deps.skip(1)).contains(u)) by {
                let k = choose|k: int|
                    0 <= k < uri_seq(root, deps).len() && uri_seq(root, deps)[k] == u;
                assert(uri_seq(root, deps.skip(1))[k - head.len()] == u);
            }
            lemma_uri_directives_exclude_root_and_path(root, deps.skip(1), u);
            let j = choose|j: int|
                0 <= j < deps.skip(1).len() && (#[trigger] deps.skip(1)[j]).name@ != root && !(
                deps.skip(1)[j].source is Path) && dep_uri(root, deps.skip(1)[j]) == Some(u);
            assert(deps.skip(1)[j] == deps[j + 1]);
            assert(0 <= j + 1 < deps.len() && deps[j + 1].name@ != root && !(deps[j
                + 1].source is Path) && dep_uri(root, deps[j + 1]) == Some(u));
        }
    }
}

/// Conversely, every dependency with a fetch URI does reach the list:
/// nothing eligible is dropped.
pub proof fn lemma_uri_seq_complete(
    root: Seq<char>,
    deps: Seq<ResolvedDependency>,
    i: int,
    u: Seq<char>,
)
    requires
        0 <= i < deps.len(),
        dep_uri(root, deps[i]) == Some(u),
    ensures
        uri_seq(root, deps).contains(u),
    decreases deps.len(),
{
    let head = match dep_uri(root, deps[0]) {
        None => Seq::<Seq<char>>::empty(),
        Some(w) => seq![w],
    };
    if i == 0 {
        assert(uri_seq(root, deps)[0] == u);
    } else {
        assert(deps.skip(1)[i - 1] == deps[i]);
        lemma_uri_seq_complete(root, deps.skip(1), i - 1, u);
        let k = choose|k: int|
            0 <= k < uri_seq(root, deps.skip(1)).len() && uri_seq(root, deps.skip(1))[k] == u;
        assert(uri_seq(root, deps)[k + head.len()] == u);
    }
}

/// Classifies the resolved dependencies against the root package named
/// `root_name`. On success the fetch URIs come back strictly sorted and
/// deduplicated, and the auxiliary directives in input order; a git
/// source with a missing reference fails classification instead of
/// crashing it.
pub fn classify(root_name: &str, deps: &Vec<ResolvedDependency>) -> (r: Result<
    ClassifiedSources,
    RecipeError,
>)
    ensures
        r is Ok <==> all_ok(root_name@, deps@),
        r matches Ok(c) ==> sorted_unique(c.src_uris@.map_values(|p: String| p@))
            && c.src_uris@.map_values(|p: String| p@).to_set() == uri_seq(
            root_name@,
            deps@,
        ).to_set() && c.extras@.map_values(|p: String| p@) == extras_seq(root_name@, deps@),
        r matches Err(e) ==> e matches RecipeError::MissingGitReference { name } && exists|i: int|
            0 <= i < deps@.len() && !dep_ok(root_name@, #[trigger] deps@[i]) && deps@[i].name@
                == name@,
{
    let ghost root = root_name@;
    let mut uris: Vec<String> = Vec::new();
    let mut extras: Vec<String> = Vec::new();
    let mut i: usize = 0;
    proof {
        assert(deps@.skip(0) =~= deps@);
        assert(uri_seq(root, deps@).to_set() =~= uris@.map_values(|p: String| p@).to_set().union(
            uri_seq(root, deps@.skip(0)).to_set(),
        ));
        assert(extras_seq(root, deps@) =~= extras@.map_values(|p: String| p@) + extras_seq(
            root,
            deps@.skip(0),
        ));
    }
    while i < deps.len()
        invariant
            i <= deps@.len(),
            sorted_unique(uris@.map_values(|p: String| p@)),
            uri_seq(root, deps@).to_set() == uris@.map_values(|p: String| p@).to_set().union(
                uri_seq(root, deps@.skip(i as int)).to_set(),
            ),
            extras_seq(root, deps@) == extras@.map_values(|p: String| p@) + extras_seq(
                root,
                deps@.skip(i as int),
            ),
            root == root_name@,
            forall|k: int| 0 <= k < i ==> dep_ok(root, #[trigger] deps@[k]),
        decreases deps@.len() - i,
    {
        let dep = &deps[i];
        let ghost suffix = deps@.skip(i as int);
        proof {
            assert(suffix[0] == deps@[i as int]);
            assert(suffix.skip(1) =~= deps@.skip(i + 1));
        }
        let is_root = str_eq(dep.name.as_str(), root_name);
        let mut new_uri: Option<String> = None;
        if !is_root {
            match &dep.source {
                SourceKind::Registry => {
                    let mut u = String::from_str("crate://crates.io/");
                    u.append(dep.name.as_str());
                    u.append("/");
                    u.append(dep.version.as_str());
                    new_uri = Some(u);
                },
                SourceKind::Path => {},
                SourceKind::Git { url, reference } => {
                    match reference {
                        None => {
                            proof {
                                assert(!dep_ok(root, deps@[i as int]));
                            }
                            return Err(
                                RecipeError::MissingGitReference { name: dep.name.clone() },
                            );
                        },
                        Some(gref) => {
                            let rev: String = match gref {
                                GitReferenceKind::Tag(s) => s.clone(),
                                GitReferenceKind::Rev(s) => s.clone(),
                                GitReferenceKind::Branch(s) => {
                                    if str_eq(s.as_str(), "master") {
                                        String::from_str("${AUTOREV}")
                                    } else {
                                        s.clone()
                                    }
                                },
                                GitReferenceKind::DefaultBranch => String::from_str("${AUTOREV}"),
                            };
                            proof {
                                assert(rev@ == pinned_revision(*gref));
                            }
                            let ghost before = extras@.map_values(|p: String| p@);
                            let mut l1 = String::from_str("SRCREV_FORMAT .= \"_");
                            l1.append(dep.name.as_str());
                            l1.append("\"");
                            extras.push(l1);
                            let mut l2 = String::from_str("SRCREV_");
                            l2.append(dep.name.as_str());
                            l2.append(" = \"");
                            l2.append(rev.as_str());
                            l2.append("\"");
                            extras.push(l2);
                            let mut l3 = String::from_str("EXTRA_OECARGO_PATHS += \"${WORKDIR}/");
                            l3.append(dep.name.as_str());
                            l3.append("\"");
                            extras.push(l3);
                            proof {
                                assert(extras@.map_values(|p: String| p@) =~= before + dep_extras(
                                    root,
                                    deps@[i as int],
                                ));
                            }
                            new_uri = Some(
                                git_to_yocto_git_url(
                                    url.as_str(),
                                    Some(dep.name.as_str()),
                                    GitPrefix::default(),
                                ),
                            );
                        },
                    }
                },
                SourceKind::Other { url } => {
                    new_uri = Some(url.clone());
                },
            }
        }
        let ghost uv = uris@.map_values(|p: String| p@);
        match new_uri {
            None => {
                proof {
                    assert(dep_uri(root, deps@[i as int]) is None);
                    assert(uri_seq(root, suffix) =~= uri_seq(root, deps@.skip(i + 1)));
                    assert(extras_seq(root, suffix) =~= dep_extras(root, deps@[i as int])
                        + extras_seq(root, deps@.skip(i + 1)));
                    assert(dep_extras(root, deps@[i as int]) =~= Seq::<Seq<char>>::empty());
                    assert(extras_seq(root, suffix) =~= extras_seq(root, deps@.skip(i + 1)));
                }
            },
            Some(u) => {
                proof {
                    assert(dep_uri(root, deps@[i as int]) == Some(u@));
                    assert(uri_seq(root, suffix) == seq![u@] + uri_seq(root, deps@.skip(i + 1)));
                    lemma_concat_to_set(seq![u@], uri_seq(root, deps@.skip(i + 1)));
                    assert(seq![u@].to_set() =~= Set::<Seq<char>>::empty().insert(u@)) by {
                        assert(seq![u@][0] == u@);
                    }
                    assert(extras_seq(root, suffix) == dep_extras(root, deps@[i as int])
                        + extras_seq(root, deps@.skip(i + 1)));
                }
                insert_sorted_unique(&mut uris, u);
                proof {
                    assert(uris@.map_values(|p: String| p@).to_set() == uv.to_set().insert(u@));
                    assert(uri_seq(root, deps@).to_set() =~= uris@.map_values(
                        |p: String| p@,
                    ).to_set().union(uri_seq(root, deps@.skip(i + 1)).to_set()));
                }
            },
        }
        i = i + 1;
    }
    proof {
        assert(deps@.skip(deps@.len() as int) =~= Seq::<ResolvedDependency>::empty());
        assert(uri_seq(root, Seq::<ResolvedDependency>::empty()).to_set()
            =~= Set::<Seq<char>>::empty());
        assert(uri_seq(root, deps@).to_set() =~= uris@.map_values(|p: String| p@).to_set());
        assert(extras_seq(root, Seq::<ResolvedDependency>::empty())
            =~= Seq::<Seq<char>>::empty());
        assert(extras_seq(root, deps@) =~= extras@.map_values(|p: String| p@));
    }
    Ok(ClassifiedSources { src_uris: uris, extras })
}

} // verus!
