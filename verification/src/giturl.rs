//! Rewrites a dependency's version-control URL into the form the target
//! fetcher expects: the scheme becomes a fetcher prefix, schemes that need
//! special transport handling gain a `protocol=` qualifier, and a
//! per-dependency destination suffix keeps checkouts from colliding.

use vstd::prelude::*;
use vstd::string::StrSliceExecFns;
use vstd::string::StringExecFns;

use crate::text::str_eq;

verus! {

/// How the rewritten URL is prefixed: the plain git fetcher (the default)
/// or the submodule-aware one.
#[derive(Clone, Copy, PartialEq, Eq, Structural)]
pub enum GitPrefix {
    Git,
    Gitsm,
}

impl Default for GitPrefix {
    fn default() -> (r: Self)
        ensures
            r == GitPrefix::Git,
    {
        GitPrefix::Git
    }
}

pub open spec fn prefix_spec(p: GitPrefix) -> Seq<char> {
    match p {
        GitPrefix::Git => "git://"@,
        GitPrefix::Gitsm => "gitsm://"@,
    }
}

fn prefix_str(p: GitPrefix) -> (r: &'static str)
    ensures
        r@ == prefix_spec(p),
{
    match p {
        GitPrefix::Git => "git://",
        GitPrefix::Gitsm => "gitsm://",
    }
}

/// Splits a URL at its first `://`, into the scheme before it and the
/// remainder after it; `None` when no `://` occurs.
pub open spec fn scheme_split(u: Seq<char>) -> Option<(Seq<char>, Seq<char>)>
    decreases u.len(),
{
    if u.len() < 3 {
        None
    } else if u[0] == ':' && u[1] == '/' && u[2] == '/' {
        Some((Seq::<char>::empty(), u.skip(3)))
    } else {
        match scheme_split(u.skip(1)) {
            None => None,
            Some(p) => Some((seq![u[0]] + p.0, p.1)),
        }
    }
}

/// The normalized URL: everything after the scheme is kept verbatim (so
/// query parameters used for pinning survive), `http`, `https` and `ssh`
/// keep their transport as a `protocol=` qualifier, a URL that is already
/// `git` is only re-prefixed, and a URL with no or an unrecognised scheme
/// passes through; a logical name appends the collision-avoiding
/// destination hints.
pub open spec fn yocto_git_url_spec(
    url: Seq<char>,
    name: Option<Seq<char>>,
    prefix: GitPrefix,
) -> Seq<char> {
    let base = match scheme_split(url) {
        None => prefix_spec(prefix) + url,
        Some(p) => {
            if p.0 == "http"@ || p.0 == "https"@ || p.0 == "ssh"@ {
                prefix_spec(prefix) + p.1 + ";protocol="@ + p.0
            } else if p.0 == "git"@ {
                prefix_spec(prefix) + p.1
            } else {
                url
            }
        },
    };
    match name {
        None => base,
        Some(n) => base + ";name="@ + n + ";destsuffix="@ + n,
    }
}

/// The view of an optional string argument.
pub open spec fn view_opt(o: Option<&str>) -> Option<Seq<char>> {
    match o {
        Some(s) => Some(s@),
        None => None,
    }
}

/// Finds the first `://` of `url`, as the index of its `:`.
fn find_scheme(url: &str) -> (r: Option<usize>)
    ensures
        r matches Some(j) ==> j + 3 <= url@.len() && scheme_split(url@) == Some(
            (url@.subrange(0, j as int), url@.skip(j + 3)),
        ),
        r is None ==> scheme_split(url@) is None,
{
    let len = url.unicode_len();
    let mut j: usize = 0;
    proof {
        assert(url@.skip(0) =~= url@);
    }
    loop
        invariant
            j <= len,
            len == url@.len(),
            match scheme_split(url@.skip(j as int)) {
                None => scheme_split(url@) is None,
                Some(p) => scheme_split(url@) == Some((url@.subrange(0, j as int) + p.0, p.1)),
            },
        decreases len - j,
    {
        if len < 3 || j > len - 3 {
            proof {
                assert(url@.skip(j as int).len() < 3);
            }
            return None;
        }
        let c0 = url.get_char(j);
        let c1 = url.get_char(j + 1);
        let c2 = url.get_char(j + 2);
        let ghost t = url@.skip(j as int);
        proof {
            assert(t[0] == c0);
            assert(t[1] == c1);
            assert(t[2] == c2);
        }
        if c0 == ':' && c1 == '/' && c2 == '/' {
            proof {
                assert(scheme_split(t) == Some((Seq::<char>::empty(), t.skip(3))));
                assert(t.skip(3) =~= url@.skip(j + 3));
                assert(url@.subrange(0, j as int) + Seq::<char>::empty() =~= url@.subrange(
                    0,
                    j as int,
                ));
            }
            return Some(j);
        }
        proof {
            assert(t.skip(1) =~= url@.skip(j + 1));
            if scheme_split(url@.skip(j + 1)) is Some {
                let p = scheme_split(url@.skip(j + 1)).unwrap();
                assert(scheme_split(t) == Some((seq![c0] + p.0, p.1)));
                assert(url@.subrange(0, j as int) + (seq![c0] + p.0) =~= url@.subrange(0, j + 1)
                    + p.0);
            }
        }
        j = j + 1;
    }
}

/// Rewrites `url` as `yocto_git_url_spec` describes. Pure string work;
/// nothing is fetched.
pub fn git_to_yocto_git_url(url: &str, name: Option<&str>, prefix: GitPrefix) -> (r: String)
    ensures
        r@ == yocto_git_url_spec(url@, view_opt(name), prefix),
{
    let len = url.unicode_len();
    let mut base: String;
    match find_scheme(url) {
        None => {
            base = String::from_str(prefix_str(prefix));
            base.append(url);
        },
        Some(j) => {
            let scheme = url.substring_char(0, j);
            let rest = url.substring_char(j + 3, len);
            proof {
                assert(url@.subrange(j + 3, len as int) =~= url@.skip(j + 3));
            }
            if str_eq(scheme, "http") || str_eq(scheme, "https") || str_eq(scheme, "ssh") {
                base = String::from_str(prefix_str(prefix));
                base.append(rest);
                base.append(";protocol=");
                base.append(scheme);
            } else if str_eq(scheme, "git") {
                base = String::from_str(prefix_str(prefix));
                base.append(rest);
            } else {
                base = String::from_str(url);
            }
        },
    }
    match name {
        None => base,
        Some(n) => {
            base.append(";name=");
            base.append(n);
            base.append(";destsuffix=");
            base.append(n);
            base
        },
    }
}

} // verus!
