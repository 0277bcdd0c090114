//! Revision pinning for the root package's own checkout: decides whether
//! the rendered version needs a revision-derived suffix so that a
//! content-addressed build cache can tell two untagged builds apart.

use vstd::prelude::*;
use vstd::string::StrSliceExecFns;
use vstd::string::StringExecFns;

use crate::errors::RecipeError;

verus! {

/// What is known about the root package's checkout: the fetch URI of its
/// repository, the checked-out revision, and whether that revision exactly
/// matches a release tag.
pub struct ProjectRepoFact {
    pub uri: String,
    pub rev: String,
    pub tag: bool,
}

impl Default for ProjectRepoFact {
    /// The fact used when no repository can be discovered at all.
    fn default() -> (r: Self)
        ensures
            r.uri@ == Seq::<char>::empty(),
            r.rev@ == Seq::<char>::empty(),
            !r.tag,
    {
        ProjectRepoFact { uri: String::new(), rev: String::new(), tag: false }
    }
}

/// The version-suffix directive owed to a checkout: nothing for a tagged
/// checkout with a full revision, otherwise a suffix built from the first
/// ten characters of the revision.
pub open spec fn version_suffix_spec(tag: bool, rev: Seq<char>) -> Seq<char> {
    if tag && rev.len() > 10 {
        Seq::<char>::empty()
    } else {
        "PV_append = \".AUTOINC+"@ + rev.take(10) + "\""@
    }
}

/// Decides the version-suffix directive for the root checkout.
///
/// A revision shorter than ten characters cannot be truncated meaningfully
/// and is rejected rather than silently shortened.
pub fn version_suffix(fact: &ProjectRepoFact) -> (r: Result<String, RecipeError>)
    ensures
        r is Ok <==> fact.rev@.len() >= 10,
        r matches Ok(s) ==> s@ == version_suffix_spec(fact.tag, fact.rev@),
        r matches Err(e) ==> e matches RecipeError::ShortRevision { rev } && rev@ == fact.rev@,
{
    let n = fact.rev.as_str().unicode_len();
    if n < 10 {
        return Err(RecipeError::ShortRevision { rev: fact.rev.clone() });
    }
    if fact.tag && n > 10 {
        Ok(String::new())
    } else {
        let mut out = String::from_str("PV_append = \".AUTOINC+");
        let head = fact.rev.as_str().substring_char(0, 10);
        proof {
            assert(fact.rev@.subrange(0, 10) =~= fact.rev@.take(10));
        }
        out.append(head);
        out.append("\"");
        Ok(out)
    }
}

} // verus!
