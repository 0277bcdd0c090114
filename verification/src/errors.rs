//! The failures recipe generation can report. All of them are fatal for
//! the run that raises them; advisory fallbacks are reported as plain
//! message lists next to the computed values instead.

use vstd::prelude::*;
use vstd::string::StringExecFns;

verus! {

#[derive(Debug)]
pub enum RecipeError {
    /// A git-sourced dependency arrived without its git reference.
    MissingGitReference { name: String },
    /// The root checkout's revision is too short to pin a build.
    ShortRevision { rev: String },
    /// Neither a homepage nor a repository is declared for the package.
    MissingHomepage,
    /// A template names a placeholder that no recipe field binds.
    UnboundPlaceholder { name: String },
    /// A placeholder opened in a template is never closed.
    UnclosedPlaceholder,
}

impl RecipeError {
    /// The human-readable description of the failure.
    pub open spec fn message_spec(self) -> Seq<char> {
        match self {
            RecipeError::MissingGitReference { name } => "git dependency '"@ + name@
                + "' carries no git reference"@,
            RecipeError::ShortRevision { rev } => "revision '"@ + rev@
                + "' is too short: at least 10 characters are needed to pin a build"@,
            RecipeError::MissingHomepage => "neither package.homepage nor package.repository is set"@,
            RecipeError::UnboundPlaceholder { name } => "template placeholder '"@ + name@
                + "' is not bound to any recipe field"@,
            RecipeError::UnclosedPlaceholder => "a '{' in the template is never closed"@,
        }
    }

    /// Renders the description, for error reporting at the top level.
    pub fn message(&self) -> (r: String)
        ensures
            r@ == self.message_spec(),
    {
        match self {
            RecipeError::MissingGitReference { name } => {
                let mut m = String::from_str("git dependency '");
                m.append(name.as_str());
                m.append("' carries no git reference");
                m
            },
            RecipeError::ShortRevision { rev } => {
                let mut m = String::from_str("revision '");
                m.append(rev.as_str());
                m.append("' is too short: at least 10 characters are needed to pin a build");
                m
            },
            RecipeError::MissingHomepage => {
                String::from_str("neither package.homepage nor package.repository is set")
            },
            RecipeError::UnboundPlaceholder { name } => {
                let mut m = String::from_str("template placeholder '");
                m.append(name.as_str());
                m.append("' is not bound to any recipe field");
                m
            },
            RecipeError::UnclosedPlaceholder => {
                String::from_str("a '{' in the template is never closed")
            },
        }
    }
}

} // verus!
