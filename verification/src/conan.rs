//! The dependency resolver's side of the tool: a dependency as the user
//! names it, and what the resolver's output is normalised to.

use crate::error::ToolError;
use crate::information_meta::is_concrete_version;
use crate::text::{appended, pieces, same_text, split, strip_prefix, trim_end, trimmed_end};
use crate::text::lemma_pieces_join;
use vstd::prelude::*;

verus! {

/// The external resolver, as far as its output is concerned.
pub struct ConanTerminal;

/// The version that the user asked for, if any.
#[derive(Clone, Debug, PartialEq, Eq)]
pub enum ConanDependencyVersion {
    /// No version was given: the latest one is to be looked up.
    Latest,
    /// The version that was given.
    Version(String),
}

impl View for ConanDependencyVersion {
    type V = Option<Seq<char>>;

    open spec fn view(&self) -> Option<Seq<char>> {
        match self {
            ConanDependencyVersion::Latest => None,
            ConanDependencyVersion::Version(version) => Some(version@),
        }
    }
}

/// What a dependency draft holds.
pub struct DependencyDraft {
    pub name: Seq<char>,
    pub version: Option<Seq<char>>,
}

impl DependencyDraft {
    /// The draft names a version that can be persisted as it is.
    pub open spec fn is_concrete(self) -> bool {
        self.version matches Some(version) && is_concrete_version(version)
    }
}

/// A dependency as the user names it: the version may still be open.
#[derive(Clone, Debug, PartialEq, Eq)]
pub struct ConanDependency {
    pub name: String,
    pub version: ConanDependencyVersion,
}

impl View for ConanDependency {
    type V = DependencyDraft;

    open spec fn view(&self) -> DependencyDraft {
        DependencyDraft { name: self.name@, version: self.version@ }
    }
}

/// The last line of the resolver's listing, white space at the end of the
/// listing set aside.
pub open spec fn last_reference(output: Seq<char>) -> Seq<char> {
    pieces(trimmed_end(output), '\n').last()
}

/// A version that the resolver reports is usable when it is concrete and
/// not empty.
pub open spec fn is_usable_version(version: Seq<char>) -> bool {
    version.len() > 0 && is_concrete_version(version)
}

/// The version that a listing of recipes reports as the latest of `name`:
/// the last line reads `name/version`, with a usable version. Any other
/// listing reports none.
pub open spec fn latest_version(name: Seq<char>, output: Seq<char>) -> Option<Seq<char>> {
    let reference = last_reference(output);
    let prefix = name + "/"@;
    if prefix.is_prefix_of(reference) && is_usable_version(reference.skip(prefix.len() as int)) {
        Some(reference.skip(prefix.len() as int))
    } else {
        None
    }
}

/// Whether `version` can be persisted as it is.
pub fn version_is_concrete(version: &str) -> (concrete: bool)
    ensures
        concrete == is_concrete_version(version@),
{
    !same_text(version, "none")
}

impl ConanTerminal {
    /// The log of an installation as it is kept: all that the resolver
    /// has printed.
    pub fn install_log(output: &str) -> (log: String)
        ensures
            log@ == output@,
    {
        output.to_owned()
    }
}

impl ConanDependency {
    /// The dependency `name`, with the version that was asked for.
    pub fn new(name: String, version: ConanDependencyVersion) -> (dependency: Self)
        ensures
            dependency@ == (DependencyDraft { name: name@, version: version@ }),
    {
        Self { name, version }
    }

    /// Whether the draft names a version that can be persisted as it is.
    /// Where it does not, the latest version has to be looked up.
    pub fn has_concrete_version(&self) -> (concrete: bool)
        ensures
            concrete == self@.is_concrete(),
    {
        match &self.version {
            ConanDependencyVersion::Latest => false,
            ConanDependencyVersion::Version(version) => version_is_concrete(version.as_str()),
        }
    }

    /// The latest version of this dependency that `search_output`, the
    /// resolver's listing of its recipes, reports.
    pub fn load_latest_version(&self, search_output: &str) -> (latest: Result<String, ToolError>)
        ensures
            match latest {
                Ok(version) => latest_version(self.name@, search_output@) == Some(version@),
                Err(error) => error == ToolError::ResolverFailure && latest_version(
                    self.name@,
                    search_output@,
                ) is None,
            },
    {
        let listing = trim_end(search_output);
        let lines = split(listing.as_str(), '\n');
        proof {
            lemma_pieces_join(listing@, '\n');
        }
        let reference = &lines[lines.len() - 1];
        assert(reference@ == last_reference(search_output@));
        let prefix = appended(self.name.as_str(), "/");
        match strip_prefix(reference.as_str(), prefix.as_str()) {
            Some(version) => {
                if !version.as_str().is_empty() && version_is_concrete(version.as_str()) {
                    Ok(version)
                } else {
                    Err(ToolError::ResolverFailure)
                }
            },
            None => Err(ToolError::ResolverFailure),
        }
    }

    /// The dependency with its version settled: unchanged where the draft
    /// names a concrete version, else with the latest version that
    /// `search_output` reports.
    pub fn with_latest_version(self, search_output: &str) -> (settled: Result<Self, ToolError>)
        ensures
            match settled {
                Ok(dependency) => {
                    &&& dependency@.name == self@.name
                    &&& dependency@.is_concrete()
                    &&& if self@.is_concrete() {
                        dependency@.version == self@.version
                    } else {
                        dependency@.version == latest_version(self@.name, search_output@)
                    }
                },
                Err(error) => {
                    &&& error == ToolError::ResolverFailure
                    &&& !self@.is_concrete()
                    &&& latest_version(self@.name, search_output@) is None
                },
            },
    {
        if self.has_concrete_version() {
            Ok(self)
        } else {
            match self.load_latest_version(search_output) {
                Ok(version) => Ok(Self { name: self.name, version: ConanDependencyVersion::Version(version) }),
                Err(error) => Err(error),
            }
        }
    }
}

} // verus!
