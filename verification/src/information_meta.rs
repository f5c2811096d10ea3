//! The persisted record of a project: its identity and the dependencies it
//! declares, in the order in which they were declared.

use vstd::prelude::*;

verus! {

/// The remote whose dependencies are resolved and installed.
pub open spec fn local_remote() -> Seq<char> {
    "conancenter"@
}

/// The version text that stands for "resolve the latest version".
pub open spec fn version_sentinel() -> Seq<char> {
    "none"@
}

/// A version is concrete when it is not the sentinel: any other text that
/// was given stands as it is.
pub open spec fn is_concrete_version(version: Seq<char>) -> bool {
    version != version_sentinel()
}

/// What a declared dependency holds.
pub struct DependencyRecord {
    pub name: Seq<char>,
    pub version: Seq<char>,
    pub remote: Seq<char>,
}

impl DependencyRecord {
    /// A record of the resolved remote names a concrete version.
    pub open spec fn resolved(self) -> bool {
        self.remote == local_remote() ==> is_concrete_version(self.version)
    }
}

/// What a project's metadata holds.
pub struct ProjectRecord {
    pub name: Seq<char>,
    pub version: Seq<char>,
    pub author: Seq<char>,
    pub dependencies: Seq<DependencyRecord>,
}

impl ProjectRecord {
    /// Every dependency of the resolved remote names a concrete version.
    pub open spec fn dependencies_resolved(self) -> bool {
        forall|i: int| 0 <= i < self.dependencies.len() ==> (#[trigger] self.dependencies[i]).resolved()
    }

    /// The project has a name and its dependencies are resolved.
    pub open spec fn well_formed(self) -> bool {
        self.name.len() > 0 && self.dependencies_resolved()
    }
}

/// One declared dependency.
#[derive(Clone, Debug, PartialEq, Eq)]
pub struct DependencyInformation {
    pub name: String,
    pub version: String,
    pub remote: String,
}

impl View for DependencyInformation {
    type V = DependencyRecord;

    open spec fn view(&self) -> DependencyRecord {
        DependencyRecord { name: self.name@, version: self.version@, remote: self.remote@ }
    }
}

impl DeepView for DependencyInformation {
    type V = DependencyRecord;

    open spec fn deep_view(&self) -> DependencyRecord {
        self@
    }
}

/// The metadata of one project.
#[derive(Clone, Debug, PartialEq, Eq)]
pub struct ProjectMetaInformation {
    pub name: String,
    pub version: String,
    pub author: String,
    pub dependencies: Vec<DependencyInformation>,
}

impl View for ProjectMetaInformation {
    type V = ProjectRecord;

    open spec fn view(&self) -> ProjectRecord {
        ProjectRecord {
            name: self.name@,
            version: self.version@,
            author: self.author@,
            dependencies: self.dependencies.deep_view(),
        }
    }
}

impl ProjectMetaInformation {
    /// The metadata of a project that declares no dependency yet.
    pub fn new(name: String, version: String, author: String) -> (project: Self)
        ensures
            project@ == (ProjectRecord {
                name: name@,
                version: version@,
                author: author@,
                dependencies: Seq::<DependencyRecord>::empty(),
            }),
            project@.dependencies_resolved(),
            project@.well_formed() <==> name@.len() > 0,
    {
        let project = Self { name, version, author, dependencies: Vec::new() };
        assert(project.dependencies.deep_view() =~= Seq::<DependencyRecord>::empty());
        project
    }
}

/// The kind of project that the generated files are for.
#[derive(Clone, Copy, Debug, PartialEq, Eq, Structural)]
pub enum ProjectType {
    DefaultExecutable,
    DefaultLibrary,
}

} // verus!
