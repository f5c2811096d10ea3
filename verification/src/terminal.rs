//! The command interpreter: from an argument list to what is to be done,
//! and the rules of each lifecycle operation on the values that it reads
//! and writes.

use crate::conan::{
    version_is_concrete, ConanDependency, ConanDependencyVersion, ConanTerminal, DependencyDraft,
};
use crate::error::ToolError;
use crate::information_meta::{
    local_remote, version_sentinel, DependencyInformation, DependencyRecord, ProjectMetaInformation,
    ProjectRecord, ProjectType,
};
use crate::meta::{cmake_text, get_cmake_meta, get_main_meta, lemma_executable_texts_are_not_empty, main_text};
use crate::text::{appended, chars_of, pieces, replace, replaced, same_text, split, starts_with, trim_end, trimmed_end};
use vstd::prelude::*;

verus! {

/// One user command, made unambiguous.
pub enum Intent {
    CreateProject { name: Seq<char>, location: Seq<char>, version: Option<Seq<char>>, author: Option<Seq<char>> },
    RepairProject { location: Seq<char> },
    NoOp,
}

/// What an argument list asks for, before anything has been looked up.
pub enum Request {
    /// Nothing is left to look up: the intent is known.
    Finished(Intent),
    /// The path has to be classified as a new or an existing project.
    ClassifyPath(Seq<char>),
    /// A dependency is to be added to the project at `location`.
    AddDependency { location: Seq<char>, dependency: DependencyDraft, remote: Seq<char> },
    /// The dependencies of the project at the location are to be reloaded.
    ReloadDependencies(Seq<char>),
}

/// What the interactive session does with a line.
pub enum Turn {
    /// The session ends.
    Leave,
    /// The arguments are interpreted, and the session goes on.
    Interpret(Seq<Seq<char>>),
}

/// The token that carries the named argument `key`.
pub open spec fn flag(key: Seq<char>) -> Seq<char> {
    "--"@ + key + "="@
}

/// The value of the named argument `key`: the first token that begins with
/// its flag, the flag removed from it; `None` where no token does.
pub open spec fn argument_value(key: Seq<char>, arguments: Seq<Seq<char>>) -> Option<Seq<char>>
    decreases arguments.len(),
{
    if arguments.len() == 0 {
        None
    } else if flag(key).is_prefix_of(arguments[0]) {
        Some(replaced(arguments[0], flag(key), Seq::<char>::empty()))
    } else {
        argument_value(key, arguments.skip(1))
    }
}

/// The value of the named argument `key`, or `default` where it is absent.
pub open spec fn argument_or(key: Seq<char>, arguments: Seq<Seq<char>>, default: Seq<char>) -> Seq<char> {
    match argument_value(key, arguments) {
        Some(value) => value,
        None => default,
    }
}

/// Where the last separator stands in `path`, if it holds one.
pub open spec fn last_separator(path: Seq<char>) -> Option<int>
    decreases path.len(),
{
    if path.len() == 0 {
        None
    } else if path.last() == '/' {
        Some(path.len() - 1)
    } else {
        last_separator(path.drop_last())
    }
}

/// The directory that holds the executable whose path is `executable`:
/// what stands before the last separator of the path. A path that begins
/// with its only separator lies in the root, `/`; one without a separator
/// lies in the current directory, `.`.
pub open spec fn executable_directory(executable: Seq<char>) -> Seq<char> {
    match last_separator(executable) {
        None => "."@,
        Some(at) => if at == 0 {
            "/"@
        } else {
            executable.take(at)
        },
    }
}

/// What the argument list asks for. Argument 0 is the executable's path and
/// never a verb; the verb is argument 1.
pub open spec fn interpretation(arguments: Seq<Seq<char>>) -> Result<Request, ToolError> {
    if arguments.len() < 2 {
        Ok(Request::Finished(Intent::NoOp))
    } else if arguments[1] == "."@ {
        Ok(Request::ClassifyPath(executable_directory(arguments[0])))
    } else if arguments[1] == "add"@ {
        if arguments.len() < 3 {
            Err(ToolError::MissingArgument)
        } else {
            Ok(
                Request::AddDependency {
                    location: argument_or("path"@, arguments, executable_directory(arguments[0])),
                    dependency: DependencyDraft {
                        name: arguments[2],
                        version: argument_value("version"@, arguments),
                    },
                    remote: argument_or("remote"@, arguments, "false"@),
                },
            )
        }
    } else if arguments[1] == "reload"@ {
        Ok(Request::ReloadDependencies(argument_or("path"@, arguments, executable_directory(arguments[0]))))
    } else {
        Ok(Request::ClassifyPath(arguments[1]))
    }
}

/// The file that holds a project's metadata, and whose presence marks a
/// directory as an existing project.
pub open spec fn metadata_file(location: Seq<char>) -> Seq<char> {
    location + "/project.json"@
}

/// The file that declares a project's dependencies to the resolver.
pub open spec fn declaration_file(location: Seq<char>) -> Seq<char> {
    location + "/conanfile.txt"@
}

/// The file that keeps the log of the reload with the time stamp `stamp`.
pub open spec fn log_file(location: Seq<char>, stamp: Seq<char>) -> Seq<char> {
    location + "/logs/"@ + stamp
}

/// A path is a new project unless it exists and holds the marker file.
pub open spec fn is_new_project(exists: bool, has_marker: bool) -> bool {
    !(exists && has_marker)
}

/// The intent for a classified path: a new project is created under the
/// name that the arguments give, or `demo`; an existing one is repaired.
pub open spec fn classified(new: bool, arguments: Seq<Seq<char>>, path: Seq<char>) -> Intent {
    if new {
        Intent::CreateProject {
            name: argument_or("name"@, arguments, "demo"@),
            location: path,
            version: None,
            author: None,
        }
    } else {
        Intent::RepairProject { location: path }
    }
}

/// The intent that a request ends in, once it has been carried out.
/// `exists` and `has_marker` say what was found at the path of a request to
/// classify one; adding and reloading end in `NoOp`.
pub open spec fn completed(request: Request, exists: bool, has_marker: bool, arguments: Seq<Seq<char>>) -> Intent {
    match request {
        Request::Finished(intent) => intent,
        Request::ClassifyPath(path) => classified(is_new_project(exists, has_marker), arguments, path),
        Request::AddDependency { .. } => Intent::NoOp,
        Request::ReloadDependencies(_) => Intent::NoOp,
    }
}

/// The one intent of an argument list, or the reason for which it has none.
pub open spec fn intent(arguments: Seq<Seq<char>>, exists: bool, has_marker: bool) -> Result<Intent, ToolError> {
    match interpretation(arguments) {
        Ok(request) => Ok(completed(request, exists, has_marker, arguments)),
        Err(error) => Err(error),
    }
}

/// The line that declares one dependency to the resolver.
pub open spec fn declaration_line(dependency: DependencyRecord) -> Seq<char> {
    dependency.name + "/"@ + dependency.version + "\n"@
}

/// The declaration file: one line for each dependency of the resolved
/// remote, in the order of declaration. Other dependencies leave no line.
pub open spec fn declaration(dependencies: Seq<DependencyRecord>) -> Seq<char>
    decreases dependencies.len(),
{
    if dependencies.len() == 0 {
        Seq::<char>::empty()
    } else if dependencies.last().remote == local_remote() {
        declaration(dependencies.drop_last()) + declaration_line(dependencies.last())
    } else {
        declaration(dependencies.drop_last())
    }
}

/// The record that is persisted for a dependency with a settled version.
pub open spec fn persisted(dependency: DependencyDraft) -> DependencyRecord {
    DependencyRecord { name: dependency.name, version: dependency.version->0, remote: local_remote() }
}

/// What adding `dependency` does to `project`. Only the remote selector
/// `false` is served, and only a dependency whose version is settled is
/// appended, as a record of the resolved remote.
pub open spec fn with_dependency(project: ProjectRecord, dependency: DependencyDraft, selector: Seq<char>) -> Result<
    ProjectRecord,
    ToolError,
> {
    if selector != "false"@ {
        Err(ToolError::UnsupportedOperation)
    } else if !dependency.is_concrete() {
        Err(ToolError::ResolverFailure)
    } else {
        Ok(ProjectRecord { dependencies: project.dependencies.push(persisted(dependency)), ..project })
    }
}

/// What the session does with `line`, `None` standing for the end of the
/// input: it ends there and at the line `quit`; any other line, the white
/// space at its end set aside, is cut at its spaces into the arguments that
/// follow the executable's path.
pub open spec fn turn(executable: Seq<char>, line: Option<Seq<char>>) -> Turn {
    match line {
        None => Turn::Leave,
        Some(text) => if trimmed_end(text) == "quit"@ {
            Turn::Leave
        } else {
            Turn::Interpret(seq![executable] + pieces(trimmed_end(text), ' '))
        },
    }
}

/// The directories of a project, in the order in which they are made.
pub open spec fn project_directories(location: Seq<char>) -> Seq<Seq<char>> {
    seq![
        location + "/source_files"@,
        location + "/include_files"@,
        location + "/build"@,
        location + "/logs"@,
        location + "/bin"@,
    ]
}

/// The metadata of a project at its creation.
pub open spec fn initial_record(name: Seq<char>, version: Option<Seq<char>>, author: Option<Seq<char>>) -> ProjectRecord {
    ProjectRecord {
        name,
        version: match version {
            Some(version) => version,
            None => "1.0.1"@,
        },
        author: match author {
            Some(author) => author,
            None => "unknown"@,
        },
        dependencies: Seq::<DependencyRecord>::empty(),
    }
}

/// What a file to be written holds.
pub struct FileRecord {
    pub path: Seq<char>,
    pub contents: Seq<char>,
}

/// The build descriptor of the project `name` at `location`, for the
/// language standard 20.
pub open spec fn descriptor_file(location: Seq<char>, name: Seq<char>) -> FileRecord {
    FileRecord {
        path: location + "/CMakeLists.txt"@,
        contents: cmake_text(ProjectType::DefaultExecutable, name, 20),
    }
}

/// The files that a new project starts with besides its build descriptor:
/// an empty declaration file and the starter source file.
pub open spec fn starter_files(location: Seq<char>, name: Seq<char>) -> Seq<FileRecord> {
    seq![
        FileRecord { path: declaration_file(location), contents: Seq::<char>::empty() },
        FileRecord {
            path: location + "/source_files/main.cpp"@,
            contents: main_text(ProjectType::DefaultExecutable, name),
        },
    ]
}

/// Every file of a new project besides its metadata, in the order in which
/// the files are written.
pub open spec fn project_files(location: Seq<char>, name: Seq<char>) -> Seq<FileRecord> {
    seq![descriptor_file(location, name)] + starter_files(location, name)
}

/// The report of a created project.
pub open spec fn creation_report(project: ProjectRecord) -> Seq<char> {
    "created "@ + project.name + " from "@ + project.author
}

/// An argument list without a verb asks for nothing: the intent is `NoOp`.
pub proof fn lemma_no_verb_is_no_op(arguments: Seq<Seq<char>>)
    requires
        arguments.len() < 2,
    ensures
        interpretation(arguments) == Ok::<Request, ToolError>(Request::Finished(Intent::NoOp)),
        forall|exists: bool, has_marker: bool|
            #[trigger] intent(arguments, exists, has_marker) == Ok::<Intent, ToolError>(Intent::NoOp),
{
}

/// The verb `add` without a dependency name is refused for the missing
/// argument.
pub proof fn lemma_add_needs_a_name(arguments: Seq<Seq<char>>)
    requires
        arguments.len() == 2,
        arguments[1] == "add"@,
    ensures
        interpretation(arguments) == Err::<Request, ToolError>(ToolError::MissingArgument),
        forall|exists: bool, has_marker: bool|
            #[trigger] intent(arguments, exists, has_marker) == Err::<Intent, ToolError>(
                ToolError::MissingArgument,
            ),
{
    reveal_strlit(".");
    reveal_strlit("add");
    assert("add"@.len() == 3 && "."@.len() == 1);
}

/// The last separator is a separator, and none follows it; a path for
/// which there is none holds no separator.
pub proof fn lemma_last_separator(path: Seq<char>)
    ensures
        match last_separator(path) {
            Some(at) => {
                &&& 0 <= at < path.len()
                &&& path[at] == '/'
                &&& forall|j: int| at < j < path.len() ==> path[j] != '/'
            },
            None => !path.contains('/'),
        },
    decreases path.len(),
{
    if path.len() > 0 && path.last() != '/' {
        let short = path.drop_last();
        lemma_last_separator(short);
        match last_separator(short) {
            Some(at) => {
                assert forall|j: int| at < j < path.len() implies path[j] != '/' by {
                    if j < short.len() {
                        assert(short[j] == path[j]);
                    }
                }
            },
            None => {
                assert forall|j: int| 0 <= j < path.len() implies path[j] != '/' by {
                    if j < short.len() {
                        assert(short[j] == path[j]);
                        assert(short.contains(short[j]));
                    }
                }
            },
        }
    }
}

/// A separator that no separator follows is the last one: the directory
/// is what stands before it, or the root where nothing does.
pub proof fn lemma_directory_before_separator(path: Seq<char>, at: int)
    requires
        0 <= at < path.len(),
        path[at] == '/',
        forall|j: int| at < j < path.len() ==> path[j] != '/',
    ensures
        last_separator(path) == Some(at),
        executable_directory(path) == (if at == 0 {
            "/"@
        } else {
            path.take(at)
        }),
{
    lemma_last_separator(path);
    if last_separator(path) is None {
        assert(path.contains(path[at]));
    }
}

/// A path without a separator lies in the current directory.
pub proof fn lemma_directory_without_separator(path: Seq<char>)
    requires
        !path.contains('/'),
    ensures
        executable_directory(path) == "."@,
{
    lemma_last_separator(path);
}

/// Two reloads of one project whose time stamps differ keep their logs in
/// different files.
pub proof fn lemma_log_files_differ(location: Seq<char>, first: Seq<char>, second: Seq<char>)
    requires
        first != second,
    ensures
        log_file(location, first) != log_file(location, second),
{
    let directory = location + "/logs/"@;
    assert(first =~= (directory + first).skip(directory.len() as int));
    assert(second =~= (directory + second).skip(directory.len() as int));
}

/// The first token that carries the flag gives the value, whatever follows
/// it.
pub proof fn lemma_first_match_wins(key: Seq<char>, arguments: Seq<Seq<char>>, first: int)
    requires
        0 <= first < arguments.len(),
        flag(key).is_prefix_of(arguments[first]),
        forall|j: int| 0 <= j < first ==> !flag(key).is_prefix_of(#[trigger] arguments[j]),
    ensures
        argument_value(key, arguments) == Some(replaced(arguments[first], flag(key), Seq::<char>::empty())),
    decreases first,
{
    if first > 0 {
        let rest = arguments.skip(1);
        assert(rest[first - 1] == arguments[first]);
        assert forall|j: int| 0 <= j < first - 1 implies !flag(key).is_prefix_of(#[trigger] rest[j]) by {
            assert(rest[j] == arguments[j + 1]);
        }
        lemma_first_match_wins(key, rest, first - 1);
    }
}

/// A named argument that no token carries is absent.
pub proof fn lemma_absent_argument(key: Seq<char>, arguments: Seq<Seq<char>>)
    requires
        forall|j: int| 0 <= j < arguments.len() ==> !flag(key).is_prefix_of(#[trigger] arguments[j]),
    ensures
        argument_value(key, arguments) is None,
    decreases arguments.len(),
{
    if arguments.len() > 0 {
        let rest = arguments.skip(1);
        assert forall|j: int| 0 <= j < rest.len() implies !flag(key).is_prefix_of(#[trigger] rest[j]) by {
            assert(rest[j] == arguments[j + 1]);
        }
        lemma_absent_argument(key, rest);
    }
}

/// Classifying a path twice, with nothing changed in between, gives the
/// same answer and the same intent.
pub proof fn lemma_classification_is_stable(
    exists: bool,
    has_marker: bool,
    exists_again: bool,
    has_marker_again: bool,
    arguments: Seq<Seq<char>>,
    path: Seq<char>,
)
    requires
        exists == exists_again,
        has_marker == has_marker_again,
    ensures
        is_new_project(exists, has_marker) == is_new_project(exists_again, has_marker_again),
        classified(is_new_project(exists, has_marker), arguments, path) == classified(
            is_new_project(exists_again, has_marker_again),
            arguments,
            path,
        ),
{
}

/// A path that does not exist is a new project, whatever the arguments
/// are: the intent is to create it there.
pub proof fn lemma_missing_path_is_new(has_marker: bool, arguments: Seq<Seq<char>>, path: Seq<char>)
    ensures
        is_new_project(false, has_marker),
        classified(is_new_project(false, has_marker), arguments, path) matches Intent::CreateProject {
            location,
            ..
        } && location == path,
{
}

/// Adding a dependency never persists the sentinel: the record that is
/// appended names a concrete version, and a project whose dependencies were
/// resolved before has them resolved after.
pub proof fn lemma_add_keeps_resolved(project: ProjectRecord, dependency: DependencyDraft, selector: Seq<char>)
    ensures
        with_dependency(project, dependency, selector) matches Ok(after) ==> {
            &&& after.dependencies.len() == project.dependencies.len() + 1
            &&& after.dependencies.last().remote == local_remote()
            &&& after.dependencies.last().version == dependency.version->0
            &&& after.dependencies.last().version != version_sentinel()
            &&& project.dependencies_resolved() ==> after.dependencies_resolved()
            &&& project.well_formed() ==> after.well_formed()
        },
{
    if with_dependency(project, dependency, selector) is Ok {
        let after = project.dependencies.push(persisted(dependency));
        if project.dependencies_resolved() {
            assert forall|i: int| 0 <= i < after.len() implies (#[trigger] after[i]).resolved() by {
                if i < project.dependencies.len() {
                    assert(after[i] == project.dependencies[i]);
                }
            }
        }
    }
}

/// A dependency of another remote leaves no trace in the declaration file.
pub proof fn lemma_other_remotes_are_inert(dependencies: Seq<DependencyRecord>, other: DependencyRecord)
    requires
        other.remote != local_remote(),
    ensures
        declaration(dependencies.push(other)) == declaration(dependencies),
{
    assert(dependencies.push(other).drop_last() =~= dependencies);
}

/// A dependency of the resolved remote adds exactly its line at the end of
/// the declaration file.
pub proof fn lemma_local_remote_is_declared(dependencies: Seq<DependencyRecord>, local: DependencyRecord)
    requires
        local.remote == local_remote(),
    ensures
        declaration(dependencies.push(local)) == declaration(dependencies) + declaration_line(local),
{
    assert(dependencies.push(local).drop_last() =~= dependencies);
}

/// The command interpreter.
pub struct JToolTerminal;

/// The intent that the interpreter hands on.
#[derive(Clone, Debug, PartialEq, Eq)]
pub enum JToolOrder {
    /// name, location, version, author
    CreateProject(String, String, Option<String>, Option<String>),
    /// location
    RepairProject(String),
    /// Nothing to carry out: the interactive session takes over.
    NoOp,
}

impl View for JToolOrder {
    type V = Intent;

    open spec fn view(&self) -> Intent {
        match self {
            JToolOrder::CreateProject(name, location, version, author) => Intent::CreateProject {
                name: name@,
                location: location@,
                version: version.deep_view(),
                author: author.deep_view(),
            },
            JToolOrder::RepairProject(location) => Intent::RepairProject { location: location@ },
            JToolOrder::NoOp => Intent::NoOp,
        }
    }
}

/// What the caller of the interpreter has to do next.
#[derive(Clone, Debug, PartialEq, Eq)]
pub enum JToolStep {
    /// Carry out the order.
    Finished(JToolOrder),
    /// Find out whether the path exists and holds the marker file, then
    /// ask `check_path` and `handle_result` for the order.
    ClassifyPath(String),
    /// Add the dependency to the project at the location (first field); the
    /// last field selects the remote. The order that follows is `NoOp`.
    AddDependency(String, ConanDependency, String),
    /// Reload the dependencies of the project at the location. The order
    /// that follows is `NoOp`.
    ReloadDependencies(String),
}

impl View for JToolStep {
    type V = Request;

    open spec fn view(&self) -> Request {
        match self {
            JToolStep::Finished(order) => Request::Finished(order@),
            JToolStep::ClassifyPath(path) => Request::ClassifyPath(path@),
            JToolStep::AddDependency(location, dependency, remote) => Request::AddDependency {
                location: location@,
                dependency: dependency@,
                remote: remote@,
            },
            JToolStep::ReloadDependencies(location) => Request::ReloadDependencies(location@),
        }
    }
}

/// What adding a dependency needs first.
#[derive(Clone, Copy, Debug, PartialEq, Eq, Structural)]
pub enum AddStep {
    /// The resolver has to list the dependency's recipes, so that the
    /// latest version can be read from the listing.
    LookUpLatest,
    /// The version is settled: the record can be appended.
    Append,
}

/// What one turn of the interactive session leads to.
#[derive(Clone, Debug, PartialEq, Eq)]
pub enum SessionStep {
    /// The session ends.
    Leave,
    /// The arguments are interpreted as those of a fresh invocation, the
    /// order is carried out, and the next line is awaited.
    Interpret(Vec<String>),
}

impl View for SessionStep {
    type V = Turn;

    open spec fn view(&self) -> Turn {
        match self {
            SessionStep::Leave => Turn::Leave,
            SessionStep::Interpret(arguments) => Turn::Interpret(arguments.deep_view()),
        }
    }
}

/// A file to be written, with all that it holds.
#[derive(Clone, Debug, PartialEq, Eq)]
pub struct GeneratedFile {
    pub path: String,
    pub contents: String,
}

impl View for GeneratedFile {
    type V = FileRecord;

    open spec fn view(&self) -> FileRecord {
        FileRecord { path: self.path@, contents: self.contents@ }
    }
}

impl DeepView for GeneratedFile {
    type V = FileRecord;

    open spec fn deep_view(&self) -> FileRecord {
        self@
    }
}

/// All that creating a project writes, in the order in which it is
/// written: the metadata, to its file; the directories; then the files.
#[derive(Clone, Debug, PartialEq, Eq)]
pub struct ProjectPlan {
    pub information: ProjectMetaInformation,
    pub metadata_file: String,
    pub directories: Vec<String>,
    pub files: Vec<GeneratedFile>,
}

/// What the session does once a command has been carried out. There is no
/// way to end the session here: the next line is awaited in either case.
#[derive(Clone, Debug, PartialEq, Eq)]
pub enum AfterCommand {
    /// The command succeeded: the next line is awaited.
    Await,
    /// The command failed: the message is reported, and the next line is
    /// awaited.
    Report(String),
}

/// The value of the named argument `argument` among `from`.
pub fn get_argument(argument: String, from: &Vec<String>) -> (value: Option<String>)
    ensures
        value.deep_view() == argument_value(argument@, from.deep_view()),
{
    let dashes = appended("--", argument.as_str());
    let key = appended(dashes.as_str(), "=");
    assert(key@ =~= flag(argument@));
    let ghost all = from.deep_view();
    let mut i: usize = 0;
    assert(all.skip(0) =~= all);
    while i < from.len()
        invariant
            i <= from.len(),
            all == from.deep_view(),
            key@ == flag(argument@),
            argument_value(argument@, all) == argument_value(argument@, all.skip(i as int)),
        decreases from.len() - i,
    {
        let item = &from[i];
        assert(all.skip(i as int)[0] == item@);
        if starts_with(item.as_str(), key.as_str()) {
            proof {
                reveal_strlit("");
                assert(""@ =~= Seq::<char>::empty());
            }
            return Some(replace(item.as_str(), key.as_str(), ""));
        }
        assert(all.skip(i as int).skip(1) =~= all.skip(i + 1));
        i += 1;
    }
    None
}

/// The directory that holds the executable whose path is `executable`.
pub fn executable_directory_of(executable: &str) -> (directory: String)
    ensures
        directory@ == executable_directory(executable@),
{
    let path = chars_of(executable);
    let mut end: usize = path.len();
    assert(path@.take(end as int) =~= path@);
    while end > 0 && path[end - 1] != '/'
        invariant
            end <= path.len(),
            last_separator(path@) == last_separator(path@.take(end as int)),
        decreases end,
    {
        assert(path@.take(end as int).drop_last() =~= path@.take(end - 1));
        end -= 1;
    }
    if end == 0 {
        return ".".to_owned();
    }
    assert(path@.take(end as int).last() == '/');
    if end == 1 {
        return "/".to_owned();
    }
    let mut directory = String::new();
    let mut i: usize = 0;
    while i < end - 1
        invariant
            i <= end - 1,
            end <= path.len(),
            directory@ == path@.take(i as int),
        decreases end - 1 - i,
    {
        directory.push(path[i]);
        assert(path@.take(i + 1) =~= path@.take(i as int).push(path@[i as int]));
        i += 1;
    }
    directory
}

/// What the session does once a command has ended in `outcome`.
pub fn after_command(outcome: Result<(), ToolError>) -> (next: AfterCommand)
    ensures
        match outcome {
            Ok(()) => next == AfterCommand::Await,
            Err(error) => next matches AfterCommand::Report(message) && message@ == error.description(),
        },
{
    match outcome {
        Ok(()) => AfterCommand::Await,
        Err(error) => AfterCommand::Report(error.message()),
    }
}

/// Whether the path is a new project: `exists` says whether the path
/// exists, `has_marker` whether the marker file is in it.
pub fn check_path(exists: bool, has_marker: bool) -> (new: bool)
    ensures
        new == is_new_project(exists, has_marker),
        !exists ==> new,
{
    !(exists && has_marker)
}

/// The order for a classified path.
pub fn handle_result(result: bool, arguments: &Vec<String>, path: String) -> (order: JToolOrder)
    ensures
        order@ == classified(result, arguments.deep_view(), path@),
{
    if result {
        match get_argument("name".to_owned(), arguments) {
            None => JToolOrder::CreateProject("demo".to_owned(), path, None, None),
            Some(name) => JToolOrder::CreateProject(name, path, None, None),
        }
    } else {
        JToolOrder::RepairProject(path)
    }
}

/// What follows a line of the interactive session; `None` stands for the
/// end of the input.
pub fn check_result(executable: &str, line: Option<&str>) -> (step: SessionStep)
    ensures
        step@ == turn(executable@, line.deep_view()),
{
    match line {
        None => SessionStep::Leave,
        Some(text) => {
            let command = trim_end(text);
            if same_text(command.as_str(), "quit") {
                SessionStep::Leave
            } else {
                let words = split(command.as_str(), ' ');
                let mut arguments: Vec<String> = Vec::new();
                arguments.push(executable.to_owned());
                let mut i: usize = 0;
                assert(arguments.deep_view() =~= seq![executable@] + words.deep_view().take(0));
                while i < words.len()
                    invariant
                        i <= words.len(),
                        arguments.deep_view() == seq![executable@] + words.deep_view().take(i as int),
                    decreases words.len() - i,
                {
                    let ghost before = arguments.deep_view();
                    arguments.push(words[i].clone());
                    assert(arguments.deep_view() =~= before.push(words.deep_view()[i as int]));
                    assert(words.deep_view().take(i + 1) =~= words.deep_view().take(i as int).push(
                        words.deep_view()[i as int],
                    ));
                    i += 1;
                }
                assert(words.deep_view().take(words.len() as int) =~= words.deep_view());
                SessionStep::Interpret(arguments)
            }
        },
    }
}

impl JToolTerminal {
    /// What the argument list asks for.
    pub fn handle_arguments(arguments: &Vec<String>) -> (step: Result<JToolStep, ToolError>)
        ensures
            match step {
                Ok(request) => interpretation(arguments.deep_view()) == Ok::<Request, ToolError>(request@),
                Err(error) => interpretation(arguments.deep_view()) == Err::<Request, ToolError>(error),
            },
            arguments.len() < 2 ==> (step matches Ok(request) && request@ == Request::Finished(Intent::NoOp)),
            arguments.len() == 2 && arguments[1]@ == "add"@ ==> step == Err::<JToolStep, ToolError>(
                ToolError::MissingArgument,
            ),
    {
        if arguments.len() < 2 {
            return Ok(JToolStep::Finished(JToolOrder::NoOp));
        }
        let ghost all = arguments.deep_view();
        let executable = &arguments[0];
        let base = &arguments[1];
        assert(all[0] == executable@ && all[1] == base@);
        proof {
            reveal_strlit(".");
            reveal_strlit("add");
            assert("add"@.len() == 3 && "."@.len() == 1);
        }
        if same_text(base.as_str(), ".") {
            Ok(JToolStep::ClassifyPath(executable_directory_of(executable.as_str())))
        } else if same_text(base.as_str(), "add") {
            if arguments.len() < 3 {
                return Err(ToolError::MissingArgument);
            }
            let dependency_name = &arguments[2];
            assert(all[2] == dependency_name@);
            let version = get_argument("version".to_owned(), arguments);
            let github = get_argument("remote".to_owned(), arguments);
            let location = get_argument("path".to_owned(), arguments);
            let dependency = ConanDependency::new(
                dependency_name.clone(),
                match version {
                    None => ConanDependencyVersion::Latest,
                    Some(some) => ConanDependencyVersion::Version(some),
                },
            );
            let location = match location {
                Some(path) => path,
                None => executable_directory_of(executable.as_str()),
            };
            let github = match github {
                Some(remote) => remote,
                None => "false".to_owned(),
            };
            Ok(JToolStep::AddDependency(location, dependency, github))
        } else if same_text(base.as_str(), "reload") {
            let location = match get_argument("path".to_owned(), arguments) {
                Some(path) => path,
                None => executable_directory_of(executable.as_str()),
            };
            Ok(JToolStep::ReloadDependencies(location))
        } else {
            Ok(JToolStep::ClassifyPath(base.clone()))
        }
    }

    /// The order that `step` ends in once it has been carried out. For a
    /// path to classify, `exists` says whether the path exists and
    /// `has_marker` whether the marker file is in it; for every other step
    /// the two are not looked at.
    pub fn finish(step: JToolStep, exists: bool, has_marker: bool, arguments: &Vec<String>) -> (order: JToolOrder)
        ensures
            order@ == completed(step@, exists, has_marker, arguments.deep_view()),
    {
        match step {
            JToolStep::Finished(order) => order,
            JToolStep::ClassifyPath(path) => handle_result(check_path(exists, has_marker), arguments, path),
            JToolStep::AddDependency(_, _, _) => JToolOrder::NoOp,
            JToolStep::ReloadDependencies(_) => JToolOrder::NoOp,
        }
    }

    /// The file that holds the metadata of the project at `location`.
    pub fn metadata_file_of(location: &str) -> (file: String)
        ensures
            file@ == metadata_file(location@),
    {
        appended(location, "/project.json")
    }

    /// The file that declares the dependencies of the project at `location`.
    pub fn declaration_file_of(location: &str) -> (file: String)
        ensures
            file@ == declaration_file(location@),
    {
        appended(location, "/conanfile.txt")
    }

    /// What adding `dependency` needs first. Only the remote selector
    /// `false` is served.
    pub fn plan_dependency(dependency: &ConanDependency, github: &str) -> (plan: Result<AddStep, ToolError>)
        ensures
            github@ != "false"@ ==> plan == Err::<AddStep, ToolError>(ToolError::UnsupportedOperation),
            github@ == "false"@ && dependency@.is_concrete() ==> plan == Ok::<AddStep, ToolError>(AddStep::Append),
            github@ == "false"@ && !dependency@.is_concrete() ==> plan == Ok::<AddStep, ToolError>(
                AddStep::LookUpLatest,
            ),
    {
        if !same_text(github, "false") {
            Err(ToolError::UnsupportedOperation)
        } else if dependency.has_concrete_version() {
            Ok(AddStep::Append)
        } else {
            Ok(AddStep::LookUpLatest)
        }
    }

    /// Adds `dependency` to the project's dependencies. Where the addition
    /// is refused the project stays as it is.
    pub fn add_dependency_to_project(project: &mut ProjectMetaInformation, dependency: ConanDependency, github: String) -> (done: Result<(), ToolError>)
        ensures
            match done {
                Ok(()) => with_dependency(old(project)@, dependency@, github@) == Ok::<ProjectRecord, ToolError>(
                    final(project)@,
                ),
                Err(error) => {
                    &&& with_dependency(old(project)@, dependency@, github@) == Err::<ProjectRecord, ToolError>(
                        error,
                    )
                    &&& final(project)@ == old(project)@
                },
            },
            old(project)@.dependencies_resolved() ==> final(project)@.dependencies_resolved(),
            old(project)@.well_formed() ==> final(project)@.well_formed(),
    {
        proof {
            lemma_add_keeps_resolved(project@, dependency@, github@);
        }
        if !same_text(github.as_str(), "false") {
            return Err(ToolError::UnsupportedOperation);
        }
        let ghost draft = dependency@;
        let ghost before = project.dependencies.deep_view();
        match dependency.version {
            ConanDependencyVersion::Latest => Err(ToolError::ResolverFailure),
            ConanDependencyVersion::Version(version) => {
                if !version_is_concrete(version.as_str()) {
                    return Err(ToolError::ResolverFailure);
                }
                let information = DependencyInformation {
                    name: dependency.name,
                    version,
                    remote: "conancenter".to_owned(),
                };
                assert(information@ == persisted(draft));
                project.dependencies.push(information);
                assert(project.dependencies.deep_view() =~= before.push(persisted(draft)));
                Ok(())
            },
        }
    }

    /// The declaration file for the project's dependencies.
    pub fn reload_project_dependencies(project: &ProjectMetaInformation) -> (raw_dependency_list: String)
        ensures
            raw_dependency_list@ == declaration(project@.dependencies),
    {
        let mut raw_dependency_list = String::new();
        let ghost all = project.dependencies.deep_view();
        let mut i: usize = 0;
        assert(all.take(0) =~= Seq::<DependencyRecord>::empty());
        while i < project.dependencies.len()
            invariant
                i <= project.dependencies.len(),
                all == project.dependencies.deep_view(),
                raw_dependency_list@ == declaration(all.take(i as int)),
            decreases project.dependencies.len() - i,
        {
            let dependency = &project.dependencies[i];
            assert(all.take(i + 1).drop_last() =~= all.take(i as int));
            assert(all.take(i + 1).last() == dependency@);
            if same_text(dependency.remote.as_str(), "conancenter") {
                let ghost before = raw_dependency_list@;
                raw_dependency_list.append(dependency.name.as_str());
                raw_dependency_list.append("/");
                raw_dependency_list.append(dependency.version.as_str());
                raw_dependency_list.append("\n");
                assert(raw_dependency_list@ =~= before + declaration_line(dependency@));
            }
            i += 1;
        }
        assert(all.take(all.len() as int) =~= all);
        raw_dependency_list
    }

    /// The log of a reload of the project at `location`, as it is written:
    /// a file of its own, named by the time stamp `stamp` of the reload,
    /// that holds all of `output`, what the resolver has printed.
    pub fn reload_log(location: &str, stamp: &str, output: &str) -> (file: GeneratedFile)
        ensures
            file@ == (FileRecord { path: log_file(location@, stamp@), contents: output@ }),
    {
        let mut path = appended(location, "/logs/");
        path.append(stamp);
        GeneratedFile { path, contents: ConanTerminal::install_log(output) }
    }

    /// All that creating the project `name` at `location` writes. The
    /// location is taken as it is: an absolute path is the caller's part.
    pub fn create_project(name: String, location: String, version: Option<String>, author: Option<String>) -> (plan: ProjectPlan)
        ensures
            plan.information@ == initial_record(name@, version.deep_view(), author.deep_view()),
            plan.information@.dependencies_resolved(),
            plan.metadata_file@ == metadata_file(location@),
            plan.directories.deep_view() == project_directories(location@),
            plan.directories.len() == 5,
            forall|i: int|
                0 <= i < 5 ==> (#[trigger] plan.directories[i])@ == project_directories(location@)[i],
            plan.files.deep_view() == project_files(location@, name@),
            plan.files.len() == 3,
            plan.files[0]@ == descriptor_file(location@, name@),
            plan.files[1]@ == starter_files(location@, name@)[0],
            plan.files[2]@ == starter_files(location@, name@)[1],
            plan.files[0].contents@.len() > 0,
            plan.files[2].contents@.len() > 0,
    {
        let metadata_file = Self::metadata_file_of(location.as_str());
        let information = ProjectMetaInformation::new(
            name,
            match version {
                Some(version) => version,
                None => "1.0.1".to_owned(),
            },
            match author {
                Some(author) => author,
                None => "unknown".to_owned(),
            },
        );
        let mut directories: Vec<String> = Vec::new();
        directories.push(appended(location.as_str(), "/source_files"));
        directories.push(appended(location.as_str(), "/include_files"));
        directories.push(appended(location.as_str(), "/build"));
        directories.push(appended(location.as_str(), "/logs"));
        directories.push(appended(location.as_str(), "/bin"));
        assert(directories.deep_view() =~= project_directories(location@));
        assert forall|i: int| 0 <= i < 5 implies (#[trigger] directories[i])@ == project_directories(
            location@,
        )[i] by {
            assert(directories.deep_view()[i] == directories[i]@);
        }
        let mut files: Vec<GeneratedFile> = Vec::new();
        files.push(Self::create_cmake(location.clone(), &information));
        let mut starters = Self::create_project_files(location, &information);
        files.append(&mut starters);
        assert(files.deep_view() =~= project_files(location@, name@));
        assert(files.deep_view()[0] == files[0]@ && files.deep_view()[1] == files[1]@ && files.deep_view()[2]
            == files[2]@);
        proof {
            lemma_executable_texts_are_not_empty(name@, 20);
        }
        ProjectPlan { information, metadata_file, directories, files }
    }

    /// The report of the project's creation.
    pub fn creation_report_of(project: &ProjectMetaInformation) -> (report: String)
        ensures
            report@ == creation_report(project@),
    {
        let mut report = appended("created ", project.name.as_str());
        report.append(" from ");
        report.append(project.author.as_str());
        report
    }

    /// Repairing an existing project changes nothing and succeeds.
    pub fn repair_project(_location: String) -> (done: Result<(), ToolError>)
        ensures
            done is Ok,
    {
        Ok(())
    }

    /// The build descriptor of the project at `location`.
    pub fn create_cmake(location: String, project: &ProjectMetaInformation) -> (file: GeneratedFile)
        ensures
            file@ == descriptor_file(location@, project@.name),
            file.contents@.len() > 0,
    {
        proof {
            lemma_executable_texts_are_not_empty(project@.name, 20);
        }
        GeneratedFile {
            path: appended(location.as_str(), "/CMakeLists.txt"),
            contents: get_cmake_meta(ProjectType::DefaultExecutable, project.name.clone(), 20),
        }
    }

    /// The files that a new project starts with besides its build
    /// descriptor: an empty declaration file and the starter source file.
    pub fn create_project_files(location: String, project: &ProjectMetaInformation) -> (files: Vec<GeneratedFile>)
        ensures
            files.deep_view() == starter_files(location@, project@.name),
            files.len() == 2,
            files[0]@ == starter_files(location@, project@.name)[0],
            files[1]@ == starter_files(location@, project@.name)[1],
            files[1].contents@.len() > 0,
    {
        let mut files: Vec<GeneratedFile> = Vec::new();
        files.push(GeneratedFile { path: Self::declaration_file_of(location.as_str()), contents: String::new() });
        files.push(
            GeneratedFile {
                path: appended(location.as_str(), "/source_files/main.cpp"),
                contents: get_main_meta(ProjectType::DefaultExecutable, project.name.clone()),
            },
        );
        assert(files.deep_view() =~= starter_files(location@, project@.name));
        assert(files.deep_view()[0] == files[0]@ && files.deep_view()[1] == files[1]@);
        proof {
            lemma_executable_texts_are_not_empty(project@.name, 20);
        }
        files
    }
}

} // verus!
