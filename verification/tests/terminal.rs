use jtool::conan::{ConanDependency, ConanDependencyVersion};
use jtool::error::ToolError;
use jtool::information_meta::{DependencyInformation, ProjectMetaInformation, ProjectType};
use jtool::meta::{get_cmake_meta, get_main_meta};
use jtool::terminal::{
    after_command, check_path, check_result, executable_directory_of, get_argument, handle_result,
    AddStep, AfterCommand, JToolOrder, JToolStep, JToolTerminal, SessionStep,
};
use jtool::trace::Trace;

fn arguments(words: &[&str]) -> Vec<String> {
    words.iter().map(|word| word.to_string()).collect()
}

fn dependency(name: &str, version: &str, remote: &str) -> DependencyInformation {
    DependencyInformation { name: name.to_string(), version: version.to_string(), remote: remote.to_string() }
}

#[test]
fn test() {
}

#[test]
fn no_verb_yields_no_op() {
    assert_eq!(JToolTerminal::handle_arguments(&arguments(&[])), Ok(JToolStep::Finished(JToolOrder::NoOp)));
    assert_eq!(
        JToolTerminal::handle_arguments(&arguments(&["/opt/bin/rustyasync"])),
        Ok(JToolStep::Finished(JToolOrder::NoOp))
    );
    assert_eq!(
        JToolTerminal::handle_arguments(&arguments(&["add"])),
        Ok(JToolStep::Finished(JToolOrder::NoOp))
    );
}

#[test]
fn add_without_a_name_is_refused() {
    assert_eq!(
        JToolTerminal::handle_arguments(&arguments(&["/opt/bin/rustyasync", "add"])),
        Err(ToolError::MissingArgument)
    );
}

#[test]
fn dot_targets_the_directory_of_the_executable() {
    assert_eq!(
        JToolTerminal::handle_arguments(&arguments(&["/opt/bin/rustyasync", "."])),
        Ok(JToolStep::ClassifyPath("/opt/bin".to_string()))
    );
    assert_eq!(
        JToolTerminal::handle_arguments(&arguments(&["/a/b", "."])),
        Ok(JToolStep::ClassifyPath("/a".to_string()))
    );
}

#[test]
fn directory_of_the_executable() {
    assert_eq!(executable_directory_of("/opt/bin/rustyasync"), "/opt/bin");
    assert_eq!(executable_directory_of("/a/b"), "/a");
    assert_eq!(executable_directory_of("./target/debug/tool"), "./target/debug");
    assert_eq!(executable_directory_of("relative/tool"), "relative");
    assert_eq!(executable_directory_of("/opt/bin/"), "/opt/bin");
    assert_eq!(executable_directory_of("/opt//tool"), "/opt/");
    assert_eq!(executable_directory_of("/tool"), "/");
    assert_eq!(executable_directory_of("/"), "/");
    assert_eq!(executable_directory_of("tool"), ".");
    assert_eq!(executable_directory_of(""), ".");
}

#[test]
fn default_location_is_the_directory_of_the_executable() {
    assert_eq!(
        JToolTerminal::handle_arguments(&arguments(&["/a/b", "add", "boost"])),
        Ok(JToolStep::AddDependency(
            "/a".to_string(),
            ConanDependency::new("boost".to_string(), ConanDependencyVersion::Latest),
            "false".to_string()
        ))
    );
    assert_eq!(
        JToolTerminal::handle_arguments(&arguments(&["/a/b", "reload"])),
        Ok(JToolStep::ReloadDependencies("/a".to_string()))
    );
    assert_eq!(
        JToolTerminal::handle_arguments(&arguments(&["tool", "reload"])),
        Ok(JToolStep::ReloadDependencies(".".to_string()))
    );
}

#[test]
fn any_other_verb_is_a_path() {
    assert_eq!(
        JToolTerminal::handle_arguments(&arguments(&["/opt/bin/rustyasync", "/tmp/p", "--name=x"])),
        Ok(JToolStep::ClassifyPath("/tmp/p".to_string()))
    );
    assert_eq!(
        JToolTerminal::handle_arguments(&arguments(&["/opt/bin/rustyasync", "Add"])),
        Ok(JToolStep::ClassifyPath("Add".to_string()))
    );
}

#[test]
fn add_with_defaults() {
    assert_eq!(
        JToolTerminal::handle_arguments(&arguments(&["/opt/bin/rustyasync", "add", "boost"])),
        Ok(JToolStep::AddDependency(
            "/opt/bin".to_string(),
            ConanDependency::new("boost".to_string(), ConanDependencyVersion::Latest),
            "false".to_string()
        ))
    );
}

#[test]
fn add_with_named_arguments_in_any_order() {
    let expected = Ok(JToolStep::AddDependency(
        "/tmp/p".to_string(),
        ConanDependency::new("boost".to_string(), ConanDependencyVersion::Version("1.83.0".to_string())),
        "true".to_string(),
    ));
    assert_eq!(
        JToolTerminal::handle_arguments(&arguments(&[
            "/opt/bin/rustyasync",
            "add",
            "boost",
            "--version=1.83.0",
            "--remote=true",
            "--path=/tmp/p"
        ])),
        expected
    );
    assert_eq!(
        JToolTerminal::handle_arguments(&arguments(&[
            "/opt/bin/rustyasync",
            "add",
            "boost",
            "--path=/tmp/p",
            "--remote=true",
            "--version=1.83.0",
            "--version=2.0.0"
        ])),
        expected
    );
}

#[test]
fn reload_with_and_without_path() {
    assert_eq!(
        JToolTerminal::handle_arguments(&arguments(&["/opt/bin/rustyasync", "reload"])),
        Ok(JToolStep::ReloadDependencies("/opt/bin".to_string()))
    );
    assert_eq!(
        JToolTerminal::handle_arguments(&arguments(&["/opt/bin/rustyasync", "reload", "--path=/tmp/p"])),
        Ok(JToolStep::ReloadDependencies("/tmp/p".to_string()))
    );
}

#[test]
fn first_matching_token_wins() {
    let list = arguments(&["exe", "add", "--version=1", "x--version=2", "--version=3"]);
    assert_eq!(get_argument("version".to_string(), &list), Some("1".to_string()));
    assert_eq!(get_argument("path".to_string(), &list), None);
    assert_eq!(get_argument("version".to_string(), &arguments(&[])), None);
    assert_eq!(get_argument("version".to_string(), &arguments(&["--version"])), None);
    assert_eq!(get_argument("version".to_string(), &arguments(&["--version="])), Some("".to_string()));
    assert_eq!(
        get_argument("name".to_string(), &arguments(&["--name=a--name=b"])),
        Some("ab".to_string())
    );
}

#[test]
fn classification_of_a_path() {
    assert!(check_path(false, false));
    assert!(check_path(false, true));
    assert!(check_path(true, false));
    assert!(!check_path(true, true));
}

#[test]
fn classification_is_idempotent() {
    for exists in [false, true] {
        for has_marker in [false, true] {
            assert_eq!(check_path(exists, has_marker), check_path(exists, has_marker));
        }
    }
}

#[test]
fn new_path_is_created_under_the_given_name() {
    let list = arguments(&["exe", "/tmp/p", "--name=engine", "--name=other"]);
    assert_eq!(
        handle_result(true, &list, "/tmp/p".to_string()),
        JToolOrder::CreateProject("engine".to_string(), "/tmp/p".to_string(), None, None)
    );
}

#[test]
fn new_path_is_created_as_demo_by_default() {
    let list = arguments(&["exe", "/tmp/p"]);
    assert_eq!(
        handle_result(true, &list, "/tmp/p".to_string()),
        JToolOrder::CreateProject("demo".to_string(), "/tmp/p".to_string(), None, None)
    );
}

#[test]
fn existing_project_is_repaired() {
    let list = arguments(&["exe", "/tmp/p", "--name=engine"]);
    assert_eq!(handle_result(false, &list, "/tmp/p".to_string()), JToolOrder::RepairProject("/tmp/p".to_string()));
    assert_eq!(JToolTerminal::repair_project("/tmp/p".to_string()), Ok(()));
}

#[test]
fn finish_names_the_order_of_each_step() {
    let list = arguments(&["exe", "/tmp/p", "--name=engine"]);
    assert_eq!(
        JToolTerminal::finish(JToolStep::Finished(JToolOrder::NoOp), true, true, &list),
        JToolOrder::NoOp
    );
    assert_eq!(
        JToolTerminal::finish(JToolStep::ClassifyPath("/tmp/p".to_string()), false, false, &list),
        JToolOrder::CreateProject("engine".to_string(), "/tmp/p".to_string(), None, None)
    );
    assert_eq!(
        JToolTerminal::finish(JToolStep::ClassifyPath("/tmp/p".to_string()), true, false, &list),
        JToolOrder::CreateProject("engine".to_string(), "/tmp/p".to_string(), None, None)
    );
    assert_eq!(
        JToolTerminal::finish(JToolStep::ClassifyPath("/tmp/p".to_string()), true, true, &list),
        JToolOrder::RepairProject("/tmp/p".to_string())
    );
    let draft = ConanDependency::new("boost".to_string(), ConanDependencyVersion::Latest);
    assert_eq!(
        JToolTerminal::finish(
            JToolStep::AddDependency("/tmp/p".to_string(), draft, "false".to_string()),
            true,
            true,
            &list
        ),
        JToolOrder::NoOp
    );
    assert_eq!(
        JToolTerminal::finish(JToolStep::ReloadDependencies("/tmp/p".to_string()), false, false, &list),
        JToolOrder::NoOp
    );
}

#[test]
fn create_project_scenario() {
    let plan = JToolTerminal::create_project("demo".to_string(), "/tmp/p".to_string(), None, None);
    assert_eq!(plan.information.name, "demo");
    assert_eq!(plan.information.version, "1.0.1");
    assert_eq!(plan.information.author, "unknown");
    assert_eq!(plan.information.dependencies, vec![]);
    assert_eq!(plan.metadata_file, "/tmp/p/project.json");
    assert_eq!(JToolTerminal::metadata_file_of("/tmp/p"), "/tmp/p/project.json");
    assert_eq!(
        plan.directories,
        vec![
            "/tmp/p/source_files".to_string(),
            "/tmp/p/include_files".to_string(),
            "/tmp/p/build".to_string(),
            "/tmp/p/logs".to_string(),
            "/tmp/p/bin".to_string()
        ]
    );
    assert_eq!(plan.files.len(), 3);
    assert_eq!(plan.files[0].path, "/tmp/p/CMakeLists.txt");
    assert!(!plan.files[0].contents.is_empty());
    assert!(plan.files[0].contents.contains("project(demo)"));
    assert!(plan.files[0].contents.contains("set(CMAKE_CXX_STANDARD 20)"));
    assert_eq!(plan.files[0], JToolTerminal::create_cmake("/tmp/p".to_string(), &plan.information));
    assert_eq!(
        plan.files[0].contents,
        get_cmake_meta(ProjectType::DefaultExecutable, "demo".to_string(), 20)
    );
    assert_eq!(plan.files[1].path, "/tmp/p/conanfile.txt");
    assert_eq!(plan.files[1].path, JToolTerminal::declaration_file_of("/tmp/p"));
    assert_eq!(plan.files[1].contents, "");
    assert_eq!(plan.files[2].path, "/tmp/p/source_files/main.cpp");
    assert!(!plan.files[2].contents.is_empty());
    assert_eq!(plan.files[2].contents, get_main_meta(ProjectType::DefaultExecutable, "demo".to_string()));
    let files = JToolTerminal::create_project_files("/tmp/p".to_string(), &plan.information);
    assert_eq!(files, plan.files[1..].to_vec());
    assert_eq!(JToolTerminal::creation_report_of(&plan.information), "created demo from unknown");
}

#[test]
fn create_project_with_version_and_author() {
    let plan = JToolTerminal::create_project(
        "engine".to_string(),
        "/srv".to_string(),
        Some("2.0.0".to_string()),
        Some("ada".to_string()),
    );
    assert_eq!(
        plan.information,
        ProjectMetaInformation {
            name: "engine".to_string(),
            version: "2.0.0".to_string(),
            author: "ada".to_string(),
            dependencies: vec![]
        }
    );
    assert_eq!(
        plan.information,
        ProjectMetaInformation::new("engine".to_string(), "2.0.0".to_string(), "ada".to_string())
    );
}

#[test]
fn add_dependency_scenario() {
    let mut project = ProjectMetaInformation::new("demo".to_string(), "1.0.1".to_string(), "unknown".to_string());
    let draft = ConanDependency::new("boost".to_string(), ConanDependencyVersion::Latest);
    assert_eq!(JToolTerminal::plan_dependency(&draft, "false"), Ok(AddStep::LookUpLatest));
    let settled = draft.with_latest_version("boost/1.83.0").unwrap();
    assert_eq!(JToolTerminal::add_dependency_to_project(&mut project, settled, "false".to_string()), Ok(()));
    assert_eq!(project.dependencies, vec![dependency("boost", "1.83.0", "conancenter")]);
    assert_eq!(project.name, "demo");
    assert_eq!(project.version, "1.0.1");
    assert_eq!(project.author, "unknown");
}

#[test]
fn add_dependency_appends_in_order_and_keeps_duplicates() {
    let mut project = ProjectMetaInformation::new("demo".to_string(), "1.0.1".to_string(), "unknown".to_string());
    for version in ["1.0", "2.0", "1.0"] {
        let draft = ConanDependency::new("zlib".to_string(), ConanDependencyVersion::Version(version.to_string()));
        assert_eq!(JToolTerminal::plan_dependency(&draft, "false"), Ok(AddStep::Append));
        assert_eq!(JToolTerminal::add_dependency_to_project(&mut project, draft, "false".to_string()), Ok(()));
    }
    assert_eq!(
        project.dependencies,
        vec![
            dependency("zlib", "1.0", "conancenter"),
            dependency("zlib", "2.0", "conancenter"),
            dependency("zlib", "1.0", "conancenter")
        ]
    );
}

#[test]
fn add_dependency_from_another_remote_is_unsupported() {
    let mut project = ProjectMetaInformation::new("demo".to_string(), "1.0.1".to_string(), "unknown".to_string());
    let before = project.clone();
    for selector in ["true", "", "False", "false "] {
        let draft = ConanDependency::new("boost".to_string(), ConanDependencyVersion::Version("1.83.0".to_string()));
        assert_eq!(JToolTerminal::plan_dependency(&draft, selector), Err(ToolError::UnsupportedOperation));
        assert_eq!(
            JToolTerminal::add_dependency_to_project(&mut project, draft, selector.to_string()),
            Err(ToolError::UnsupportedOperation)
        );
        assert_eq!(project, before);
    }
}

#[test]
fn add_dependency_never_persists_the_sentinel() {
    let mut project = ProjectMetaInformation::new("demo".to_string(), "1.0.1".to_string(), "unknown".to_string());
    let before = project.clone();
    let drafts = [ConanDependencyVersion::Latest, ConanDependencyVersion::Version("none".to_string())];
    for version in drafts {
        let draft = ConanDependency::new("boost".to_string(), version);
        assert_eq!(JToolTerminal::plan_dependency(&draft, "false"), Ok(AddStep::LookUpLatest));
        assert_eq!(
            JToolTerminal::add_dependency_to_project(&mut project, draft, "false".to_string()),
            Err(ToolError::ResolverFailure)
        );
        assert_eq!(project, before);
    }
}

#[test]
fn given_version_is_appended_as_it_is() {
    let mut project = ProjectMetaInformation::new("demo".to_string(), "1.0.1".to_string(), "unknown".to_string());
    for version in ["1.83.0", "", " 1.0 ", "None"] {
        let draft = ConanDependency::new("boost".to_string(), ConanDependencyVersion::Version(version.to_string()));
        assert_eq!(JToolTerminal::plan_dependency(&draft, "false"), Ok(AddStep::Append));
        assert_eq!(JToolTerminal::add_dependency_to_project(&mut project, draft, "false".to_string()), Ok(()));
        assert_eq!(project.dependencies.last(), Some(&dependency("boost", version, "conancenter")));
    }
    assert_eq!(project.dependencies.len(), 4);
}

#[test]
fn reload_scenario() {
    let mut project = ProjectMetaInformation::new("demo".to_string(), "1.0.1".to_string(), "unknown".to_string());
    project.dependencies.push(dependency("boost", "1.83.0", "conancenter"));
    project.dependencies.push(dependency("private", "0.1.0", "other"));
    assert_eq!(JToolTerminal::reload_project_dependencies(&project), "boost/1.83.0\n");
}

#[test]
fn reload_log_holds_the_whole_output() {
    let log = JToolTerminal::reload_log("/tmp/p", "28_10_2026-12_30_05_log", "installing\nboost: done\n\n");
    assert_eq!(log.path, "/tmp/p/logs/28_10_2026-12_30_05_log");
    assert_eq!(log.contents, "installing\nboost: done\n\n");
    let later = JToolTerminal::reload_log("/tmp/p", "28_10_2026-12_30_06_log", "");
    assert_ne!(later.path, log.path);
    assert_eq!(later.contents, "");
}

#[test]
fn reload_declares_in_order_of_declaration() {
    let mut project = ProjectMetaInformation::new("demo".to_string(), "1.0.1".to_string(), "unknown".to_string());
    assert_eq!(JToolTerminal::reload_project_dependencies(&project), "");
    project.dependencies.push(dependency("zlib", "1.3", "conancenter"));
    project.dependencies.push(dependency("private", "0.1.0", "Conancenter"));
    project.dependencies.push(dependency("boost", "1.83.0", "conancenter"));
    project.dependencies.push(dependency("zlib", "1.3", "conancenter"));
    assert_eq!(JToolTerminal::reload_project_dependencies(&project), "zlib/1.3\nboost/1.83.0\nzlib/1.3\n");
}

#[test]
fn interactive_scenario() {
    let first = check_result("/opt/bin/rustyasync", Some("add boost --version=1.83.0\n"));
    let expected = arguments(&["/opt/bin/rustyasync", "add", "boost", "--version=1.83.0"]);
    assert_eq!(first, SessionStep::Interpret(expected.clone()));
    let step = JToolTerminal::handle_arguments(&expected).unwrap();
    let draft = ConanDependency::new("boost".to_string(), ConanDependencyVersion::Version("1.83.0".to_string()));
    assert_eq!(step, JToolStep::AddDependency("/opt/bin".to_string(), draft.clone(), "false".to_string()));
    assert_eq!(JToolTerminal::plan_dependency(&draft, "false"), Ok(AddStep::Append));
    let mut project = ProjectMetaInformation::new("demo".to_string(), "1.0.1".to_string(), "unknown".to_string());
    assert_eq!(JToolTerminal::add_dependency_to_project(&mut project, draft, "false".to_string()), Ok(()));
    assert_eq!(project.dependencies, vec![dependency("boost", "1.83.0", "conancenter")]);
    assert_eq!(check_result("/opt/bin/rustyasync", Some("quit\n")), SessionStep::Leave);
}

#[test]
fn session_ends_at_quit_and_at_the_end_of_input() {
    assert_eq!(check_result("exe", None), SessionStep::Leave);
    assert_eq!(check_result("exe", Some("quit")), SessionStep::Leave);
    assert_eq!(check_result("exe", Some("quit  \r\n")), SessionStep::Leave);
    assert_eq!(check_result("exe", Some("Quit")), SessionStep::Interpret(arguments(&["exe", "Quit"])));
    assert_eq!(check_result("exe", Some(" quit")), SessionStep::Interpret(arguments(&["exe", "", "quit"])));
    assert_eq!(check_result("exe", Some("\n")), SessionStep::Interpret(arguments(&["exe", ""])));
    assert_eq!(
        check_result("exe", Some("reload  --path=/tmp/p")),
        SessionStep::Interpret(arguments(&["exe", "reload", "", "--path=/tmp/p"]))
    );
}

#[test]
fn failing_line_does_not_end_the_session() {
    let step = check_result("exe", Some("add"));
    assert_eq!(step, SessionStep::Interpret(arguments(&["exe", "add"])));
    assert_eq!(JToolTerminal::handle_arguments(&arguments(&["exe", "add"])), Err(ToolError::MissingArgument));
    assert_eq!(check_result("exe", Some("reload")), SessionStep::Interpret(arguments(&["exe", "reload"])));
}

#[test]
fn failing_command_is_reported_and_the_session_goes_on() {
    assert_eq!(after_command(Ok(())), AfterCommand::Await);
    assert_eq!(
        after_command(Err(ToolError::MissingArgument)),
        AfterCommand::Report(ToolError::MissingArgument.message())
    );
    assert_eq!(
        after_command(Err(ToolError::IOFailure)),
        AfterCommand::Report("a file, directory or process could not be used".to_string())
    );
}

#[test]
fn trace_lines() {
    assert_eq!(Trace::info("12:30:05", "created demo from unknown"), "12:30:05 | INFO » created demo from unknown.");
    assert_eq!(Trace::error("00:00:00", "no such file"), "00:00:00 | ERROR » no such file.");
    assert_eq!(Trace::info("", ""), " | INFO » .");
}

#[test]
fn every_error_has_its_message() {
    let errors = [
        ToolError::MissingArgument,
        ToolError::UnsupportedOperation,
        ToolError::IOFailure,
        ToolError::SerializationFailure,
        ToolError::ResolverFailure,
    ];
    for (i, first) in errors.iter().enumerate() {
        assert!(!first.message().is_empty());
        for (j, second) in errors.iter().enumerate() {
            assert_eq!(first.message() == second.message(), i == j);
        }
    }
    assert_eq!(ToolError::MissingArgument.message(), "a required argument is missing");
}
