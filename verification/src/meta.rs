//! The text of the generated files, and the version that the build
//! generator reports of itself.

use crate::error::ToolError;
use crate::information_meta::ProjectType;
use crate::text::{decimal, decimal_of, replace, replaced};
use vstd::prelude::*;

verus! {

/// The starter source file, up to the first place of the identifier.
pub const MAIN_HEAD: &'static str = r"#include <iostream>

namespace ";

/// The starter source file, between the two places of the identifier.
pub const MAIN_BODY: &'static str = r" {
template<typename T> auto do_some(const T& out) -> void {
    std::cout << out << std::endl;
    }
}

auto main() -> int {
    ";

/// The starter source file, after the second place of the identifier.
pub const MAIN_TAIL: &'static str = r"::do_some(104);
}

            ";

/// The build descriptor, up to the project's identifier.
pub const CMAKE_HEAD: &'static str = r"cmake_minimum_required(VERSION 3.25)
project(";

/// The build descriptor, between the identifier and the language standard.
pub const CMAKE_STANDARD: &'static str = r")

set(CMAKE_CXX_STANDARD ";

/// The build descriptor, between the language standard and the name of the
/// executable.
pub const CMAKE_BODY: &'static str = r")

set(SOURCE_DIR source_files)
set(INCLUDE_DIR include_files)

include_directories(${INCLUDE_DIR})
file(GLOB SOURCE_FILES ${SOURCE_DIR}/*.cpp ${SOURCE_DIR}/*.c)

add_executable(";

/// The build descriptor, after the name of the executable.
pub const CMAKE_TAIL: &'static str = r" ${SOURCE_FILES})
                ";

/// The pattern that finds the build generator's version in what it prints.
pub const CMAKE_VERSION_PATTERN: &'static str = r"cmake version (\d+\.\d+\.\d+)";

/// The project's name as an identifier: every hyphen becomes an underscore.
pub open spec fn identifier(name: Seq<char>) -> Seq<char> {
    replaced(name, "-"@, "_"@)
}

/// The starter source file of a project: the identifier is written into
/// its two places, and nothing else of the text depends on the name.
pub open spec fn main_text(project_type: ProjectType, name: Seq<char>) -> Seq<char> {
    match project_type {
        ProjectType::DefaultExecutable => MAIN_HEAD@ + identifier(name) + MAIN_BODY@ + identifier(name)
            + MAIN_TAIL@,
        ProjectType::DefaultLibrary => Seq::<char>::empty(),
    }
}

/// The build descriptor of a project: the identifier names the project and
/// the executable, and the language standard is written in decimal.
pub open spec fn cmake_text(project_type: ProjectType, name: Seq<char>, cxx_version: u8) -> Seq<char> {
    match project_type {
        ProjectType::DefaultExecutable => CMAKE_HEAD@ + identifier(name) + CMAKE_STANDARD@ + decimal(
            cxx_version as nat,
        ) + CMAKE_BODY@ + identifier(name) + CMAKE_TAIL@,
        ProjectType::DefaultLibrary => Seq::<char>::empty(),
    }
}

/// The files of an executable are never empty.
pub proof fn lemma_executable_texts_are_not_empty(name: Seq<char>, cxx_version: u8)
    ensures
        main_text(ProjectType::DefaultExecutable, name).len() > 0,
        cmake_text(ProjectType::DefaultExecutable, name, cxx_version).len() > 0,
{
    reveal_strlit("::do_some(104);\n}\n\n            ");
    reveal_strlit(" ${SOURCE_FILES})\n                ");
    assert(MAIN_TAIL@.len() > 0);
    assert(CMAKE_TAIL@.len() > 0);
}

/// The identifier has a character for each character of the name: an
/// underscore for a hyphen, and the character itself for any other. So no
/// hyphen is left in it.
pub proof fn lemma_identifier(name: Seq<char>)
    ensures
        identifier(name).len() == name.len(),
        forall|i: int|
            0 <= i < name.len() ==> #[trigger] identifier(name)[i] == (if name[i] == '-' {
                '_'
            } else {
                name[i]
            }),
        !identifier(name).contains('-'),
    decreases name.len(),
{
    reveal_strlit("-");
    reveal_strlit("_");
    let from = "-"@;
    let to = "_"@;
    assert(from.len() == 1 && from[0] == '-');
    assert(to.len() == 1 && to[0] == '_');
    if name.len() > 0 {
        let rest = name.skip(1);
        lemma_identifier(rest);
        assert(from.is_prefix_of(name) <==> name[0] == '-') by {
            if name[0] == '-' {
                assert(from =~= name.subrange(0, 1));
            } else {
                assert(name.subrange(0, 1)[0] == name[0]);
            }
        }
        let head = if name[0] == '-' {
            to
        } else {
            seq![name[0]]
        };
        assert(identifier(name) == head + identifier(rest));
        assert forall|i: int| 0 <= i < name.len() implies #[trigger] identifier(name)[i] == (if name[i] == '-' {
            '_'
        } else {
            name[i]
        }) by {
            if i > 0 {
                assert(identifier(name)[i] == identifier(rest)[i - 1]);
                assert(rest[i - 1] == name[i]);
            }
        }
    }
    assert forall|i: int| 0 <= i < identifier(name).len() implies identifier(name)[i] != '-' by {}
}

/// An error of the `regex` crate: the pattern did not compile.
#[verifier::external_type_specification]
#[verifier::external_body]
pub struct ExRegexError(regex::Error);

/// Whether `pattern` compiles with the `regex` crate's own limits.
pub uninterp spec fn regex_compiles(pattern: Seq<char>) -> bool;

/// What capture group `group` of the leftmost match of `pattern` in
/// `haystack` holds, as the `regex` crate finds it; `None` where the pattern
/// does not match or the group took no part in the match.
pub uninterp spec fn regex_capture(pattern: Seq<char>, haystack: Seq<char>, group: nat) -> Option<Seq<char>>;

/// Compiles `pattern` with `regex::Regex::new`, searches `haystack` with
/// `Regex::captures` and reads group `group` with `Captures::get` and
/// `Match::as_str`. The call fails where the pattern does not compile and
/// nowhere else; the text handed back is the one that `regex_capture` names.
#[verifier::external_body]
fn capture_group(pattern: &str, haystack: &str, group: usize) -> (found: Result<Option<String>, regex::Error>)
    ensures
        found is Ok <==> regex_compiles(pattern@),
        found matches Ok(capture) ==> capture.deep_view() == regex_capture(pattern@, haystack@, group as nat),
{
    match regex::Regex::new(pattern) {
        Err(error) => Err(error),
        Ok(compiled) => match compiled.captures(haystack) {
            None => Ok(None),
            Some(captures) => match captures.get(group) {
                None => Ok(None),
                Some(matched) => Ok(Some(matched.as_str().to_owned())),
            },
        },
    }
}

/// The version that a search for it has found: the captured text, or a
/// failure where the pattern did not compile or nothing was captured.
pub fn cmake_version_of(found: Result<Option<String>, regex::Error>) -> (version: Result<String, ToolError>)
    ensures
        match found {
            Ok(Some(capture)) => version == Ok::<String, ToolError>(capture),
            _ => version == Err::<String, ToolError>(ToolError::ResolverFailure),
        },
{
    match found {
        Ok(Some(capture)) => Ok(capture),
        _ => Err(ToolError::ResolverFailure),
    }
}

/// The version of the build generator, read from `output`, what it prints
/// when asked for its version: the text that the pattern captures there.
/// Where the pattern captures nothing the version is refused.
pub fn get_cmake_version(output: &str) -> (version: Result<String, ToolError>)
    ensures
        version is Ok <==> (regex_compiles(CMAKE_VERSION_PATTERN@) && regex_capture(
            CMAKE_VERSION_PATTERN@,
            output@,
            1,
        ) is Some),
        version matches Ok(found) ==> regex_capture(CMAKE_VERSION_PATTERN@, output@, 1) == Some(found@),
        version matches Err(error) ==> error == ToolError::ResolverFailure,
{
    cmake_version_of(capture_group(CMAKE_VERSION_PATTERN, output, 1))
}

/// The starter source file of a project named `name`.
pub fn get_main_meta(project_type: ProjectType, name: String) -> (text: String)
    ensures
        text@ == main_text(project_type, name@),
{
    match project_type {
        ProjectType::DefaultExecutable => {
            let id = replace(name.as_str(), "-", "_");
            let mut text = MAIN_HEAD.to_owned();
            text.append(id.as_str());
            text.append(MAIN_BODY);
            text.append(id.as_str());
            text.append(MAIN_TAIL);
            text
        },
        ProjectType::DefaultLibrary => String::new(),
    }
}

/// The build descriptor of a project named `name`, for the language
/// standard `cxx_version`.
pub fn get_cmake_meta(project_type: ProjectType, name: String, cxx_version: u8) -> (text: String)
    ensures
        text@ == cmake_text(project_type, name@, cxx_version),
{
    match project_type {
        ProjectType::DefaultExecutable => {
            let id = replace(name.as_str(), "-", "_");
            let standard = decimal_of(cxx_version);
            let mut text = CMAKE_HEAD.to_owned();
            text.append(id.as_str());
            text.append(CMAKE_STANDARD);
            text.append(standard.as_str());
            text.append(CMAKE_BODY);
            text.append(id.as_str());
            text.append(CMAKE_TAIL);
            text
        },
        ProjectType::DefaultLibrary => String::new(),
    }
}

} // verus!
