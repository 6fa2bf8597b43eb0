//! Resolution of the wrapper and tool executables that a wrapper invocation names.
use vstd::prelude::*;
use crate::constants::{EXTERNAL_WRAPPER_KEYWORDS, COMPILER_KEYWORDS, LINKER_KEYWORDS, PROJECT_SIGNATURE, UNKNOWN_KEYWORD};
use crate::patterns::{regex_compiles, regex_is_match, fixed_pattern};
use crate::strings::{split_once, str_split_once, str_eq, to_owned_string, replace_char, str_replace_char};

verus! {

/// The (wrapper, tool) names for a source executable name, given whether it names a
/// wrapper (`ccache` keyword) and whether it also names a tool (compiler or linker
/// keyword), and the arguments it was called with.
///
/// A combined `<wrapper>-<tool>` name splits at its first `-`; a bare wrapper takes the
/// first argument as the tool; any other name is the tool itself, with no wrapper.
pub open spec fn names_for(name: Seq<char>, is_wrapper: bool, is_tool: bool, args: Seq<Seq<char>>) -> (Seq<char>, Seq<char>) {
    if is_wrapper {
        if is_tool {
            match split_once(name, '-') {
                Some((w, t)) => (w, t),
                None => (UNKNOWN_KEYWORD@, UNKNOWN_KEYWORD@),
            }
        } else {
            (name, args[0])
        }
    } else {
        (UNKNOWN_KEYWORD@, name)
    }
}

/// Splits a source executable name into its (wrapper, tool) names from the keyword
/// findings on it; a bare wrapper consumes the first argument as the tool.
pub fn split_executable_names(
    src_executable: &String,
    is_wrapper: bool,
    is_tool: bool,
    input_args: &mut Vec<String>,
) -> (res: (String, String))
    requires
        is_wrapper && !is_tool ==> old(input_args)@.len() > 0,
    ensures
        (res.0@, res.1@) == names_for(src_executable@, is_wrapper, is_tool, old(input_args).deep_view()),
        final(input_args).deep_view() == if is_wrapper && !is_tool {
            old(input_args).deep_view().drop_first()
        } else {
            old(input_args).deep_view()
        },
{
    if is_wrapper {
        if is_tool {
            match str_split_once(src_executable.as_str(), '-') {
                Some((wrapper, tool)) => (wrapper, tool),
                None => (to_owned_string(UNKNOWN_KEYWORD), to_owned_string(UNKNOWN_KEYWORD)),
            }
        } else {
            let ghost old_dv = input_args.deep_view();
            let tool = input_args.remove(0);
            assert(input_args.deep_view() =~= old_dv.drop_first());
            (src_executable.clone(), tool)
        }
    } else {
        (to_owned_string(UNKNOWN_KEYWORD), src_executable.clone())
    }
}

/// Whether the keyword patterns that name resolution uses all compile.
pub open spec fn name_patterns_compile() -> bool {
    regex_compiles(EXTERNAL_WRAPPER_KEYWORDS@) && regex_compiles(COMPILER_KEYWORDS@)
        && regex_compiles(LINKER_KEYWORDS@)
}

/// Whether a name carries the wrapper keyword.
pub open spec fn names_wrapper(name: Seq<char>) -> bool {
    regex_is_match(EXTERNAL_WRAPPER_KEYWORDS@, name)
}

/// Whether a name carries a compiler or linker keyword.
pub open spec fn names_tool(name: Seq<char>) -> bool {
    regex_is_match(COMPILER_KEYWORDS@, name) || regex_is_match(LINKER_KEYWORDS@, name)
}

/// Whether a name is a bare wrapper, which takes the tool from its first argument.
pub open spec fn is_bare_wrapper(name: Seq<char>) -> bool {
    names_wrapper(name) && !names_tool(name)
}

/// Splits the source executable name into its (wrapper, tool) pair.
///
/// For combined forms like `sccache-clang-cl` this gives (`sccache`, `clang-cl`); for bare
/// wrappers like `sccache` the first input argument is consumed as the tool; for other
/// names like `clang-cl` this gives (`UNKNOWN`, `clang-cl`).
pub fn get_executable_names(src_executable: &String, input_args: &mut Vec<String>) -> (res: (String, String))
    requires
        name_patterns_compile(),
        is_bare_wrapper(src_executable@) ==> old(input_args)@.len() > 0,
    ensures
        (res.0@, res.1@) == names_for(
            src_executable@,
            names_wrapper(src_executable@),
            names_tool(src_executable@),
            old(input_args).deep_view(),
        ),
        final(input_args).deep_view() == if is_bare_wrapper(src_executable@) {
            old(input_args).deep_view().drop_first()
        } else {
            old(input_args).deep_view()
        },
{
    let is_wrapper = fixed_pattern(EXTERNAL_WRAPPER_KEYWORDS).is_match(src_executable.as_str());
    let is_tool = if is_wrapper {
        fixed_pattern(COMPILER_KEYWORDS).is_match(src_executable.as_str())
            || fixed_pattern(LINKER_KEYWORDS).is_match(src_executable.as_str())
    } else {
        false
    };
    assert(is_wrapper ==> is_tool == names_tool(src_executable@));
    split_executable_names(src_executable, is_wrapper, is_tool, input_args)
}

/// How an executable name is turned into a path.
#[derive(Debug, Clone, Copy, PartialEq, Eq, Structural)]
pub enum ExecutableLookup {
    /// The name is unknown: there is no path.
    NotFound,
    /// The name is used as it is (an absolute path, or another wrapper of this project).
    AsIs,
    /// The name is looked up in the search paths.
    Search,
}

/// The lookup for a name, given whether the project signature matches it and whether it
/// is an absolute path.
pub open spec fn lookup_for(name: Seq<char>, is_project_wrapper: bool, is_absolute: bool) -> ExecutableLookup {
    if name == UNKNOWN_KEYWORD@ {
        ExecutableLookup::NotFound
    } else if is_project_wrapper || is_absolute {
        ExecutableLookup::AsIs
    } else {
        ExecutableLookup::Search
    }
}

/// Decides how the executable `name` is turned into a path; `is_absolute` says whether
/// it is an absolute path on this platform.
pub fn executable_lookup(name: &str, is_absolute: bool) -> (res: ExecutableLookup)
    requires
        regex_compiles(PROJECT_SIGNATURE@),
    ensures
        res == lookup_for(name@, regex_is_match(PROJECT_SIGNATURE@, name@), is_absolute),
{
    if str_eq(name, UNKNOWN_KEYWORD) {
        ExecutableLookup::NotFound
    } else if fixed_pattern(PROJECT_SIGNATURE).is_match(name) || is_absolute {
        ExecutableLookup::AsIs
    } else {
        ExecutableLookup::Search
    }
}

/// The path text for a lookup result: the found path, else `UNKNOWN`, with every `\`
/// turned into `/`.
pub open spec fn path_text(found: Option<Seq<char>>) -> Seq<char> {
    match found {
        Some(p) => replace_char(p, '\\', '/'),
        None => replace_char(UNKNOWN_KEYWORD@, '\\', '/'),
    }
}

fn path_text_exec(found: &Option<String>) -> (res: String)
    ensures
        res@ == path_text(match found { Some(p) => Some(p@), None => None }),
{
    match found {
        Some(p) => str_replace_char(p.as_str(), '\\', '/'),
        None => str_replace_char(UNKNOWN_KEYWORD, '\\', '/'),
    }
}

/// Resolves the (wrapper, tool) paths from what the search found for each name: the
/// found path with forward slashes, or `UNKNOWN` when nothing was found.
pub fn get_executable_paths(found: &(Option<String>, Option<String>)) -> (res: (String, String))
    ensures
        res.0@ == path_text(match found.0 { Some(p) => Some(p@), None => None }),
        res.1@ == path_text(match found.1 { Some(p) => Some(p@), None => None }),
{
    (path_text_exec(&found.0), path_text_exec(&found.1))
}

/// Determines the main (wrapper) and deputy (tool) executables: the deputy is the tool,
/// and the main executable is the wrapper when there is one, else the tool.
pub fn get_main_and_deputy_executable_paths(target_executable_names: &(String, String)) -> (res: (String, String))
    ensures
        res.1@ == target_executable_names.1@,
        res.0@ == if target_executable_names.0@ != UNKNOWN_KEYWORD@ {
            target_executable_names.0@
        } else {
            target_executable_names.1@
        },
{
    let deputy_executable = target_executable_names.1.clone();
    let main_executable = if !str_eq(target_executable_names.0.as_str(), UNKNOWN_KEYWORD) {
        target_executable_names.0.clone()
    } else {
        deputy_executable.clone()
    };
    (main_executable, deputy_executable)
}

} // verus!
