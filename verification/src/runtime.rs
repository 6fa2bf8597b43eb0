//! The stages of one wrapper run, from the invoked name to the final command line.
//!
//! Looking executables up on disk and writing response files happen between the stages,
//! outside this library; each stage takes what they produced as plain values.
use vstd::prelude::*;
use crate::classification::{
    ExecutableFamily, ExecutableKind, get_target_classification, get_args_filter_pack,
    classification_of, classification_patterns_compile, has_filter_pack, filter_pack_compiles,
    bad_flags_for, swap_pairs_for, extra_flags_for, filter_pack_available,
};
use crate::constants::{EXTERNAL_WRAPPER_KEYWORDS, COMPILER_KEYWORDS, LINKER_KEYWORDS, LLVM_KEYWORDS,
    MSVC_KEYWORDS, GCC_KEYWORDS, PROJECT_SIGNATURE, SPLIT_FUSED_FLAGS, UNKNOWN_KEYWORD};
use crate::executable::{
    ExecutableLookup, get_executable_names, get_executable_paths,
    get_main_and_deputy_executable_paths, executable_lookup, lookup_for, names_for, names_wrapper,
    names_tool, is_bare_wrapper, name_patterns_compile, path_text,
};
use crate::filter::{FilterConfig, filter_args, filter_spec, response_file_needed, response_file_required, response_file_argument};
use crate::patterns::{FlagPattern, regex_compiles, regex_is_match};
use crate::strings::{trim_end_matches, str_trim_end_matches, str_eq, concat_str};

verus! {

/// The characters after the last `/` of `p` (all of `p` when it has none).
pub open spec fn after_last_slash(p: Seq<char>) -> Seq<char>
    decreases p.len(),
{
    if p.len() == 0 || p.last() == '/' {
        seq![]
    } else {
        after_last_slash(p.drop_last()).push(p.last())
    }
}

/// A path made of non-empty `/`-separated segments, relative or rooted at a leading `/`,
/// whose last segment is neither `.` nor `..`, with no `\` (so `/` is its only separator on
/// every platform) and, where it holds a `:`, a `/` too (so that a drive prefix such as
/// `C:` can only stand before a separator). Its final component is its last segment on
/// every platform.
pub open spec fn is_plain_path(p: Seq<char>) -> bool {
    &&& p.len() > 0
    &&& !p.contains('\\')
    &&& (p.contains(':') ==> p.contains('/'))
    &&& p.last() != '/'
    &&& forall|i: int| 0 <= i < p.len() - 1 ==> !(#[trigger] p[i] == '/' && p[i + 1] == '/')
    &&& after_last_slash(p) != "."@
    &&& after_last_slash(p) != ".."@
}

/// Reads the final component of a path with `std::path::Path::file_name`, as text.
/// Claimed: for a plain path (see [`is_plain_path`]), such as `src/clang.rs`,
/// `/opt/w/src/clang.rs` or `C:/w/src/clang.rs`, the result is its last segment, which `/`
/// separates on every platform. Nothing is claimed of other paths: there the result
/// depends on the platform's path rules.
#[verifier::external_body]
fn path_file_name(path: &str) -> (res: Option<String>)
    ensures
        res is None ==> !is_plain_path(path@),
        res matches Some(n) ==> (is_plain_path(path@) ==> n@ == after_last_slash(path@)),
{
    std::path::Path::new(path).file_name().and_then(|n| n.to_str()).map(|s| s.to_string())
}

/// Asks `std::path::Path::is_absolute` about `path`.
/// Nothing is claimed of the result: it depends on the platform's path rules.
#[verifier::external_body]
fn path_is_absolute(path: &str) -> (res: bool) {
    std::path::Path::new(path).is_absolute()
}

/// The executable name of a wrapper whose source file has the given file name: the file
/// name without its trailing `.rs`.
pub fn executable_name_from_file_name(file_name: &str) -> (res: String)
    ensures
        res@ == trim_end_matches(file_name@, ".rs"@),
{
    str_trim_end_matches(file_name, ".rs")
}

/// The executable name of a wrapper from the path of its source file: its final
/// component without the trailing `.rs`; `None` when the path has no final component
/// that is text. For a plain path (see [`is_plain_path`]) such as `src/clang.rs` the name
/// is owed.
pub fn source_executable_name(src_file: &str) -> (res: Option<String>)
    ensures
        res matches Some(name) ==> exists|f: Seq<char>| name@ == trim_end_matches(f, ".rs"@),
        is_plain_path(src_file@) ==> (res matches Some(name)
            && name@ == trim_end_matches(after_last_slash(src_file@), ".rs"@)),
{
    match path_file_name(src_file) {
        Some(f) => Some(executable_name_from_file_name(f.as_str())),
        None => None,
    }
}

/// Settings of a run that come from the environment.
pub struct RuntimeSettings {
    /// Pass the arguments through without any processing.
    pub passthrough: bool,
    /// Route `clang-cl` down the LLVM family instead of the MSVC one.
    pub clang_cl_is_llvm: bool,
    /// The filter configuration.
    pub filter: FilterConfig,
}

/// A run whose executable names are known and whose paths are yet to be looked up.
pub struct PendingLookup {
    pub src_file: String,
    pub src_executable: String,
    /// The arguments, without the tool name that a bare wrapper consumed.
    pub input_args: Vec<String>,
    pub target_executable_names: (String, String),
    /// Whether the wrapper name is an absolute path on this platform.
    pub wrapper_is_absolute: bool,
    /// Whether the tool name is an absolute path on this platform.
    pub tool_is_absolute: bool,
    /// How the wrapper name is turned into a path.
    pub wrapper_lookup: ExecutableLookup,
    /// How the tool name is turned into a path.
    pub tool_lookup: ExecutableLookup,
}

/// Whether the keyword patterns of the first stage all compile.
pub open spec fn lookup_patterns_compile() -> bool {
    name_patterns_compile() && regex_compiles(PROJECT_SIGNATURE@)
}

/// First stage: the executable names and how to look them up. `None` when a keyword
/// pattern does not compile, or when a bare wrapper is called without arguments.
pub fn begin_run(src_file: String, src_executable: String, input_args: Vec<String>) -> (res: Option<PendingLookup>)
    ensures
        res is Some <==> lookup_patterns_compile() && (is_bare_wrapper(src_executable@) ==> input_args@.len() > 0),
        res matches Some(p) ==> {
            &&& p.src_file == src_file
            &&& p.src_executable == src_executable
            &&& (p.target_executable_names.0@, p.target_executable_names.1@) == names_for(
                src_executable@, names_wrapper(src_executable@), names_tool(src_executable@), input_args.deep_view())
            &&& p.input_args.deep_view() == if is_bare_wrapper(src_executable@) {
                input_args.deep_view().drop_first()
            } else {
                input_args.deep_view()
            }
            &&& p.wrapper_lookup == lookup_for(p.target_executable_names.0@,
                regex_is_match(PROJECT_SIGNATURE@, p.target_executable_names.0@), p.wrapper_is_absolute)
            &&& p.tool_lookup == lookup_for(p.target_executable_names.1@,
                regex_is_match(PROJECT_SIGNATURE@, p.target_executable_names.1@), p.tool_is_absolute)
        },
{
    if FlagPattern::compile(EXTERNAL_WRAPPER_KEYWORDS).is_none() || FlagPattern::compile(COMPILER_KEYWORDS).is_none()
        || FlagPattern::compile(LINKER_KEYWORDS).is_none() || FlagPattern::compile(PROJECT_SIGNATURE).is_none() {
        return None;
    }
    let wrapper = FlagPattern::compile(EXTERNAL_WRAPPER_KEYWORDS).unwrap().is_match(src_executable.as_str());
    let tool = FlagPattern::compile(COMPILER_KEYWORDS).unwrap().is_match(src_executable.as_str())
        || FlagPattern::compile(LINKER_KEYWORDS).unwrap().is_match(src_executable.as_str());
    if wrapper && !tool && input_args.len() == 0 {
        return None;
    }
    let mut args = input_args;
    let names = get_executable_names(&src_executable, &mut args);
    let wrapper_is_absolute = path_is_absolute(names.0.as_str());
    let tool_is_absolute = path_is_absolute(names.1.as_str());
    let wrapper_lookup = executable_lookup(names.0.as_str(), wrapper_is_absolute);
    let tool_lookup = executable_lookup(names.1.as_str(), tool_is_absolute);
    Some(PendingLookup {
        src_file,
        src_executable,
        input_args: args,
        target_executable_names: names,
        wrapper_is_absolute,
        tool_is_absolute,
        wrapper_lookup,
        tool_lookup,
    })
}

/// A run whose paths and classification are known and whose arguments are filtered, with
/// the response-file decision taken.
pub struct PendingArguments {
    pub src_file: String,
    pub src_executable: String,
    pub input_args: Vec<String>,
    pub target_executable_names: (String, String),
    pub target_executable_paths: (String, String),
    pub target_classification: (ExecutableFamily, ExecutableKind),
    pub main_exe: String,
    pub deputy_exe: String,
    /// The arguments after the filter pipeline (or as they came, in passthrough mode).
    pub filtered_args: Vec<String>,
    /// Whether the filtered arguments are to go into a response file.
    pub response_file_wanted: bool,
}

/// The arguments a run hands on before any response file: the input unchanged in
/// passthrough mode, else the filter pipeline with the classification's filter pack.
pub open spec fn planned_args(
    input: Seq<Seq<char>>,
    c: (ExecutableFamily, ExecutableKind),
    settings: RuntimeSettings,
) -> Seq<Seq<char>> {
    if settings.passthrough {
        input
    } else {
        filter_spec(input, settings.filter, bad_flags_for(c), swap_pairs_for(c), extra_flags_for(c), c.0)
    }
}

/// Whether the patterns that the second stage needs all compile for a classification.
pub open spec fn argument_patterns_compile(c: (ExecutableFamily, ExecutableKind), settings: RuntimeSettings) -> bool {
    classification_patterns_compile() && (!settings.passthrough ==> {
        &&& filter_pack_compiles(c)
        &&& (!settings.filter.skip_split ==> regex_compiles(SPLIT_FUSED_FLAGS@))
    })
}

impl PendingLookup {
    /// Second stage: given what the lookups found for the wrapper and the tool, resolve
    /// the paths, classify the deputy, filter the arguments and decide on a response file.
    /// `None` when a pattern does not compile, or when filtering is asked for and the
    /// deputy's classification has no filter pack.
    pub fn resolve(self, found: (Option<String>, Option<String>), settings: &RuntimeSettings) -> (res: Option<PendingArguments>)
        ensures
            ({
                let paths = (path_text(match found.0 { Some(p) => Some(p@), None => None }),
                    path_text(match found.1 { Some(p) => Some(p@), None => None }));
                let c = classification_of(paths.1, settings.clang_cl_is_llvm);
                &&& res is Some <==> classification_patterns_compile() && argument_patterns_compile(c, *settings)
                    && (settings.passthrough || has_filter_pack(c))
                &&& res matches Some(a) ==> {
                    &&& a.src_file == self.src_file
                    &&& a.src_executable == self.src_executable
                    &&& a.input_args == self.input_args
                    &&& a.target_executable_names == self.target_executable_names
                    &&& (a.target_executable_paths.0@, a.target_executable_paths.1@) == paths
                    &&& a.deputy_exe@ == paths.1
                    &&& a.main_exe@ == if paths.0 != UNKNOWN_KEYWORD@ { paths.0 } else { paths.1 }
                    &&& a.target_classification == c
                    &&& a.filtered_args.deep_view() == planned_args(self.input_args.deep_view(), c, *settings)
                    &&& a.response_file_wanted == (!settings.passthrough && response_file_required(
                        a.filtered_args.deep_view(), settings.filter.force_response_files,
                        settings.filter.args_char_limit as nat))
                }
            }),
    {
        let paths = get_executable_paths(&found);
        let (main_exe, deputy_exe) = get_main_and_deputy_executable_paths(&paths);
        if FlagPattern::compile(LLVM_KEYWORDS).is_none() || FlagPattern::compile(MSVC_KEYWORDS).is_none()
            || FlagPattern::compile(GCC_KEYWORDS).is_none() || FlagPattern::compile(COMPILER_KEYWORDS).is_none()
            || FlagPattern::compile(LINKER_KEYWORDS).is_none() {
            return None;
        }
        let classification = get_target_classification(deputy_exe.as_str(), settings.clang_cl_is_llvm);
        let (filtered_args, response_file_wanted) = if settings.passthrough {
            (self.input_args.clone(), false)
        } else {
            if classification.0 == ExecutableFamily::Unknown || classification.1 == ExecutableKind::Unknown {
                return None;
            }
            if !filter_pack_available(classification) {
                return None;
            }
            if !settings.filter.skip_split && FlagPattern::compile(SPLIT_FUSED_FLAGS).is_none() {
                return None;
            }
            let (bad_flags, swap_pairs, extra_flags) = get_args_filter_pack(classification);
            let filtered = filter_args(
                self.input_args.clone(),
                &bad_flags,
                swap_pairs.as_slice(),
                extra_flags.as_str(),
                &settings.filter,
                classification.0,
            );
            let wanted = response_file_needed(&filtered, &settings.filter);
            (filtered, wanted)
        };
        Some(PendingArguments {
            src_file: self.src_file,
            src_executable: self.src_executable,
            input_args: self.input_args,
            target_executable_names: self.target_executable_names,
            target_executable_paths: paths,
            target_classification: classification,
            main_exe,
            deputy_exe,
            filtered_args,
            response_file_wanted,
        })
    }
}

/// Holds what one run of a wrapper worked out.
pub struct Runtime {
    pub src_file: String,
    pub src_executable: String,
    pub input_args: Vec<String>,
    pub target_executable_names: (String, String),
    pub target_executable_paths: (String, String),
    pub target_classification: (ExecutableFamily, ExecutableKind),
    pub main_exe: String,
    pub deputy_exe: String,
    pub final_args: Vec<String>,
    pub expect: String,
}

/// The arguments handed to the main executable: the response-file argument when a
/// response file was written at `response_file`, else the filtered arguments; with the
/// deputy in front when a wrapper drives it.
pub open spec fn final_args_for(
    filtered: Seq<Seq<char>>,
    response_file: Option<Seq<char>>,
    wrapper_name: Seq<char>,
    deputy: Seq<char>,
) -> Seq<Seq<char>> {
    let args = match response_file {
        Some(path) => seq![seq!['@'] + path],
        None => filtered,
    };
    if wrapper_name != UNKNOWN_KEYWORD@ { seq![deputy] + args } else { args }
}

impl PendingArguments {
    /// Last stage: build the command line, given the path of the response file that was
    /// written (`None` when none was wanted or it could not be written).
    pub fn finish(self, response_file: Option<String>) -> (res: Runtime)
        ensures
            res.src_file == self.src_file,
            res.src_executable == self.src_executable,
            res.input_args == self.input_args,
            res.target_executable_names == self.target_executable_names,
            res.target_executable_paths == self.target_executable_paths,
            res.target_classification == self.target_classification,
            res.main_exe == self.main_exe,
            res.deputy_exe == self.deputy_exe,
            res.final_args.deep_view() == final_args_for(
                self.filtered_args.deep_view(),
                match response_file { Some(p) => Some(p@), None => None },
                self.target_executable_names.0@,
                self.deputy_exe@,
            ),
            res.expect@ == self.deputy_exe@ + " died"@,
    {
        let mut final_args = match response_file {
            Some(path) => {
                let arg = response_file_argument(path.as_str());
                let v = vec![arg];
                assert(v.deep_view() =~= seq![seq!['@'] + path@]);
                v
            },
            None => self.filtered_args,
        };
        if !str_eq(self.target_executable_names.0.as_str(), UNKNOWN_KEYWORD) {
            let ghost before = final_args.deep_view();
            final_args.insert(0, self.deputy_exe.clone());
            assert(final_args.deep_view() =~= seq![self.deputy_exe@] + before);
        }
        let expect = concat_str(self.deputy_exe.as_str(), " died");
        Runtime {
            src_file: self.src_file,
            src_executable: self.src_executable,
            input_args: self.input_args,
            target_executable_names: self.target_executable_names,
            target_executable_paths: self.target_executable_paths,
            target_classification: self.target_classification,
            main_exe: self.main_exe,
            deputy_exe: self.deputy_exe,
            final_args,
            expect,
        }
    }
}

} // verus!
