//! Argument handling for wrappers around C/C++ compilers and linkers: classifying the
//! target tool, resolving the wrapper and tool names, rewriting the command line (split,
//! drop, swap and add flags) and deciding on response files.

pub mod patterns;
pub mod strings;
pub mod constants;
pub mod classification;
pub mod parser;
pub mod filter;
pub mod executable;
pub mod runtime;
pub mod usage;
pub mod flags;
pub mod laws;

pub use patterns::FlagPattern;
pub use classification::{
    ExecutableFamily, ExecutableKind, get_target_classification, get_args_filter_pack,
    classify_findings, filter_pack_available,
};
pub use filter::{
    FilterConfig, filter_args, apply_filter, args_char_limit_from, response_file_needed,
    response_file_text, response_file_name, response_file_argument,
};
pub use parser::{
    ParsedArgs, parse_args, locate_last_flag, find_options_end, flag_takes_separate_value,
    embedded_flag_value, is_source_arg, LocatedFlag,
};
pub use runtime::{
    Runtime, RuntimeSettings, PendingLookup, PendingArguments, begin_run,
    source_executable_name, executable_name_from_file_name,
};
pub use usage::{check_help_flags, check_version_flags, usage_lines, version_line};
pub use executable::{
    ExecutableLookup, get_executable_names, get_executable_paths,
    get_main_and_deputy_executable_paths, split_executable_names, executable_lookup,
};
pub use flags::flags_with_value;
pub use constants::{
    PROJECT_SIGNATURE, EXTERNAL_WRAPPER_KEYWORDS, ARGS_CHAR_LIMIT, BAD_MATCH_MESSAGE,
    RESPONSE_FILE_NAME, COMPILER_KEYWORDS, LINKER_KEYWORDS, SPLIT_FUSED_FLAGS,
    FIX_FLAG_PREFIXES, LLVM_KEYWORDS, MSVC_KEYWORDS, GCC_KEYWORDS, UNKNOWN_KEYWORD,
    LLVM_COMPILER_EXTRA_FLAGS, LLVM_LINKER_EXTRA_FLAGS, MSVC_COMPILER_EXTRA_FLAGS,
    MSVC_LINKER_EXTRA_FLAGS, GCC_COMPILER_EXTRA_FLAGS, GCC_LINKER_EXTRA_FLAGS,
    LLVM_COMPILER_SWAP_PAIRS, LLVM_LINKER_SWAP_PAIRS, MSVC_COMPILER_SWAP_PAIRS,
    MSVC_LINKER_SWAP_PAIRS, GCC_COMPILER_SWAP_PAIRS, GCC_LINKER_SWAP_PAIRS,
    LLVM_COMPILER_BAD_FLAGS, LLVM_LINKER_BAD_FLAGS, MSVC_COMPILER_BAD_FLAGS,
    MSVC_LINKER_BAD_FLAGS, GCC_COMPILER_BAD_FLAGS, GCC_LINKER_BAD_FLAGS, CLI_FLAG_HELP_SHORT,
    CLI_FLAG_HELP_LONG, CLI_FLAG_USAGE, CLI_FLAG_VERSION_SHORT, CLI_FLAG_VERSION_LONG,
};
