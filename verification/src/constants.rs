//! Keyword patterns, flag tables and fixed strings of the wrapper.
use vstd::prelude::*;

verus! {

// ---- Executable keywords (regular expressions, matched anywhere in a name) ----

/// Wrapper executables such as `ccache` and `sccache`.
pub const EXTERNAL_WRAPPER_KEYWORDS: &'static str = "(?i)ccache";
/// Compiler executables.
pub const COMPILER_KEYWORDS: &'static str = "(?i)(clang|hip|cl|gcc|g\\+\\+)";
/// Linker executables.
pub const LINKER_KEYWORDS: &'static str = "(?i)(link|lld|ld)";
/// LLVM family executables.
pub const LLVM_KEYWORDS: &'static str = "(?i)(clang|llvm|lld)";
/// MSVC family executables.
pub const MSVC_KEYWORDS: &'static str = "(?i)(cl|link)";
/// GCC family executables.
pub const GCC_KEYWORDS: &'static str = "(?i)(gcc|g\\+\\+|ld)";
/// Executables that are wrappers of this project (`clang-rs` and the like); they are
/// called as they are rather than looked up.
pub const PROJECT_SIGNATURE: &'static str = "(?i)[-]rs";

// ---- Bad flags, per classification ----

pub const LLVM_COMPILER_BAD_FLAGS: &'static str = "^([-/](clang:))?[-/](EHsc|permissive-|(D[-/])?bigobj|EGR|W3|W4|Wc\\+\\+11-narrowing|Wincompatible-pointer-types|Wimplicit-function-declaration|Wdeprecated-declarations|Wextern-initializer|Wold-style-cast|Wunused-variable|Wunused-function|Wunused-command-line-argument|Wlogical-op-parentheses|Wignored-attributes|Wunknown-warning-option)$";
pub const MSVC_COMPILER_BAD_FLAGS: &'static str = "^([-/](clang:))?[-/]((D[-/])?bigobj|GR|Od|W3|W4|Wc\\+\\+11-narrowing|Wincompatible-pointer-types|Wimplicit-function-declaration|Wdeprecated-declarations|Wextern-initializer|Wold-style-cast|Wunused-variable|Wunused-function|Wunused-command-line-argument|Wlogical-op-parentheses|Wignored-attributes|Wunknown-warning-option)$";
pub const GCC_COMPILER_BAD_FLAGS: &'static str = "^[-/](Werror|ffast-math|fstrict-aliasing|fpack-struct|fshort-enum)";
pub const LLVM_LINKER_BAD_FLAGS: &'static str = "^[-/]Werror|^[-/]INCREMENTAL:NO$";
pub const MSVC_LINKER_BAD_FLAGS: &'static str = "^[-/]Werror|^[-/]INCREMENTAL:NO$";
pub const GCC_LINKER_BAD_FLAGS: &'static str = "^[-/](Werror)";

/// Flags whose value is fused with the prefix (`/Fdsome\dir`, `/Foout.obj`); the split
/// step separates them into the prefix and the value.
pub const SPLIT_FUSED_FLAGS: &'static str = "^[-/](Fd|Fo)";

/// Flags whose prefix needs fixing (`/version:0.0` to `-version:0.0`).
pub const FIX_FLAG_PREFIXES: &'static str = "^(?i)[/](version:)";

// ---- Swap pairs, per classification: (pattern, replacement) ----

pub const MSVC_COMPILER_SWAP_PAIRS: [(&'static str, &'static str); 1] = [("^[-/]Zi$", "/Z7")];
pub const LLVM_COMPILER_SWAP_PAIRS: [(&'static str, &'static str); 7] = [
    ("^[-/]MDd?$", "-fms-extensions"),
    ("^[-/]Z(i|7)$", "-g"),
    ("^[/]LTCG$", "-flto"),
    ("^[-/]O1$", "-O1"),
    ("^[-/]O2$", "-O2"),
    ("^[-/]O3$", "-O3"),
    ("^[-/]O4$", "-O4"),
];
pub const GCC_COMPILER_SWAP_PAIRS: [(&'static str, &'static str); 1] = [("^[-/]Z(i|7)$", "-g")];
pub const MSVC_LINKER_SWAP_PAIRS: [(&'static str, &'static str); 3] = [
    ("^[/]LTCG$", "-flto"),
    ("^[/]MANIFEST:EMBED(,ID=2)?$", "/MANIFEST:NO"),
    ("^[/]INCREMENTAL(:YES)?$", "/INCREMENTAL:NO"),
];
pub const LLVM_LINKER_SWAP_PAIRS: [(&'static str, &'static str); 2] = [
    ("^[/]LTCG$", "-flto"),
    ("^[/]MANIFEST:EMBED(,ID=2)?$", "/MANIFEST:NO"),
];
pub const GCC_LINKER_SWAP_PAIRS: [(&'static str, &'static str); 1] = [("^[/]LTCG$", "-flto")];

// ---- Extra flags, per classification ----

pub const MSVC_COMPILER_EXTRA_FLAGS: &'static str = "-D_USE_MATH_DEFINES -D_CRT_SECURE_NO_WARNINGS -FS -w";
pub const LLVM_COMPILER_EXTRA_FLAGS: &'static str = "-D_USE_MATH_DEFINES -D_CRT_SECURE_NO_WARNINGS -w";
pub const GCC_COMPILER_EXTRA_FLAGS: &'static str = "-w";
pub const MSVC_LINKER_EXTRA_FLAGS: &'static str = "";
pub const LLVM_LINKER_EXTRA_FLAGS: &'static str = "/MANIFEST:NO";
pub const GCC_LINKER_EXTRA_FLAGS: &'static str = "";

// ---- General ----

/// Maximum length of the joined arguments before a response file is used.
pub const ARGS_CHAR_LIMIT: usize = 30000;
/// Placeholder for a name or path that is not known.
pub const UNKNOWN_KEYWORD: &'static str = "UNKNOWN";
/// Message for a regex that fails to build.
pub const BAD_MATCH_MESSAGE: &'static str = "bad match";
/// Response file name pattern; `<pid>` stands for the process id.
pub const RESPONSE_FILE_NAME: &'static str = "@wrapper_<pid>.rsp";

// ---- Command-line flags of the wrappers themselves ----

pub const CLI_FLAG_HELP_SHORT: &'static str = "-h";
pub const CLI_FLAG_HELP_LONG: &'static str = "--help";
pub const CLI_FLAG_USAGE: &'static str = "--usage";
pub const CLI_FLAG_VERSION_SHORT: &'static str = "-v";
pub const CLI_FLAG_VERSION_LONG: &'static str = "--version";

} // verus!
