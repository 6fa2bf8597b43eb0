//! Classification of a target executable into a compiler/linker family and kind.
use vstd::prelude::*;
use crate::constants::{
    COMPILER_KEYWORDS, LINKER_KEYWORDS, LLVM_KEYWORDS, MSVC_KEYWORDS, GCC_KEYWORDS,
    LLVM_COMPILER_BAD_FLAGS, MSVC_COMPILER_BAD_FLAGS, GCC_COMPILER_BAD_FLAGS,
    LLVM_LINKER_BAD_FLAGS, MSVC_LINKER_BAD_FLAGS, GCC_LINKER_BAD_FLAGS,
    LLVM_COMPILER_SWAP_PAIRS, MSVC_COMPILER_SWAP_PAIRS, GCC_COMPILER_SWAP_PAIRS,
    LLVM_LINKER_SWAP_PAIRS, MSVC_LINKER_SWAP_PAIRS, GCC_LINKER_SWAP_PAIRS,
    LLVM_COMPILER_EXTRA_FLAGS, MSVC_COMPILER_EXTRA_FLAGS, GCC_COMPILER_EXTRA_FLAGS,
    LLVM_LINKER_EXTRA_FLAGS, MSVC_LINKER_EXTRA_FLAGS, GCC_LINKER_EXTRA_FLAGS,
};
use crate::patterns::{
    FlagPattern, regex_compiles, regex_is_match, fixed_pattern, compile_pairs, pairs_view,
    pairs_text, pairs_compile, table_compiles,
};
use crate::strings::{has_substring, str_contains, to_owned_string};

verus! {

/// The compiler/linker family an executable belongs to.
#[derive(Debug, Clone, Copy, PartialEq, Eq, Structural)]
pub enum ExecutableFamily {
    LLVM,
    MSVC,
    GCC,
    Unknown,
}

/// The role of the executable: compiler or linker.
#[derive(Debug, Clone, Copy, PartialEq, Eq, Structural)]
pub enum ExecutableKind {
    Compiler,
    Linker,
    Unknown,
}

/// The (family, kind) pair for the keyword findings on a name.
///
/// Family: `clang-cl` is MSVC unless it is asked to count as LLVM (checked first), else
/// LLVM, MSVC and GCC keywords in that order, else unknown. Kind: compiler keywords win
/// over linker keywords, else unknown.
pub open spec fn classify(
    is_clang_cl: bool,
    clang_cl_is_llvm: bool,
    llvm: bool,
    msvc: bool,
    gcc: bool,
    compiler: bool,
    linker: bool,
) -> (ExecutableFamily, ExecutableKind) {
    let family = if is_clang_cl && !clang_cl_is_llvm {
        ExecutableFamily::MSVC
    } else if llvm {
        ExecutableFamily::LLVM
    } else if msvc {
        ExecutableFamily::MSVC
    } else if gcc {
        ExecutableFamily::GCC
    } else {
        ExecutableFamily::Unknown
    };
    let kind = if compiler {
        ExecutableKind::Compiler
    } else if linker {
        ExecutableKind::Linker
    } else {
        ExecutableKind::Unknown
    };
    (family, kind)
}

/// Combines the keyword findings on a name into its (family, kind) pair.
pub fn classify_findings(
    is_clang_cl: bool,
    clang_cl_is_llvm: bool,
    llvm: bool,
    msvc: bool,
    gcc: bool,
    compiler: bool,
    linker: bool,
) -> (res: (ExecutableFamily, ExecutableKind))
    ensures
        res == classify(is_clang_cl, clang_cl_is_llvm, llvm, msvc, gcc, compiler, linker),
{
    let family = if is_clang_cl && !clang_cl_is_llvm {
        ExecutableFamily::MSVC
    } else if llvm {
        ExecutableFamily::LLVM
    } else if msvc {
        ExecutableFamily::MSVC
    } else if gcc {
        ExecutableFamily::GCC
    } else {
        ExecutableFamily::Unknown
    };
    let kind = if compiler {
        ExecutableKind::Compiler
    } else if linker {
        ExecutableKind::Linker
    } else {
        ExecutableKind::Unknown
    };
    (family, kind)
}

/// Whether the keyword patterns that classification uses all compile.
pub open spec fn classification_patterns_compile() -> bool {
    regex_compiles(LLVM_KEYWORDS@) && regex_compiles(MSVC_KEYWORDS@) && regex_compiles(GCC_KEYWORDS@)
        && regex_compiles(COMPILER_KEYWORDS@) && regex_compiles(LINKER_KEYWORDS@)
}

/// The classification of an executable name.
pub open spec fn classification_of(name: Seq<char>, clang_cl_is_llvm: bool) -> (ExecutableFamily, ExecutableKind) {
    classify(
        has_substring(name, "clang-cl"@),
        clang_cl_is_llvm,
        regex_is_match(LLVM_KEYWORDS@, name),
        regex_is_match(MSVC_KEYWORDS@, name),
        regex_is_match(GCC_KEYWORDS@, name),
        regex_is_match(COMPILER_KEYWORDS@, name),
        regex_is_match(LINKER_KEYWORDS@, name),
    )
}

/// Classifies an executable name into a (family, kind) pair. `clang_cl_is_llvm` routes
/// `clang-cl` down the LLVM family instead of the MSVC one.
pub fn get_target_classification(executable_name: &str, clang_cl_is_llvm: bool) -> (res: (ExecutableFamily, ExecutableKind))
    requires
        classification_patterns_compile(),
    ensures
        res == classification_of(executable_name@, clang_cl_is_llvm),
{
    let is_clang_cl = str_contains(executable_name, "clang-cl");
    let llvm = fixed_pattern(LLVM_KEYWORDS).is_match(executable_name);
    let msvc = fixed_pattern(MSVC_KEYWORDS).is_match(executable_name);
    let gcc = fixed_pattern(GCC_KEYWORDS).is_match(executable_name);
    let compiler = fixed_pattern(COMPILER_KEYWORDS).is_match(executable_name);
    let linker = fixed_pattern(LINKER_KEYWORDS).is_match(executable_name);
    classify_findings(is_clang_cl, clang_cl_is_llvm, llvm, msvc, gcc, compiler, linker)
}

/// Whether a classification has a filter pack: a known family and a known kind.
pub open spec fn has_filter_pack(c: (ExecutableFamily, ExecutableKind)) -> bool {
    c.0 != ExecutableFamily::Unknown && c.1 != ExecutableKind::Unknown
}

/// The bad-flag pattern of a classification.
pub open spec fn bad_flags_for(c: (ExecutableFamily, ExecutableKind)) -> Seq<char> {
    match c {
        (ExecutableFamily::LLVM, ExecutableKind::Compiler) => LLVM_COMPILER_BAD_FLAGS@,
        (ExecutableFamily::MSVC, ExecutableKind::Compiler) => MSVC_COMPILER_BAD_FLAGS@,
        (ExecutableFamily::GCC, ExecutableKind::Compiler) => GCC_COMPILER_BAD_FLAGS@,
        (ExecutableFamily::LLVM, ExecutableKind::Linker) => LLVM_LINKER_BAD_FLAGS@,
        (ExecutableFamily::MSVC, ExecutableKind::Linker) => MSVC_LINKER_BAD_FLAGS@,
        _ => GCC_LINKER_BAD_FLAGS@,
    }
}

/// The swap pairs (pattern, replacement) of a classification.
pub open spec fn swap_pairs_for(c: (ExecutableFamily, ExecutableKind)) -> Seq<(Seq<char>, Seq<char>)> {
    match c {
        (ExecutableFamily::LLVM, ExecutableKind::Compiler) => pairs_text(LLVM_COMPILER_SWAP_PAIRS@),
        (ExecutableFamily::MSVC, ExecutableKind::Compiler) => pairs_text(MSVC_COMPILER_SWAP_PAIRS@),
        (ExecutableFamily::GCC, ExecutableKind::Compiler) => pairs_text(GCC_COMPILER_SWAP_PAIRS@),
        (ExecutableFamily::LLVM, ExecutableKind::Linker) => pairs_text(LLVM_LINKER_SWAP_PAIRS@),
        (ExecutableFamily::MSVC, ExecutableKind::Linker) => pairs_text(MSVC_LINKER_SWAP_PAIRS@),
        _ => pairs_text(GCC_LINKER_SWAP_PAIRS@),
    }
}

/// The extra flags of a classification.
pub open spec fn extra_flags_for(c: (ExecutableFamily, ExecutableKind)) -> Seq<char> {
    match c {
        (ExecutableFamily::LLVM, ExecutableKind::Compiler) => LLVM_COMPILER_EXTRA_FLAGS@,
        (ExecutableFamily::MSVC, ExecutableKind::Compiler) => MSVC_COMPILER_EXTRA_FLAGS@,
        (ExecutableFamily::GCC, ExecutableKind::Compiler) => GCC_COMPILER_EXTRA_FLAGS@,
        (ExecutableFamily::LLVM, ExecutableKind::Linker) => LLVM_LINKER_EXTRA_FLAGS@,
        (ExecutableFamily::MSVC, ExecutableKind::Linker) => MSVC_LINKER_EXTRA_FLAGS@,
        _ => GCC_LINKER_EXTRA_FLAGS@,
    }
}

/// Whether the patterns of a classification's filter pack all compile.
pub open spec fn filter_pack_compiles(c: (ExecutableFamily, ExecutableKind)) -> bool {
    regex_compiles(bad_flags_for(c)) && pairs_compile(swap_pairs_for(c))
}

/// Whether the patterns of a classification's filter pack all compile.
pub fn filter_pack_available(classification: (ExecutableFamily, ExecutableKind)) -> (res: bool)
    requires
        has_filter_pack(classification),
    ensures
        res == filter_pack_compiles(classification),
{
    let (bad, table) = match classification {
        (ExecutableFamily::LLVM, ExecutableKind::Compiler) => (LLVM_COMPILER_BAD_FLAGS, LLVM_COMPILER_SWAP_PAIRS.as_slice()),
        (ExecutableFamily::MSVC, ExecutableKind::Compiler) => (MSVC_COMPILER_BAD_FLAGS, MSVC_COMPILER_SWAP_PAIRS.as_slice()),
        (ExecutableFamily::GCC, ExecutableKind::Compiler) => (GCC_COMPILER_BAD_FLAGS, GCC_COMPILER_SWAP_PAIRS.as_slice()),
        (ExecutableFamily::LLVM, ExecutableKind::Linker) => (LLVM_LINKER_BAD_FLAGS, LLVM_LINKER_SWAP_PAIRS.as_slice()),
        (ExecutableFamily::MSVC, ExecutableKind::Linker) => (MSVC_LINKER_BAD_FLAGS, MSVC_LINKER_SWAP_PAIRS.as_slice()),
        _ => (GCC_LINKER_BAD_FLAGS, GCC_LINKER_SWAP_PAIRS.as_slice()),
    };
    FlagPattern::compile(bad).is_some() && table_compiles(table)
}

/// Returns the filter pack (bad-flag pattern, swap pairs, extra flags) of a classification.
pub fn get_args_filter_pack(classification: (ExecutableFamily, ExecutableKind)) -> (res: (FlagPattern, Vec<(FlagPattern, String)>, String))
    requires
        has_filter_pack(classification),
        filter_pack_compiles(classification),
    ensures
        res.0@ == bad_flags_for(classification),
        pairs_view(res.1@) == swap_pairs_for(classification),
        res.2@ == extra_flags_for(classification),
{
    match classification {
        (ExecutableFamily::LLVM, ExecutableKind::Compiler) => (
            fixed_pattern(LLVM_COMPILER_BAD_FLAGS),
            compile_pairs(LLVM_COMPILER_SWAP_PAIRS.as_slice()),
            to_owned_string(LLVM_COMPILER_EXTRA_FLAGS),
        ),
        (ExecutableFamily::MSVC, ExecutableKind::Compiler) => (
            fixed_pattern(MSVC_COMPILER_BAD_FLAGS),
            compile_pairs(MSVC_COMPILER_SWAP_PAIRS.as_slice()),
            to_owned_string(MSVC_COMPILER_EXTRA_FLAGS),
        ),
        (ExecutableFamily::GCC, ExecutableKind::Compiler) => (
            fixed_pattern(GCC_COMPILER_BAD_FLAGS),
            compile_pairs(GCC_COMPILER_SWAP_PAIRS.as_slice()),
            to_owned_string(GCC_COMPILER_EXTRA_FLAGS),
        ),
        (ExecutableFamily::LLVM, ExecutableKind::Linker) => (
            fixed_pattern(LLVM_LINKER_BAD_FLAGS),
            compile_pairs(LLVM_LINKER_SWAP_PAIRS.as_slice()),
            to_owned_string(LLVM_LINKER_EXTRA_FLAGS),
        ),
        (ExecutableFamily::MSVC, ExecutableKind::Linker) => (
            fixed_pattern(MSVC_LINKER_BAD_FLAGS),
            compile_pairs(MSVC_LINKER_SWAP_PAIRS.as_slice()),
            to_owned_string(MSVC_LINKER_EXTRA_FLAGS),
        ),
        _ => (
            fixed_pattern(GCC_LINKER_BAD_FLAGS),
            compile_pairs(GCC_LINKER_SWAP_PAIRS.as_slice()),
            to_owned_string(GCC_LINKER_EXTRA_FLAGS),
        ),
    }
}

} // verus!
