//! Per-family tables of the flags that take a separate value as the next argument.
use vstd::prelude::*;
use crate::classification::ExecutableFamily;

verus! {

/// Flags that take a separate value as the next argument, for LLVM/Clang.
pub const LLVM_FLAGS_WITH_VALUE: [&'static str; 27] = [
    "-I", "/I", "-L", "/L", "-l", "-D", "/D", "-o", "-x", "-Xpreprocessor", "-include",
    "-imacros", "-isysroot", "-isystem", "-idirafter", "-iprefix", "-iwithprefix",
    "-iwithprefixbefore", "-Xlinker", "-Xclang", "-std", "-fprofile-generate", "-fprofile-use",
    "-coverage", "-MT", "-MF", "-MQ",
];

/// Flags that take a separate value as the next argument, for MSVC (`-MT` and `-MF` are
/// standalone flags there).
pub const MSVC_FLAGS_WITH_VALUE: [&'static str; 26] = [
    "-I", "/I", "-L", "/L", "-l", "-D", "/D", "-o", "-Fo", "/Fo", "-Fd", "/Fd", "-Fe", "/Fe",
    "-Fa", "/Fa", "-Fm", "/Fm", "-Fp", "/Fp", "-FR", "/FR", "-FU", "/FU", "-x", "-Xlinker",
];

/// Flags that take a separate value as the next argument, for GCC.
pub const GCC_FLAGS_WITH_VALUE: [&'static str; 26] = [
    "-I", "/I", "-L", "/L", "-l", "-D", "/D", "-o", "-x", "-Xpreprocessor", "-include",
    "-imacros", "-isysroot", "-isystem", "-idirafter", "-iprefix", "-iwithprefix",
    "-iwithprefixbefore", "-Xlinker", "-std", "-fprofile-generate", "-fprofile-use",
    "-coverage", "-MT", "-MF", "-MQ",
];

/// The table of value-taking flags for a family; an unknown family uses the LLVM table.
pub open spec fn flags_table_for(family: ExecutableFamily) -> Seq<&'static str> {
    match family {
        ExecutableFamily::MSVC => MSVC_FLAGS_WITH_VALUE@,
        ExecutableFamily::GCC => GCC_FLAGS_WITH_VALUE@,
        _ => LLVM_FLAGS_WITH_VALUE@,
    }
}

fn table_to_vec(table: &[&'static str]) -> (res: Vec<&'static str>)
    ensures
        res@ == table@,
{
    let n = table.len();
    let mut res: Vec<&'static str> = Vec::new();
    let mut i: usize = 0;
    while i < n
        invariant
            n == table@.len(),
            i <= n,
            res@ == table@.subrange(0, i as int),
        decreases n - i,
    {
        res.push(table[i]);
        assert(res@ =~= table@.subrange(0, i + 1));
        i = i + 1;
    }
    assert(table@.subrange(0, n as int) =~= table@);
    res
}

/// Returns the list of flags that take a separate value argument for the given family.
pub fn flags_with_value(executable_family: ExecutableFamily) -> (res: Vec<&'static str>)
    ensures
        res@ == flags_table_for(executable_family),
{
    match executable_family {
        ExecutableFamily::LLVM => table_to_vec(LLVM_FLAGS_WITH_VALUE.as_slice()),
        ExecutableFamily::MSVC => table_to_vec(MSVC_FLAGS_WITH_VALUE.as_slice()),
        ExecutableFamily::GCC => table_to_vec(GCC_FLAGS_WITH_VALUE.as_slice()),
        ExecutableFamily::Unknown => table_to_vec(LLVM_FLAGS_WITH_VALUE.as_slice()),
    }
}

} // verus!
