//! Family-aware command-line parsing for compiler/linker invocations.
//!
//! The `zccache_depgraph` parsers (`parse_gnu_args` for GNU/Clang, `parse_msvc_args`
//! for MSVC) are the authority on what a flag does; this module adds what their
//! result does not expose directly: which flag consumes the next token as its value,
//! where the options region ends, and where the last flag stands.
use vstd::prelude::*;
use std::path::Path;
use zccache_depgraph::args::parse_gnu_args;
use zccache_depgraph::msvc_args::parse_msvc_args;
use crate::classification::ExecutableFamily;
use crate::strings::{
    is_flag_like, ends_with, str_eq, str_is_flag_like, str_ends_with, to_owned_string,
    split_once, str_split_once,
};

verus! {

/// Probe token fed to a parser to see whether a flag swallows the next argument.
pub const VALUE_PROBE: &'static str = "ZzzValueProbe";

/// The parts of a parsed command line that this library reads, as plain strings.
/// Paths are rendered as text the way the host platform renders them.
pub struct ParsedArgs {
    pub source_file: String,
    pub output_file: Option<String>,
    pub defines: Vec<String>,
    pub undefines: Vec<String>,
    pub iquote_includes: Vec<String>,
    pub user_includes: Vec<String>,
    pub system_includes: Vec<String>,
    pub after_includes: Vec<String>,
    /// Cache-relevant flags such as `-std=c++17`, as the parser records them.
    pub flags: Vec<String>,
}

/// The character-sequence model of [`ParsedArgs`].
pub struct ParsedArgsView {
    pub source_file: Seq<char>,
    pub output_file: Option<Seq<char>>,
    pub defines: Seq<Seq<char>>,
    pub undefines: Seq<Seq<char>>,
    pub iquote_includes: Seq<Seq<char>>,
    pub user_includes: Seq<Seq<char>>,
    pub system_includes: Seq<Seq<char>>,
    pub after_includes: Seq<Seq<char>>,
    pub flags: Seq<Seq<char>>,
}

impl View for ParsedArgs {
    type V = ParsedArgsView;

    open spec fn view(&self) -> ParsedArgsView {
        ParsedArgsView {
            source_file: self.source_file@,
            output_file: match self.output_file {
                Some(o) => Some(o@),
                None => None,
            },
            defines: self.defines.deep_view(),
            undefines: self.undefines.deep_view(),
            iquote_includes: self.iquote_includes.deep_view(),
            user_includes: self.user_includes.deep_view(),
            system_includes: self.system_includes.deep_view(),
            after_includes: self.after_includes.deep_view(),
            flags: self.flags.deep_view(),
        }
    }
}

/// What `zccache_depgraph::args::parse_gnu_args` extracts from `args` with relative paths
/// resolved against `cwd`, paths rendered by the path rules of the target platform.
pub uninterp spec fn gnu_parse(args: Seq<Seq<char>>, cwd: Seq<char>) -> ParsedArgsView;

/// What `zccache_depgraph::msvc_args::parse_msvc_args` extracts from `args` with relative
/// paths resolved against `cwd`, paths rendered by the path rules of the target platform.
pub uninterp spec fn msvc_parse(args: Seq<Seq<char>>, cwd: Seq<char>) -> ParsedArgsView;

/// Calls `zccache_depgraph::args::parse_gnu_args` and renders its paths as text.
/// Claimed: the result is the named parse of the arguments and the directory.
#[verifier::external_body]
fn parse_gnu_exec(args: &[String], cwd: &str) -> (res: ParsedArgs)
    ensures
        res@ == gnu_parse(args.deep_view(), cwd@),
{
    let p = parse_gnu_args(args, Path::new(cwd));
    let s = |x: &Path| x.to_string_lossy().into_owned();
    let i = &p.include_search;
    ParsedArgs {
        source_file: s(&p.source_file),
        output_file: p.output_file.as_deref().map(s),
        defines: p.defines,
        undefines: p.undefines,
        iquote_includes: i.iquote.iter().map(|x| s(x)).collect(),
        user_includes: i.user.iter().map(|x| s(x)).collect(),
        system_includes: i.system.iter().map(|x| s(x)).collect(),
        after_includes: i.after.iter().map(|x| s(x)).collect(),
        flags: p.flags,
    }
}

/// Calls `zccache_depgraph::msvc_args::parse_msvc_args` and renders its paths as text.
/// Claimed: the result is the named parse of the arguments and the directory.
#[verifier::external_body]
fn parse_msvc_exec(args: &[String], cwd: &str) -> (res: ParsedArgs)
    ensures
        res@ == msvc_parse(args.deep_view(), cwd@),
{
    let p = parse_msvc_args(args, Path::new(cwd));
    let s = |x: &Path| x.to_string_lossy().into_owned();
    let i = &p.include_search;
    ParsedArgs {
        source_file: s(&p.source_file),
        output_file: p.output_file.as_deref().map(s),
        defines: p.defines,
        undefines: p.undefines,
        iquote_includes: i.iquote.iter().map(|x| s(x)).collect(),
        user_includes: i.user.iter().map(|x| s(x)).collect(),
        system_includes: i.system.iter().map(|x| s(x)).collect(),
        after_includes: i.after.iter().map(|x| s(x)).collect(),
        flags: p.flags,
    }
}

/// The parse that `family` calls for: MSVC-style for MSVC, GNU/Clang-style otherwise.
pub open spec fn parse_for(args: Seq<Seq<char>>, cwd: Seq<char>, family: ExecutableFamily) -> ParsedArgsView {
    match family {
        ExecutableFamily::MSVC => msvc_parse(args, cwd),
        _ => gnu_parse(args, cwd),
    }
}

/// Parses `args` (everything after the compiler executable) with the parser matching
/// `family`, resolving relative paths against `cwd`.
pub fn parse_args(args: &[String], cwd: &str, family: ExecutableFamily) -> (res: ParsedArgs)
    ensures
        res@ == parse_for(args.deep_view(), cwd@, family),
{
    match family {
        ExecutableFamily::MSVC => parse_msvc_exec(args, cwd),
        _ => parse_gnu_exec(args, cwd),
    }
}

/// Whether `flag` consumes the following token: fed `flag` and the probe token, the
/// family's parser swallows the probe, so that no source file is left.
pub open spec fn takes_separate_value(flag: Seq<char>, family: ExecutableFamily) -> bool {
    parse_for(seq![flag, VALUE_PROBE@], "."@, family).source_file.len() == 0
}

impl ParsedArgs {
    /// Whether the parse found no source file.
    pub fn source_file_is_empty(&self) -> (res: bool)
        ensures
            res == (self@.source_file.len() == 0),
    {
        self.source_file.as_str().unicode_len() == 0
    }
}

/// True when `flag` consumes the following token as its value (e.g. `-o out.o`,
/// `-I include`). Fused forms (`-O2`, `-DDEBUG`, `-Fodir`) hold their value in the token.
pub fn flag_takes_separate_value(flag: &str, family: ExecutableFamily) -> (res: bool)
    ensures
        res == takes_separate_value(flag@, family),
{
    let probe = vec![to_owned_string(flag), to_owned_string(VALUE_PROBE)];
    let parsed = parse_args(probe.as_slice(), ".", family);
    proof {
        assert(probe.deep_view() =~= seq![flag@, VALUE_PROBE@]);
    }
    parsed.source_file_is_empty()
}

/// Where scanning from index `i` stops: flags are skipped together with the value they
/// consume, and the scan stops at the first positional argument or at `--`.
pub open spec fn options_end_from(args: Seq<Seq<char>>, family: ExecutableFamily, i: int) -> int
    decreases args.len() - i,
{
    if i < 0 || i >= args.len() {
        i
    } else if args[i] == "--"@ {
        i
    } else if takes_separate_value(args[i], family) {
        if i + 1 < args.len() {
            options_end_from(args, family, i + 2)
        } else {
            options_end_from(args, family, i + 1)
        }
    } else if is_flag_like(args[i]) {
        options_end_from(args, family, i + 1)
    } else {
        i
    }
}

/// The index where options end and positional arguments begin.
pub open spec fn options_end(args: Seq<Seq<char>>, family: ExecutableFamily) -> int {
    options_end_from(args, family, 0)
}

/// Finds the index where options end and positional arguments begin.
///
/// The scan skips flags together with their consumed values, stopping at the first
/// positional argument and at the `--` end-of-options marker (everything from `--` on
/// is positional).
pub fn find_options_end(args: &[String], family: ExecutableFamily) -> (res: usize)
    ensures
        res == options_end(args.deep_view(), family),
        res <= args.len(),
{
    let ghost dv = args.deep_view();
    let n = args.len();
    let mut i: usize = 0;
    while i < n
        invariant
            dv == args.deep_view(),
            n == args@.len(),
            i <= n,
            options_end_from(dv, family, i as int) == options_end(dv, family),
        decreases n - i,
    {
        let arg = &args[i];
        assert(dv[i as int] == arg@);
        if str_eq(arg.as_str(), "--") {
            return i;
        }
        if flag_takes_separate_value(arg.as_str(), family) {
            if i + 1 < n {
                i = i + 2;
            } else {
                i = i + 1;
            }
        } else if str_is_flag_like(arg.as_str()) {
            i = i + 1;
        } else {
            return i;
        }
    }
    i
}

/// The first index of `--` at or after `i`, or the length when there is none.
pub open spec fn dash_dash_from(args: Seq<Seq<char>>, i: int) -> int
    decreases args.len() - i,
{
    if i < 0 || i >= args.len() {
        args.len() as int
    } else if args[i] == "--"@ {
        i
    } else {
        dash_dash_from(args, i + 1)
    }
}

/// Where the options region ends for [`locate_last_flag`]: the first `--`, or the length.
pub open spec fn dash_dash_index(args: Seq<Seq<char>>) -> int {
    dash_dash_from(args, 0)
}

/// A token counts as a flag when it starts with `-` or `/` and is not a lone `-`.
pub open spec fn is_flag_token(a: Seq<char>) -> bool {
    a != "-"@ && is_flag_like(a)
}

/// The index of the last flag token before `end`.
pub open spec fn last_flag_before(args: Seq<Seq<char>>, end: int) -> Option<int>
    decreases end,
{
    if end <= 0 {
        None
    } else if is_flag_token(args[end - 1]) {
        Some(end - 1)
    } else {
        last_flag_before(args, end - 1)
    }
}

/// The index of the separate value that the flag at `idx` consumes: the next token, when
/// the flag takes a value and that token is not itself flag-like.
pub open spec fn value_index_of(args: Seq<Seq<char>>, idx: int, family: ExecutableFamily) -> Option<int> {
    if takes_separate_value(args[idx], family) && idx + 1 < args.len() && !is_flag_like(args[idx + 1]) {
        Some(idx + 1)
    } else {
        None
    }
}

/// The value of a `-flag=value` token: the non-empty text after its first `=`.
pub open spec fn assigned_value(flag: Seq<char>) -> Option<Seq<char>> {
    match split_once(flag, '=') {
        Some((_, v)) => if v.len() > 0 { Some(v) } else { None },
        None => None,
    }
}

/// The value a parse extracted from a single flag token: the first define, undefine,
/// `-iquote`, user, system or `-idirafter` include path, else a non-empty output file,
/// else the value of a recorded `-flag=value` flag (`c++17` of `-std=c++17`).
pub open spec fn embedded_of(p: ParsedArgsView) -> Option<Seq<char>> {
    if p.defines.len() > 0 {
        Some(p.defines[0])
    } else if p.undefines.len() > 0 {
        Some(p.undefines[0])
    } else if p.iquote_includes.len() > 0 {
        Some(p.iquote_includes[0])
    } else if p.user_includes.len() > 0 {
        Some(p.user_includes[0])
    } else if p.system_includes.len() > 0 {
        Some(p.system_includes[0])
    } else if p.after_includes.len() > 0 {
        Some(p.after_includes[0])
    } else if p.output_file matches Some(o) && o.len() > 0 {
        p.output_file
    } else if p.flags.len() > 0 {
        assigned_value(p.flags[0])
    } else {
        None
    }
}

/// The value after the first `=` of `flag`, when there is one and it is not empty.
fn assigned_value_exec(flag: &str) -> (res: Option<String>)
    ensures
        match res {
            Some(v) => assigned_value(flag@) == Some(v@),
            None => assigned_value(flag@) is None,
        },
{
    match str_split_once(flag, '=') {
        Some((_, v)) => {
            if v.as_str().unicode_len() > 0 {
                Some(v)
            } else {
                None
            }
        },
        None => None,
    }
}

/// The value embedded in a flag token according to the family's parser.
pub open spec fn embedded_value_spec(flag: Seq<char>, family: ExecutableFamily) -> Option<Seq<char>> {
    embedded_of(parse_for(seq![flag], "."@, family))
}

fn clone_first(v: &Vec<String>) -> (res: Option<String>)
    requires
        v@.len() > 0,
    ensures
        res matches Some(s) && s@ == v.deep_view()[0],
{
    Some(v[0].clone())
}

impl ParsedArgs {
    /// The value this parse extracted from a single flag token.
    pub fn embedded_value(&self) -> (res: Option<String>)
        ensures
            match res {
                Some(s) => embedded_of(self@) == Some(s@),
                None => embedded_of(self@) is None,
            },
    {
        if self.defines.len() > 0 {
            clone_first(&self.defines)
        } else if self.undefines.len() > 0 {
            clone_first(&self.undefines)
        } else if self.iquote_includes.len() > 0 {
            clone_first(&self.iquote_includes)
        } else if self.user_includes.len() > 0 {
            clone_first(&self.user_includes)
        } else if self.system_includes.len() > 0 {
            clone_first(&self.system_includes)
        } else if self.after_includes.len() > 0 {
            clone_first(&self.after_includes)
        } else {
            match &self.output_file {
                Some(o) if o.as_str().unicode_len() > 0 => Some(o.clone()),
                _ => {
                    if self.flags.len() > 0 {
                        assert(self@.flags[0] == self.flags[0]@);
                        assigned_value_exec(self.flags[0].as_str())
                    } else {
                        None
                    }
                },
            }
        }
    }
}

/// Extracts a value embedded in a flag token (`DEBUG` in `-DDEBUG`, `c++17` in
/// `-std=c++17`). The family's parser is the authority: the single token is parsed and
/// whatever value the parser extracted from it is returned; a `-flag=value` token that the
/// parser records as a flag yields its value.
pub fn embedded_flag_value(flag: &str, family: ExecutableFamily) -> (res: Option<String>)
    ensures
        match res {
            Some(s) => embedded_value_spec(flag@, family) == Some(s@),
            None => embedded_value_spec(flag@, family) is None,
        },
{
    let one = vec![to_owned_string(flag)];
    let parsed = parse_args(one.as_slice(), ".", family);
    proof {
        assert(one.deep_view() =~= seq![flag@]);
    }
    parsed.embedded_value()
}

/// A flag located in a command line, with its value.
pub struct LocatedFlag {
    /// 0-based index of the flag token.
    pub flag_index: usize,
    /// 0-based index of a separate value token the flag consumes.
    pub value_index: Option<usize>,
    /// The value embedded in the flag token itself.
    pub embedded_value: Option<String>,
}

/// The model of a [`LocatedFlag`].
pub struct LocatedFlagView {
    pub flag_index: int,
    pub value_index: Option<int>,
    pub embedded_value: Option<Seq<char>>,
}

impl View for LocatedFlag {
    type V = LocatedFlagView;

    open spec fn view(&self) -> LocatedFlagView {
        LocatedFlagView {
            flag_index: self.flag_index as int,
            value_index: match self.value_index {
                Some(v) => Some(v as int),
                None => None,
            },
            embedded_value: match self.embedded_value {
                Some(e) => Some(e@),
                None => None,
            },
        }
    }
}

/// The last flag before `--`, with the value it consumes or the value embedded in it.
pub open spec fn locate_spec(args: Seq<Seq<char>>, family: ExecutableFamily) -> Option<LocatedFlagView> {
    match last_flag_before(args, dash_dash_index(args)) {
        Some(idx) => {
            let value_index = value_index_of(args, idx, family);
            Some(LocatedFlagView {
                flag_index: idx,
                value_index,
                embedded_value: if value_index is None { embedded_value_spec(args[idx], family) } else { None },
            })
        },
        None => None,
    }
}

/// Locates the last flag in a command line, family-aware.
///
/// Scans from the end. The `--` end-of-options marker and everything after it are
/// treated as positional, and a lone `-` (stdin/stdout) is not a flag.
pub fn locate_last_flag(args: &[String], family: ExecutableFamily) -> (res: Option<LocatedFlag>)
    ensures
        match res {
            Some(l) => locate_spec(args.deep_view(), family) == Some(l@),
            None => locate_spec(args.deep_view(), family) is None,
        },
        res matches Some(l) ==> l.flag_index < args.len(),
{
    let ghost dv = args.deep_view();
    let n = args.len();
    let mut e: usize = 0;
    while e < n && !str_eq(args[e].as_str(), "--")
        invariant
            dv == args.deep_view(),
            n == args@.len(),
            e <= n,
            dash_dash_from(dv, e as int) == dash_dash_index(dv),
        decreases n - e,
    {
        e = e + 1;
    }
    assert(dash_dash_from(dv, e as int) == e);
    let mut j: usize = e;
    while j > 0
        invariant
            dv == args.deep_view(),
            n == args@.len(),
            e == dash_dash_index(dv),
            e <= n,
            j <= e,
            last_flag_before(dv, j as int) == last_flag_before(dv, e as int),
        decreases j,
    {
        let idx = j - 1;
        let flag = args[idx].as_str();
        assert(dv[idx as int] == flag@);
        if !str_eq(flag, "-") && str_is_flag_like(flag) {
            let value_index = if flag_takes_separate_value(flag, family) && idx + 1 < n
                && !str_is_flag_like(args[idx + 1].as_str()) {
                Some(idx + 1)
            } else {
                None
            };
            let embedded_value = if value_index.is_none() {
                embedded_flag_value(flag, family)
            } else {
                None
            };
            let located = LocatedFlag { flag_index: idx, value_index, embedded_value };
            assert(locate_spec(dv, family) == Some(located@));
            return Some(located);
        }
        j = idx;
    }
    None
}

/// The file-name endings that mark a source file.
pub open spec fn is_source_name(arg: Seq<char>) -> bool {
    ends_with(arg, ".c"@) || ends_with(arg, ".cc"@) || ends_with(arg, ".cpp"@)
        || ends_with(arg, ".cxx"@) || ends_with(arg, ".c++"@) || ends_with(arg, ".h"@)
        || ends_with(arg, ".hpp"@) || ends_with(arg, ".hxx"@) || ends_with(arg, ".s"@)
        || ends_with(arg, ".S"@) || ends_with(arg, ".asm"@)
}

/// Whether an argument looks like a source file.
pub fn is_source_arg(arg: &str) -> (res: bool)
    ensures
        res == is_source_name(arg@),
{
    str_ends_with(arg, ".c") || str_ends_with(arg, ".cc") || str_ends_with(arg, ".cpp")
        || str_ends_with(arg, ".cxx") || str_ends_with(arg, ".c++") || str_ends_with(arg, ".h")
        || str_ends_with(arg, ".hpp") || str_ends_with(arg, ".hxx") || str_ends_with(arg, ".s")
        || str_ends_with(arg, ".S") || str_ends_with(arg, ".asm")
}

} // verus!
