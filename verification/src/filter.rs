//! The argument pipeline: split fused flags, drop bad flags, swap problematic flags,
//! add helpful flags, and decide on a response file.
use vstd::prelude::*;
use crate::classification::ExecutableFamily;
use crate::constants::{SPLIT_FUSED_FLAGS, CLI_FLAG_VERSION_LONG, ARGS_CHAR_LIMIT, RESPONSE_FILE_NAME};
use crate::parser::{
    locate_last_flag, find_options_end, last_flag_before, dash_dash_index, options_end,
};
use crate::patterns::{FlagPattern, regex_compiles, regex_is_match, regex_capture, pairs_view};
use crate::strings::{
    is_flag_like, starts_with, str_is_flag_like, str_starts_with, suffix_from, str_eq,
    ends_with, str_ends_with,
    split_white_space, words, to_owned_string, starts_with_char, str_starts_with_char,
    push_char, decimal, decimal_string, replace_all, str_replace, trim, str_trim,
    parse_unsigned, parse_usize,
};
use vstd::utf8::encode_utf8;

verus! {

/// Configuration of the filtering steps.
#[derive(Default)]
pub struct FilterConfig {
    /// Skip splitting fused `/Fd<dir>` / `/Fo<dir>` flags.
    pub skip_split: bool,
    /// Skip removing bad flags.
    pub skip_bad: bool,
    /// Skip swapping problematic flags.
    pub skip_swap: bool,
    /// Skip adding extra helpful flags.
    pub skip_add: bool,
    /// Skip adding `--version` when no argument is left.
    pub skip_version_on_empty: bool,
    /// Always use a response file, whatever the length of the arguments.
    pub force_response_files: bool,
    /// The length of the joined arguments above which a response file is used.
    pub args_char_limit: usize,
}

// ---------------------------------------------------------------- split step

/// What the split step makes of one argument, given the match of the split pattern in it:
/// a flag that starts with the matched text and has more after it becomes the matched
/// text and the rest; anything else stays as it is.
pub open spec fn split_arg(a: Seq<char>, m: Option<Seq<char>>) -> Seq<Seq<char>> {
    match m {
        Some(p) => {
            if is_flag_like(a) && p.len() < a.len() && starts_with(a, p) {
                seq![p, a.subrange(p.len() as int, a.len() as int)]
            } else {
                seq![a]
            }
        },
        None => seq![a],
    }
}

/// The split step over all arguments, with `pattern` as the split pattern.
pub open spec fn split_all(args: Seq<Seq<char>>, pattern: Seq<char>) -> Seq<Seq<char>>
    decreases args.len(),
{
    if args.len() == 0 {
        seq![]
    } else {
        split_all(args.drop_last(), pattern) + split_arg(args.last(), regex_capture(pattern, args.last()))
    }
}

/// Splits a fused flag into its prefix (the match of `pattern`) and its value; `None`
/// when the match is absent, is not at the start, or leaves no value.
fn split_combined_flag(arg: &str, pattern: &FlagPattern) -> (res: Option<Vec<String>>)
    ensures
        match res {
            Some(v) => {
                &&& regex_capture(pattern@, arg@) matches Some(p)
                &&& p.len() < arg@.len()
                &&& starts_with(arg@, p)
                &&& v.deep_view() == seq![p, arg@.subrange(p.len() as int, arg@.len() as int)]
            },
            None => !(regex_capture(pattern@, arg@) matches Some(p) && p.len() < arg@.len() && starts_with(arg@, p)),
        },
{
    match pattern.first_match(arg) {
        Some(prefix) => {
            let k = prefix.as_str().unicode_len();
            if k < arg.unicode_len() && str_starts_with(arg, prefix.as_str()) {
                let value = suffix_from(arg, k);
                let ghost p = prefix@;
                let ghost val = value@;
                let v = vec![prefix, value];
                assert(v.deep_view() =~= seq![p, val]);
                Some(v)
            } else {
                None
            }
        },
        None => None,
    }
}

/// Splits each fused flag into its prefix and its value, using `pattern` to find the
/// prefix. For example `/Fdsome\dir` becomes `/Fd` and `some\dir`.
fn split_flags(args: Vec<String>, pattern: &FlagPattern) -> (res: Vec<String>)
    ensures
        res.deep_view() == split_all(args.deep_view(), pattern@),
{
    let ghost dv = args.deep_view();
    let n = args.len();
    let mut res: Vec<String> = Vec::new();
    let mut i: usize = 0;
    while i < n
        invariant
            dv == args.deep_view(),
            n == args@.len(),
            i <= n,
            res.deep_view() == split_all(dv.subrange(0, i as int), pattern@),
        decreases n - i,
    {
        let arg = &args[i];
        let ghost before = res.deep_view();
        assert(dv[i as int] == arg@);
        let split = if str_is_flag_like(arg.as_str()) {
            split_combined_flag(arg.as_str(), pattern)
        } else {
            None
        };
        match split {
            Some(parts) => {
                let mut parts = parts;
                res.append(&mut parts);
            },
            None => {
                res.push(arg.clone());
            },
        }
        proof {
            let t = dv.subrange(0, i + 1);
            assert(t.drop_last() =~= dv.subrange(0, i as int));
            assert(t.last() == arg@);
            assert(res.deep_view() =~= before + split_arg(arg@, regex_capture(pattern@, arg@)));
        }
        i = i + 1;
    }
    assert(dv.subrange(0, n as int) =~= dv);
    res
}

// ---------------------------------------------------------------- bad-flag step

/// The arguments that `pattern` does not match, in order.
pub open spec fn remove_matching(args: Seq<Seq<char>>, pattern: Seq<char>) -> Seq<Seq<char>>
    decreases args.len(),
{
    if args.len() == 0 {
        seq![]
    } else if regex_is_match(pattern, args.last()) {
        remove_matching(args.drop_last(), pattern)
    } else {
        remove_matching(args.drop_last(), pattern).push(args.last())
    }
}

/// Drops the arguments that `bad_flags` matches.
fn remove_bad_flags(args: Vec<String>, bad_flags: &FlagPattern) -> (res: Vec<String>)
    ensures
        res.deep_view() == remove_matching(args.deep_view(), bad_flags@),
{
    let ghost dv = args.deep_view();
    let n = args.len();
    let mut res: Vec<String> = Vec::new();
    let mut i: usize = 0;
    while i < n
        invariant
            dv == args.deep_view(),
            n == args@.len(),
            i <= n,
            res.deep_view() == remove_matching(dv.subrange(0, i as int), bad_flags@),
        decreases n - i,
    {
        let arg = &args[i];
        let ghost before = res.deep_view();
        assert(dv[i as int] == arg@);
        if !bad_flags.is_match(arg.as_str()) {
            res.push(arg.clone());
            assert(res.deep_view() =~= before.push(arg@));
        }
        proof {
            let t = dv.subrange(0, i + 1);
            assert(t.drop_last() =~= dv.subrange(0, i as int));
        }
        i = i + 1;
    }
    assert(dv.subrange(0, n as int) =~= dv);
    res
}

// ---------------------------------------------------------------- swap step

/// Every argument that `pattern` matches replaced by `replacement`, or dropped when the
/// replacement is empty.
pub open spec fn swap_matching(args: Seq<Seq<char>>, pattern: Seq<char>, replacement: Seq<char>) -> Seq<Seq<char>>
    decreases args.len(),
{
    if args.len() == 0 {
        seq![]
    } else {
        let rest = swap_matching(args.drop_last(), pattern, replacement);
        if !regex_is_match(pattern, args.last()) {
            rest.push(args.last())
        } else if replacement.len() > 0 {
            rest.push(replacement)
        } else {
            rest
        }
    }
}

/// The swap pairs applied one after the other, in order.
pub open spec fn swap_all(args: Seq<Seq<char>>, pairs: Seq<(Seq<char>, Seq<char>)>) -> Seq<Seq<char>>
    decreases pairs.len(),
{
    if pairs.len() == 0 {
        args
    } else {
        swap_matching(swap_all(args, pairs.drop_last()), pairs.last().0, pairs.last().1)
    }
}

/// Replaces every argument that `pattern` matches by `replacement` (drops it when the
/// replacement is empty).
fn swap_flags(args: Vec<String>, pattern: &FlagPattern, replacement: &String) -> (res: Vec<String>)
    ensures
        res.deep_view() == swap_matching(args.deep_view(), pattern@, replacement@),
{
    let ghost dv = args.deep_view();
    let n = args.len();
    let drop = replacement.as_str().unicode_len() == 0;
    let mut res: Vec<String> = Vec::new();
    let mut i: usize = 0;
    while i < n
        invariant
            dv == args.deep_view(),
            n == args@.len(),
            i <= n,
            drop == (replacement@.len() == 0),
            res.deep_view() == swap_matching(dv.subrange(0, i as int), pattern@, replacement@),
        decreases n - i,
    {
        let arg = &args[i];
        let ghost before = res.deep_view();
        assert(dv[i as int] == arg@);
        if !pattern.is_match(arg.as_str()) {
            res.push(arg.clone());
            assert(res.deep_view() =~= before.push(arg@));
        } else if !drop {
            res.push(replacement.clone());
            assert(res.deep_view() =~= before.push(replacement@));
        }
        proof {
            let t = dv.subrange(0, i + 1);
            assert(t.drop_last() =~= dv.subrange(0, i as int));
        }
        i = i + 1;
    }
    assert(dv.subrange(0, n as int) =~= dv);
    res
}

/// Applies every swap pair in order.
fn swap_all_flags(args: Vec<String>, swap_pairs: &[(FlagPattern, String)]) -> (res: Vec<String>)
    ensures
        res.deep_view() == swap_all(args.deep_view(), pairs_view(swap_pairs@)),
{
    let ghost dv = args.deep_view();
    let ghost pv = pairs_view(swap_pairs@);
    let m = swap_pairs.len();
    let mut cur = args;
    let mut k: usize = 0;
    assert(pv.subrange(0, 0) =~= Seq::<(Seq<char>, Seq<char>)>::empty());
    while k < m
        invariant
            pv == pairs_view(swap_pairs@),
            m == swap_pairs@.len(),
            k <= m,
            cur.deep_view() == swap_all(dv, pv.subrange(0, k as int)),
        decreases m - k,
    {
        let pair = &swap_pairs[k];
        cur = swap_flags(cur, &pair.0, &pair.1);
        proof {
            let t = pv.subrange(0, k + 1);
            assert(t.drop_last() =~= pv.subrange(0, k as int));
            assert(t.last() == (pair.0@, pair.1@));
        }
        k = k + 1;
    }
    assert(pv.subrange(0, m as int) =~= pv);
    cur
}

// ---------------------------------------------------------------- add step

/// Where extra flags go: just before the last flag in the options region, or, when the
/// command has no flag at all, where the options end.
pub open spec fn insertion_point(args: Seq<Seq<char>>, family: ExecutableFamily) -> int {
    match last_flag_before(args, dash_dash_index(args)) {
        Some(i) => i,
        None => options_end(args, family),
    }
}

/// The extra flags that do not already occur among the arguments, in order.
pub open spec fn missing_from(extras: Seq<Seq<char>>, args: Seq<Seq<char>>) -> Seq<Seq<char>>
    decreases extras.len(),
{
    if extras.len() == 0 {
        seq![]
    } else if args.contains(extras.last()) {
        missing_from(extras.drop_last(), args)
    } else {
        missing_from(extras.drop_last(), args).push(extras.last())
    }
}

/// Whether a token names an object file (`.o` or `.obj`).
pub open spec fn is_object_name(a: Seq<char>) -> bool {
    ends_with(a, ".o"@) || ends_with(a, ".obj"@)
}

/// Whether the token at `i` belongs to a pure link: an object file, `-o`, or the value
/// that follows an `-o`.
pub open spec fn is_link_token(args: Seq<Seq<char>>, i: int) -> bool {
    is_object_name(args[i]) || args[i] == "-o"@ || (i > 0 && args[i - 1] == "-o"@)
}

/// A pure link step: object files and `-o` with its value, nothing else, and an `-o`
/// among them.
pub open spec fn is_pure_link(args: Seq<Seq<char>>) -> bool {
    &&& args.contains("-o"@)
    &&& forall|i: int| 0 <= i < args.len() ==> #[trigger] is_link_token(args, i)
}

/// The arguments with the missing extra flags spliced in at the insertion point; a pure
/// link step is left as it is, so that compiler flags never leak into a link.
pub open spec fn insert_extras(args: Seq<Seq<char>>, extras: Seq<Seq<char>>, family: ExecutableFamily) -> Seq<Seq<char>> {
    if is_pure_link(args) {
        args
    } else {
        let p = insertion_point(args, family);
        args.subrange(0, p) + missing_from(extras, args) + args.subrange(p, args.len() as int)
    }
}

/// Whether `args` is a pure link step.
fn is_pure_link_command(args: &Vec<String>) -> (res: bool)
    ensures
        res == is_pure_link(args.deep_view()),
{
    let ghost dv = args.deep_view();
    let n = args.len();
    let mut has_output = false;
    let mut i: usize = 0;
    while i < n
        invariant
            dv == args.deep_view(),
            n == args@.len(),
            i <= n,
            forall|k: int| 0 <= k < i ==> #[trigger] is_link_token(dv, k),
            has_output == (exists|k: int| 0 <= k < i && dv[k] == "-o"@),
        decreases n - i,
    {
        let a = args[i].as_str();
        assert(dv[i as int] == a@);
        let is_output_flag = str_eq(a, "-o");
        let follows_output_flag = i > 0 && str_eq(args[i - 1].as_str(), "-o");
        proof {
            if i > 0 {
                assert(dv[i - 1] == args[i - 1]@);
            }
        }
        if !(str_ends_with(a, ".o") || str_ends_with(a, ".obj") || is_output_flag || follows_output_flag) {
            assert(!is_link_token(dv, i as int));
            return false;
        }
        if is_output_flag {
            has_output = true;
        }
        i = i + 1;
    }
    proof {
        if has_output {
            let k = choose|k: int| 0 <= k < n && dv[k] == "-o"@;
            assert(dv.contains("-o"@));
        } else {
            assert forall|k: int| 0 <= k < dv.len() implies dv[k] != "-o"@ by {}
        }
    }
    has_output
}

fn contains_string(v: &Vec<String>, s: &str) -> (res: bool)
    ensures
        res == v.deep_view().contains(s@),
{
    let n = v.len();
    let mut i: usize = 0;
    while i < n
        invariant
            n == v@.len(),
            i <= n,
            forall|k: int| 0 <= k < i ==> v.deep_view()[k] != s@,
        decreases n - i,
    {
        if str_eq(v[i].as_str(), s) {
            assert(v.deep_view()[i as int] == s@);
            return true;
        }
        i = i + 1;
    }
    false
}

fn missing_extras(extras: &Vec<String>, args: &Vec<String>) -> (res: Vec<String>)
    ensures
        res.deep_view() == missing_from(extras.deep_view(), args.deep_view()),
{
    let ghost ev = extras.deep_view();
    let n = extras.len();
    let mut res: Vec<String> = Vec::new();
    let mut i: usize = 0;
    while i < n
        invariant
            ev == extras.deep_view(),
            n == extras@.len(),
            i <= n,
            res.deep_view() == missing_from(ev.subrange(0, i as int), args.deep_view()),
        decreases n - i,
    {
        let e = &extras[i];
        let ghost before = res.deep_view();
        assert(ev[i as int] == e@);
        if !contains_string(args, e.as_str()) {
            res.push(e.clone());
            assert(res.deep_view() =~= before.push(e@));
        }
        proof {
            let t = ev.subrange(0, i + 1);
            assert(t.drop_last() =~= ev.subrange(0, i as int));
        }
        i = i + 1;
    }
    assert(ev.subrange(0, n as int) =~= ev);
    res
}

/// Inserts `insert` into `args` at `pos`.
fn splice_at(args: &mut Vec<String>, pos: usize, insert: &Vec<String>)
    requires
        pos <= old(args)@.len(),
    ensures
        final(args).deep_view() == old(args).deep_view().subrange(0, pos as int) + insert.deep_view()
            + old(args).deep_view().subrange(pos as int, old(args)@.len() as int),
{
    let ghost old_dv = args.deep_view();
    let mut tail = args.split_off(pos);
    assert(args.deep_view() =~= old_dv.subrange(0, pos as int));
    assert(tail.deep_view() =~= old_dv.subrange(pos as int, old_dv.len() as int));
    let ghost head = args.deep_view();
    let n = insert.len();
    let mut i: usize = 0;
    while i < n
        invariant
            n == insert@.len(),
            i <= n,
            args.deep_view() == head + insert.deep_view().subrange(0, i as int),
        decreases n - i,
    {
        let ghost before = args.deep_view();
        args.push(insert[i].clone());
        assert(args.deep_view() =~= before.push(insert.deep_view()[i as int]));
        assert(insert.deep_view().subrange(0, i + 1) =~= insert.deep_view().subrange(0, i as int).push(insert.deep_view()[i as int]));
        i = i + 1;
    }
    assert(insert.deep_view().subrange(0, n as int) =~= insert.deep_view());
    let ghost mid = args.deep_view();
    let ghost t = tail.deep_view();
    args.append(&mut tail);
    assert(args.deep_view() =~= mid + t);
}

/// Splices the extra flags that are not already present into the options region, just
/// before the last flag (so that no flag is parted from its value), or where the options
/// end when there is no flag. A pure link step (object files and `-o`) is left untouched.
fn insert_extra_flags(args: &mut Vec<String>, extra: &Vec<String>, family: ExecutableFamily)
    ensures
        final(args).deep_view() == insert_extras(old(args).deep_view(), extra.deep_view(), family),
{
    if is_pure_link_command(args) {
        return;
    }
    let pos = {
        let view = args.as_slice();
        assert(view.deep_view() =~= args.deep_view());
        match locate_last_flag(view, family) {
            Some(located) => located.flag_index,
            None => find_options_end(view, family),
        }
};
    let missing = missing_extras(extra, args);
    splice_at(args, pos, &missing);
}

// ---------------------------------------------------------------- the pipeline

/// The argument list that the pipeline makes of `args`: split (unless skipped), drop bad
/// flags, swap flags, add the extra flags, and fall back to a lone `--version` when
/// nothing is left.
pub open spec fn filter_spec(
    args: Seq<Seq<char>>,
    config: FilterConfig,
    bad: Seq<char>,
    pairs: Seq<(Seq<char>, Seq<char>)>,
    extra: Seq<char>,
    family: ExecutableFamily,
) -> Seq<Seq<char>> {
    let a1 = if config.skip_split { args } else { split_all(args, SPLIT_FUSED_FLAGS@) };
    let a2 = if config.skip_bad { a1 } else { remove_matching(a1, bad) };
    let a3 = if config.skip_swap { a2 } else { swap_all(a2, pairs) };
    let a4 = if !config.skip_add && words(extra).len() > 0 { insert_extras(a3, words(extra), family) } else { a3 };
    if a4.len() == 0 && !config.skip_version_on_empty {
        seq![CLI_FLAG_VERSION_LONG@]
    } else {
        a4
    }
}

/// Applies the filter pipeline to the arguments.
///
/// Steps:
/// 1. Split fused flags into the flag and its value (unless `skip_split`)
/// 2. Remove bad flags (unless `skip_bad`)
/// 3. Swap flags according to the swap pairs, pair by pair; an empty replacement drops
///    the flag (unless `skip_swap`)
/// 4. Insert the extra flags not already present at the insertion point (unless `skip_add`);
///    a pure link step (object files and `-o`) is left untouched
/// 5. Use a lone `--version` when no argument is left (unless `skip_version_on_empty`)
///
/// Whether the result goes into a response file is decided by [`response_file_needed`].
pub fn apply_filter(
    args: Vec<String>,
    config: &FilterConfig,
    bad_flags: &FlagPattern,
    swap_pairs: &[(FlagPattern, String)],
    extra_flags: &str,
    family: ExecutableFamily,
) -> (res: Vec<String>)
    requires
        !config.skip_split ==> regex_compiles(SPLIT_FUSED_FLAGS@),
    ensures
        res.deep_view() == filter_spec(args.deep_view(), *config, bad_flags@, pairs_view(swap_pairs@), extra_flags@, family),
{
    let ghost dv = args.deep_view();
    let mut cur = if config.skip_split {
        args
    } else {
        match FlagPattern::compile(SPLIT_FUSED_FLAGS) {
            Some(pattern) => split_flags(args, &pattern),
            None => unreached(),
        }
};
    if !config.skip_bad {
        cur = remove_bad_flags(cur, bad_flags);
    }
    if !config.skip_swap {
        cur = swap_all_flags(cur, swap_pairs);
    }
    if !config.skip_add {
        let extra = split_white_space(extra_flags);
        if extra.len() > 0 {
            insert_extra_flags(&mut cur, &extra, family);
        }
    }
    if cur.len() == 0 && !config.skip_version_on_empty {
        cur.push(to_owned_string(CLI_FLAG_VERSION_LONG));
        assert(cur.deep_view() =~= seq![CLI_FLAG_VERSION_LONG@]);
    }
    cur
}

/// Filters and transforms the arguments for the target executable: the pipeline of
/// [`apply_filter`] when the split pattern is available, and the arguments unchanged
/// when the split step is asked for and its pattern cannot be built.
pub fn filter_args(
    args: Vec<String>,
    bad_flags: &FlagPattern,
    swap_pairs: &[(FlagPattern, String)],
    extra_flags: &str,
    config: &FilterConfig,
    family: ExecutableFamily,
) -> (res: Vec<String>)
    ensures
        !config.skip_split && !regex_compiles(SPLIT_FUSED_FLAGS@) ==> res.deep_view() == args.deep_view(),
        config.skip_split || regex_compiles(SPLIT_FUSED_FLAGS@) ==> res.deep_view() == filter_spec(
            args.deep_view(), *config, bad_flags@, pairs_view(swap_pairs@), extra_flags@, family),
{
    if !config.skip_split && FlagPattern::compile(SPLIT_FUSED_FLAGS).is_none() {
        return args;
    }
    apply_filter(args, config, bad_flags, swap_pairs, extra_flags, family)
}

// ---------------------------------------------------------------- configuration

/// The character limit that the `WRAPPER_ARGS_CHAR_LIMIT` value asks for: the value,
/// trimmed, read as a `usize`; [`ARGS_CHAR_LIMIT`] when it is absent or not such a number.
pub open spec fn char_limit_from(value: Option<Seq<char>>) -> nat {
    match value {
        Some(v) => match parse_unsigned(trim(v)) {
            Some(n) => if n <= usize::MAX { n } else { ARGS_CHAR_LIMIT as nat },
            None => ARGS_CHAR_LIMIT as nat,
        },
        None => ARGS_CHAR_LIMIT as nat,
    }
}

/// Resolves the character limit from the value of `WRAPPER_ARGS_CHAR_LIMIT`, if set.
pub fn args_char_limit_from(value: Option<&str>) -> (res: usize)
    ensures
        res as nat == char_limit_from(match value { Some(v) => Some(v@), None => None }),
{
    match value {
        Some(v) => {
            let t = str_trim(v);
            match parse_usize(t.as_str()) {
                Some(n) => n,
                None => ARGS_CHAR_LIMIT,
            }
        },
        None => ARGS_CHAR_LIMIT,
    }
}

impl FilterConfig {
    /// The configuration that the wrapper's switches ask for. `skip_all` disables the
    /// split, bad, swap and add steps at once; splitting runs only when `split` is set.
    pub fn from_switches(
        skip_all: bool,
        split: bool,
        skip_bad: bool,
        skip_swap: bool,
        skip_add: bool,
        skip_version_on_empty: bool,
        force_response_files: bool,
        char_limit: Option<&str>,
    ) -> (res: FilterConfig)
        ensures
            res.skip_split == (skip_all || !split),
            res.skip_bad == (skip_all || skip_bad),
            res.skip_swap == (skip_all || skip_swap),
            res.skip_add == (skip_all || skip_add),
            res.skip_version_on_empty == skip_version_on_empty,
            res.force_response_files == force_response_files,
            res.args_char_limit as nat == char_limit_from(match char_limit { Some(v) => Some(v@), None => None }),
    {
        FilterConfig {
            skip_split: skip_all || !split,
            skip_bad: skip_all || skip_bad,
            skip_swap: skip_all || skip_swap,
            skip_add: skip_all || skip_add,
            skip_version_on_empty,
            force_response_files,
            args_char_limit: args_char_limit_from(char_limit),
        }
    }
}

// ---------------------------------------------------------------- response files

/// The number of UTF-8 bytes that encode `s`.
pub open spec fn byte_len(s: Seq<char>) -> nat {
    encode_utf8(s).len()
}

/// The byte lengths of the arguments, each plus one for a separator.
pub open spec fn lengths_with_separators(args: Seq<Seq<char>>) -> nat
    decreases args.len(),
{
    if args.len() == 0 {
        0
    } else {
        lengths_with_separators(args.drop_last()) + byte_len(args.last()) + 1
    }
}

/// The byte length of the arguments joined by single spaces.
pub open spec fn joined_len(args: Seq<Seq<char>>) -> nat {
    if args.len() == 0 { 0 } else { (lengths_with_separators(args) - 1) as nat }
}

/// Whether some argument already refers to a response file (starts with `@`).
pub open spec fn has_response_file_arg(args: Seq<Seq<char>>) -> bool {
    exists|i: int| 0 <= i < args.len() && starts_with_char(#[trigger] args[i], '@')
}

/// Whether the arguments go into a response file: never when one of them already starts
/// with `@`; otherwise, when forced, whenever there is an argument at all, whatever the
/// length, and else when the joined arguments are longer than the limit.
pub open spec fn response_file_required(args: Seq<Seq<char>>, force: bool, limit: nat) -> bool {
    !has_response_file_arg(args) && if force { args.len() >= 1 } else { joined_len(args) > limit }
}

proof fn lemma_lengths_monotone(args: Seq<Seq<char>>, i: int, j: int)
    requires
        0 <= i <= j <= args.len(),
    ensures
        lengths_with_separators(args.subrange(0, i)) <= lengths_with_separators(args.subrange(0, j)),
    decreases j - i,
{
    if i < j {
        lemma_lengths_monotone(args, i, j - 1);
        assert(args.subrange(0, j).drop_last() =~= args.subrange(0, j - 1));
    }
}

fn string_byte_len(s: &String) -> (res: usize)
    ensures
        res as nat == byte_len(s@),
{
    s.as_str().as_bytes().len()
}

fn joined_len_exceeds(args: &Vec<String>, limit: usize) -> (res: bool)
    ensures
        res == (joined_len(args.deep_view()) > limit),
{
    let ghost dv = args.deep_view();
    let n = args.len();
    let bound: u128 = limit as u128 + 1;
    let mut acc: u128 = 0;
    let mut i: usize = 0;
    while i < n
        invariant
            dv == args.deep_view(),
            n == args@.len(),
            i <= n,
            bound == limit + 1,
            acc as nat == lengths_with_separators(dv.subrange(0, i as int)),
            acc <= bound,
        decreases n - i,
    {
        let b = string_byte_len(&args[i]);
        assert(dv[i as int] == args[i as int]@);
        assert(dv.subrange(0, i + 1).drop_last() =~= dv.subrange(0, i as int));
        acc = acc + b as u128 + 1;
        if acc > bound {
            proof {
                lemma_lengths_monotone(dv, i + 1, n as int);
                assert(dv.subrange(0, n as int) =~= dv);
            }
            return true;
        }
        i = i + 1;
    }
    assert(dv.subrange(0, n as int) =~= dv);
    n > 0 && acc > bound
}

/// Whether the arguments go into a response file under `config`.
pub fn response_file_needed(args: &Vec<String>, config: &FilterConfig) -> (res: bool)
    ensures
        res == response_file_required(args.deep_view(), config.force_response_files, config.args_char_limit as nat),
{
    let ghost dv = args.deep_view();
    let n = args.len();
    let mut i: usize = 0;
    while i < n
        invariant
            dv == args.deep_view(),
            n == args@.len(),
            i <= n,
            forall|k: int| 0 <= k < i ==> !starts_with_char(#[trigger] dv[k], '@'),
        decreases n - i,
    {
        if str_starts_with_char(args[i].as_str(), '@') {
            assert(starts_with_char(dv[i as int], '@'));
            return false;
        }
        i = i + 1;
    }
    if config.force_response_files {
        n >= 1
    } else {
        joined_len_exceeds(args, config.args_char_limit)
    }
}

/// The arguments one per line, separated by `\n`, with no trailing newline.
pub open spec fn join_lines(args: Seq<Seq<char>>) -> Seq<char>
    decreases args.len(),
{
    if args.len() == 0 {
        seq![]
    } else if args.len() == 1 {
        args[0]
    } else {
        join_lines(args.drop_last()) + seq!['\n'] + args.last()
    }
}

/// The text of the response file: each argument on its own line.
pub fn response_file_text(args: &Vec<String>) -> (res: String)
    ensures
        res@ == join_lines(args.deep_view()),
{
    let ghost dv = args.deep_view();
    let n = args.len();
    let mut res = String::new();
    let mut i: usize = 0;
    while i < n
        invariant
            dv == args.deep_view(),
            n == args@.len(),
            i <= n,
            res@ == join_lines(dv.subrange(0, i as int)),
        decreases n - i,
    {
        let ghost before = res@;
        if i > 0 {
            push_char(&mut res, '\n');
        }
        res.append(args[i].as_str());
        proof {
            let t = dv.subrange(0, i + 1);
            assert(t.drop_last() =~= dv.subrange(0, i as int));
            assert(t.last() == args[i as int]@);
            if i == 0 {
                assert(res@ =~= t[0]);
            } else {
                assert(res@ =~= before + seq!['\n'] + t.last());
            }
        }
        i = i + 1;
    }
    assert(dv.subrange(0, n as int) =~= dv);
    res
}

/// The response file name for process `pid`: [`RESPONSE_FILE_NAME`] with `<pid>`
/// replaced by the decimal process id.
pub fn response_file_name(pid: u32) -> (res: String)
    ensures
        res@ == replace_all(RESPONSE_FILE_NAME@, "<pid>"@, decimal(pid as nat)),
{
    let id = decimal_string(pid);
    proof {
        reveal_strlit("<pid>");
    }
    str_replace(RESPONSE_FILE_NAME, "<pid>", id.as_str())
}

/// The single argument that stands for a response file at `path`.
pub fn response_file_argument(path: &str) -> (res: String)
    ensures
        res@ == seq!['@'] + path@,
{
    let mut res = String::new();
    push_char(&mut res, '@');
    res.append(path);
    res
}

} // verus!
