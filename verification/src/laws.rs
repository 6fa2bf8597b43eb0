//! Properties of the argument pipeline that hold for every input.
use vstd::prelude::*;
use crate::classification::ExecutableFamily;
use crate::executable::{names_for, names_wrapper, names_tool, is_bare_wrapper};
use crate::constants::UNKNOWN_KEYWORD;
use crate::runtime::{RuntimeSettings, planned_args};
use crate::classification::ExecutableKind;
use crate::filter::{
    FilterConfig, split_arg, split_all, remove_matching, swap_matching, swap_all, missing_from,
    insert_extras, insertion_point, filter_spec, has_response_file_arg, response_file_required,
    is_pure_link,
};
use crate::parser::{
    last_flag_before, dash_dash_index, value_index_of, is_flag_token, dash_dash_from,
    options_end_from, takes_separate_value, locate_spec, options_end, embedded_value_spec,
};
use crate::runtime::final_args_for;
use crate::classification::{
    classification_of, bad_flags_for, swap_pairs_for, extra_flags_for,
};
use crate::constants::{
    COMPILER_KEYWORDS, LINKER_KEYWORDS, LLVM_KEYWORDS, MSVC_KEYWORDS, GCC_KEYWORDS,
    LLVM_COMPILER_BAD_FLAGS, MSVC_COMPILER_BAD_FLAGS, GCC_COMPILER_BAD_FLAGS,
    LLVM_LINKER_BAD_FLAGS, MSVC_LINKER_BAD_FLAGS, GCC_LINKER_BAD_FLAGS,
    LLVM_COMPILER_SWAP_PAIRS, MSVC_COMPILER_SWAP_PAIRS, GCC_COMPILER_SWAP_PAIRS,
    LLVM_LINKER_SWAP_PAIRS, MSVC_LINKER_SWAP_PAIRS, GCC_LINKER_SWAP_PAIRS,
    LLVM_COMPILER_EXTRA_FLAGS, MSVC_COMPILER_EXTRA_FLAGS, GCC_COMPILER_EXTRA_FLAGS,
    LLVM_LINKER_EXTRA_FLAGS, MSVC_LINKER_EXTRA_FLAGS, GCC_LINKER_EXTRA_FLAGS,
};
use crate::patterns::{regex_capture, pairs_text};
use crate::strings::has_substring;
use crate::patterns::regex_is_match;
use crate::usage::{
    WrapState, wrap_fold, wrap_step, wrap_spec, visible_len_from, visible_len_spec, is_escape,
    escape_state_after, escapes_closed, usage_pair_spec, usage_field, paint_spec, spaces,
    MAGENTA, BOLD, CYAN, RESET,
};
use crate::strings::ends_with;
use crate::strings::{is_flag_like, split_once, words, is_white_space, leading_word_len,
    lemma_leading_word_len_bound, decimal, parse_unsigned, digits_value,
    digit_char, unsigned_digits, all_digits, is_digit};

verus! {

/// The characters of a list of arguments, one after the other.
pub open spec fn flatten(args: Seq<Seq<char>>) -> Seq<char>
    decreases args.len(),
{
    if args.len() == 0 {
        seq![]
    } else {
        flatten(args.drop_last()) + args.last()
    }
}

/// Flattening distributes over concatenation.
pub proof fn lemma_flatten_concat(a: Seq<Seq<char>>, b: Seq<Seq<char>>)
    ensures
        flatten(a + b) == flatten(a) + flatten(b),
    decreases b.len(),
{
    if b.len() == 0 {
        assert(a + b =~= a);
        assert(flatten(a) + flatten(b) =~= flatten(a));
    } else {
        lemma_flatten_concat(a, b.drop_last());
        assert((a + b).drop_last() =~= a + b.drop_last());
        assert(flatten(a) + flatten(b) =~= flatten(a) + flatten(b.drop_last()) + b.last());
    }
}

/// Splitting fused flags never loses, adds or reorders a character: the arguments after
/// the split step, read one after the other, spell the same text as before.
pub proof fn split_preserves_text(args: Seq<Seq<char>>, pattern: Seq<char>)
    ensures
        flatten(split_all(args, pattern)) == flatten(args),
    decreases args.len(),
{
    if args.len() > 0 {
        let a = args.last();
        let piece = split_arg(a, crate::patterns::regex_capture(pattern, a));
        split_preserves_text(args.drop_last(), pattern);
        lemma_flatten_concat(split_all(args.drop_last(), pattern), piece);
        if piece.len() == 2 {
            let p = piece[0];
            assert(p + a.subrange(p.len() as int, a.len() as int) =~= a);
            assert(piece.drop_last() =~= seq![p]);
            assert(seq![p].drop_last() =~= Seq::<Seq<char>>::empty());
            assert(flatten(Seq::<Seq<char>>::empty()) == Seq::<char>::empty());
            assert(flatten(seq![p]) == flatten(seq![p].drop_last()) + p);
            assert(flatten(seq![p]) =~= p);
            assert(flatten(piece) == flatten(piece.drop_last()) + piece.last());
            assert(flatten(piece) =~= a);
        } else {
            assert(piece.drop_last() =~= Seq::<Seq<char>>::empty());
            assert(flatten(Seq::<Seq<char>>::empty()) == Seq::<char>::empty());
            assert(flatten(piece) == flatten(piece.drop_last()) + piece.last());
            assert(flatten(piece) =~= a);
        }
    }
}

/// A flag with nothing after its fused prefix passes the split step unchanged, and so does
/// any argument that is not flag-like.
pub proof fn split_keeps_bare_flags(a: Seq<char>, m: Option<Seq<char>>)
    requires
        !is_flag_like(a) || m is None || (m matches Some(p) && p.len() >= a.len()),
    ensures
        split_arg(a, m) == seq![a],
{
}

/// After the bad-flag step no argument matches the bad-flag pattern, every argument left
/// was an input argument, and every input argument that does not match is still there.
pub proof fn removal_is_exact(args: Seq<Seq<char>>, pattern: Seq<char>)
    ensures
        forall|i: int| 0 <= i < remove_matching(args, pattern).len() ==> {
            &&& !regex_is_match(pattern, #[trigger] remove_matching(args, pattern)[i])
            &&& args.contains(remove_matching(args, pattern)[i])
        },
        forall|j: int| 0 <= j < args.len() && !regex_is_match(pattern, #[trigger] args[j])
            ==> remove_matching(args, pattern).contains(args[j]),
    decreases args.len(),
{
    if args.len() > 0 {
        let rest = args.drop_last();
        removal_is_exact(rest, pattern);
        let r = remove_matching(args, pattern);
        let r0 = remove_matching(rest, pattern);
        assert forall|i: int| 0 <= i < r.len() implies {
            &&& !regex_is_match(pattern, #[trigger] r[i])
            &&& args.contains(r[i])
        } by {
            if i < r0.len() {
                assert(r[i] == r0[i]);
                let k = choose|k: int| 0 <= k < rest.len() && rest[k] == r0[i];
                assert(args[k] == rest[k]);
            } else {
                assert(r[i] == args.last());
                assert(args[args.len() - 1] == args.last());
            }
        }
        assert forall|j: int| 0 <= j < args.len() && !regex_is_match(pattern, #[trigger] args[j])
            implies r.contains(args[j]) by {
            if j < args.len() - 1 {
                assert(rest[j] == args[j]);
                let k = choose|k: int| 0 <= k < r0.len() && r0[k] == rest[j];
                assert(r[k] == r0[k]);
            } else {
                assert(r[r.len() - 1] == args[j]);
            }
        }
    }
}

proof fn lemma_swap_matching_length(args: Seq<Seq<char>>, pattern: Seq<char>, replacement: Seq<char>)
    ensures
        swap_matching(args, pattern, replacement).len() <= args.len(),
        replacement.len() > 0 ==> swap_matching(args, pattern, replacement).len() == args.len(),
    decreases args.len(),
{
    if args.len() > 0 {
        lemma_swap_matching_length(args.drop_last(), pattern, replacement);
    }
}

/// The swap step never adds an argument, and keeps the number of arguments when no
/// replacement is empty.
pub proof fn swap_keeps_length(args: Seq<Seq<char>>, pairs: Seq<(Seq<char>, Seq<char>)>)
    ensures
        swap_all(args, pairs).len() <= args.len(),
        (forall|i: int| 0 <= i < pairs.len() ==> (#[trigger] pairs[i]).1.len() > 0)
            ==> swap_all(args, pairs).len() == args.len(),
    decreases pairs.len(),
{
    if pairs.len() > 0 {
        swap_keeps_length(args, pairs.drop_last());
        lemma_swap_matching_length(swap_all(args, pairs.drop_last()), pairs.last().0, pairs.last().1);
        if forall|i: int| 0 <= i < pairs.len() ==> (#[trigger] pairs[i]).1.len() > 0 {
            assert forall|i: int| 0 <= i < pairs.drop_last().len() implies (#[trigger] pairs.drop_last()[i]).1.len() > 0 by {
                assert(pairs.drop_last()[i] == pairs[i]);
            }
            assert(pairs[pairs.len() - 1] == pairs.last());
        }
    }
}

/// The extra flags that get added are exactly those not already among the arguments,
/// in their order: an extra flag that is present is never added a second time.
pub proof fn added_flags_are_the_missing_ones(extras: Seq<Seq<char>>, args: Seq<Seq<char>>)
    ensures
        forall|i: int| 0 <= i < missing_from(extras, args).len() ==> {
            &&& !args.contains(#[trigger] missing_from(extras, args)[i])
            &&& extras.contains(missing_from(extras, args)[i])
        },
        forall|j: int| 0 <= j < extras.len() && !args.contains(#[trigger] extras[j])
            ==> missing_from(extras, args).contains(extras[j]),
    decreases extras.len(),
{
    if extras.len() > 0 {
        let rest = extras.drop_last();
        added_flags_are_the_missing_ones(rest, args);
        let r = missing_from(extras, args);
        let r0 = missing_from(rest, args);
        assert forall|i: int| 0 <= i < r.len() implies {
            &&& !args.contains(#[trigger] r[i])
            &&& extras.contains(r[i])
        } by {
            if i < r0.len() {
                assert(r[i] == r0[i]);
                let k = choose|k: int| 0 <= k < rest.len() && rest[k] == r0[i];
                assert(extras[k] == rest[k]);
            } else {
                assert(r[i] == extras.last());
                assert(extras[extras.len() - 1] == extras.last());
            }
        }
        assert forall|j: int| 0 <= j < extras.len() && !args.contains(#[trigger] extras[j])
            implies r.contains(extras[j]) by {
            if j < extras.len() - 1 {
                assert(rest[j] == extras[j]);
                let k = choose|k: int| 0 <= k < r0.len() && r0[k] == rest[j];
                assert(r[k] == r0[k]);
            } else {
                assert(r[r.len() - 1] == extras[j]);
            }
        }
    }
}

proof fn lemma_last_flag(args: Seq<Seq<char>>, end: int)
    requires
        0 <= end <= args.len(),
    ensures
        last_flag_before(args, end) matches Some(i) ==> 0 <= i < end && is_flag_token(args[i]),
    decreases end,
{
    if end > 0 {
        lemma_last_flag(args, end - 1);
    }
}

proof fn lemma_dash_dash(args: Seq<Seq<char>>, i: int)
    requires
        0 <= i <= args.len(),
    ensures
        i <= dash_dash_from(args, i) <= args.len(),
    decreases args.len() - i,
{
    if i < args.len() && args[i] != "--"@ {
        lemma_dash_dash(args, i + 1);
    }
}

/// Adding extra flags to a command that is not a pure link keeps the arguments in place
/// around one inserted block. When the options region (before `--`) holds a flag, the
/// block goes just before the last such flag: inside the options region, and never between
/// a flag and the value it consumes.
pub proof fn insertion_keeps_flag_value_pairs(args: Seq<Seq<char>>, extras: Seq<Seq<char>>, family: ExecutableFamily)
    requires
        !is_pure_link(args),
    ensures
        ({
            let p = insertion_point(args, family);
            let added = missing_from(extras, args);
            let r = insert_extras(args, extras, family);
            &&& 0 <= p <= args.len()
            &&& r.subrange(0, p) == args.subrange(0, p)
            &&& r.subrange(p, p + added.len()) == added
            &&& r.subrange(p + added.len(), r.len() as int) == args.subrange(p, args.len() as int)
        }),
        last_flag_before(args, dash_dash_index(args)) is Some ==> {
            let p = insertion_point(args, family);
            &&& 0 <= p < dash_dash_index(args)
            &&& is_flag_like(args[p])
            &&& !(p > 0 && value_index_of(args, p - 1, family) == Some(p))
        },
{
    let p = insertion_point(args, family);
    let added = missing_from(extras, args);
    let r = insert_extras(args, extras, family);
    lemma_dash_dash(args, 0);
    lemma_last_flag(args, dash_dash_index(args));
    lemma_options_end_in_range(args, family, 0);
    assert(r.subrange(0, p) =~= args.subrange(0, p));
    assert(r.subrange(p, p + added.len()) =~= added);
    assert(r.subrange(p + added.len(), r.len() as int) =~= args.subrange(p, args.len() as int));
}

/// A pure link step (object files and `-o` with its value) gets no extra flags at all:
/// whatever the extra flags, the arguments are left untouched.
pub proof fn pure_link_is_left_untouched(args: Seq<Seq<char>>, extras: Seq<Seq<char>>, family: ExecutableFamily)
    requires
        is_pure_link(args),
    ensures
        insert_extras(args, extras, family) == args,
{
}

proof fn lemma_options_end_in_range(args: Seq<Seq<char>>, family: ExecutableFamily, i: int)
    requires
        0 <= i <= args.len(),
    ensures
        i <= options_end_from(args, family, i) <= args.len(),
    decreases args.len() - i,
{
    if i < args.len() && args[i] != "--"@ {
        if takes_separate_value(args[i], family) {
            if i + 1 < args.len() {
                lemma_options_end_in_range(args, family, i + 2);
            } else {
                lemma_options_end_in_range(args, family, i + 1);
            }
        } else if is_flag_like(args[i]) {
            lemma_options_end_in_range(args, family, i + 1);
        }
    }
}

/// The pipeline never hands on an empty argument list unless the `--version` fallback is
/// switched off.
pub proof fn filter_result_not_empty(
    args: Seq<Seq<char>>,
    config: FilterConfig,
    bad: Seq<char>,
    pairs: Seq<(Seq<char>, Seq<char>)>,
    extra: Seq<char>,
    family: ExecutableFamily,
)
    requires
        !config.skip_version_on_empty,
    ensures
        filter_spec(args, config, bad, pairs, extra, family).len() > 0,
{
}

/// With the split, bad, swap and add steps all skipped, the pipeline hands the arguments
/// on unchanged (an empty list still gets the `--version` fallback unless it is off).
pub proof fn skipping_all_steps_keeps_arguments(
    args: Seq<Seq<char>>,
    config: FilterConfig,
    bad: Seq<char>,
    pairs: Seq<(Seq<char>, Seq<char>)>,
    extra: Seq<char>,
    family: ExecutableFamily,
)
    requires
        config.skip_split,
        config.skip_bad,
        config.skip_swap,
        config.skip_add,
        args.len() > 0 || config.skip_version_on_empty,
    ensures
        filter_spec(args, config, bad, pairs, extra, family) == args,
{
}

/// An argument list that already refers to a response file never gets another one.
pub proof fn existing_response_file_is_kept(args: Seq<Seq<char>>, force: bool, limit: nat)
    requires
        has_response_file_arg(args),
    ensures
        !response_file_required(args, force, limit),
{
}

/// A combined `<wrapper>-<tool>` name is exactly the wrapper, a `-`, and the tool, and the
/// wrapper part holds no `-`.
pub proof fn combined_name_splits_at_first_dash(name: Seq<char>, args: Seq<Seq<char>>)
    requires
        name.contains('-'),
    ensures
        ({
            let (w, t) = names_for(name, true, true, args);
            &&& name == w + seq!['-'] + t
            &&& !w.contains('-')
        }),
{
    let i = choose|i: int| 0 <= i < name.len() && name[i] == '-' && forall|j: int| 0 <= j < i ==> name[j] != '-';
    assert(exists|i: int| 0 <= i < name.len() && name[i] == '-' && forall|j: int| 0 <= j < i ==> name[j] != '-') by {
        lemma_first_dash(name, 0);
    }
    let (w, t) = names_for(name, true, true, args);
    assert(split_once(name, '-') == Some((name.subrange(0, i), name.subrange(i + 1, name.len() as int))));
    assert(name =~= w + seq!['-'] + t);
    assert forall|j: int| 0 <= j < w.len() implies w[j] != '-' by {}
}

/// Name resolution by keywords: a name without the wrapper keyword is the tool itself,
/// with no wrapper; a wrapper name that also names a tool splits at its first `-` into the
/// wrapper (which holds no `-`) and the tool; a bare wrapper takes its first argument as
/// the tool.
pub proof fn executable_names_by_keywords(name: Seq<char>, args: Seq<Seq<char>>)
    ensures
        !names_wrapper(name) ==> names_for(name, names_wrapper(name), names_tool(name), args)
            == (UNKNOWN_KEYWORD@, name),
        names_wrapper(name) && names_tool(name) && name.contains('-') ==> {
            let (w, t) = names_for(name, names_wrapper(name), names_tool(name), args);
            &&& name == w + seq!['-'] + t
            &&& !w.contains('-')
        },
        is_bare_wrapper(name) && args.len() > 0 ==> names_for(name, names_wrapper(name), names_tool(name), args)
            == (name, args[0]),
{
    if names_wrapper(name) && names_tool(name) && name.contains('-') {
        combined_name_splits_at_first_dash(name, args);
    }
}

proof fn lemma_first_dash(name: Seq<char>, from: int)
    requires
        0 <= from <= name.len(),
        forall|j: int| 0 <= j < from ==> name[j] != '-',
        exists|k: int| from <= k < name.len() && name[k] == '-',
    ensures
        exists|i: int| 0 <= i < name.len() && name[i] == '-' && forall|j: int| 0 <= j < i ==> name[j] != '-',
    decreases name.len() - from,
{
    if name[from] == '-' {
        assert(0 <= from < name.len() && name[from] == '-' && forall|j: int| 0 <= j < from ==> name[j] != '-');
    } else {
        let k = choose|k: int| from <= k < name.len() && name[k] == '-';
        assert(from + 1 <= k);
        lemma_first_dash(name, from + 1);
    }
}

/// Reading back the decimal text of a number gives the number.
pub proof fn decimal_round_trip(n: nat)
    ensures
        parse_unsigned(decimal(n)) == Some(n),
{
    lemma_decimal_digits(n);
    let d = decimal(n);
    assert(d.len() > 0);
    if d[0] == '+' {
        assert(is_digit(d[0]));
    }
    assert(unsigned_digits(d) == d);
}

proof fn lemma_digit_char(k: nat)
    requires
        k < 10,
    ensures
        is_digit(digit_char(k)),
        (digit_char(k) as int) - ('0' as int) == k,
{
}

proof fn lemma_decimal_digits(n: nat)
    ensures
        decimal(n).len() > 0,
        all_digits(decimal(n)),
        digits_value(decimal(n)) == n,
    decreases n,
{
    if n < 10 {
        lemma_digit_char(n);
        let d = decimal(n);
        assert(d.drop_last() =~= Seq::<char>::empty());
        assert(digits_value(d) == digits_value(d.drop_last()) * 10 + ((d.last() as int) - ('0' as int)) as nat);
    } else {
        lemma_decimal_digits(n / 10);
        lemma_digit_char(n % 10);
        let d = decimal(n);
        let q = decimal(n / 10);
        assert(d == q.push(digit_char(n % 10)));
        assert(d.drop_last() =~= q);
        assert forall|i: int| 0 <= i < d.len() implies is_digit(#[trigger] d[i]) by {
            if i < q.len() {
                assert(d[i] == q[i]);
            }
        }
        assert(digits_value(d) == digits_value(q) * 10 + (n % 10));
    }
}

/// Words joined by single spaces.
pub open spec fn join_words(ws: Seq<Seq<char>>) -> Seq<char>
    decreases ws.len(),
{
    if ws.len() == 0 {
        seq![]
    } else if ws.len() == 1 {
        ws[0]
    } else {
        join_words(ws.drop_last()) + seq![' '] + ws.last()
    }
}

proof fn lemma_words_not_empty(s: Seq<char>)
    ensures
        forall|i: int| 0 <= i < words(s).len() ==> (#[trigger] words(s)[i]).len() > 0,
    decreases s.len(),
{
    if s.len() > 0 {
        if is_white_space(s[0]) {
            lemma_words_not_empty(s.drop_first());
            assert(words(s) == words(s.drop_first()));
        } else {
            lemma_leading_word_len_bound(s);
            let k = leading_word_len(s) as int;
            let rest = s.subrange(k, s.len() as int);
            lemma_words_not_empty(rest);
            let ws = words(s);
            assert(ws == seq![s.subrange(0, k)] + words(rest));
            assert forall|i: int| 0 <= i < ws.len() implies (#[trigger] ws[i]).len() > 0 by {
                if i > 0 {
                    assert(ws[i] == words(rest)[i - 1]);
                } else {
                    assert(ws[0] == s.subrange(0, k));
                    assert(k >= 1);
                }
            }
        }
    }
}

/// The lines that greedy wrapping hands out for a state.
pub open spec fn wrap_output(st: WrapState) -> Seq<Seq<char>> {
    if st.current.len() > 0 { st.lines.push(st.current) } else { st.lines }
}

proof fn lemma_wrap_fold_joins(ws: Seq<Seq<char>>, limit: nat)
    requires
        forall|i: int| 0 <= i < ws.len() ==> (#[trigger] ws[i]).len() > 0,
    ensures
        join_words(wrap_output(wrap_fold(ws, limit))) == join_words(ws),
        wrap_fold(ws, limit).current.len() == 0 ==> wrap_fold(ws, limit).lines.len() == 0,
        ws.len() > 0 ==> wrap_fold(ws, limit).current.len() > 0,
    decreases ws.len(),
{
    if ws.len() > 0 {
        let rest = ws.drop_last();
        assert forall|i: int| 0 <= i < rest.len() implies (#[trigger] rest[i]).len() > 0 by {
            assert(rest[i] == ws[i]);
        }
        lemma_wrap_fold_joins(rest, limit);
        let st = wrap_fold(rest, limit);
        let w = ws.last();
        assert(w == ws[ws.len() - 1]);
        let st2 = wrap_step(st, w, limit);
        assert(wrap_fold(ws, limit) == st2);
        let ww = crate::usage::visible_len_spec(w);
        let broke = st.width + ww + 1 > limit && st.current.len() > 0;
        if rest.len() == 0 {
            assert(st.current.len() == 0);
            assert(st2.lines == st.lines);
            assert(st2.current =~= w);
            assert(wrap_output(st2) =~= seq![w]);
            assert(ws =~= seq![w]);
        } else if broke {
            let lines2 = st.lines.push(st.current);
            assert(st2.current =~= w);
            assert(wrap_output(st2) == lines2.push(w));
            assert(wrap_output(st) == lines2);
            assert(lines2.push(w).drop_last() =~= lines2);
            assert(join_words(lines2.push(w)) == join_words(lines2) + seq![' '] + w);
            assert(join_words(ws) == join_words(rest) + seq![' '] + w);
        } else {
            assert(st2.current =~= st.current.push(' ') + w);
            assert(wrap_output(st2) == st.lines.push(st.current.push(' ') + w));
            assert(wrap_output(st) == st.lines.push(st.current));
            let a = st.lines.push(st.current.push(' ') + w);
            let b = st.lines.push(st.current);
            assert(a.drop_last() =~= st.lines);
            assert(b.drop_last() =~= st.lines);
            if st.lines.len() == 0 {
                assert(join_words(a) == a[0]);
                assert(join_words(b) == b[0]);
            } else {
                assert(join_words(a) == join_words(st.lines) + seq![' '] + (st.current.push(' ') + w));
                assert(join_words(b) == join_words(st.lines) + seq![' '] + st.current);
            }
            assert(join_words(a) =~= join_words(b) + seq![' '] + w);
            assert(join_words(ws) == join_words(rest) + seq![' '] + w);
        }
    }
}

/// Wrapping text at word boundaries loses nothing: the lines, joined by single spaces,
/// are the words of the text joined by single spaces.
pub proof fn wrapping_keeps_the_words(text: Seq<char>, width: nat)
    requires
        width > 0,
    ensures
        join_words(wrap_spec(text, width)) == join_words(words(text)),
{
    lemma_words_not_empty(text);
    lemma_wrap_fold_joins(words(text), width);
}

/// The first word of a line: its leading run of characters without white space.
pub open spec fn first_word(l: Seq<char>) -> Seq<char> {
    l.subrange(0, leading_word_len(l) as int)
}

/// A wrapped line keeps to the width, or is a single word wider than the width.
pub open spec fn fits_or_single_word(l: Seq<char>, width: nat) -> bool {
    visible_len_spec(l) <= width || !l.contains(' ')
}

/// A word as wrapping sees it: not empty, without white space, its escapes closed.
pub open spec fn plain_word(w: Seq<char>) -> bool {
    &&& w.len() > 0
    &&& forall|j: int| 0 <= j < w.len() ==> !is_white_space(#[trigger] w[j])
    &&& escapes_closed(w)
}

/// The line after line `i` of a wrapping state: the next finished line, or the line being
/// built.
pub open spec fn line_after(st: WrapState, i: int) -> Seq<char> {
    if i + 1 < st.lines.len() { st.lines[i + 1] } else { st.current }
}

proof fn lemma_leading_run(s: Seq<char>)
    ensures
        leading_word_len(s) <= s.len(),
        forall|j: int| 0 <= j < leading_word_len(s) ==> !is_white_space(#[trigger] s[j]),
    decreases s.len(),
{
    if s.len() > 0 && !is_white_space(s[0]) {
        lemma_leading_run(s.drop_first());
        assert forall|j: int| 0 <= j < leading_word_len(s) implies !is_white_space(#[trigger] s[j]) by {
            if j > 0 {
                assert(s[j] == s.drop_first()[j - 1]);
            }
        }
    }
}

proof fn lemma_leading_concat(a: Seq<char>, b: Seq<char>)
    ensures
        leading_word_len(a + b) == if leading_word_len(a) < a.len() {
            leading_word_len(a)
        } else {
            a.len() + leading_word_len(b)
        },
    decreases a.len(),
{
    lemma_leading_run(a);
    if a.len() == 0 {
        assert(a + b =~= b);
    } else {
        assert((a + b)[0] == a[0]);
        if !is_white_space(a[0]) {
            assert((a + b).drop_first() =~= a.drop_first() + b);
            lemma_leading_concat(a.drop_first(), b);
            lemma_leading_run(a.drop_first());
        }
    }
}

proof fn lemma_words_have_no_white_space(s: Seq<char>)
    ensures
        forall|i: int, j: int| 0 <= i < words(s).len() && 0 <= j < words(s)[i].len()
            ==> !is_white_space(#[trigger] words(s)[i][j]),
    decreases s.len(),
{
    if s.len() > 0 {
        if is_white_space(s[0]) {
            lemma_words_have_no_white_space(s.drop_first());
            assert(words(s) == words(s.drop_first()));
        } else {
            lemma_leading_run(s);
            let k = leading_word_len(s) as int;
            let rest = s.subrange(k, s.len() as int);
            lemma_words_have_no_white_space(rest);
            let ws = words(s);
            assert(ws == seq![s.subrange(0, k)] + words(rest));
            assert forall|i: int, j: int| 0 <= i < ws.len() && 0 <= j < ws[i].len()
                implies !is_white_space(#[trigger] ws[i][j]) by {
                if i > 0 {
                    assert(ws[i] == words(rest)[i - 1]);
                } else {
                    assert(ws[0][j] == s[j]);
                }
            }
        }
    }
}

proof fn lemma_word_is_its_first_word(w: Seq<char>)
    requires
        forall|j: int| 0 <= j < w.len() ==> !is_white_space(#[trigger] w[j]),
    ensures
        leading_word_len(w) == w.len(),
        first_word(w) == w,
        !w.contains(' '),
    decreases w.len(),
{
    if w.len() > 0 {
        assert forall|j: int| 0 <= j < w.drop_first().len() implies !is_white_space(#[trigger] w.drop_first()[j]) by {
            assert(w.drop_first()[j] == w[j + 1]);
        }
        lemma_word_is_its_first_word(w.drop_first());
        assert(!is_white_space(w[0]));
    }
    assert(first_word(w) =~= w);
    if w.contains(' ') {
        let j = choose|j: int| 0 <= j < w.len() && w[j] == ' ';
        assert(!is_white_space(w[j]));
    }
}

/// Greedy wrapping state invariants: every finished line is not empty, keeps to the width
/// or is a single word, and was finished only because the first word of the line after it
/// did not fit behind it; the line being built tracks its visible width.
proof fn lemma_wrap_fold_greedy(ws: Seq<Seq<char>>, limit: nat)
    requires
        forall|i: int| 0 <= i < ws.len() ==> plain_word(#[trigger] ws[i]),
    ensures
        ({
            let st = wrap_fold(ws, limit);
            &&& ws.len() == 0 ==> st.current.len() == 0 && st.lines.len() == 0
            &&& ws.len() > 0 ==> st.current.len() > 0
            &&& st.width == visible_len_spec(st.current)
            &&& escapes_closed(st.current)
            &&& fits_or_single_word(st.current, limit)
            &&& forall|i: int| 0 <= i < st.lines.len() ==> {
                &&& (#[trigger] st.lines[i]).len() > 0
                &&& fits_or_single_word(st.lines[i], limit)
                &&& visible_len_spec(st.lines[i]) + 1 + visible_len_spec(first_word(line_after(st, i))) > limit
            }
        }),
    decreases ws.len(),
{
    if ws.len() == 0 {
        assert(visible_len_spec(Seq::<char>::empty()) == 0);
        assert(!escape_state_after(Seq::<char>::empty(), false));
    } else {
        let rest = ws.drop_last();
        assert forall|i: int| 0 <= i < rest.len() implies plain_word(#[trigger] rest[i]) by {
            assert(rest[i] == ws[i]);
        }
        lemma_wrap_fold_greedy(rest, limit);
        let st = wrap_fold(rest, limit);
        let w = ws.last();
        assert(w == ws[ws.len() - 1]);
        assert(plain_word(w));
        lemma_word_is_its_first_word(w);
        let st2 = wrap_step(st, w, limit);
        assert(wrap_fold(ws, limit) == st2);
        let vw = visible_len_spec(w);
        let broke = st.width + vw + 1 > limit && st.current.len() > 0;
        if st.current.len() == 0 {
            assert(st2.current =~= w);
            assert(st2.lines == st.lines);
        } else if broke {
            assert(st2.current =~= w);
            assert(st2.lines == st.lines.push(st.current));
            assert forall|i: int| 0 <= i < st2.lines.len() implies {
                &&& (#[trigger] st2.lines[i]).len() > 0
                &&& fits_or_single_word(st2.lines[i], limit)
                &&& visible_len_spec(st2.lines[i]) + 1 + visible_len_spec(first_word(line_after(st2, i))) > limit
            } by {
                if i < st.lines.len() {
                    assert(st2.lines[i] == st.lines[i]);
                    if i + 1 < st.lines.len() {
                        assert(line_after(st2, i) == line_after(st, i));
                    } else {
                        assert(line_after(st2, i) == st.current);
                    }
                } else {
                    assert(st2.lines[i] == st.current);
                    assert(line_after(st2, i) == w);
                }
            }
        } else {
            let sp = seq![' '];
            lemma_plain_text(sp);
            assert(st2.current =~= st.current + (sp + w));
            assert(st2.lines == st.lines);
            lemma_closed_concat(sp, w);
            lemma_closed_concat(st.current, sp + w);
            assert(visible_len_spec(st2.current) == st2.width);
            lemma_leading_concat(st.current, sp + w);
            lemma_leading_run(st.current);
            assert((sp + w)[0] == ' ');
            assert(leading_word_len(sp + w) == 0);
            assert(first_word(st2.current) =~= first_word(st.current));
            assert forall|i: int| 0 <= i < st2.lines.len() implies {
                &&& (#[trigger] st2.lines[i]).len() > 0
                &&& fits_or_single_word(st2.lines[i], limit)
                &&& visible_len_spec(st2.lines[i]) + 1 + visible_len_spec(first_word(line_after(st2, i))) > limit
            } by {
                assert(st2.lines[i] == st.lines[i]);
                if i + 1 < st.lines.len() {
                    assert(line_after(st2, i) == line_after(st, i));
                } else {
                    assert(line_after(st2, i) == st2.current);
                    assert(line_after(st, i) == st.current);
                }
            }
        }
    }
}

/// Greedy wrapping fills lines as far as the width allows: every line is not empty and
/// keeps to the width unless it is a single word wider than the width, and a line ends
/// only where the first word of the next line, after a space, would pass the width. This
/// holds when every word of the text closes the escape sequences it opens.
pub proof fn wrapping_fills_lines_greedily(text: Seq<char>, width: nat)
    requires
        width > 0,
        forall|i: int| 0 <= i < words(text).len() ==> escapes_closed(#[trigger] words(text)[i]),
    ensures
        forall|i: int| 0 <= i < wrap_spec(text, width).len() ==> {
            &&& (#[trigger] wrap_spec(text, width)[i]).len() > 0
            &&& fits_or_single_word(wrap_spec(text, width)[i], width)
        },
        forall|i: int| 0 <= i < wrap_spec(text, width).len() - 1 ==>
            visible_len_spec(#[trigger] wrap_spec(text, width)[i]) + 1
                + visible_len_spec(first_word(wrap_spec(text, width)[i + 1])) > width,
{
    let ws = words(text);
    lemma_words_not_empty(text);
    lemma_words_have_no_white_space(text);
    assert forall|i: int| 0 <= i < ws.len() implies plain_word(#[trigger] ws[i]) by {
        assert(ws[i].len() > 0);
        assert forall|j: int| 0 <= j < ws[i].len() implies !is_white_space(#[trigger] ws[i][j]) by {}
    }
    lemma_wrap_fold_greedy(ws, width);
    let st = wrap_fold(ws, width);
    let out = wrap_spec(text, width);
    if st.current.len() > 0 {
        assert(out == st.lines.push(st.current));
        assert forall|i: int| 0 <= i < out.len() - 1 implies
            visible_len_spec(#[trigger] out[i]) + 1 + visible_len_spec(first_word(out[i + 1])) > width by {
            assert(out[i] == st.lines[i]);
            assert(line_after(st, i) == out[i + 1]);
        }
    } else {
        assert(out == st.lines);
        assert(st.lines.len() == 0);
    }
}

/// The visible length of a concatenation: the visible length of the first part, then that
/// of the second read from the escape state the first part ends in.
proof fn lemma_visible_concat(a: Seq<char>, b: Seq<char>, e: bool)
    ensures
        visible_len_from(a + b, e) == visible_len_from(a, e) + visible_len_from(b, escape_state_after(a, e)),
        escape_state_after(a + b, e) == escape_state_after(b, escape_state_after(a, e)),
    decreases a.len(),
{
    if a.len() == 0 {
        assert(a + b =~= b);
    } else {
        assert((a + b).drop_first() =~= a.drop_first() + b);
        assert((a + b)[0] == a[0]);
        let e2 = if is_escape(a[0]) { true } else if e { a[0] != 'm' } else { false };
        lemma_visible_concat(a.drop_first(), b, e2);
    }
}

proof fn lemma_closed_concat(a: Seq<char>, b: Seq<char>)
    requires
        escapes_closed(a),
    ensures
        visible_len_spec(a + b) == visible_len_spec(a) + visible_len_spec(b),
        escapes_closed(a + b) == escapes_closed(b),
{
    lemma_visible_concat(a, b, false);
}

/// Text without an escape character shows all its characters.
proof fn lemma_plain_text(s: Seq<char>)
    requires
        forall|i: int| 0 <= i < s.len() ==> !is_escape(#[trigger] s[i]),
    ensures
        visible_len_spec(s) == s.len(),
        escapes_closed(s),
    decreases s.len(),
{
    if s.len() > 0 {
        assert forall|i: int| 0 <= i < s.drop_first().len() implies !is_escape(#[trigger] s.drop_first()[i]) by {
            assert(s.drop_first()[i] == s[i + 1]);
        }
        lemma_plain_text(s.drop_first());
        assert(!is_escape(s[0]));
    }
}

proof fn lemma_inside_escape(t: Seq<char>)
    requires
        t.len() >= 1,
        t.last() == 'm',
        forall|i: int| 0 <= i < t.len() - 1 ==> #[trigger] t[i] != 'm' && !is_escape(t[i]),
    ensures
        visible_len_from(t, true) == 0,
        !escape_state_after(t, true),
    decreases t.len(),
{
    if t.len() > 1 {
        assert(t[0] != 'm' && !is_escape(t[0]));
        let r = t.drop_first();
        assert(r.last() == t.last());
        assert forall|i: int| 0 <= i < r.len() - 1 implies #[trigger] r[i] != 'm' && !is_escape(r[i]) by {
            assert(r[i] == t[i + 1]);
        }
        lemma_inside_escape(r);
        assert(visible_len_from(t, true) == visible_len_from(r, true));
        assert(escape_state_after(t, true) == escape_state_after(r, true));
    } else {
        assert(t[0] == t.last());
        assert(!is_escape(t[0]));
        assert(t.drop_first().len() == 0);
        assert(visible_len_from(t, true) == visible_len_from(t.drop_first(), false));
        assert(escape_state_after(t, true) == escape_state_after(t.drop_first(), false));
    }
}

/// A complete escape sequence (`ESC`, then anything but `m` or `ESC`, then `m`) shows
/// nothing and leaves no sequence open.
proof fn lemma_escape_sequence(s: Seq<char>)
    requires
        s.len() >= 2,
        is_escape(s[0]),
        s.last() == 'm',
        forall|i: int| 1 <= i < s.len() - 1 ==> #[trigger] s[i] != 'm' && !is_escape(s[i]),
    ensures
        visible_len_spec(s) == 0,
        escapes_closed(s),
{
    let t = s.drop_first();
    assert(t.last() == s.last());
    assert forall|i: int| 0 <= i < t.len() - 1 implies #[trigger] t[i] != 'm' && !is_escape(t[i]) by {
        assert(t[i] == s[i + 1]);
    }
    lemma_inside_escape(t);
}

proof fn lemma_color_codes()
    ensures
        visible_len_spec(MAGENTA@) == 0 && escapes_closed(MAGENTA@),
        visible_len_spec(BOLD@) == 0 && escapes_closed(BOLD@),
        visible_len_spec(CYAN@) == 0 && escapes_closed(CYAN@),
        visible_len_spec(RESET@) == 0 && escapes_closed(RESET@),
{
    reveal_strlit("\u{1b}[35m");
    reveal_strlit("\u{1b}[1m");
    reveal_strlit("\u{1b}[36m");
    reveal_strlit("\u{1b}[0m");
    lemma_escape_sequence(MAGENTA@);
    lemma_escape_sequence(BOLD@);
    lemma_escape_sequence(CYAN@);
    lemma_escape_sequence(RESET@);
}

/// A painted text shows exactly what the text shows, and leaves no sequence open when the
/// text leaves none open.
proof fn lemma_paint(s: Seq<char>, color: Seq<char>)
    requires
        visible_len_spec(color) == 0,
        escapes_closed(color),
        escapes_closed(s),
    ensures
        visible_len_spec(paint_spec(s, color)) == visible_len_spec(s),
        escapes_closed(paint_spec(s, color)),
{
    lemma_color_codes();
    lemma_closed_concat(color, s);
    lemma_closed_concat(color + s, RESET@);
}

/// The rows of a usage entry: as many rows as the wrapped description has lines; the first
/// row ends with the first line and shows `name_w + 6` columns before it (bullet, name
/// field and gap); every further row is the line indented by `name_w + 6` spaces. This
/// holds for a name that fits its field and holds no escape character, in a box at least
/// as wide as the field.
pub proof fn usage_rows_align(name: Seq<char>, desc: Seq<char>, name_w: nat, inner: nat)
    requires
        name.len() <= name_w,
        forall|i: int| 0 <= i < name.len() ==> !is_escape(#[trigger] name[i]),
        inner >= name_w + 6,
    ensures
        ({
            let w = wrap_spec(desc, (inner - name_w - 6) as nat);
            let rows = usage_pair_spec(name, desc, name_w, inner);
            &&& rows.len() == w.len()
            &&& w.len() > 0 ==> ends_with(rows[0], w[0])
                && visible_len_spec(rows[0]) == name_w + 6 + visible_len_spec(w[0])
            &&& forall|i: int| 0 < i < w.len() ==> #[trigger] rows[i] == spaces(name_w + 6) + w[i]
        }),
{
    let w = wrap_spec(desc, (inner - name_w - 6) as nat);
    let rows = usage_pair_spec(name, desc, name_w, inner);
    assert(rows.len() == w.len());
    if w.len() > 0 {
        lemma_color_codes();
        reveal_strlit("  \u{2022} ");
        reveal_strlit("  ");
        let bullet = "  \u{2022} "@;
        lemma_plain_text(bullet);
        lemma_plain_text(name);
        lemma_closed_concat(BOLD@, CYAN@);
        lemma_paint(bullet, MAGENTA@);
        lemma_paint(name, BOLD@ + CYAN@);
        let field = usage_field(name);
        lemma_closed_concat(paint_spec(bullet, MAGENTA@), paint_spec(name, BOLD@ + CYAN@));
        assert(visible_len_spec(field) == 4 + name.len());
        let pad = (name_w - name.len()) as nat;
        let sp = spaces(pad);
        lemma_plain_text(sp);
        lemma_plain_text("  "@);
        lemma_closed_concat(field, sp);
        lemma_closed_concat(field + sp, "  "@);
        let lead = field + sp + "  "@;
        assert(visible_len_spec(lead) == name_w + 6);
        lemma_closed_concat(lead, w[0]);
        assert(rows[0] == lead + w[0]);
        assert((lead + w[0]).subrange(lead.len() as int, (lead + w[0]).len() as int) =~= w[0]);
    }
}

/// In passthrough mode a run hands the arguments on exactly as they came.
pub proof fn passthrough_keeps_arguments(
    input: Seq<Seq<char>>,
    c: (ExecutableFamily, ExecutableKind),
    settings: RuntimeSettings,
)
    requires
        settings.passthrough,
    ensures
        planned_args(input, c, settings) == input,
{
}

/// The last flag before `--` ends `locate_spec`'s scan: given `e`, the index of the first
/// `--` (or the length when there is none), every token after the located flag and before
/// `e` is positional, that is, the lone `-` or a token that starts with neither `-` nor
/// `/`; the located flag itself starts with `-` or `/` and is not the lone `-`. With no
/// flag located, every token before `e` is positional.
pub proof fn located_flag_is_the_last_option(args: Seq<Seq<char>>, family: ExecutableFamily, e: int)
    requires
        0 <= e <= args.len(),
        forall|j: int| 0 <= j < e ==> args[j] != "--"@,
        e < args.len() ==> args[e] == "--"@,
    ensures
        match locate_spec(args, family) {
            Some(l) => {
                &&& 0 <= l.flag_index < e
                &&& args[l.flag_index] != "-"@
                &&& args[l.flag_index].len() > 0
                &&& (args[l.flag_index][0] == '-' || args[l.flag_index][0] == '/')
                &&& forall|k: int| l.flag_index < k < e ==> {
                    ||| #[trigger] args[k] == "-"@
                    ||| args[k].len() == 0
                    ||| (args[k][0] != '-' && args[k][0] != '/')
                }
                &&& l.value_index == if takes_separate_value(args[l.flag_index], family)
                    && l.flag_index + 1 < args.len()
                    && !(args[l.flag_index + 1].len() > 0
                        && (args[l.flag_index + 1][0] == '-' || args[l.flag_index + 1][0] == '/')) {
                    Some(l.flag_index + 1)
                } else {
                    None
                }
                &&& l.embedded_value == if l.value_index is None {
                    embedded_value_spec(args[l.flag_index], family)
                } else {
                    None
                }
            },
            None => forall|k: int| 0 <= k < e ==> {
                ||| #[trigger] args[k] == "-"@
                ||| args[k].len() == 0
                ||| (args[k][0] != '-' && args[k][0] != '/')
            },
        },
{
    lemma_first_dash_dash(args, 0, e);
    lemma_last_flag_scan(args, e);
}

/// Where the options end: the scan stops at the end, at a `--`, or at a token that starts
/// with neither `-` nor `/`; in particular a command line that starts with `--`, or with such
/// a token that the parser does not read as taking a value, has no options region at all.
pub proof fn options_end_stops_at_positional(args: Seq<Seq<char>>, family: ExecutableFamily)
    ensures
        0 <= options_end(args, family) <= args.len(),
        ({
            let r = options_end(args, family);
            r < args.len() ==> {
                ||| args[r] == "--"@
                ||| args[r].len() == 0
                ||| (args[r][0] != '-' && args[r][0] != '/')
            }
        }),
        args.len() > 0 && args[0] == "--"@ ==> options_end(args, family) == 0,
        args.len() > 0 && !takes_separate_value(args[0], family)
            && (args[0].len() == 0 || (args[0][0] != '-' && args[0][0] != '/'))
            ==> options_end(args, family) == 0,
{
    lemma_options_end_stop(args, family, 0);
}

proof fn lemma_options_end_stop(args: Seq<Seq<char>>, family: ExecutableFamily, i: int)
    requires
        0 <= i <= args.len(),
    ensures
        ({
            let r = options_end_from(args, family, i);
            &&& i <= r <= args.len()
            &&& r < args.len() ==> {
                ||| args[r] == "--"@
                ||| args[r].len() == 0
                ||| (args[r][0] != '-' && args[r][0] != '/')
            }
        }),
    decreases args.len() - i,
{
    if i < args.len() && args[i] != "--"@ {
        if takes_separate_value(args[i], family) {
            if i + 1 < args.len() {
                lemma_options_end_stop(args, family, i + 2);
            } else {
                lemma_options_end_stop(args, family, i + 1);
            }
        } else if is_flag_like(args[i]) {
            lemma_options_end_stop(args, family, i + 1);
        }
    }
}

proof fn lemma_first_dash_dash(args: Seq<Seq<char>>, i: int, e: int)
    requires
        0 <= i <= e <= args.len(),
        forall|j: int| 0 <= j < e ==> args[j] != "--"@,
        e < args.len() ==> args[e] == "--"@,
    ensures
        dash_dash_from(args, i) == e,
    decreases e - i,
{
    if i < e {
        lemma_first_dash_dash(args, i + 1, e);
    }
}

proof fn lemma_last_flag_scan(args: Seq<Seq<char>>, end: int)
    requires
        0 <= end <= args.len(),
    ensures
        match last_flag_before(args, end) {
            Some(i) => {
                &&& 0 <= i < end
                &&& is_flag_token(args[i])
                &&& forall|k: int| i < k < end ==> !is_flag_token(#[trigger] args[k])
            },
            None => forall|k: int| 0 <= k < end ==> !is_flag_token(#[trigger] args[k]),
        },
    decreases end,
{
    if end > 0 && !is_flag_token(args[end - 1]) {
        lemma_last_flag_scan(args, end - 1);
    }
}

/// The split step, argument by argument: appending an argument appends what it splits
/// into. A token that starts with `-` or `/` and begins with the split pattern's match,
/// with more after the match, becomes exactly the match and the rest, whatever the rest
/// holds; any other token stays as it is.
pub proof fn split_step_appends_each_split(args: Seq<Seq<char>>, a: Seq<char>, pattern: Seq<char>)
    ensures
        split_all(Seq::<Seq<char>>::empty(), pattern) == Seq::<Seq<char>>::empty(),
        split_all(args.push(a), pattern) == split_all(args, pattern) + match regex_capture(pattern, a) {
            Some(p) => if a.len() > 0 && (a[0] == '-' || a[0] == '/') && p.len() < a.len()
                && a.subrange(0, p.len() as int) == p {
                seq![p, a.subrange(p.len() as int, a.len() as int)]
            } else {
                seq![a]
            },
            None => seq![a],
        },
{
    assert(args.push(a).drop_last() =~= args);
    assert(args.push(a).last() == a);
}

/// The command line handed to the main executable: when a wrapper drives the tool, the
/// deputy comes first, followed by the response-file argument (`@` and the path) when a
/// response file was written, else by the filtered arguments; with no wrapper there is no
/// deputy in front.
pub proof fn deputy_leads_when_wrapped(
    filtered: Seq<Seq<char>>,
    response_file: Option<Seq<char>>,
    wrapper_name: Seq<char>,
    deputy: Seq<char>,
)
    ensures
        ({
            let r = final_args_for(filtered, response_file, wrapper_name, deputy);
            let tail = match response_file {
                Some(p) => seq![seq!['@'] + p],
                None => filtered,
            };
            &&& wrapper_name != "UNKNOWN"@ ==> r.len() == tail.len() + 1 && r[0] == deputy
                && r.subrange(1, r.len() as int) == tail
            &&& wrapper_name == "UNKNOWN"@ ==> r == tail
        }),
{
    reveal_strlit("UNKNOWN");
    let r = final_args_for(filtered, response_file, wrapper_name, deputy);
    let tail = match response_file {
        Some(p) => seq![seq!['@'] + p],
        None => filtered,
    };
    if wrapper_name != "UNKNOWN"@ {
        assert(r.subrange(1, r.len() as int) =~= tail);
    }
}

/// Classification by keywords: a name that matches a compiler keyword is a compiler,
/// whatever linker keyword it also holds; else one that matches a linker keyword is a
/// linker; else its kind is unknown. The family: `clang-cl` is MSVC unless routed to LLVM;
/// otherwise LLVM keywords win over MSVC keywords, which win over GCC keywords; a name
/// with none of them has an unknown family.
pub proof fn compiler_keywords_win(name: Seq<char>, clang_cl_is_llvm: bool)
    ensures
        ({
            let c = classification_of(name, clang_cl_is_llvm);
            let compiler = regex_is_match(COMPILER_KEYWORDS@, name);
            let linker = regex_is_match(LINKER_KEYWORDS@, name);
            let msvc_clang_cl = has_substring(name, "clang-cl"@) && !clang_cl_is_llvm;
            &&& compiler ==> c.1 == ExecutableKind::Compiler
            &&& !compiler && linker ==> c.1 == ExecutableKind::Linker
            &&& !compiler && !linker ==> c.1 == ExecutableKind::Unknown
            &&& msvc_clang_cl ==> c.0 == ExecutableFamily::MSVC
            &&& !msvc_clang_cl && regex_is_match(LLVM_KEYWORDS@, name) ==> c.0 == ExecutableFamily::LLVM
            &&& !msvc_clang_cl && !regex_is_match(LLVM_KEYWORDS@, name) && regex_is_match(MSVC_KEYWORDS@, name)
                ==> c.0 == ExecutableFamily::MSVC
            &&& !msvc_clang_cl && !regex_is_match(LLVM_KEYWORDS@, name) && !regex_is_match(MSVC_KEYWORDS@, name)
                && regex_is_match(GCC_KEYWORDS@, name) ==> c.0 == ExecutableFamily::GCC
            &&& !msvc_clang_cl && !regex_is_match(LLVM_KEYWORDS@, name) && !regex_is_match(MSVC_KEYWORDS@, name)
                && !regex_is_match(GCC_KEYWORDS@, name) ==> c.0 == ExecutableFamily::Unknown
        }),
{
}

/// Each classification with a filter pack gets its own tables: the bad-flag pattern, the
/// swap pairs and the extra flags named after its family and kind.
pub proof fn filter_pack_tables_match_classification(c: (ExecutableFamily, ExecutableKind))
    ensures
        c == (ExecutableFamily::LLVM, ExecutableKind::Compiler) ==> bad_flags_for(c) == LLVM_COMPILER_BAD_FLAGS@
            && swap_pairs_for(c) == pairs_text(LLVM_COMPILER_SWAP_PAIRS@)
            && extra_flags_for(c) == LLVM_COMPILER_EXTRA_FLAGS@,
        c == (ExecutableFamily::MSVC, ExecutableKind::Compiler) ==> bad_flags_for(c) == MSVC_COMPILER_BAD_FLAGS@
            && swap_pairs_for(c) == pairs_text(MSVC_COMPILER_SWAP_PAIRS@)
            && extra_flags_for(c) == MSVC_COMPILER_EXTRA_FLAGS@,
        c == (ExecutableFamily::GCC, ExecutableKind::Compiler) ==> bad_flags_for(c) == GCC_COMPILER_BAD_FLAGS@
            && swap_pairs_for(c) == pairs_text(GCC_COMPILER_SWAP_PAIRS@)
            && extra_flags_for(c) == GCC_COMPILER_EXTRA_FLAGS@,
        c == (ExecutableFamily::LLVM, ExecutableKind::Linker) ==> bad_flags_for(c) == LLVM_LINKER_BAD_FLAGS@
            && swap_pairs_for(c) == pairs_text(LLVM_LINKER_SWAP_PAIRS@)
            && extra_flags_for(c) == LLVM_LINKER_EXTRA_FLAGS@,
        c == (ExecutableFamily::MSVC, ExecutableKind::Linker) ==> bad_flags_for(c) == MSVC_LINKER_BAD_FLAGS@
            && swap_pairs_for(c) == pairs_text(MSVC_LINKER_SWAP_PAIRS@)
            && extra_flags_for(c) == MSVC_LINKER_EXTRA_FLAGS@,
        c == (ExecutableFamily::GCC, ExecutableKind::Linker) ==> bad_flags_for(c) == GCC_LINKER_BAD_FLAGS@
            && swap_pairs_for(c) == pairs_text(GCC_LINKER_SWAP_PAIRS@)
            && extra_flags_for(c) == GCC_LINKER_EXTRA_FLAGS@,
{
}

} // verus!
