//! Small verified operations on strings, stated over their character sequences.
use vstd::prelude::*;

verus! {

/// Characters with the Unicode `White_Space` property (what `char::is_whitespace` tests).
pub open spec fn is_white_space(c: char) -> bool {
    let u = c as u32;
    (0x9 <= u && u <= 0xd) || u == 0x20 || u == 0x85 || u == 0xa0 || u == 0x1680
        || (0x2000 <= u && u <= 0x200a) || u == 0x2028 || u == 0x2029 || u == 0x202f
        || u == 0x205f || u == 0x3000
}

/// Whether `c` has the Unicode `White_Space` property.
pub fn is_white_space_char(c: char) -> (res: bool)
    ensures
        res == is_white_space(c),
{
    let u = c as u32;
    (0x9 <= u && u <= 0xd) || u == 0x20 || u == 0x85 || u == 0xa0 || u == 0x1680
        || (0x2000 <= u && u <= 0x200a) || u == 0x2028 || u == 0x2029 || u == 0x202f
        || u == 0x205f || u == 0x3000
}

/// Appends one character with `String::push`.
#[verifier::external_body]
pub(crate) fn push_char(s: &mut String, c: char)
    ensures
        final(s)@ == old(s)@.push(c),
{
    s.push(c);
}

/// An owned copy of `s`.
pub fn to_owned_string(s: &str) -> (res: String)
    ensures
        res@ == s@,
{
    s.to_owned()
}

/// Whether `s` starts with the character `c`.
pub open spec fn starts_with_char(s: Seq<char>, c: char) -> bool {
    s.len() > 0 && s[0] == c
}

/// Whether `s` looks like a command-line option: it starts with `-` or `/`.
pub open spec fn is_flag_like(s: Seq<char>) -> bool {
    starts_with_char(s, '-') || starts_with_char(s, '/')
}

/// Whether `s` starts with `c`.
pub fn str_starts_with_char(s: &str, c: char) -> (res: bool)
    ensures
        res == starts_with_char(s@, c),
{
    s.unicode_len() > 0 && s.get_char(0) == c
}

/// Whether `s` starts with `-` or `/`.
pub fn str_is_flag_like(s: &str) -> (res: bool)
    ensures
        res == is_flag_like(s@),
{
    str_starts_with_char(s, '-') || str_starts_with_char(s, '/')
}

/// Whether `s` equals `t`, character for character.
pub fn str_eq(s: &str, t: &str) -> (res: bool)
    ensures
        res == (s@ == t@),
{
    let n = s.unicode_len();
    if n != t.unicode_len() {
        return false;
    }
    let mut i: usize = 0;
    while i < n
        invariant
            n == s@.len(),
            n == t@.len(),
            i <= n,
            forall|j: int| 0 <= j < i ==> s@[j] == t@[j],
        decreases n - i,
    {
        if s.get_char(i) != t.get_char(i) {
            return false;
        }
        i = i + 1;
    }
    assert(s@ =~= t@);
    true
}

/// `n` copies of `c`.
pub fn repeat_char(c: char, n: usize) -> (res: String)
    ensures
        res@ == Seq::new(n as nat, |_i: int| c),
{
    let mut res = String::new();
    let mut i: usize = 0;
    while i < n
        invariant
            i <= n,
            res@ == Seq::new(i as nat, |_i: int| c),
        decreases n - i,
    {
        push_char(&mut res, c);
        i = i + 1;
        assert(res@ =~= Seq::new(i as nat, |_i: int| c));
    }
    res
}

/// `s` followed by `t`.
pub fn concat_str(s: &str, t: &str) -> (res: String)
    ensures
        res@ == s@ + t@,
{
    let mut res = to_owned_string(s);
    res.append(t);
    res
}

/// Whether `needle` occurs in `hay` starting at index `i`.
pub open spec fn occurs_at(hay: Seq<char>, needle: Seq<char>, i: int) -> bool {
    0 <= i && i + needle.len() <= hay.len() && hay.subrange(i, i + needle.len()) == needle
}

/// Whether `needle` occurs somewhere in `hay`.
pub open spec fn has_substring(hay: Seq<char>, needle: Seq<char>) -> bool {
    exists|i: int| occurs_at(hay, needle, i)
}

/// Whether `needle` occurs in `hay` at character index `i`.
pub(crate) fn occurs_at_exec(hay: &str, needle: &str, i: usize) -> (res: bool)
    requires
        i + needle@.len() <= hay@.len(),
    ensures
        res == occurs_at(hay@, needle@, i as int),
{
    let n = needle.unicode_len();
    let _h = hay.unicode_len();
    let mut j: usize = 0;
    while j < n
        invariant
            n == needle@.len(),
            i + n <= hay@.len(),
            hay@.len() <= usize::MAX,
            j <= n,
            forall|k: int| 0 <= k < j ==> hay@[i + k] == needle@[k],
        decreases n - j,
    {
        if hay.get_char(i + j) != needle.get_char(j) {
            assert(hay@.subrange(i as int, i + n)[j as int] != needle@[j as int]);
            return false;
        }
        j = j + 1;
    }
    assert(hay@.subrange(i as int, i + n) =~= needle@);
    true
}

/// Whether `needle` occurs in `hay` (what `str::contains` answers for a string pattern).
pub fn str_contains(hay: &str, needle: &str) -> (res: bool)
    ensures
        res == has_substring(hay@, needle@),
{
    let h = hay.unicode_len();
    let n = needle.unicode_len();
    if n > h {
        assert forall|i: int| !occurs_at(hay@, needle@, i) by {}
        return false;
    }
    let last = h - n;
    let mut i: usize = 0;
    loop
        invariant
            h == hay@.len(),
            n == needle@.len(),
            n <= h,
            last == h - n,
            i <= last,
            forall|k: int| 0 <= k < i ==> !occurs_at(hay@, needle@, k),
        ensures
            forall|k: int| 0 <= k <= last ==> !occurs_at(hay@, needle@, k),
        decreases last - i,
    {
        if occurs_at_exec(hay, needle, i) {
            return true;
        }
        if i == last {
            break;
        }
        i = i + 1;
    }
    assert forall|k: int| !occurs_at(hay@, needle@, k) by {
        if k > last {
        }
    }
    false
}

/// Whether `s` ends with `suffix`.
pub open spec fn ends_with(s: Seq<char>, suffix: Seq<char>) -> bool {
    suffix.len() <= s.len() && s.subrange(s.len() - suffix.len(), s.len() as int) == suffix
}

/// Whether `s` ends with `suffix`.
pub fn str_ends_with(s: &str, suffix: &str) -> (res: bool)
    ensures
        res == ends_with(s@, suffix@),
{
    let h = s.unicode_len();
    let n = suffix.unicode_len();
    if n > h {
        return false;
    }
    occurs_at_exec(s, suffix, h - n)
}

/// `s` with every trailing repetition of `suffix` removed (what `str::trim_end_matches` does
/// with a string pattern).
pub open spec fn trim_end_matches(s: Seq<char>, suffix: Seq<char>) -> Seq<char>
    decreases s.len(),
{
    if suffix.len() > 0 && ends_with(s, suffix) {
        trim_end_matches(s.subrange(0, s.len() - suffix.len()), suffix)
    } else {
        s
    }
}

/// Removes every trailing repetition of `suffix` from `s`.
pub fn str_trim_end_matches(s: &str, suffix: &str) -> (res: String)
    ensures
        res@ == trim_end_matches(s@, suffix@),
{
    let n = suffix.unicode_len();
    let mut end = s.unicode_len();
    if n == 0 {
        return to_owned_string(s);
    }
    assert(s@.subrange(0, end as int) =~= s@);
    while n <= end && occurs_at_exec(s, suffix, end - n)
        invariant
            n == suffix@.len(),
            n > 0,
            end <= s@.len(),
            trim_end_matches(s@.subrange(0, end as int), suffix@) == trim_end_matches(s@, suffix@),
        decreases end,
    {
        assert(s@.subrange(0, end as int).subrange(end - n, end as int) =~= s@.subrange(end - n, end as int));
        assert(s@.subrange(0, end as int).subrange(0, end - n) =~= s@.subrange(0, end - n));
        end = end - n;
    }
    proof {
        let t = s@.subrange(0, end as int);
        if n <= end {
            assert(t.subrange(end - n, end as int) =~= s@.subrange(end - n, end as int));
        }
        assert(!ends_with(t, suffix@));
    }
    assert(s@.subrange(0, s@.len() as int) =~= s@);
    to_owned_string(s.substring_char(0, end))
}

/// The result of splitting `s` at the first occurrence of `c` (what `str::split_once` gives
/// for a character pattern).
pub open spec fn split_once(s: Seq<char>, c: char) -> Option<(Seq<char>, Seq<char>)> {
    if s.contains(c) {
        let i = choose|i: int| 0 <= i < s.len() && s[i] == c && forall|j: int| 0 <= j < i ==> s[j] != c;
        Some((s.subrange(0, i), s.subrange(i + 1, s.len() as int)))
    } else {
        None
    }
}

proof fn lemma_split_once_at(s: Seq<char>, c: char, i: int)
    requires
        0 <= i < s.len(),
        s[i] == c,
        forall|j: int| 0 <= j < i ==> s[j] != c,
    ensures
        split_once(s, c) == Some((s.subrange(0, i), s.subrange(i + 1, s.len() as int))),
{
    assert(s.contains(c));
    let k = choose|k: int| 0 <= k < s.len() && s[k] == c && forall|j: int| 0 <= j < k ==> s[j] != c;
    assert(k == i) by {
        if k > i {
            assert(s[i] != c);
        }
    }
}

/// Splits `s` at the first occurrence of `c`.
pub fn str_split_once(s: &str, c: char) -> (res: Option<(String, String)>)
    ensures
        match res {
            Some((a, b)) => split_once(s@, c) == Some((a@, b@)),
            None => split_once(s@, c) is None,
        },
        res matches Some((a, b)) ==> s@ == a@ + seq![c] + b@ && !a@.contains(c),
{
    let n = s.unicode_len();
    let mut i: usize = 0;
    while i < n
        invariant
            n == s@.len(),
            i <= n,
            forall|j: int| 0 <= j < i ==> s@[j] != c,
        decreases n - i,
    {
        if s.get_char(i) == c {
            let a = to_owned_string(s.substring_char(0, i));
            let b = to_owned_string(s.substring_char(i + 1, n));
            proof {
                lemma_split_once_at(s@, c, i as int);
                assert(s@ =~= a@ + seq![c] + b@);
                assert forall|j: int| 0 <= j < a@.len() implies a@[j] != c by {}
            }
            return Some((a, b));
        }
        i = i + 1;
    }
    assert(!s@.contains(c));
    None
}

/// `s` with every `from` replaced by `to`.
pub open spec fn replace_char(s: Seq<char>, from: char, to: char) -> Seq<char> {
    Seq::new(s.len(), |i: int| if s[i] == from { to } else { s[i] })
}

/// Replaces every `from` in `s` by `to` (what `str::replace` does for one-character patterns).
pub fn str_replace_char(s: &str, from: char, to: char) -> (res: String)
    ensures
        res@ == replace_char(s@, from, to),
{
    let n = s.unicode_len();
    let mut res = String::new();
    let mut i: usize = 0;
    while i < n
        invariant
            n == s@.len(),
            i <= n,
            res@ == replace_char(s@, from, to).subrange(0, i as int),
        decreases n - i,
    {
        let ch = s.get_char(i);
        if ch == from {
            push_char(&mut res, to);
        } else {
            push_char(&mut res, ch);
        }
        i = i + 1;
        assert(res@ =~= replace_char(s@, from, to).subrange(0, i as int));
    }
    assert(replace_char(s@, from, to).subrange(0, n as int) =~= replace_char(s@, from, to));
    res
}

/// The decimal digit for `d < 10`.
pub open spec fn digit_char(d: nat) -> char {
    if d == 0 { '0' } else if d == 1 { '1' } else if d == 2 { '2' } else if d == 3 { '3' }
    else if d == 4 { '4' } else if d == 5 { '5' } else if d == 6 { '6' } else if d == 7 { '7' }
    else if d == 8 { '8' } else { '9' }
}

/// The decimal representation of `n`, without sign or leading zeros.
pub open spec fn decimal(n: nat) -> Seq<char>
    decreases n,
{
    if n < 10 {
        seq![digit_char(n)]
    } else {
        decimal(n / 10).push(digit_char(n % 10))
    }
}

fn digit_char_exec(d: u32) -> (res: char)
    requires
        d < 10,
    ensures
        res == digit_char(d as nat),
{
    if d == 0 { '0' } else if d == 1 { '1' } else if d == 2 { '2' } else if d == 3 { '3' }
    else if d == 4 { '4' } else if d == 5 { '5' } else if d == 6 { '6' } else if d == 7 { '7' }
    else if d == 8 { '8' } else { '9' }
}

/// The decimal representation of `n` (what `u32::to_string` gives).
pub fn decimal_string(n: u32) -> (res: String)
    ensures
        res@ == decimal(n as nat),
    decreases n,
{
    if n < 10 {
        let mut s = String::new();
        push_char(&mut s, digit_char_exec(n));
        assert(s@ =~= decimal(n as nat));
        s
    } else {
        let mut s = decimal_string(n / 10);
        push_char(&mut s, digit_char_exec(n % 10));
        s
    }
}

/// Whether `s` starts with `prefix`.
pub open spec fn starts_with(s: Seq<char>, prefix: Seq<char>) -> bool {
    prefix.len() <= s.len() && s.subrange(0, prefix.len() as int) == prefix
}

/// Whether `s` starts with `prefix`.
pub fn str_starts_with(s: &str, prefix: &str) -> (res: bool)
    ensures
        res == starts_with(s@, prefix@),
{
    if prefix.unicode_len() > s.unicode_len() {
        return false;
    }
    occurs_at_exec(s, prefix, 0)
}

/// The characters of `s` from index `from` on, as an owned string.
pub fn suffix_from(s: &str, from: usize) -> (res: String)
    requires
        from <= s@.len(),
    ensures
        res@ == s@.subrange(from as int, s@.len() as int),
{
    let n = s.unicode_len();
    to_owned_string(s.substring_char(from, n))
}

/// Length of the run of characters without the `White_Space` property at the start of `s`.
pub open spec fn leading_word_len(s: Seq<char>) -> nat
    decreases s.len(),
{
    if s.len() == 0 || is_white_space(s[0]) {
        0
    } else {
        1 + leading_word_len(s.drop_first())
    }
}

/// The leading word is no longer than the text, and not empty when the text starts with
/// a character that is not white space.
pub proof fn lemma_leading_word_len_bound(s: Seq<char>)
    ensures
        leading_word_len(s) <= s.len(),
        s.len() > 0 && !is_white_space(s[0]) ==> leading_word_len(s) >= 1,
    decreases s.len(),
{
    if s.len() > 0 && !is_white_space(s[0]) {
        lemma_leading_word_len_bound(s.drop_first());
    }
}

/// The words of `s`: the maximal runs of characters without the `White_Space` property,
/// in order (what `str::split_whitespace` yields).
pub open spec fn words(s: Seq<char>) -> Seq<Seq<char>>
    decreases s.len(),
{
    if s.len() == 0 {
        seq![]
    } else if is_white_space(s[0]) {
        words(s.drop_first())
    } else {
        proof {
            lemma_leading_word_len_bound(s);
        }
        let k = leading_word_len(s) as int;
        seq![s.subrange(0, k)] + words(s.subrange(k, s.len() as int))
    }
}

proof fn lemma_leading_word_len_run(s: Seq<char>, i: int, j: int)
    requires
        0 <= i <= j <= s.len(),
        forall|k: int| i <= k < j ==> !is_white_space(s[k]),
        j == s.len() || is_white_space(s[j]),
    ensures
        leading_word_len(s.subrange(i, s.len() as int)) == j - i,
    decreases j - i,
{
    let t = s.subrange(i, s.len() as int);
    if i < j {
        lemma_leading_word_len_run(s, i + 1, j);
        assert(t.drop_first() =~= s.subrange(i + 1, s.len() as int));
    }
}

/// Splits `s` into its white-space separated words.
pub fn split_white_space(s: &str) -> (res: Vec<String>)
    ensures
        res.deep_view() == words(s@),
{
    let n = s.unicode_len();
    let mut res: Vec<String> = Vec::new();
    let mut i: usize = 0;
    assert(s@.subrange(0, n as int) =~= s@);
    while i < n
        invariant
            n == s@.len(),
            i <= n,
            res.deep_view() + words(s@.subrange(i as int, n as int)) == words(s@),
        decreases n - i,
    {
        let ghost rest = s@.subrange(i as int, n as int);
        if is_white_space_char(s.get_char(i)) {
            assert(rest.drop_first() =~= s@.subrange(i + 1, n as int));
            i = i + 1;
        } else {
            let mut j: usize = i + 1;
            while j < n && !is_white_space_char(s.get_char(j))
                invariant
                    n == s@.len(),
                    i < j <= n,
                    forall|k: int| i <= k < j ==> !is_white_space(s@[k]),
                decreases n - j,
            {
                j = j + 1;
            }
            proof {
                lemma_leading_word_len_run(s@, i as int, j as int);
                assert(rest.subrange(0, j - i) =~= s@.subrange(i as int, j as int));
                assert(rest.subrange(j - i, rest.len() as int) =~= s@.subrange(j as int, n as int));
            }
            let word = to_owned_string(s.substring_char(i, j));
            let ghost before = res.deep_view();
            res.push(word);
            assert(res.deep_view() =~= before.push(word@));
            assert(before.push(word@) + words(s@.subrange(j as int, n as int)) =~= before + (seq![word@] + words(s@.subrange(j as int, n as int))));
            i = j;
        }
    }
    assert(s@.subrange(n as int, n as int) =~= Seq::<char>::empty());
    assert(res.deep_view() + Seq::<Seq<char>>::empty() =~= res.deep_view());
    res
}

/// `s` with every occurrence of `pattern`, found from left to right without overlap,
/// replaced by `to` (what `str::replace` does for a non-empty pattern).
pub open spec fn replace_all(s: Seq<char>, pattern: Seq<char>, to: Seq<char>) -> Seq<char>
    decreases s.len(),
{
    if s.len() == 0 {
        s
    } else if pattern.len() > 0 && starts_with(s, pattern) {
        to + replace_all(s.subrange(pattern.len() as int, s.len() as int), pattern, to)
    } else {
        seq![s[0]] + replace_all(s.drop_first(), pattern, to)
    }
}

/// Replaces every occurrence of `pattern` in `s` by `to`.
pub fn str_replace(s: &str, pattern: &str, to: &str) -> (res: String)
    requires
        pattern@.len() > 0,
    ensures
        res@ == replace_all(s@, pattern@, to@),
{
    let n = s.unicode_len();
    let m = pattern.unicode_len();
    let mut res = String::new();
    let mut i: usize = 0;
    assert(s@.subrange(0, n as int) =~= s@);
    while i < n
        invariant
            n == s@.len(),
            m == pattern@.len(),
            m > 0,
            i <= n,
            res@ + replace_all(s@.subrange(i as int, n as int), pattern@, to@) == replace_all(s@, pattern@, to@),
        decreases n - i,
    {
        let ghost rest = s@.subrange(i as int, n as int);
        if m <= n - i && occurs_at_exec(s, pattern, i) {
            proof {
                assert(rest.subrange(0, m as int) =~= s@.subrange(i as int, i + m));
                assert(rest.subrange(m as int, rest.len() as int) =~= s@.subrange(i + m, n as int));
                assert(res@ + to@ + replace_all(s@.subrange(i + m, n as int), pattern@, to@)
                    =~= res@ + (to@ + replace_all(s@.subrange(i + m, n as int), pattern@, to@)));
            }
            res.append(to);
            i = i + m;
        } else {
            let c = s.get_char(i);
            proof {
                if m <= rest.len() {
                    assert(rest.subrange(0, m as int) =~= s@.subrange(i as int, i + m));
                }
                assert(rest.drop_first() =~= s@.subrange(i + 1, n as int));
                assert(res@.push(c) + replace_all(s@.subrange(i + 1, n as int), pattern@, to@)
                    =~= res@ + (seq![c] + replace_all(s@.subrange(i + 1, n as int), pattern@, to@)));
            }
            push_char(&mut res, c);
            i = i + 1;
        }
    }
    assert(res@ + Seq::<char>::empty() =~= res@);
    res
}

/// `s` without its leading `White_Space` characters.
pub open spec fn trim_start(s: Seq<char>) -> Seq<char>
    decreases s.len(),
{
    if s.len() > 0 && is_white_space(s[0]) {
        trim_start(s.drop_first())
    } else {
        s
    }
}

/// `s` without its trailing `White_Space` characters.
pub open spec fn trim_end(s: Seq<char>) -> Seq<char>
    decreases s.len(),
{
    if s.len() > 0 && is_white_space(s.last()) {
        trim_end(s.drop_last())
    } else {
        s
    }
}

/// `s` without leading and trailing `White_Space` characters (what `str::trim` gives).
pub open spec fn trim(s: Seq<char>) -> Seq<char> {
    trim_end(trim_start(s))
}

/// Removes leading and trailing `White_Space` characters.
pub fn str_trim(s: &str) -> (res: String)
    ensures
        res@ == trim(s@),
{
    let n = s.unicode_len();
    let mut a: usize = 0;
    assert(s@.subrange(0, n as int) =~= s@);
    while a < n && is_white_space_char(s.get_char(a))
        invariant
            n == s@.len(),
            a <= n,
            trim_start(s@.subrange(a as int, n as int)) == trim_start(s@),
        decreases n - a,
    {
        assert(s@.subrange(a as int, n as int).drop_first() =~= s@.subrange(a + 1, n as int));
        a = a + 1;
    }
    let mut b: usize = n;
    while b > a && is_white_space_char(s.get_char(b - 1))
        invariant
            n == s@.len(),
            a <= b <= n,
            trim_end(s@.subrange(a as int, b as int)) == trim(s@),
        decreases b,
    {
        assert(s@.subrange(a as int, b as int).drop_last() =~= s@.subrange(a as int, b - 1));
        b = b - 1;
    }
    to_owned_string(s.substring_char(a, b))
}

/// Whether `c` is an ASCII decimal digit.
pub open spec fn is_digit(c: char) -> bool {
    '0' <= c && c <= '9'
}

/// The value of a string of decimal digits.
pub open spec fn digits_value(d: Seq<char>) -> nat
    decreases d.len(),
{
    if d.len() == 0 {
        0
    } else {
        digits_value(d.drop_last()) * 10 + ((d.last() as int) - ('0' as int)) as nat
    }
}

/// The value an unsigned integer parse reads from `s`: an optional `+` followed by one
/// or more decimal digits; `None` for anything else.
pub open spec fn parse_unsigned(s: Seq<char>) -> Option<nat> {
    let d = unsigned_digits(s);
    if d.len() > 0 && all_digits(d) {
        Some(digits_value(d))
    } else {
        None
    }
}

/// `s` without one leading `+`.
pub open spec fn unsigned_digits(s: Seq<char>) -> Seq<char> {
    if s.len() > 0 && s[0] == '+' { s.drop_first() } else { s }
}

/// Whether every character of `d` is a decimal digit.
pub open spec fn all_digits(d: Seq<char>) -> bool {
    forall|i: int| 0 <= i < d.len() ==> is_digit(#[trigger] d[i])
}

proof fn lemma_digits_value_monotone(d: Seq<char>, i: int, j: int)
    requires
        0 <= i <= j <= d.len(),
        forall|k: int| 0 <= k < d.len() ==> is_digit(#[trigger] d[k]),
    ensures
        digits_value(d.subrange(0, i)) <= digits_value(d.subrange(0, j)),
    decreases j - i,
{
    if i < j {
        lemma_digits_value_monotone(d, i, j - 1);
        assert(d.subrange(0, j).drop_last() =~= d.subrange(0, j - 1));
    }
}

/// Parses `s` as a `usize` the way `str::parse::<usize>` does: `None` when it is not an
/// optional `+` followed by decimal digits, or when the value does not fit.
pub fn parse_usize(s: &str) -> (res: Option<usize>)
    ensures
        match res {
            Some(v) => parse_unsigned(s@) == Some(v as nat),
            None => parse_unsigned(s@) is None || parse_unsigned(s@).unwrap() > usize::MAX,
        },
{
    let n = s.unicode_len();
    let start: usize = if n > 0 && s.get_char(0) == '+' { 1 } else { 0 };
    let ghost d = unsigned_digits(s@);
    assert(d =~= s@.subrange(start as int, n as int));
    if start >= n {
        return None;
    }
    let mut i: usize = start;
    let mut acc: usize = 0;
    while i < n
        invariant
            n == s@.len(),
            start <= i <= n,
            start < n,
            d == unsigned_digits(s@),
            d == s@.subrange(start as int, n as int),
            forall|k: int| start <= k < i ==> is_digit(#[trigger] s@[k]),
            acc as nat == digits_value(s@.subrange(start as int, i as int)),
        decreases n - i,
    {
        let c = s.get_char(i);
        if !('0' <= c && c <= '9') {
            assert(d[i - start] == c);
            assert(!is_digit(d[i - start]));
            return None;
        }
        let digit = (c as u32 - '0' as u32) as usize;
        assert(s@.subrange(start as int, i + 1).drop_last() =~= s@.subrange(start as int, i as int));
        match acc.checked_mul(10) {
            Some(t) => match t.checked_add(digit) {
                Some(v) => {
                    acc = v;
                },
                None => {
                    proof { lemma_overflow_past(s@, start as int, i as int + 1, n as int); }
                    return None;
                },
            },
            None => {
                proof {
                    assert(digits_value(s@.subrange(start as int, i + 1)) >= acc * 10) by (nonlinear_arith)
                        requires
                            digits_value(s@.subrange(start as int, i + 1)) == acc * 10 + digit,
                    ;
                    lemma_overflow_past(s@, start as int, i as int + 1, n as int);
                }
                return None;
            },
        }
        i = i + 1;
    }
    assert(d =~= s@.subrange(start as int, n as int));
    Some(acc)
}

proof fn lemma_overflow_past(s: Seq<char>, start: int, i: int, n: int)
    requires
        0 <= start < i <= n == s.len(),
        digits_value(s.subrange(start, i)) > usize::MAX,
        forall|k: int| start <= k < i ==> is_digit(#[trigger] s[k]),
    ensures
        ({
            let d = s.subrange(start, n);
            (forall|k: int| 0 <= k < d.len() ==> is_digit(#[trigger] d[k])) ==> digits_value(d) > usize::MAX
        }),
{
    let d = s.subrange(start, n);
    if forall|k: int| 0 <= k < d.len() ==> is_digit(#[trigger] d[k]) {
        lemma_digits_value_monotone(d, i - start, n - start);
        assert(d.subrange(0, i - start) =~= s.subrange(start, i));
        assert(d.subrange(0, n - start) =~= d);
    }
}

} // verus!
