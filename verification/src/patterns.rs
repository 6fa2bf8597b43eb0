//! Regular-expression patterns used to recognise executables and flags.
//!
//! Matching is done by the `regex` crate; the functions here state what the
//! library relies on from it in terms of the pattern text and the haystack.
use vstd::prelude::*;

verus! {

#[verifier::external_type_specification]
#[verifier::external_body]
pub struct ExRegex(regex::Regex);

/// Whether `regex::Regex::new` accepts `pattern`.
pub uninterp spec fn regex_compiles(pattern: Seq<char>) -> bool;

/// What `regex::Regex::is_match` answers for the regex built from `pattern` on `haystack`.
pub uninterp spec fn regex_is_match(pattern: Seq<char>, haystack: Seq<char>) -> bool;

/// The text of the overall match (capture group 0) that `regex::Regex::captures`
/// finds for the regex built from `pattern` in `haystack`, if any.
pub uninterp spec fn regex_capture(pattern: Seq<char>, haystack: Seq<char>) -> Option<Seq<char>>;

/// A compiled regular expression together with the pattern text it was built from.
/// Its fields are private and it is only built by compiling `source`, so the regex is
/// always the one that `source` compiles to.
pub struct FlagPattern {
    source: String,
    regex: regex::Regex,
}

impl View for FlagPattern {
    type V = Seq<char>;

    closed spec fn view(&self) -> Seq<char> {
        self.source@
    }
}

/// Compiles `pattern` with `regex::Regex::new`.
/// Claimed: the result is present exactly when the crate accepts the pattern,
/// and then it carries the pattern text it was built from.
#[verifier::external_body]
fn regex_new(pattern: &str) -> (res: Option<FlagPattern>)
    ensures
        res is Some <==> regex_compiles(pattern@),
        res matches Some(p) ==> p@ == pattern@,
{
    regex::Regex::new(pattern).ok().map(|regex| FlagPattern { source: pattern.to_string(), regex })
}

/// Calls `regex::Regex::is_match`.
/// Claimed: the answer is the named match relation on the pattern text and the haystack.
#[verifier::external_body]
fn regex_is_match_exec(p: &FlagPattern, haystack: &str) -> (res: bool)
    ensures
        res == regex_is_match(p@, haystack@),
{
    p.regex.is_match(haystack)
}

/// Calls `regex::Regex::captures` and reads the text of group 0.
/// Claimed: the text is the named capture of the pattern in the haystack.
#[verifier::external_body]
fn regex_capture_exec(p: &FlagPattern, haystack: &str) -> (res: Option<String>)
    ensures
        res is Some <==> regex_capture(p@, haystack@) is Some,
        res matches Some(m) ==> regex_capture(p@, haystack@) == Some(m@),
{
    p.regex.captures(haystack).and_then(|c| c.get(0)).map(|m| m.as_str().to_string())
}

impl FlagPattern {
    /// Compiles `pattern`; `None` when the regex engine rejects it.
    pub fn compile(pattern: &str) -> (res: Option<FlagPattern>)
        ensures
            res is Some <==> regex_compiles(pattern@),
            res matches Some(p) ==> p@ == pattern@,
    {
        regex_new(pattern)
    }

    /// Whether the pattern matches anywhere in `haystack`.
    pub fn is_match(&self, haystack: &str) -> (res: bool)
        ensures
            res == regex_is_match(self@, haystack@),
    {
        regex_is_match_exec(self, haystack)
    }

    /// The text of the overall match of the pattern in `haystack`, if any.
    pub fn first_match(&self, haystack: &str) -> (res: Option<String>)
        ensures
            res is Some <==> regex_capture(self@, haystack@) is Some,
            res matches Some(m) ==> regex_capture(self@, haystack@) == Some(m@),
    {
        regex_capture_exec(self, haystack)
    }

    /// The pattern text.
    pub fn as_str(&self) -> (res: &str)
        ensures
            res@ == self@,
    {
        self.source.as_str()
    }
}

/// Compiles a pattern that is known to be accepted.
pub(crate) fn fixed_pattern(pattern: &str) -> (res: FlagPattern)
    requires
        regex_compiles(pattern@),
    ensures
        res@ == pattern@,
{
    match FlagPattern::compile(pattern) {
        Some(p) => p,
        None => unreached(),
    }
}

/// The model of a table of (pattern, replacement) pairs.
pub open spec fn pairs_text(a: Seq<(&str, &str)>) -> Seq<(Seq<char>, Seq<char>)> {
    Seq::new(a.len(), |i: int| (a[i].0@, a[i].1@))
}

/// The model of a list of compiled swap pairs: pattern text and replacement.
pub open spec fn pairs_view(pairs: Seq<(FlagPattern, String)>) -> Seq<(Seq<char>, Seq<char>)> {
    Seq::new(pairs.len(), |i: int| (pairs[i].0@, pairs[i].1@))
}

/// Whether every pattern of a list of (pattern, replacement) pairs compiles.
pub open spec fn pairs_compile(a: Seq<(Seq<char>, Seq<char>)>) -> bool {
    forall|i: int| 0 <= i < a.len() ==> regex_compiles(#[trigger] a[i].0)
}

/// Compiles the patterns of a table of (pattern, replacement) pairs.
pub(crate) fn compile_pairs(table: &[(&str, &str)]) -> (res: Vec<(FlagPattern, String)>)
    requires
        pairs_compile(pairs_text(table@)),
    ensures
        pairs_view(res@) == pairs_text(table@),
{
    let n = table.len();
    let mut res: Vec<(FlagPattern, String)> = Vec::new();
    let mut i: usize = 0;
    while i < n
        invariant
            n == table@.len(),
            i <= n,
            pairs_compile(pairs_text(table@)),
            pairs_view(res@) =~= pairs_text(table@).subrange(0, i as int),
        decreases n - i,
    {
        let (pattern, replacement) = table[i];
        assert(regex_compiles(pairs_text(table@)[i as int].0));
        let compiled = fixed_pattern(pattern);
        let owned = replacement.to_owned();
        let ghost before = res@;
        res.push((compiled, owned));
        assert(res@ == before.push((compiled, owned)));
        assert(pairs_view(res@) =~= pairs_view(before).push((pattern@, replacement@)));
        i = i + 1;
    }
    res
}

/// Whether every pattern of a table of (pattern, replacement) pairs compiles.
pub(crate) fn table_compiles(table: &[(&str, &str)]) -> (res: bool)
    ensures
        res == pairs_compile(pairs_text(table@)),
{
    let n = table.len();
    let mut i: usize = 0;
    while i < n
        invariant
            n == table@.len(),
            i <= n,
            forall|k: int| 0 <= k < i ==> regex_compiles(#[trigger] pairs_text(table@)[k].0),
        decreases n - i,
    {
        let (pattern, _replacement) = table[i];
        if FlagPattern::compile(pattern).is_none() {
            assert(!regex_compiles(pairs_text(table@)[i as int].0));
            return false;
        }
        i = i + 1;
    }
    true
}

} // verus!
