//! The help banner and the checks for the wrappers' own help and version flags.
use vstd::prelude::*;
use crate::constants::{CLI_FLAG_HELP_SHORT, CLI_FLAG_HELP_LONG, CLI_FLAG_USAGE, CLI_FLAG_VERSION_SHORT, CLI_FLAG_VERSION_LONG};
use crate::strings::{
    push_char, concat_str, repeat_char, str_eq, to_owned_string, words, split_white_space,
    trim_end_matches, str_trim_end_matches,
};

verus! {

/// ANSI reset.
pub const RESET: &'static str = "\u{1b}[0m";
/// ANSI bold.
pub const BOLD: &'static str = "\u{1b}[1m";
/// ANSI dim.
pub const DIM: &'static str = "\u{1b}[2m";
/// ANSI yellow.
pub const YELLOW: &'static str = "\u{1b}[33m";
/// ANSI magenta.
pub const MAGENTA: &'static str = "\u{1b}[35m";
/// ANSI cyan.
pub const CYAN: &'static str = "\u{1b}[36m";

/// The escape character that starts an ANSI sequence.
pub open spec fn is_escape(c: char) -> bool {
    c == '\u{1b}'
}

/// `s` wrapped in `color` and a reset.
pub open spec fn paint_spec(s: Seq<char>, color: Seq<char>) -> Seq<char> {
    color + s + RESET@
}

/// Applies an ANSI color to a string.
pub fn paint(s: &str, color: &str) -> (res: String)
    ensures
        res@ == paint_spec(s@, color@),
{
    let mut res = concat_str(color, s);
    res.append(RESET);
    res
}

/// The number of characters of `s` shown on a terminal, starting in or out of an escape
/// sequence: an escape character starts a sequence, which the next `m` ends; the
/// characters of a sequence are not shown.
pub open spec fn visible_len_from(s: Seq<char>, in_escape: bool) -> nat
    decreases s.len(),
{
    if s.len() == 0 {
        0
    } else if is_escape(s[0]) {
        visible_len_from(s.drop_first(), true)
    } else if in_escape {
        visible_len_from(s.drop_first(), s[0] != 'm')
    } else {
        1 + visible_len_from(s.drop_first(), false)
    }
}

/// Whether reading `s`, starting in or out of an escape sequence, ends inside one (by the
/// same rule as [`visible_len_from`]).
pub open spec fn escape_state_after(s: Seq<char>, in_escape: bool) -> bool
    decreases s.len(),
{
    if s.len() == 0 {
        in_escape
    } else if is_escape(s[0]) {
        escape_state_after(s.drop_first(), true)
    } else if in_escape {
        escape_state_after(s.drop_first(), s[0] != 'm')
    } else {
        escape_state_after(s.drop_first(), false)
    }
}

/// Whether every escape sequence that `s` opens is closed by an `m` within `s`.
pub open spec fn escapes_closed(s: Seq<char>) -> bool {
    !escape_state_after(s, false)
}

/// The number of characters of `s` shown on a terminal (ANSI escape sequences excluded).
pub open spec fn visible_len_spec(s: Seq<char>) -> nat {
    visible_len_from(s, false)
}

proof fn lemma_visible_len_bound(s: Seq<char>, in_escape: bool)
    ensures
        visible_len_from(s, in_escape) <= s.len(),
    decreases s.len(),
{
    if s.len() > 0 {
        lemma_visible_len_bound(s.drop_first(), true);
        lemma_visible_len_bound(s.drop_first(), false);
        lemma_visible_len_bound(s.drop_first(), s[0] != 'm');
    }
}

/// The visible length of a string (ignoring ANSI escape codes).
pub fn visible_len(s: &str) -> (res: usize)
    ensures
        res as nat == visible_len_spec(s@),
{
    let n = s.unicode_len();
    let mut len: usize = 0;
    let mut in_escape = false;
    let mut i: usize = 0;
    assert(s@.subrange(0, n as int) =~= s@);
    while i < n
        invariant
            n == s@.len(),
            i <= n,
            len <= i,
            len + visible_len_from(s@.subrange(i as int, n as int), in_escape) == visible_len_spec(s@),
        decreases n - i,
    {
        let c = s.get_char(i);
        assert(s@.subrange(i as int, n as int).drop_first() =~= s@.subrange(i + 1, n as int));
        if c == '\u{1b}' {
            in_escape = true;
        } else if in_escape {
            if c == 'm' {
                in_escape = false;
            }
        } else {
            len = len + 1;
        }
        i = i + 1;
    }
    assert(s@.subrange(n as int, n as int).len() == 0);
    len
}

/// `n` spaces.
pub open spec fn spaces(n: nat) -> Seq<char> {
    Seq::new(n, |_i: int| ' ')
}

/// `s` centered in `width` columns: padded with spaces on both sides (the extra one on the
/// right), or unchanged when it is at least as wide.
pub open spec fn center_spec(s: Seq<char>, width: nat) -> Seq<char> {
    let len = visible_len_spec(s);
    if len >= width {
        s
    } else {
        let pad = (width - len) as nat;
        let left = pad / 2;
        spaces(left) + s + spaces((pad - left) as nat)
    }
}

/// Centers text within a given width.
pub fn center_text(s: &str, width: usize) -> (res: String)
    ensures
        res@ == center_spec(s@, width as nat),
{
    let len = visible_len(s);
    if len >= width {
        return to_owned_string(s);
    }
    let pad = width - len;
    let left = pad / 2;
    let mut res = repeat_char(' ', left);
    res.append(s);
    let right = repeat_char(' ', pad - left);
    res.append(right.as_str());
    res
}

/// A full-width content row inside the box: `║ <content padded> ║`.
pub open spec fn box_row_spec(content: Seq<char>, inner: nat) -> Seq<char> {
    let len = visible_len_spec(content);
    let pad = if inner >= len { (inner - len) as nat } else { 0 };
    seq!['\u{2551}', ' '] + content + spaces(pad) + seq![' ', '\u{2551}']
}

/// A full-width content row inside the box: `║ <content padded> ║`.
pub fn box_row(content: &str, inner: usize) -> (res: String)
    ensures
        res@ == box_row_spec(content@, inner as nat),
{
    let pad = inner.saturating_sub(visible_len(content));
    let mut res = String::new();
    push_char(&mut res, '\u{2551}');
    push_char(&mut res, ' ');
    res.append(content);
    let fill = repeat_char(' ', pad);
    res.append(fill.as_str());
    push_char(&mut res, ' ');
    push_char(&mut res, '\u{2551}');
    assert(res@ =~= box_row_spec(content@, inner as nat));
    res
}

/// `n` copies of the double horizontal rule character.
pub open spec fn rule(n: nat) -> Seq<char> {
    Seq::new(n, |_i: int| '\u{2550}')
}

/// A section divider `╠═ title ═══...══╣` with the title colored; the title and its two
/// surrounding spaces fill the middle, the rule the rest (the extra unit on the right).
pub open spec fn section_row_spec(title: Seq<char>, inner: nat) -> Seq<char> {
    let t = seq![' '] + title + seq![' '];
    let units = (inner + 2 - t.len()) as nat;
    let left = units / 2;
    seq!['\u{2560}'] + rule(left) + paint_spec(t, BOLD@ + YELLOW@) + rule((units - left) as nat) + seq!['\u{2563}']
}

/// A section divider `╠═ title ═══...══╣` with the title colored.
pub fn section_row(title: &str, inner: usize) -> (res: String)
    requires
        title@.len() <= inner,
        inner + 2 <= usize::MAX,
    ensures
        res@ == section_row_spec(title@, inner as nat),
{
    let inside = inner + 2;
    let mut t = String::new();
    push_char(&mut t, ' ');
    t.append(title);
    push_char(&mut t, ' ');
    let rule_units = inside - t.as_str().unicode_len();
    let left = rule_units / 2;
    let right = rule_units - left;
    let mut s = String::new();
    push_char(&mut s, '\u{2560}');
    let l = repeat_char('\u{2550}', left);
    s.append(l.as_str());
    let color = concat_str(BOLD, YELLOW);
    let painted = paint(t.as_str(), color.as_str());
    s.append(painted.as_str());
    let r = repeat_char('\u{2550}', right);
    s.append(r.as_str());
    push_char(&mut s, '\u{2563}');
    assert(t@ =~= seq![' '] + title@ + seq![' ']);
    assert(s@ =~= section_row_spec(title@, inner as nat));
    s
}

/// The state of greedy wrapping: finished lines, the line being built and its visible
/// width.
pub struct WrapState {
    pub lines: Seq<Seq<char>>,
    pub current: Seq<char>,
    pub width: nat,
}

/// One greedy step: when `word` does not fit after the current line (a space and the word
/// would pass `limit`) and the line is not empty, the line is finished; the word is then
/// added to the line, after a space when the line is not empty.
pub open spec fn wrap_step(st: WrapState, word: Seq<char>, limit: nat) -> WrapState {
    let ww = visible_len_spec(word);
    let broke = st.width + ww + 1 > limit && st.current.len() > 0;
    let lines = if broke { st.lines.push(st.current) } else { st.lines };
    let cur = if broke { Seq::<char>::empty() } else { st.current };
    let w = if broke { 0nat } else { st.width };
    let cur2 = if cur.len() > 0 { cur.push(' ') } else { cur };
    let w2 = if cur.len() > 0 { w + 1 } else { w };
    WrapState { lines, current: cur2 + word, width: w2 + ww }
}

/// Greedy wrapping of a list of words.
pub open spec fn wrap_fold(ws: Seq<Seq<char>>, limit: nat) -> WrapState
    decreases ws.len(),
{
    if ws.len() == 0 {
        WrapState { lines: seq![], current: seq![], width: 0 }
    } else {
        wrap_step(wrap_fold(ws.drop_last(), limit), ws.last(), limit)
    }
}

/// `text` wrapped to `width` visible columns at word boundaries: the whole text when the
/// width is zero, else the greedily filled lines of its words joined by single spaces.
pub open spec fn wrap_spec(text: Seq<char>, width: nat) -> Seq<Seq<char>> {
    if width == 0 {
        seq![text]
    } else {
        let st = wrap_fold(words(text), width);
        if st.current.len() > 0 { st.lines.push(st.current) } else { st.lines }
    }
}

/// The lengths of a list of words, each plus one.
pub open spec fn lengths_plus_one(ws: Seq<Seq<char>>) -> nat
    decreases ws.len(),
{
    if ws.len() == 0 {
        0
    } else {
        lengths_plus_one(ws.drop_last()) + ws.last().len() + 1
    }
}

proof fn lemma_lengths_plus_one_prepend(a: Seq<char>, rest: Seq<Seq<char>>)
    ensures
        lengths_plus_one(seq![a] + rest) == a.len() + 1 + lengths_plus_one(rest),
    decreases rest.len(),
{
    if rest.len() > 0 {
        lemma_lengths_plus_one_prepend(a, rest.drop_last());
        let whole = seq![a] + rest;
        assert(whole.drop_last() =~= seq![a] + rest.drop_last());
        assert(whole.last() == rest.last());
        assert(lengths_plus_one(whole) == lengths_plus_one(whole.drop_last()) + whole.last().len() + 1);
        assert(lengths_plus_one(rest) == lengths_plus_one(rest.drop_last()) + rest.last().len() + 1);
    } else {
        assert(seq![a] + rest =~= seq![a]);
        assert(seq![a].drop_last() =~= Seq::<Seq<char>>::empty());
        assert(lengths_plus_one(seq![a]) == lengths_plus_one(seq![a].drop_last()) + a.len() + 1);
    }
}

proof fn lemma_words_total(s: Seq<char>)
    ensures
        lengths_plus_one(words(s)) <= s.len() + 1,
    decreases s.len(),
{
    if s.len() > 0 {
        if crate::strings::is_white_space(s[0]) {
            lemma_words_total(s.drop_first());
        } else {
            crate::strings::lemma_leading_word_len_bound(s);
            let k = crate::strings::leading_word_len(s) as int;
            let rest = s.subrange(k, s.len() as int);
            lemma_words_total(rest);
            lemma_lengths_plus_one_prepend(s.subrange(0, k), words(rest));
            if rest.len() > 0 {
                lemma_leading_word_stops(s);
                lemma_words_total(rest.drop_first());
            }
        }
    }
}

proof fn lemma_leading_word_stops(s: Seq<char>)
    requires
        crate::strings::leading_word_len(s) < s.len(),
    ensures
        crate::strings::is_white_space(s[crate::strings::leading_word_len(s) as int]),
        words(s.subrange(crate::strings::leading_word_len(s) as int, s.len() as int)) == words(
            s.subrange(crate::strings::leading_word_len(s) as int + 1, s.len() as int)),
    decreases s.len(),
{
    let k = crate::strings::leading_word_len(s) as int;
    if s.len() > 0 && !crate::strings::is_white_space(s[0]) {
        lemma_leading_word_stops(s.drop_first());
        assert(s.drop_first().subrange(k - 1, s.len() - 1) =~= s.subrange(k, s.len() as int));
        assert(s.drop_first().subrange(k, s.len() - 1) =~= s.subrange(k + 1, s.len() as int));
    } else {
        assert(s.subrange(0, s.len() as int) =~= s);
        assert(s.drop_first() =~= s.subrange(1, s.len() as int));
    }
}

proof fn lemma_lengths_prefix(ws: Seq<Seq<char>>, i: int, j: int)
    requires
        0 <= i <= j <= ws.len(),
    ensures
        lengths_plus_one(ws.subrange(0, i)) <= lengths_plus_one(ws.subrange(0, j)),
    decreases j - i,
{
    if i < j {
        lemma_lengths_prefix(ws, i, j - 1);
        assert(ws.subrange(0, j).drop_last() =~= ws.subrange(0, j - 1));
    }
}

/// Wraps text to a given width, breaking at word boundaries.
pub fn wrap_text(text: &str, width: usize) -> (res: Vec<String>)
    ensures
        res.deep_view() == wrap_spec(text@, width as nat),
{
    if width == 0 {
        let v = vec![to_owned_string(text)];
        assert(v.deep_view() =~= seq![text@]);
        return v;
    }
    let tl = text.unicode_len();
    let ws = split_white_space(text);
    let ghost wv = ws.deep_view();
    proof {
        lemma_words_total(text@);
        lemma_lengths_prefix(wv, 0, wv.len() as int);
        assert(wv.subrange(0, wv.len() as int) =~= wv);
    }
    let n = ws.len();
    let mut lines: Vec<String> = Vec::new();
    let mut current_line = String::new();
    let mut current_width: usize = 0;
    let mut i: usize = 0;
    assert(wv.subrange(0, 0) =~= Seq::<Seq<char>>::empty());
    while i < n
        invariant
            wv == ws.deep_view(),
            wv == words(text@),
            n == wv.len(),
            tl == text@.len(),
            i <= n,
            width > 0,
            lengths_plus_one(wv) <= tl + 1,
            ({
                let st = wrap_fold(wv.subrange(0, i as int), width as nat);
                &&& lines.deep_view() == st.lines
                &&& current_line@ == st.current
                &&& current_width as nat == st.width
            }),
            current_line@.len() == 0 ==> current_width == 0,
            current_width == 0 || current_width + 1 <= lengths_plus_one(wv.subrange(0, i as int)),
        decreases n - i,
    {
        let word = &ws[i];
        let ghost st = wrap_fold(wv.subrange(0, i as int), width as nat);
        let word_width = visible_len(word.as_str());
        proof {
            lemma_visible_len_bound(word@, false);
            lemma_lengths_prefix(wv, i + 1, n as int);
            assert(wv.subrange(0, n as int) =~= wv);
            let t = wv.subrange(0, i + 1);
            assert(t.drop_last() =~= wv.subrange(0, i as int));
            assert(t.last() == word@);
            assert(wv[i as int] == word@);
            assert(lengths_plus_one(t) == lengths_plus_one(wv.subrange(0, i as int)) + word@.len() + 1);
        }
        if current_width + word_width >= width && current_line.as_str().unicode_len() > 0 {
            lines.push(current_line);
            current_line = String::new();
            current_width = 0;
        }
        if current_line.as_str().unicode_len() > 0 {
            push_char(&mut current_line, ' ');
            current_width = current_width + 1;
        }
        current_line.append(word.as_str());
        current_width = current_width + word_width;
        proof {
            let st2 = wrap_step(st, word@, width as nat);
            assert(wrap_fold(wv.subrange(0, i + 1), width as nat) == st2);
            assert(lines.deep_view() =~= st2.lines);
        }
        i = i + 1;
    }
    assert(wv.subrange(0, n as int) =~= wv);
    if current_line.as_str().unicode_len() > 0 {
        lines.push(current_line);
    }
    lines
}

/// The colored `  • name` field of a usage row.
pub open spec fn usage_field(name: Seq<char>) -> Seq<char> {
    paint_spec("  \u{2022} "@, MAGENTA@) + paint_spec(name, BOLD@ + CYAN@)
}

/// The rows for one variable: `• name  description`, the description wrapped so that
/// continuation lines align under the description column.
pub open spec fn usage_pair_spec(name: Seq<char>, desc: Seq<char>, name_w: nat, inner: nat) -> Seq<Seq<char>> {
    let field = usage_field(name);
    let field_w = 4 + name_w;
    let vis = visible_len_spec(field);
    let lead = field + spaces(if field_w >= vis { (field_w - vis) as nat } else { 0 }) + "  "@;
    let desc_w = if inner >= field_w + 2 { (inner - (field_w + 2)) as nat } else { 0 };
    let indent = spaces(field_w + 2);
    let lines = wrap_spec(desc, desc_w);
    Seq::new(lines.len(), |i: int| if i == 0 { lead + lines[i] } else { indent + lines[i] })
}

/// Builds the rows for one variable of the usage box.
pub fn usage_pair(name: &str, desc: &str, name_w: usize, inner: usize) -> (res: Vec<String>)
    requires
        name_w + 6 <= usize::MAX,
    ensures
        res.deep_view() == usage_pair_spec(name@, desc@, name_w as nat, inner as nat),
{
    let bullet = paint("  \u{2022} ", MAGENTA);
    let key_color = concat_str(BOLD, CYAN);
    let key = paint(name, key_color.as_str());
    let field_w = 4 + name_w;
    let field = concat_str(bullet.as_str(), key.as_str());
    let field_pad = field_w.saturating_sub(visible_len(field.as_str()));
    let pad = repeat_char(' ', field_pad);
    let mut lead = concat_str(field.as_str(), pad.as_str());
    lead.append("  ");
    let desc_w = inner.saturating_sub(field_w + 2);
    let indent = repeat_char(' ', field_w + 2);
    let lines = wrap_text(desc, desc_w);
    let ghost lv = lines.deep_view();
    let ghost spec_lines = usage_pair_spec(name@, desc@, name_w as nat, inner as nat);
    assert(field@ =~= usage_field(name@));
    let mut out: Vec<String> = Vec::new();
    let n = lines.len();
    let mut i: usize = 0;
    while i < n
        invariant
            n == lines@.len(),
            lv == lines.deep_view(),
            lv == wrap_spec(desc@, desc_w as nat),
            spec_lines == usage_pair_spec(name@, desc@, name_w as nat, inner as nat),
            spec_lines.len() == n,
            lead@ == usage_field(name@) + spaces(field_pad as nat) + "  "@,
            field_pad as nat == if field_w >= visible_len_spec(usage_field(name@)) {
                (field_w - visible_len_spec(usage_field(name@))) as nat
            } else {
                0
            },
            indent@ == spaces((field_w + 2) as nat),
            field_w == 4 + name_w,
            desc_w as nat == if inner >= field_w + 2 { (inner - (field_w + 2)) as nat } else { 0 },
            i <= n,
            out.deep_view() =~= spec_lines.subrange(0, i as int),
        decreases n - i,
    {
        let line = if i == 0 {
            concat_str(lead.as_str(), lines[i].as_str())
        } else {
            concat_str(indent.as_str(), lines[i].as_str())
        };
        let ghost before = out.deep_view();
        out.push(line);
        assert(out.deep_view() =~= before.push(spec_lines[i as int]));
        i = i + 1;
    }
    out
}

/// Appends every element of `src` to `dst`.
fn push_all(dst: &mut Vec<String>, src: Vec<String>)
    ensures
        final(dst).deep_view() == old(dst).deep_view() + src.deep_view(),
{
    let ghost a = dst.deep_view();
    let ghost b = src.deep_view();
    let mut src = src;
    dst.append(&mut src);
    assert(dst.deep_view() =~= a + b);
}

/// Usable text columns between the two side borders of the usage box.
pub const USAGE_INNER: usize = 90;
/// Width reserved for the variable-name column of the usage box.
pub const USAGE_NAME_W: usize = 30;

/// The heading of the usage box.
pub open spec fn usage_heading(executable_name: Seq<char>, version: Seq<char>) -> Seq<Seq<char>> {
    let title = executable_name + " v"@ + version + " \u{2014} Compiler Argument Wrapper Helper"@;
    seq![
        box_row_spec(""@, 90),
        box_row_spec(center_spec(paint_spec(title, BOLD@ + CYAN@), 90), 90),
        box_row_spec(center_spec(paint_spec("Environment variables understood by the wrapper"@, DIM@), 90), 90),
        box_row_spec(""@, 90),
    ]
}

/// The "flags & behavior" and "runtime info" sections of the usage box.
pub open spec fn usage_behavior(executable_name: Seq<char>) -> Seq<Seq<char>> {
    seq![section_row_spec("FLAGS & BEHAVIOR"@, 90)]
        + usage_pair_spec("WRAPPER_PREFER_VS"@, "Prefer VS Studio LLVM executables over Custom LLVM."@, 30, 90)
        + usage_pair_spec("WRAPPER_CLANG_CL_IS_LLVM"@, "Treat clang-cl as LLVM family. All flag processing is done from the LLVM perspective."@, 30, 90)
        + usage_pair_spec("WRAPPER_CLANG_CL_IS_MSVC"@, "Treat clang-cl as MSVC family (the default). All flag processing is done from the MSVC perspective."@, 30, 90)
        + seq![section_row_spec("RUNTIME INFO"@, 90)]
        + usage_pair_spec("WRAPPER_LOG_LEVEL"@, "Set the log level (trace, debug, info, warn, error). Default: error."@, 30, 90)
        + usage_pair_spec("WRAPPER_LOG_FILE"@, "Path to log file e.g. /path/to/"@ + trim_end_matches(executable_name, ".exe"@) + ".log."@, 30, 90)
}

/// The "filtering", "passthrough" and "CLI flags" sections of the usage box.
pub open spec fn usage_filtering() -> Seq<Seq<char>> {
    seq![section_row_spec("FILTERING"@, 90)]
        + usage_pair_spec("WRAPPER_SKIP_BAD_FLAGS"@, "Skip bad flags removal step."@, 30, 90)
        + usage_pair_spec("WRAPPER_SKIP_SWAP_FLAGS"@, "Skip problematic flags swapping step."@, 30, 90)
        + usage_pair_spec("WRAPPER_SKIP_ADD_FLAGS"@, "Skip extra flags insertion step."@, 30, 90)
        + usage_pair_spec("WRAPPER_SPLIT_FUSED_FLAGS"@, "Enable splitting fused flag+value step."@, 30, 90)
        + usage_pair_spec("WRAPPER_FIX_FLAG_PREFIXES"@, "Enable fixing flag prefixes (e.g., /version:0.0 to -version:0.0)."@, 30, 90)
        + seq![section_row_spec("PASSTHROUGH"@, 90)]
        + usage_pair_spec("WRAPPER_ENABLE_PASSTHROUGH"@, "Pass all arguments directly to the target without any processing. The wrapper behaves identically to the intended target."@, 30, 90)
        + seq![section_row_spec("CLI FLAGS"@, 90)]
        + usage_pair_spec(CLI_FLAG_HELP_SHORT@ + " / "@ + CLI_FLAG_HELP_LONG@, "Print this help message and exit."@, 30, 90)
        + usage_pair_spec(CLI_FLAG_USAGE@, "Print this help message and exit."@, 30, 90)
        + usage_pair_spec(CLI_FLAG_VERSION_SHORT@ + " / "@ + CLI_FLAG_VERSION_LONG@, "Print version information and exit."@, 30, 90)
}

/// The footer of the usage box.
pub open spec fn usage_footer() -> Seq<Seq<char>> {
    seq![
        box_row_spec(""@, 90),
        box_row_spec(center_spec(paint_spec("For more information, visit https://github.com/quantumemman/compiler-wrapper"@, DIM@), 90), 90),
        box_row_spec(""@, 90),
    ]
}

/// The whole usage box, borders included, line by line.
pub open spec fn usage_spec(executable_name: Seq<char>, version: Seq<char>) -> Seq<Seq<char>> {
    seq![seq!['\u{2554}'] + rule(92) + seq!['\u{2557}']]
        + usage_heading(executable_name, version)
        + usage_behavior(executable_name)
        + usage_filtering()
        + usage_footer()
        + seq![seq!['\u{255a}'] + rule(92) + seq!['\u{255d}']]
}

fn border(left: char, right: char) -> (res: String)
    ensures
        res@ == seq![left] + rule(92) + seq![right],
{
    let mut s = String::new();
    push_char(&mut s, left);
    let r = repeat_char('\u{2550}', USAGE_INNER + 2);
    s.append(r.as_str());
    push_char(&mut s, right);
    assert(s@ =~= seq![left] + rule(92) + seq![right]);
    s
}

fn usage_heading_lines(executable_name: &str, version: &str) -> (res: Vec<String>)
    ensures
        res.deep_view() == usage_heading(executable_name@, version@),
{
    let mut title = concat_str(executable_name, " v");
    title.append(version);
    title.append(" \u{2014} Compiler Argument Wrapper Helper");
    let color = concat_str(BOLD, CYAN);
    let painted = paint(title.as_str(), color.as_str());
    let centered = center_text(painted.as_str(), USAGE_INNER);
    let sub = paint("Environment variables understood by the wrapper", DIM);
    let sub_centered = center_text(sub.as_str(), USAGE_INNER);
    let v = vec![
        box_row("", USAGE_INNER),
        box_row(centered.as_str(), USAGE_INNER),
        box_row(sub_centered.as_str(), USAGE_INNER),
        box_row("", USAGE_INNER),
    ];
    assert(v.deep_view() =~= usage_heading(executable_name@, version@));
    v
}

fn usage_behavior_lines(executable_name: &str) -> (res: Vec<String>)
    ensures
        res.deep_view() == usage_behavior(executable_name@),
{
    proof {
        reveal_strlit("FLAGS & BEHAVIOR");
        reveal_strlit("RUNTIME INFO");
    }
    let mut v = vec![section_row("FLAGS & BEHAVIOR", USAGE_INNER)];
    assert(v.deep_view() =~= seq![section_row_spec("FLAGS & BEHAVIOR"@, 90)]);
    push_all(&mut v, usage_pair("WRAPPER_PREFER_VS", "Prefer VS Studio LLVM executables over Custom LLVM.", USAGE_NAME_W, USAGE_INNER));
    push_all(&mut v, usage_pair("WRAPPER_CLANG_CL_IS_LLVM", "Treat clang-cl as LLVM family. All flag processing is done from the LLVM perspective.", USAGE_NAME_W, USAGE_INNER));
    push_all(&mut v, usage_pair("WRAPPER_CLANG_CL_IS_MSVC", "Treat clang-cl as MSVC family (the default). All flag processing is done from the MSVC perspective.", USAGE_NAME_W, USAGE_INNER));
    let ghost b0 = v.deep_view();
    let runtime_row = section_row("RUNTIME INFO", USAGE_INNER);
    v.push(runtime_row);
    assert(v.deep_view() =~= b0.push(runtime_row@));
    push_all(&mut v, usage_pair("WRAPPER_LOG_LEVEL", "Set the log level (trace, debug, info, warn, error). Default: error.", USAGE_NAME_W, USAGE_INNER));
    let stem = str_trim_end_matches(executable_name, ".exe");
    let mut log_desc = concat_str("Path to log file e.g. /path/to/", stem.as_str());
    log_desc.append(".log.");
    push_all(&mut v, usage_pair("WRAPPER_LOG_FILE", log_desc.as_str(), USAGE_NAME_W, USAGE_INNER));
    assert(v.deep_view() =~= usage_behavior(executable_name@));
    v
}

fn usage_filtering_lines() -> (res: Vec<String>)
    ensures
        res.deep_view() == usage_filtering(),
{
    proof {
        reveal_strlit("FILTERING");
        reveal_strlit("PASSTHROUGH");
        reveal_strlit("CLI FLAGS");
    }
    let mut v = vec![section_row("FILTERING", USAGE_INNER)];
    assert(v.deep_view() =~= seq![section_row_spec("FILTERING"@, 90)]);
    push_all(&mut v, usage_pair("WRAPPER_SKIP_BAD_FLAGS", "Skip bad flags removal step.", USAGE_NAME_W, USAGE_INNER));
    push_all(&mut v, usage_pair("WRAPPER_SKIP_SWAP_FLAGS", "Skip problematic flags swapping step.", USAGE_NAME_W, USAGE_INNER));
    push_all(&mut v, usage_pair("WRAPPER_SKIP_ADD_FLAGS", "Skip extra flags insertion step.", USAGE_NAME_W, USAGE_INNER));
    push_all(&mut v, usage_pair("WRAPPER_SPLIT_FUSED_FLAGS", "Enable splitting fused flag+value step.", USAGE_NAME_W, USAGE_INNER));
    push_all(&mut v, usage_pair("WRAPPER_FIX_FLAG_PREFIXES", "Enable fixing flag prefixes (e.g., /version:0.0 to -version:0.0).", USAGE_NAME_W, USAGE_INNER));
    let ghost part1 = v.deep_view();
    let pass_row = section_row("PASSTHROUGH", USAGE_INNER);
    v.push(pass_row);
    assert(v.deep_view() =~= part1.push(pass_row@));
    let ghost part1b = v.deep_view();
    push_all(&mut v, usage_pair("WRAPPER_ENABLE_PASSTHROUGH", "Pass all arguments directly to the target without any processing. The wrapper behaves identically to the intended target.", USAGE_NAME_W, USAGE_INNER));
    let ghost part1c = v.deep_view();
    let cli_row = section_row("CLI FLAGS", USAGE_INNER);
    v.push(cli_row);
    assert(v.deep_view() =~= part1c.push(cli_row@));
    let ghost part2 = v.deep_view();
    assert(part2 =~= part1 + seq![section_row_spec("PASSTHROUGH"@, 90)]
        + usage_pair_spec("WRAPPER_ENABLE_PASSTHROUGH"@, "Pass all arguments directly to the target without any processing. The wrapper behaves identically to the intended target."@, 30, 90)
        + seq![section_row_spec("CLI FLAGS"@, 90)]);
    let mut help = concat_str(CLI_FLAG_HELP_SHORT, " / ");
    help.append(CLI_FLAG_HELP_LONG);
    let help_rows = usage_pair(help.as_str(), "Print this help message and exit.", USAGE_NAME_W, USAGE_INNER);
    assert(help@ == CLI_FLAG_HELP_SHORT@ + " / "@ + CLI_FLAG_HELP_LONG@);
    push_all(&mut v, help_rows);
    push_all(&mut v, usage_pair(CLI_FLAG_USAGE, "Print this help message and exit.", USAGE_NAME_W, USAGE_INNER));
    let mut version = concat_str(CLI_FLAG_VERSION_SHORT, " / ");
    version.append(CLI_FLAG_VERSION_LONG);
    assert(version@ == CLI_FLAG_VERSION_SHORT@ + " / "@ + CLI_FLAG_VERSION_LONG@);
    push_all(&mut v, usage_pair(version.as_str(), "Print version information and exit.", USAGE_NAME_W, USAGE_INNER));
    assert(v.deep_view() =~= usage_filtering());
    v
}

fn usage_footer_lines() -> (res: Vec<String>)
    ensures
        res.deep_view() == usage_footer(),
{
    let link = paint("For more information, visit https://github.com/quantumemman/compiler-wrapper", DIM);
    let centered = center_text(link.as_str(), USAGE_INNER);
    let v = vec![box_row("", USAGE_INNER), box_row(centered.as_str(), USAGE_INNER), box_row("", USAGE_INNER)];
    assert(v.deep_view() =~= usage_footer());
    v
}

/// The lines of the usage/help box for a wrapper named `executable_name` at `version`,
/// borders included, in the order they are printed.
pub fn usage_lines(executable_name: &str, version: &str) -> (res: Vec<String>)
    ensures
        res.deep_view() == usage_spec(executable_name@, version@),
{
    let mut v = vec![border('\u{2554}', '\u{2557}')];
    assert(v.deep_view() =~= seq![seq!['\u{2554}'] + rule(92) + seq!['\u{2557}']]);
    push_all(&mut v, usage_heading_lines(executable_name, version));
    push_all(&mut v, usage_behavior_lines(executable_name));
    push_all(&mut v, usage_filtering_lines());
    push_all(&mut v, usage_footer_lines());
    let ghost before = v.deep_view();
    v.push(border('\u{255a}', '\u{255d}'));
    assert(v.deep_view() =~= before.push(seq!['\u{255a}'] + rule(92) + seq!['\u{255d}']));
    v
}

/// Whether an argument asks for the help message (`-h`, `--help` or `--usage`).
pub open spec fn is_help_flag(a: Seq<char>) -> bool {
    a == CLI_FLAG_HELP_SHORT@ || a == CLI_FLAG_HELP_LONG@ || a == CLI_FLAG_USAGE@
}

/// Whether an argument asks for the version (`-v` or `--version`).
pub open spec fn is_version_flag(a: Seq<char>) -> bool {
    a == CLI_FLAG_VERSION_SHORT@ || a == CLI_FLAG_VERSION_LONG@
}

/// Whether any of the arguments asks for the help message.
pub open spec fn is_help_request(args: Seq<Seq<char>>) -> bool {
    exists|i: int| 0 <= i < args.len() && is_help_flag(#[trigger] args[i])
}

/// Whether any of the arguments asks for the version.
pub open spec fn is_version_request(args: Seq<Seq<char>>) -> bool {
    exists|i: int| 0 <= i < args.len() && is_version_flag(#[trigger] args[i])
}

/// Checks whether any of the CLI arguments is a help/usage flag; when one is, the caller
/// prints the usage message ([`usage_lines`]) and exits.
pub fn check_help_flags(src_executable: &String, args: &[String]) -> (res: bool)
    ensures
        res == is_help_request(args.deep_view()),
{
    let ghost dv = args.deep_view();
    let n = args.len();
    let mut i: usize = 0;
    while i < n
        invariant
            dv == args.deep_view(),
            n == args@.len(),
            i <= n,
            forall|k: int| 0 <= k < i ==> !is_help_flag(#[trigger] dv[k]),
        decreases n - i,
    {
        let a = args[i].as_str();
        assert(dv[i as int] == a@);
        if str_eq(a, CLI_FLAG_HELP_SHORT) || str_eq(a, CLI_FLAG_HELP_LONG) || str_eq(a, CLI_FLAG_USAGE) {
            return true;
        }
        i = i + 1;
    }
    false
}

/// Checks whether any of the CLI arguments is a version flag; when one is, the caller
/// prints [`version_line`] and exits.
pub fn check_version_flags(src_executable: &String, args: &[String]) -> (res: bool)
    ensures
        res == is_version_request(args.deep_view()),
{
    let ghost dv = args.deep_view();
    let n = args.len();
    let mut i: usize = 0;
    while i < n
        invariant
            dv == args.deep_view(),
            n == args@.len(),
            i <= n,
            forall|k: int| 0 <= k < i ==> !is_version_flag(#[trigger] dv[k]),
        decreases n - i,
    {
        let a = args[i].as_str();
        assert(dv[i as int] == a@);
        if str_eq(a, CLI_FLAG_VERSION_SHORT) || str_eq(a, CLI_FLAG_VERSION_LONG) {
            return true;
        }
        i = i + 1;
    }
    false
}

/// The version line of a wrapper: `<name> v<version>`.
pub fn version_line(src_executable: &str, version: &str) -> (res: String)
    ensures
        res@ == src_executable@ + " v"@ + version@,
{
    let mut s = concat_str(src_executable, " v");
    s.append(version);
    s
}

} // verus!
