use vstd::prelude::*;
use vstd::string::StrSliceExecFns;
use vstd::string::StringExecFns;

use crate::tin_edit::{all_digits, is_digit};

verus! {

/// The error of `shell_words::split` (an unmatched quote).
#[verifier::external_type_specification]
#[verifier::external_body]
pub struct ExShellParseError(shell_words::ParseError);

/// The words that `shell_words::split` makes of a line, or `None` where it
/// reports an error.
pub uninterp spec fn shell_split(s: Seq<char>) -> Option<Seq<Seq<char>>>;

/// Splits a line into words as a Unix shell would (quote removal,
/// backslash escapes, `#` comments), by `shell_words::split`.  The result
/// is what `shell_split` names: the words when the call succeeds, and an
/// error exactly when the name is `None`.
#[verifier::external_body]
fn split_words(s: &str) -> (r: Result<Vec<String>, shell_words::ParseError>)
    ensures
        r is Ok <==> shell_split(s@) is Some,
        r matches Ok(words) ==> words@.map_values(|w: String| w@) == shell_split(s@)->0,
{
    shell_words::split(s)
}

/// A sign in front of a number.
pub open spec fn is_sign(c: char) -> bool {
    c == '+' || c == '-'
}

/// The mark that starts an exponent.
pub open spec fn is_exp_mark(c: char) -> bool {
    c == 'e' || c == 'E'
}

/// `s` without a leading sign.
pub open spec fn unsigned(s: Seq<char>) -> Seq<char> {
    if s.len() > 0 && is_sign(s[0]) {
        s.subrange(1, s.len() as int)
    } else {
        s
    }
}

/// Digits with at most one decimal point, and at least one digit.
pub open spec fn mantissa_text(m: Seq<char>) -> bool {
    &&& forall|i: int| 0 <= i < m.len() ==> is_digit(#[trigger] m[i]) || m[i] == '.'
    &&& forall|i: int, j: int|
        #![trigger m[i], m[j]]
        0 <= i < j < m.len() && m[i] == '.' ==> m[j] != '.'
    &&& exists|i: int| 0 <= i < m.len() && is_digit(#[trigger] m[i])
}

/// The part after the exponent mark: an optional sign and one or more
/// digits.
pub open spec fn exponent_text(x: Seq<char>) -> bool {
    unsigned(x).len() > 0 && all_digits(unsigned(x))
}

/// A decimal number: a mantissa, then optionally an exponent mark and an
/// exponent.
pub open spec fn number_text(s: Seq<char>) -> bool {
    ||| mantissa_text(s)
    ||| exists|k: int|
        0 <= k < s.len() && is_exp_mark(s[k]) && #[trigger] mantissa_text(s.take(k))
            && exponent_text(s.skip(k + 1))
}

/// `c` is the lower-case ASCII letter `l`, in either case.
pub open spec fn letter_as(c: char, l: char) -> bool {
    c == l || (c as int) + 32 == (l as int)
}

/// `s` is the lower-case word `w`, with its letters in any case.
pub open spec fn word_any_case(s: Seq<char>, w: Seq<char>) -> bool {
    s.len() == w.len() && forall|i: int| 0 <= i < s.len() ==> letter_as(#[trigger] s[i], w[i])
}

/// Whether the word is a number as `str::parse::<f64>` reads it: an
/// optional sign, then `inf`, `infinity` or `nan` in any case, or a decimal
/// number (digits with at most one point, at least one digit, then
/// optionally `e` or `E`, an optional sign and digits).  Nothing else, not
/// even surrounding spaces.
pub open spec fn float_text(s: Seq<char>) -> bool {
    let b = unsigned(s);
    ||| word_any_case(b, "inf"@)
    ||| word_any_case(b, "infinity"@)
    ||| word_any_case(b, "nan"@)
    ||| number_text(b)
}

fn any_case_from(s: &str, a: usize, w: &str) -> (r: bool)
    requires
        a <= s@.len(),
    ensures
        r == word_any_case(s@.subrange(a as int, s@.len() as int), w@),
{
    let n = s.unicode_len();
    let m = w.unicode_len();
    let ghost t = s@.subrange(a as int, n as int);
    if n - a != m {
        return false;
    }
    let mut i: usize = 0;
    while i < m
        invariant
            n == s@.len(),
            m == w@.len(),
            a <= n,
            n - a == m,
            t == s@.subrange(a as int, n as int),
            i <= m,
            forall|j: int| 0 <= j < i ==> letter_as(#[trigger] t[j], w@[j]),
        decreases m - i,
    {
        let c = s.get_char(a + i);
        let l = w.get_char(i);
        assert(t[i as int] == c);
        if !(c == l || (c as u32) + 32 == (l as u32)) {
            assert(!letter_as(t[i as int], w@[i as int]));
            return false;
        }
        i = i + 1;
    }
    true
}

fn digits_in(s: &str, a: usize, b: usize) -> (r: bool)
    requires
        a <= b <= s@.len(),
    ensures
        r == all_digits(s@.subrange(a as int, b as int)),
{
    let ghost t = s@.subrange(a as int, b as int);
    let mut i: usize = a;
    while i < b
        invariant
            a <= i <= b <= s@.len(),
            t == s@.subrange(a as int, b as int),
            forall|j: int| 0 <= j < i - a ==> is_digit(#[trigger] t[j]),
        decreases b - i,
    {
        let c = s.get_char(i);
        assert(t[i - a] == c);
        if !('0' <= c && c <= '9') {
            assert(!is_digit(t[i - a]));
            return false;
        }
        i = i + 1;
    }
    true
}

fn mantissa_in(s: &str, a: usize, b: usize) -> (r: bool)
    requires
        a <= b <= s@.len(),
    ensures
        r == mantissa_text(s@.subrange(a as int, b as int)),
{
    let ghost t = s@.subrange(a as int, b as int);
    let mut seen_dot = false;
    let mut seen_digit = false;
    let mut i: usize = a;
    while i < b
        invariant
            a <= i <= b <= s@.len(),
            t == s@.subrange(a as int, b as int),
            forall|j: int| 0 <= j < i - a ==> is_digit(#[trigger] t[j]) || t[j] == '.',
            forall|j: int, k: int|
                #![trigger t[j], t[k]]
                0 <= j < k < i - a && t[j] == '.' ==> t[k] != '.',
            seen_dot == (exists|j: int| 0 <= j < i - a && #[trigger] t[j] == '.'),
            seen_digit == (exists|j: int| 0 <= j < i - a && is_digit(#[trigger] t[j])),
        decreases b - i,
    {
        let c = s.get_char(i);
        let ghost k = i - a;
        assert(t[k] == c);
        if c == '.' {
            if seen_dot {
                proof {
                    let j = choose|j: int| 0 <= j < i - a && #[trigger] t[j] == '.';
                    assert(t[j] == '.' && t[k] == '.');
                }
                return false;
            }
            seen_dot = true;
        } else if '0' <= c && c <= '9' {
            seen_digit = true;
        } else {
            assert(!(is_digit(t[k]) || t[k] == '.'));
            return false;
        }
        i = i + 1;
    }
    seen_digit
}

fn exponent_in(s: &str, a: usize, b: usize) -> (r: bool)
    requires
        a <= b <= s@.len(),
    ensures
        r == exponent_text(s@.subrange(a as int, b as int)),
{
    let ghost t = s@.subrange(a as int, b as int);
    let mut d = a;
    if a < b {
        let c = s.get_char(a);
        assert(t[0] == c);
        if c == '+' || c == '-' {
            d = a + 1;
        }
    }
    assert(unsigned(t) =~= s@.subrange(d as int, b as int));
    d < b && digits_in(s, d, b)
}

fn number_in(s: &str, a: usize, b: usize) -> (r: bool)
    requires
        a <= b <= s@.len(),
    ensures
        r == number_text(s@.subrange(a as int, b as int)),
{
    let ghost t = s@.subrange(a as int, b as int);
    let mut k: usize = a;
    while k < b && !(s.get_char(k) == 'e' || s.get_char(k) == 'E')
        invariant
            a <= k <= b <= s@.len(),
            t == s@.subrange(a as int, b as int),
            forall|j: int| 0 <= j < k - a ==> !is_exp_mark(#[trigger] t[j]),
        decreases b - k,
    {
        assert(t[k - a] == s@[k as int]);
        k = k + 1;
    }
    if k == b {
        let r = mantissa_in(s, a, b);
        assert(!(exists|j: int|
            0 <= j < t.len() && is_exp_mark(t[j]) && #[trigger] mantissa_text(t.take(j))
                && exponent_text(t.skip(j + 1))));
        return r;
    }
    let ghost kk = k - a;
    assert(is_exp_mark(t[kk]));
    let m = mantissa_in(s, a, k);
    let e = exponent_in(s, k + 1, b);
    assert(t.take(kk) =~= s@.subrange(a as int, k as int));
    assert(t.skip(kk + 1) =~= s@.subrange(k + 1, b as int));
    assert(!mantissa_text(t)) by {
        assert(!(is_digit(t[kk]) || t[kk] == '.'));
    }
    if m && e {
        assert(mantissa_text(t.take(kk)));
        return true;
    }
    assert forall|j: int|
        0 <= j < t.len() && is_exp_mark(t[j]) && #[trigger] mantissa_text(t.take(j)) implies !exponent_text(t.skip(j + 1)) by {
        if j > kk {
            assert(t.take(j)[kk] == t[kk]);
            assert(!(is_digit(t.take(j)[kk]) || t.take(j)[kk] == '.'));
        } else if j < kk {
            assert(!is_exp_mark(t[j]));
        }
    }
    false
}

/// Whether the word is a number as `str::parse::<f64>` reads it (see
/// `float_text`).
pub fn is_float_text(s: &str) -> (r: bool)
    ensures
        r == float_text(s@),
{
    let n = s.unicode_len();
    let mut a: usize = 0;
    if n > 0 {
        let c = s.get_char(0);
        if c == '+' || c == '-' {
            a = 1;
        }
    }
    assert(unsigned(s@) =~= s@.subrange(a as int, n as int));
    any_case_from(s, a, "inf") || any_case_from(s, a, "infinity") || any_case_from(s, a, "nan")
        || number_in(s, a, n)
}

/// A command typed in the command line.  Its numeric arguments are the
/// words that were typed, each a number as `float_text` says; turning
/// them into values is left to the caller.
pub enum ParsedCommand {
    Point { x: String, y: String },
    Line { x1: String, y1: String, x2: String, y2: String },
    Circle { x: String, y: String, r: String },
    Arc { x1: String, y1: String, x2: String, y2: String, x3: String, y3: String },
    Load(String),
    Export(String),
    Undo,
    Redo,
}

/// A parsed command as mathematical values.
pub enum CommandSpec {
    Point(Seq<char>, Seq<char>),
    Line(Seq<char>, Seq<char>, Seq<char>, Seq<char>),
    Circle(Seq<char>, Seq<char>, Seq<char>),
    Arc(Seq<char>, Seq<char>, Seq<char>, Seq<char>, Seq<char>, Seq<char>),
    Load(Seq<char>),
    Export(Seq<char>),
    Undo,
    Redo,
}

impl View for ParsedCommand {
    type V = CommandSpec;

    open spec fn view(&self) -> CommandSpec {
        match self {
            ParsedCommand::Point { x, y } => CommandSpec::Point(x@, y@),
            ParsedCommand::Line { x1, y1, x2, y2 } => CommandSpec::Line(x1@, y1@, x2@, y2@),
            ParsedCommand::Circle { x, y, r } => CommandSpec::Circle(x@, y@, r@),
            ParsedCommand::Arc { x1, y1, x2, y2, x3, y3 } => CommandSpec::Arc(
                x1@,
                y1@,
                x2@,
                y2@,
                x3@,
                y3@,
            ),
            ParsedCommand::Load(s) => CommandSpec::Load(s@),
            ParsedCommand::Export(s) => CommandSpec::Export(s@),
            ParsedCommand::Undo => CommandSpec::Undo,
            ParsedCommand::Redo => CommandSpec::Redo,
        }
    }
}

/// The words joined with single spaces.
pub open spec fn join_words(ws: Seq<Seq<char>>) -> Seq<char>
    decreases ws.len(),
{
    if ws.len() == 0 {
        Seq::empty()
    } else if ws.len() == 1 {
        ws[0]
    } else {
        join_words(ws.drop_last()) + seq![' '] + ws.last()
    }
}

/// Whether the words `from..to` are all numbers.
pub open spec fn numbers(w: Seq<Seq<char>>, from: int, to: int) -> bool {
    forall|i: int| from <= i < to ==> float_text(#[trigger] w[i])
}

/// The command that a line of words means: the first word names it, and
/// it needs enough words after it (two coordinates for a point, four for a
/// line, centre and radius for a circle, three points for an arc, a path
/// for load and export, which take all remaining words joined by spaces).
/// The coordinates and the radius must be numbers (`float_text`), or there
/// is no command.  Extra words are ignored; anything else means no command.
pub open spec fn parse_words_spec(w: Seq<Seq<char>>) -> Option<CommandSpec> {
    if w.len() == 0 {
        None
    } else if w[0] == "point"@ && w.len() >= 3 {
        if numbers(w, 1, 3) {
            Some(CommandSpec::Point(w[1], w[2]))
        } else {
            None
        }
    } else if w[0] == "line"@ && w.len() >= 5 {
        if numbers(w, 1, 5) {
            Some(CommandSpec::Line(w[1], w[2], w[3], w[4]))
        } else {
            None
        }
    } else if w[0] == "circle"@ && w.len() >= 4 {
        if numbers(w, 1, 4) {
            Some(CommandSpec::Circle(w[1], w[2], w[3]))
        } else {
            None
        }
    } else if w[0] == "arc"@ && w.len() >= 7 {
        if numbers(w, 1, 7) {
            Some(CommandSpec::Arc(w[1], w[2], w[3], w[4], w[5], w[6]))
        } else {
            None
        }
    } else if w[0] == "load"@ && w.len() >= 2 {
        Some(CommandSpec::Load(join_words(w.subrange(1, w.len() as int))))
    } else if w[0] == "export"@ && w.len() >= 2 {
        Some(CommandSpec::Export(join_words(w.subrange(1, w.len() as int))))
    } else if w[0] == "undo"@ {
        Some(CommandSpec::Undo)
    } else if w[0] == "redo"@ {
        Some(CommandSpec::Redo)
    } else {
        None
    }
}

/// The coordinates of a parsed point, line, circle or arc are the words
/// that follow the command's name, in the order they were typed: the
/// first word after the name is the first field (x, or x1), the next the
/// second (y, or y1), and so on; each of them is a number.
pub proof fn law_fields_in_word_order(w: Seq<Seq<char>>)
    ensures
        parse_words_spec(w) matches Some(CommandSpec::Point(x, y)) ==> w[0] == "point"@ && seq![x, y]
            == w.subrange(1, 3) && numbers(w, 1, 3),
        parse_words_spec(w) matches Some(CommandSpec::Line(x1, y1, x2, y2)) ==> w[0] == "line"@
            && seq![x1, y1, x2, y2] == w.subrange(1, 5) && numbers(w, 1, 5),
        parse_words_spec(w) matches Some(CommandSpec::Circle(x, y, r)) ==> w[0] == "circle"@
            && seq![x, y, r] == w.subrange(1, 4) && numbers(w, 1, 4),
        parse_words_spec(w) matches Some(CommandSpec::Arc(x1, y1, x2, y2, x3, y3)) ==> w[0]
            == "arc"@ && seq![x1, y1, x2, y2, x3, y3] == w.subrange(1, 7) && numbers(w, 1, 7),
{
    reveal_strlit("point");
    reveal_strlit("line");
    reveal_strlit("circle");
    reveal_strlit("arc");
    reveal_strlit("load");
    reveal_strlit("export");
    reveal_strlit("undo");
    reveal_strlit("redo");
    if w.len() >= 7 {
        assert(seq![w[1], w[2], w[3], w[4], w[5], w[6]] =~= w.subrange(1, 7));
    }
    if w.len() >= 5 {
        assert(seq![w[1], w[2], w[3], w[4]] =~= w.subrange(1, 5));
    }
    if w.len() >= 4 {
        assert(seq![w[1], w[2], w[3]] =~= w.subrange(1, 4));
    }
    if w.len() >= 3 {
        assert(seq![w[1], w[2]] =~= w.subrange(1, 3));
    }
}

/// Whether the word is exactly the text `lit`.
pub fn word_is(w: &String, lit: &str) -> (r: bool)
    ensures
        r == (w@ == lit@),
{
    text_is(w.as_str(), lit)
}

/// Whether the text `s` is exactly the text `lit`.
pub fn text_is(s: &str, lit: &str) -> (r: bool)
    ensures
        r == (s@ == lit@),
{
    let n = s.unicode_len();
    if n != lit.unicode_len() {
        return false;
    }
    let mut i: usize = 0;
    while i < n
        invariant
            n == s@.len(),
            n == lit@.len(),
            i <= n,
            forall|j: int| 0 <= j < i ==> s@[j] == lit@[j],
        decreases n - i,
    {
        if s.get_char(i) != lit.get_char(i) {
            return false;
        }
        i = i + 1;
    }
    assert(s@ =~= lit@);
    true
}

/// The words from `from` on, joined with single spaces.
fn join_from(words: &Vec<String>, from: usize) -> (r: String)
    requires
        from < words@.len(),
    ensures
        r@ == join_words(words@.map_values(|w: String| w@).subrange(from as int, words@.len() as int)),
{
    let ghost ws = words@.map_values(|w: String| w@);
    let n = words.len();
    let mut r = words[from].clone();
    let mut i: usize = from + 1;
    assert(ws.subrange(from as int, i as int).drop_last() =~= ws.subrange(from as int, from as int));
    while i < n
        invariant
            n == words@.len(),
            from < i <= words@.len(),
            ws == words@.map_values(|w: String| w@),
            r@ == join_words(ws.subrange(from as int, i as int)),
        decreases words@.len() - i,
    {
        r.append(" ");
        r.append(words[i].as_str());
        i = i + 1;
        proof {
            let sub = ws.subrange(from as int, i as int);
            assert(sub.drop_last() =~= ws.subrange(from as int, i - 1));
            reveal_strlit(" ");
        }
    }
    r
}

/// Whether the words `from..to` are all numbers (see `numbers`).
fn numbers_in(words: &Vec<String>, from: usize, to: usize) -> (r: bool)
    requires
        from <= to <= words@.len(),
    ensures
        r == numbers(words@.map_values(|w: String| w@), from as int, to as int),
{
    let ghost ws = words@.map_values(|w: String| w@);
    let mut i = from;
    while i < to
        invariant
            from <= i <= to <= words@.len(),
            ws == words@.map_values(|w: String| w@),
            forall|j: int| from <= j < i ==> float_text(#[trigger] ws[j]),
        decreases to - i,
    {
        assert(ws[i as int] == words@[i as int]@);
        if !is_float_text(words[i].as_str()) {
            return false;
        }
        i = i + 1;
    }
    true
}

/// The command that the words mean (see `parse_words_spec`).
pub fn parse_words(words: &Vec<String>) -> (r: Option<ParsedCommand>)
    ensures
        match r {
            Some(c) => parse_words_spec(words@.map_values(|w: String| w@)) == Some(c@),
            None => parse_words_spec(words@.map_values(|w: String| w@)) is None,
        },
{
    let ghost ws = words@.map_values(|w: String| w@);
    let n = words.len();
    if n == 0 {
        return None;
    }
    let head = &words[0];
    if word_is(head, "point") && n >= 3 {
        if !numbers_in(words, 1, 3) {
            return None;
        }
        return Some(ParsedCommand::Point { x: words[1].clone(), y: words[2].clone() });
    }
    if word_is(head, "line") && n >= 5 {
        if !numbers_in(words, 1, 5) {
            return None;
        }
        return Some(
            ParsedCommand::Line {
                x1: words[1].clone(),
                y1: words[2].clone(),
                x2: words[3].clone(),
                y2: words[4].clone(),
            },
        );
    }
    if word_is(head, "circle") && n >= 4 {
        if !numbers_in(words, 1, 4) {
            return None;
        }
        return Some(
            ParsedCommand::Circle {
                x: words[1].clone(),
                y: words[2].clone(),
                r: words[3].clone(),
            },
        );
    }
    if word_is(head, "arc") && n >= 7 {
        if !numbers_in(words, 1, 7) {
            return None;
        }
        return Some(
            ParsedCommand::Arc {
                x1: words[1].clone(),
                y1: words[2].clone(),
                x2: words[3].clone(),
                y2: words[4].clone(),
                x3: words[5].clone(),
                y3: words[6].clone(),
            },
        );
    }
    if word_is(head, "load") && n >= 2 {
        return Some(ParsedCommand::Load(join_from(words, 1)));
    }
    if word_is(head, "export") && n >= 2 {
        return Some(ParsedCommand::Export(join_from(words, 1)));
    }
    if word_is(head, "undo") {
        return Some(ParsedCommand::Undo);
    }
    if word_is(head, "redo") {
        return Some(ParsedCommand::Redo);
    }
    None
}

/// Parses a command line: the line is split into words as a shell would
/// (`shell_split`), and the words are read as `parse_words_spec` says.  A
/// line that does not split, or whose words name no command, gives `None`.
pub fn parse_command(cmd: &str) -> (r: Option<ParsedCommand>)
    ensures
        match shell_split(cmd@) {
            None => r is None,
            Some(ws) => match r {
                Some(c) => parse_words_spec(ws) == Some(c@),
                None => parse_words_spec(ws) is None,
            },
        },
{
    match split_words(cmd) {
        Ok(words) => parse_words(&words),
        Err(_) => None,
    }
}

} // verus!
