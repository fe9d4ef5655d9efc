use vstd::prelude::*;
use vstd::string::StrSliceExecFns;
use vstd::string::StringExecFns;

use crate::command_line::word_is;

verus! {

/// Whether `c` has the Unicode `White_Space` property, as
/// `char::is_whitespace` tests it.
pub open spec fn whitespace(c: char) -> bool {
    ||| '\u{0009}' <= c <= '\u{000d}'
    ||| c == ' '
    ||| c == '\u{0085}'
    ||| c == '\u{00a0}'
    ||| c == '\u{1680}'
    ||| '\u{2000}' <= c <= '\u{200a}'
    ||| c == '\u{2028}'
    ||| c == '\u{2029}'
    ||| c == '\u{202f}'
    ||| c == '\u{205f}'
    ||| c == '\u{3000}'
}

/// Whether `c` is white space (see `whitespace`).
pub fn is_whitespace_char(c: char) -> (r: bool)
    ensures
        r == whitespace(c),
{
    ('\u{0009}' <= c && c <= '\u{000d}') || c == ' ' || c == '\u{0085}' || c == '\u{00a0}' || c
        == '\u{1680}' || ('\u{2000}' <= c && c <= '\u{200a}') || c == '\u{2028}' || c
        == '\u{2029}' || c == '\u{202f}' || c == '\u{205f}' || c == '\u{3000}'
}

/// `s` without its leading white space.
pub open spec fn trim_start(s: Seq<char>) -> Seq<char>
    decreases s.len(),
{
    if s.len() > 0 && whitespace(s[0]) {
        trim_start(s.drop_first())
    } else {
        s
    }
}

/// `s` without its trailing white space.
pub open spec fn trim_end(s: Seq<char>) -> Seq<char>
    decreases s.len(),
{
    if s.len() > 0 && whitespace(s.last()) {
        trim_end(s.drop_last())
    } else {
        s
    }
}

/// `s` without leading and trailing white space, as `str::trim` leaves it.
pub open spec fn trimmed(s: Seq<char>) -> Seq<char> {
    trim_end(trim_start(s))
}

proof fn lemma_trim_start_from(s: Seq<char>, i: int)
    requires
        0 <= i <= s.len(),
        forall|j: int| 0 <= j < i ==> whitespace(#[trigger] s[j]),
    ensures
        trim_start(s) == trim_start(s.subrange(i, s.len() as int)),
    decreases i,
{
    if i > 0 {
        assert(whitespace(s[0]));
        let t = s.drop_first();
        assert forall|j: int| 0 <= j < i - 1 implies whitespace(#[trigger] t[j]) by {
            assert(t[j] == s[j + 1]);
        }
        lemma_trim_start_from(t, i - 1);
        assert(t.subrange(i - 1, t.len() as int) =~= s.subrange(i, s.len() as int));
    } else {
        assert(s.subrange(0, s.len() as int) =~= s);
    }
}

proof fn lemma_trim_end_to(s: Seq<char>, k: int)
    requires
        0 <= k <= s.len(),
        forall|j: int| k <= j < s.len() ==> whitespace(#[trigger] s[j]),
    ensures
        trim_end(s) == trim_end(s.subrange(0, k)),
    decreases s.len() - k,
{
    if k < s.len() {
        assert(whitespace(s[s.len() - 1]));
        let t = s.drop_last();
        lemma_trim_end_to(t, k);
        assert(t.subrange(0, k) =~= s.subrange(0, k));
    } else {
        assert(s.subrange(0, k) =~= s);
    }
}

/// `str::trim`: the text without leading and trailing white space.
pub fn trim_text(s: &str) -> (r: String)
    ensures
        r@ == trimmed(s@),
{
    let n = s.unicode_len();
    let mut a: usize = 0;
    while a < n && is_whitespace_char(s.get_char(a))
        invariant
            n == s@.len(),
            a <= n,
            forall|j: int| 0 <= j < a ==> whitespace(#[trigger] s@[j]),
        decreases n - a,
    {
        a = a + 1;
    }
    proof {
        lemma_trim_start_from(s@, a as int);
        let rest = s@.subrange(a as int, n as int);
        if a < n {
            assert(!whitespace(rest[0]));
        }
        assert(trim_start(rest) == rest);
    }
    let ghost rest = s@.subrange(a as int, n as int);
    let mut b: usize = n;
    while b > a && is_whitespace_char(s.get_char(b - 1))
        invariant
            n == s@.len(),
            a <= b <= n,
            rest == s@.subrange(a as int, n as int),
            forall|j: int| b - a <= j < rest.len() ==> whitespace(#[trigger] rest[j]),
        decreases b,
    {
        assert(rest[b - 1 - a] == s@[b - 1]);
        b = b - 1;
    }
    proof {
        lemma_trim_end_to(rest, b - a);
        let kept = rest.subrange(0, b - a);
        if b > a {
            assert(kept.last() == s@[b - 1]);
            assert(!whitespace(kept.last()));
        }
        assert(trim_end(kept) == kept);
        assert(kept =~= s@.subrange(a as int, b as int));
    }
    String::from_str(s.substring_char(a, b))
}

/// The text that `str::to_lowercase` makes of `s` (Unicode lower case).
pub uninterp spec fn lowercased(s: Seq<char>) -> Seq<char>;

/// Whether `char::is_alphabetic` holds of `c` (the Unicode Alphabetic
/// property).
pub uninterp spec fn alphabetic(c: char) -> bool;

/// `str::to_lowercase`: the text in lower case, as `lowercased` names it.
#[verifier::external_body]
fn lowercase_text(s: &str) -> (r: String)
    ensures
        r@ == lowercased(s@),
{
    s.to_lowercase()
}

/// `char::is_alphabetic`, as `alphabetic` names it.
#[verifier::external_body]
fn is_alphabetic_char(c: char) -> (r: bool)
    ensures
        r == alphabetic(c),
{
    c.is_alphabetic()
}

/// Whether `p` occurs in `s` as a run of consecutive characters.
pub open spec fn has_sub(s: Seq<char>, p: Seq<char>) -> bool {
    exists|i: int| 0 <= i && i + p.len() <= s.len() && #[trigger] s.subrange(i, i + p.len()) == p
}

/// Whether the text `p` occurs in `s`.
pub fn contains_text(s: &str, p: &str) -> (r: bool)
    ensures
        r == has_sub(s@, p@),
{
    let n = s.unicode_len();
    let m = p.unicode_len();
    if m > n {
        return false;
    }
    let mut i: usize = 0;
    while i <= n - m
        invariant
            n == s@.len(),
            m == p@.len(),
            m <= n,
            i <= n - m + 1,
            forall|k: int| 0 <= k < i ==> #[trigger] s@.subrange(k, k + m) != p@,
        decreases n - i,
    {
        let mut j: usize = 0;
        let mut same = true;
        while j < m
            invariant
                n == s@.len(),
                m == p@.len(),
                i + m <= n,
                j <= m,
                same == (forall|l: int| 0 <= l < j ==> s@[i + l] == p@[l]),
            decreases m - j,
        {
            if s.get_char(i + j) != p.get_char(j) {
                same = false;
            }
            j = j + 1;
        }
        if same {
            assert(s@.subrange(i as int, i + m) =~= p@);
            return true;
        }
        assert(s@.subrange(i as int, i + m) != p@) by {
            let k = choose|l: int| 0 <= l < m && s@[i + l] != p@[l];
            assert(s@.subrange(i as int, i + m)[k] != p@[k]);
        }
        i = i + 1;
    }
    assert forall|k: int| 0 <= k && k + p@.len() <= s@.len() implies #[trigger] s@.subrange(
        k,
        k + p@.len(),
    ) != p@ by {
        assert(k < i);
    }
    false
}

/// The pieces of `s` between the separators `sep1` and `sep2`, empty ones
/// included.
pub open spec fn split_at_char(s: Seq<char>, sep1: char, sep2: char) -> Seq<Seq<char>>
    decreases s.len(),
{
    if s.len() == 0 {
        seq![Seq::empty()]
    } else {
        let init = split_at_char(s.drop_last(), sep1, sep2);
        if s.last() == sep1 || s.last() == sep2 {
            init.push(Seq::empty())
        } else {
            init.update(init.len() - 1, init.last().push(s.last()))
        }
    }
}

/// Splits the text at every `sep1` and `sep2`, as `str::split` with
/// characters does.
pub fn split_text(s: &str, sep1: char, sep2: char) -> (r: Vec<String>)
    ensures
        r@.map_values(|w: String| w@) == split_at_char(s@, sep1, sep2),
{
    let n = s.unicode_len();
    let mut r: Vec<String> = Vec::new();
    let mut start: usize = 0;
    let mut i: usize = 0;
    proof {
        assert(s@.take(0) =~= Seq::<char>::empty());
        assert(r@.map_values(|w: String| w@).push(s@.subrange(0, 0)) =~= seq![Seq::<char>::empty()]);
    }
    while i < n
        invariant
            n == s@.len(),
            start <= i <= n,
            r@.map_values(|w: String| w@).push(s@.subrange(start as int, i as int))
                == split_at_char(s@.take(i as int), sep1, sep2),
        decreases n - i,
    {
        let c = s.get_char(i);
        let ghost before = r@.map_values(|w: String| w@).push(s@.subrange(start as int, i as int));
        assert(s@.take(i + 1).drop_last() =~= s@.take(i as int));
        assert(s@.take(i + 1).last() == c);
        assert(split_at_char(s@.take(i + 1), sep1, sep2) == (if c == sep1 || c == sep2 {
            before.push(Seq::empty())
        } else {
            before.update(before.len() - 1, before.last().push(c))
        }));
        if c == sep1 || c == sep2 {
            let ghost old_r = r@.map_values(|w: String| w@);
            let piece = String::from_str(s.substring_char(start, i));
            r.push(piece);
            assert(r@.map_values(|w: String| w@) =~= old_r.push(s@.subrange(start as int, i as int)));
            start = i + 1;
            assert(s@.subrange(start as int, (i + 1) as int) =~= Seq::<char>::empty());
            assert(r@.map_values(|w: String| w@).push(s@.subrange(start as int, (i + 1) as int))
                =~= before.push(Seq::empty()));
        } else {
            assert(s@.subrange(start as int, (i + 1) as int) =~= s@.subrange(start as int, i as int).push(c));
            assert(r@.map_values(|w: String| w@).push(s@.subrange(start as int, (i + 1) as int))
                =~= before.update(before.len() - 1, before.last().push(c)));
        }
        i = i + 1;
    }
    let last = String::from_str(s.substring_char(start, n));
    r.push(last);
    assert(s@.take(n as int) =~= s@);
    assert(r@.map_values(|w: String| w@) =~= split_at_char(s@.take(n as int), sep1, sep2));
    r
}

/// What a header column holds.
pub enum ColumnRole {
    Easting,
    Northing,
    Code,
    Other,
}

/// The role of a (trimmed, lower-case) header: an easting (`east…`, `e`,
/// `x`), a northing (`north…`, `n`, `y`), a code or description, in that
/// order of precedence.
pub open spec fn column_role(h: Seq<char>) -> ColumnRole {
    if has_sub(h, "east"@) || h == "e"@ || h == "x"@ {
        ColumnRole::Easting
    } else if has_sub(h, "north"@) || h == "n"@ || h == "y"@ {
        ColumnRole::Northing
    } else if has_sub(h, "code"@) || has_sub(h, "desc"@) {
        ColumnRole::Code
    } else {
        ColumnRole::Other
    }
}

/// Where the data of a field book start and which columns hold easting,
/// northing and code.
#[derive(Clone, Copy, PartialEq, Eq, Structural)]
pub struct FieldColumns {
    pub start: usize,
    pub x_idx: usize,
    pub y_idx: usize,
    pub code_idx: Option<usize>,
}

/// Whether a header cell hints at a header line: it holds an `e`, `north`
/// or `code`.
pub open spec fn header_hint(h: Seq<char>) -> bool {
    has_sub(h, "e"@) || has_sub(h, "north"@) || has_sub(h, "code"@)
}

/// Whether a header cell holds a letter.
pub open spec fn has_letter(h: Seq<char>) -> bool {
    exists|j: int| 0 <= j < h.len() && alphabetic(#[trigger] h[j])
}

/// Whether the first line is a header: some cell hints at one and some
/// cell holds a letter.
pub open spec fn is_header(cells: Seq<Seq<char>>) -> bool {
    (exists|i: int| 0 <= i < cells.len() && #[trigger] header_hint(cells[i])) && (exists|i: int|
        0 <= i < cells.len() && #[trigger] has_letter(cells[i]))
}

/// The columns found in the first `k` header cells: the last cell of each
/// role wins; easting defaults to column 0, northing to column 1, and there
/// is no code column by default.
pub open spec fn scan_columns(cells: Seq<Seq<char>>, k: nat) -> FieldColumns
    decreases k,
{
    if k == 0 {
        FieldColumns { start: 1, x_idx: 0, y_idx: 1, code_idx: None }
    } else {
        let c = scan_columns(cells, (k - 1) as nat);
        match column_role(cells[k - 1]) {
            ColumnRole::Easting => FieldColumns { x_idx: (k - 1) as usize, ..c },
            ColumnRole::Northing => FieldColumns { y_idx: (k - 1) as usize, ..c },
            ColumnRole::Code => FieldColumns { code_idx: Some((k - 1) as usize), ..c },
            ColumnRole::Other => c,
        }
    }
}

/// The cells of a header line: split at commas, trimmed, lower case.
pub open spec fn header_cells(line: Seq<char>) -> Seq<Seq<char>> {
    split_at_char(line, ',', ',').map_values(|c: Seq<char>| lowercased(trimmed(c)))
}

/// The columns of a field book whose first line is `line`: without a
/// header the data start at line 0 with easting, northing in columns 0
/// and 1 and no code; with one they start at line 1 and the header names
/// the columns.
pub open spec fn columns_spec(line: Seq<char>) -> FieldColumns {
    let cells = header_cells(line);
    if is_header(cells) {
        scan_columns(cells, cells.len())
    } else {
        FieldColumns { start: 0, x_idx: 0, y_idx: 1, code_idx: None }
    }
}

/// Whether the text holds a letter.
fn holds_letter(h: &str) -> (r: bool)
    ensures
        r == has_letter(h@),
{
    let n = h.unicode_len();
    let mut j: usize = 0;
    while j < n
        invariant
            n == h@.len(),
            j <= n,
            forall|l: int| 0 <= l < j ==> !alphabetic(#[trigger] h@[l]),
        decreases n - j,
    {
        if is_alphabetic_char(h.get_char(j)) {
            return true;
        }
        j = j + 1;
    }
    false
}

/// The role of a header cell.
fn role_of(h: &String) -> (r: ColumnRole)
    ensures
        r == column_role(h@),
{
    let t = h.as_str();
    if contains_text(t, "east") || word_is(h, "e") || word_is(h, "x") {
        ColumnRole::Easting
    } else if contains_text(t, "north") || word_is(h, "n") || word_is(h, "y") {
        ColumnRole::Northing
    } else if contains_text(t, "code") || contains_text(t, "desc") {
        ColumnRole::Code
    } else {
        ColumnRole::Other
    }
}

/// Reads the first line of a field book for its columns.
pub fn field_book_columns(line: &str) -> (c: FieldColumns)
    ensures
        c == columns_spec(line@),
{
    let parts = split_text(line, ',', ',');
    let mut cells: Vec<String> = Vec::new();
    let mut i: usize = 0;
    let ghost pieces = parts@.map_values(|w: String| w@);
    while i < parts.len()
        invariant
            i <= parts@.len(),
            pieces == parts@.map_values(|w: String| w@),
            cells@.map_values(|w: String| w@) == pieces.take(i as int).map_values(
                |c: Seq<char>| lowercased(trimmed(c)),
            ),
        decreases parts@.len() - i,
    {
        let t = trim_text(parts[i].as_str());
        let l = lowercase_text(t.as_str());
        let ghost before = cells@.map_values(|w: String| w@);
        cells.push(l);
        proof {
            assert(pieces[i as int] == parts@[i as int]@);
            assert(pieces.take(i + 1) =~= pieces.take(i as int).push(pieces[i as int]));
            assert(cells@.map_values(|w: String| w@) =~= before.push(l@));
        }
        i = i + 1;
        assert(cells@.map_values(|w: String| w@) =~= pieces.take(i as int).map_values(
            |c: Seq<char>| lowercased(trimmed(c)),
        ));
    }
    assert(pieces.take(parts@.len() as int) =~= pieces);
    let ghost hc = cells@.map_values(|w: String| w@);
    assert(hc == header_cells(line@));
    let mut hint = false;
    let mut letter = false;
    let mut cols = FieldColumns { start: 1, x_idx: 0, y_idx: 1, code_idx: None };
    let mut k: usize = 0;
    while k < cells.len()
        invariant
            k <= cells@.len(),
            hc == cells@.map_values(|w: String| w@),
            hint == (exists|i: int| 0 <= i < k && #[trigger] header_hint(hc[i])),
            letter == (exists|i: int| 0 <= i < k && #[trigger] has_letter(hc[i])),
            cols == scan_columns(hc, k as nat),
        decreases cells@.len() - k,
    {
        let h = &cells[k];
        let t = h.as_str();
        let this_hint = contains_text(t, "e") || contains_text(t, "north") || contains_text(
            t,
            "code",
        );
        let this_letter = holds_letter(t);
        proof {
            assert(hc[k as int] == h@);
            if this_hint {
                assert(header_hint(hc[k as int]));
            }
            if this_letter {
                assert(has_letter(hc[k as int]));
            }
        }
        hint = hint || this_hint;
        letter = letter || this_letter;
        match role_of(h) {
            ColumnRole::Easting => {
                cols = FieldColumns { x_idx: k, ..cols };
            },
            ColumnRole::Northing => {
                cols = FieldColumns { y_idx: k, ..cols };
            },
            ColumnRole::Code => {
                cols = FieldColumns { code_idx: Some(k), ..cols };
            },
            ColumnRole::Other => {},
        }
        k = k + 1;
    }
    if hint && letter {
        cols
    } else {
        FieldColumns { start: 0, x_idx: 0, y_idx: 1, code_idx: None }
    }
}

/// A text that holds `p` is at least as long as `p`.
proof fn lemma_has_sub_len(s: Seq<char>, p: Seq<char>)
    requires
        has_sub(s, p),
    ensures
        s.len() >= p.len(),
{
    let i = choose|i: int| 0 <= i && i + p.len() <= s.len() && #[trigger] s.subrange(i, i + p.len()) == p;
}

/// How a header cell's text decides its role: a cell that holds `east`, or
/// is `e` or `x`, names the easting; failing that, one that holds `north`,
/// or is `n` or `y`, the northing; failing both, one that holds `code` or
/// `desc` the code; any other cell names nothing.
pub proof fn law_column_role_by_text(h: Seq<char>)
    ensures
        has_sub(h, "east"@) || h == "e"@ || h == "x"@ ==> column_role(h) == ColumnRole::Easting,
        !has_sub(h, "east"@) && (has_sub(h, "north"@) || h == "n"@ || h == "y"@) ==> column_role(
            h,
        ) == ColumnRole::Northing,
        !has_sub(h, "east"@) && !has_sub(h, "north"@) && (has_sub(h, "code"@) || has_sub(
            h,
            "desc"@,
        )) ==> column_role(h) == ColumnRole::Code,
        !has_sub(h, "east"@) && !has_sub(h, "north"@) && !has_sub(h, "code"@) && !has_sub(
            h,
            "desc"@,
        ) && h != "e"@ && h != "x"@ && h != "n"@ && h != "y"@ ==> column_role(h)
            == ColumnRole::Other,
{
    reveal_strlit("e");
    reveal_strlit("x");
    reveal_strlit("n");
    reveal_strlit("y");
    reveal_strlit("code");
    reveal_strlit("desc");
    reveal_strlit("north");
    assert("n"@[0] != "e"@[0] && "n"@[0] != "x"@[0] && "y"@[0] != "e"@[0] && "y"@[0] != "x"@[0]);
    if has_sub(h, "north"@) {
        lemma_has_sub_len(h, "north"@);
    }
    if has_sub(h, "code"@) {
        lemma_has_sub_len(h, "code"@);
    }
    if has_sub(h, "desc"@) {
        lemma_has_sub_len(h, "desc"@);
    }
}

/// The columns found in the first `k` header cells: the easting column is
/// the last of them whose role is the easting (column 0 if none is), the
/// northing column likewise (column 1 if none is), the code column the
/// last code cell (none if there is none).
proof fn lemma_scan_columns(cells: Seq<Seq<char>>, k: nat)
    requires
        k <= cells.len(),
        cells.len() <= usize::MAX,
    ensures
        ({
            let c = scan_columns(cells, k);
            &&& c.start == 1
            &&& (exists|j: int| 0 <= j < k && column_role(#[trigger] cells[j]) == ColumnRole::Easting)
                ==> c.x_idx < k && column_role(cells[c.x_idx as int]) == ColumnRole::Easting
            &&& (forall|j: int| 0 <= j < k && column_role(#[trigger] cells[j]) == ColumnRole::Easting
                ==> j <= c.x_idx)
            &&& (forall|j: int| 0 <= j < k ==> column_role(#[trigger] cells[j]) != ColumnRole::Easting)
                ==> c.x_idx == 0
            &&& (exists|j: int| 0 <= j < k && column_role(#[trigger] cells[j]) == ColumnRole::Northing)
                ==> c.y_idx < k && column_role(cells[c.y_idx as int]) == ColumnRole::Northing
            &&& (forall|j: int| 0 <= j < k && column_role(#[trigger] cells[j]) == ColumnRole::Northing
                ==> j <= c.y_idx)
            &&& (forall|j: int| 0 <= j < k ==> column_role(#[trigger] cells[j]) != ColumnRole::Northing)
                ==> c.y_idx == 1
            &&& (exists|j: int| 0 <= j < k && column_role(#[trigger] cells[j]) == ColumnRole::Code)
                ==> c.code_idx is Some && c.code_idx->0 < k && column_role(
                cells[c.code_idx->0 as int],
            ) == ColumnRole::Code
            &&& (forall|j: int| 0 <= j < k && column_role(#[trigger] cells[j]) == ColumnRole::Code
                ==> c.code_idx is Some && j <= c.code_idx->0)
            &&& (forall|j: int| 0 <= j < k ==> column_role(#[trigger] cells[j]) != ColumnRole::Code)
                ==> c.code_idx is None
        }),
    decreases k,
{
    if k > 0 {
        lemma_scan_columns(cells, (k - 1) as nat);
        let last = (k - 1) as int;
        assert(cells[last] == cells[k - 1]);
        if exists|j: int| 0 <= j < k && column_role(#[trigger] cells[j]) == ColumnRole::Easting {
            let j = choose|j: int| 0 <= j < k && column_role(#[trigger] cells[j]) == ColumnRole::Easting;
            if j < last {
                assert(exists|j: int| 0 <= j < k - 1 && column_role(#[trigger] cells[j]) == ColumnRole::Easting);
            }
        }
        if exists|j: int| 0 <= j < k && column_role(#[trigger] cells[j]) == ColumnRole::Northing {
            let j = choose|j: int| 0 <= j < k && column_role(#[trigger] cells[j]) == ColumnRole::Northing;
            if j < last {
                assert(exists|j: int| 0 <= j < k - 1 && column_role(#[trigger] cells[j]) == ColumnRole::Northing);
            }
        }
        if exists|j: int| 0 <= j < k && column_role(#[trigger] cells[j]) == ColumnRole::Code {
            let j = choose|j: int| 0 <= j < k && column_role(#[trigger] cells[j]) == ColumnRole::Code;
            if j < last {
                assert(exists|j: int| 0 <= j < k - 1 && column_role(#[trigger] cells[j]) == ColumnRole::Code);
            }
        }
    }
}

/// The columns that a header line names: the data start at line 1; the
/// easting is the last header cell whose text holds `east` (or is `e` or
/// `x`), column 0 where none does; the northing the last one that names
/// the northing, column 1 where none does; the code the last code cell,
/// none where there is none.  A first line that is no header gives data
/// from line 0, easting and northing in columns 0 and 1 and no code.
pub proof fn law_header_names_columns(line: Seq<char>)
    requires
        header_cells(line).len() <= usize::MAX,
    ensures
        ({
            let cells = header_cells(line);
            let c = columns_spec(line);
            &&& !is_header(cells) ==> c == FieldColumns {
                start: 0,
                x_idx: 0,
                y_idx: 1,
                code_idx: None,
            }
            &&& is_header(cells) ==> {
                &&& c.start == 1
                &&& (exists|j: int| 0 <= j < cells.len() && column_role(#[trigger] cells[j])
                    == ColumnRole::Easting) ==> c.x_idx < cells.len() && column_role(
                    cells[c.x_idx as int],
                ) == ColumnRole::Easting
                &&& (forall|j: int| 0 <= j < cells.len() && column_role(#[trigger] cells[j])
                    == ColumnRole::Easting ==> j <= c.x_idx)
                &&& (forall|j: int| 0 <= j < cells.len() ==> column_role(#[trigger] cells[j])
                    != ColumnRole::Easting) ==> c.x_idx == 0
                &&& (exists|j: int| 0 <= j < cells.len() && column_role(#[trigger] cells[j])
                    == ColumnRole::Northing) ==> c.y_idx < cells.len() && column_role(
                    cells[c.y_idx as int],
                ) == ColumnRole::Northing
                &&& (forall|j: int| 0 <= j < cells.len() && column_role(#[trigger] cells[j])
                    == ColumnRole::Northing ==> j <= c.y_idx)
                &&& (forall|j: int| 0 <= j < cells.len() ==> column_role(#[trigger] cells[j])
                    != ColumnRole::Northing) ==> c.y_idx == 1
                &&& (exists|j: int| 0 <= j < cells.len() && column_role(#[trigger] cells[j])
                    == ColumnRole::Code) ==> c.code_idx is Some && c.code_idx->0 < cells.len()
                    && column_role(cells[c.code_idx->0 as int]) == ColumnRole::Code
                &&& (forall|j: int| 0 <= j < cells.len() && column_role(#[trigger] cells[j])
                    == ColumnRole::Code ==> c.code_idx is Some && j <= c.code_idx->0)
                &&& (forall|j: int| 0 <= j < cells.len() ==> column_role(#[trigger] cells[j])
                    != ColumnRole::Code) ==> c.code_idx is None
            }
        }),
{
    let cells = header_cells(line);
    lemma_scan_columns(cells, cells.len());
}

/// In a header line, the last cell whose text holds `east`, with no cell
/// after it that is `e` or `x`, is the easting column.
pub proof fn law_east_cell_is_easting_column(line: Seq<char>, j: int)
    requires
        is_header(header_cells(line)),
        header_cells(line).len() <= usize::MAX,
        0 <= j < header_cells(line).len(),
        has_sub(header_cells(line)[j], "east"@),
        forall|l: int|
            j < l < header_cells(line).len() ==> !has_sub(#[trigger] header_cells(line)[l], "east"@)
                && header_cells(line)[l] != "e"@ && header_cells(line)[l] != "x"@,
    ensures
        columns_spec(line).x_idx == j,
{
    let cells = header_cells(line);
    lemma_scan_columns(cells, cells.len());
    law_column_role_by_text(cells[j]);
    let x = columns_spec(line).x_idx as int;
    assert(j <= x);
    if x > j {
        assert(!has_sub(cells[x], "east"@) && cells[x] != "e"@ && cells[x] != "x"@);
    }
}

/// One data line of a field book: the easting and northing as typed, and
/// the code text (empty without a code column or cell).
pub struct FieldRow {
    pub x: String,
    pub y: String,
    pub code: String,
}

/// The row that a data line gives: none for a blank line or one with too
/// few cells for the easting and northing columns.
pub open spec fn row_spec(line: Seq<char>, cols: FieldColumns) -> Option<(Seq<char>, Seq<char>, Seq<char>)> {
    let parts = split_at_char(line, ',', ',');
    if trimmed(line).len() == 0 || parts.len() <= cols.x_idx || parts.len() <= cols.y_idx {
        None
    } else {
        Some(
            (
                trimmed(parts[cols.x_idx as int]),
                trimmed(parts[cols.y_idx as int]),
                match cols.code_idx {
                    Some(i) => if i < parts.len() {
                        trimmed(parts[i as int])
                    } else {
                        Seq::empty()
                    },
                    None => Seq::empty(),
                },
            ),
        )
    }
}

/// Reads one data line of a field book.
pub fn field_book_row(line: &str, cols: FieldColumns) -> (r: Option<FieldRow>)
    ensures
        match r {
            Some(row) => row_spec(line@, cols) == Some((row.x@, row.y@, row.code@)),
            None => row_spec(line@, cols) is None,
        },
{
    let t = trim_text(line);
    if t.as_str().unicode_len() == 0 {
        return None;
    }
    let parts = split_text(line, ',', ',');
    let ghost pieces = parts@.map_values(|w: String| w@);
    if parts.len() <= cols.x_idx || parts.len() <= cols.y_idx {
        return None;
    }
    let x = trim_text(parts[cols.x_idx].as_str());
    let y = trim_text(parts[cols.y_idx].as_str());
    let code = match cols.code_idx {
        Some(i) => {
            if i < parts.len() {
                trim_text(parts[i].as_str())
            } else {
                String::new()
            }
        },
        None => String::new(),
    };
    proof {
        assert(pieces[cols.x_idx as int] == parts@[cols.x_idx as int]@);
        assert(pieces[cols.y_idx as int] == parts@[cols.y_idx as int]@);
        if let Some(i) = cols.code_idx {
            if i < parts@.len() {
                assert(pieces[i as int] == parts@[i as int]@);
            }
        }
    }
    Some(FieldRow { x, y, code })
}

/// The rows of a field book given as lines: the first line decides the
/// columns, the data start after a header, and lines that give no row are
/// skipped.
pub open spec fn rows_spec(lines: Seq<Seq<char>>) -> Seq<(Seq<char>, Seq<char>, Seq<char>)> {
    if lines.len() == 0 {
        Seq::empty()
    } else {
        let cols = columns_spec(lines[0]);
        rows_from(lines, cols, cols.start as int, lines.len() as int)
    }
}

/// The rows that lines `from` up to `to` give.
pub open spec fn rows_from(
    lines: Seq<Seq<char>>,
    cols: FieldColumns,
    from: int,
    to: int,
) -> Seq<(Seq<char>, Seq<char>, Seq<char>)>
    decreases to - from,
{
    if to <= from {
        Seq::empty()
    } else {
        let before = rows_from(lines, cols, from, to - 1);
        match row_spec(lines[to - 1], cols) {
            Some(row) => before.push(row),
            None => before,
        }
    }
}

/// Reads the rows of a field book given as its lines.
pub fn field_book_rows(lines: &Vec<String>) -> (rows: Vec<FieldRow>)
    ensures
        rows@.map_values(|r: FieldRow| (r.x@, r.y@, r.code@)) == rows_spec(
            lines@.map_values(|l: String| l@),
        ),
{
    let mut rows: Vec<FieldRow> = Vec::new();
    let ghost ls = lines@.map_values(|l: String| l@);
    if lines.len() == 0 {
        assert(rows@.map_values(|r: FieldRow| (r.x@, r.y@, r.code@)) =~= rows_spec(ls));
        return rows;
    }
    let cols = field_book_columns(lines[0].as_str());
    let mut i: usize = cols.start;
    if i > lines.len() {
        i = lines.len();
    }
    let ghost first = i;
    proof {
        assert(cols == columns_spec(ls[0]));
        assert(first == cols.start as int || cols.start as int > ls.len());
    }
    while i < lines.len()
        invariant
            first <= i <= lines@.len(),
            ls == lines@.map_values(|l: String| l@),
            ls.len() > 0,
            cols == columns_spec(ls[0]),
            first == cols.start || (cols.start > ls.len() && first == ls.len()),
            rows@.map_values(|r: FieldRow| (r.x@, r.y@, r.code@)) == rows_from(
                ls,
                cols,
                cols.start as int,
                i as int,
            ),
        decreases lines@.len() - i,
    {
        let ghost before = rows@.map_values(|r: FieldRow| (r.x@, r.y@, r.code@));
        match field_book_row(lines[i].as_str(), cols) {
            Some(row) => {
                rows.push(row);
                assert(rows@.map_values(|r: FieldRow| (r.x@, r.y@, r.code@)) =~= before.push(
                    (row.x@, row.y@, row.code@),
                ));
            },
            None => {},
        }
        proof {
            assert(ls[i as int] == lines@[i as int]@);
        }
        i = i + 1;
    }
    rows
}

/// The non-empty pieces of a code cell split at spaces and semicolons.
pub open spec fn tokens_of(pieces: Seq<Seq<char>>) -> Seq<Seq<char>>
    decreases pieces.len(),
{
    if pieces.len() == 0 {
        Seq::empty()
    } else if pieces.last().len() == 0 {
        tokens_of(pieces.drop_last())
    } else {
        tokens_of(pieces.drop_last()).push(pieces.last())
    }
}

/// The field codes of a code cell: its pieces between spaces and
/// semicolons, empty ones dropped.
pub fn code_tokens(code: &str) -> (r: Vec<String>)
    ensures
        r@.map_values(|w: String| w@) == tokens_of(split_at_char(code@, ' ', ';')),
{
    let parts = split_text(code, ' ', ';');
    let ghost pieces = parts@.map_values(|w: String| w@);
    let mut r: Vec<String> = Vec::new();
    let mut i: usize = 0;
    while i < parts.len()
        invariant
            i <= parts@.len(),
            pieces == parts@.map_values(|w: String| w@),
            r@.map_values(|w: String| w@) == tokens_of(pieces.take(i as int)),
        decreases parts@.len() - i,
    {
        let ghost before = r@.map_values(|w: String| w@);
        assert(pieces.take(i + 1).drop_last() =~= pieces.take(i as int));
        assert(pieces.take(i + 1).last() == parts@[i as int]@);
        if parts[i].as_str().unicode_len() > 0 {
            let w = parts[i].clone();
            r.push(w);
            assert(r@.map_values(|w: String| w@) =~= before.push(pieces[i as int]));
        }
        i = i + 1;
    }
    assert(pieces.take(parts@.len() as int) =~= pieces);
    r
}

/// What a field code asks for at its point.
#[derive(Clone, Copy, PartialEq, Eq, Structural)]
pub enum CodeAction {
    /// Start a line of this code here.
    Begin,
    /// Join the line of this code to here (or start it, if none is open).
    Continue,
    /// Join the line of this code to here and close it.
    End,
    /// No line work.
    NoAction,
}

/// The open lines (the last point of each code) and the segments drawn so
/// far.
pub struct LineWork {
    pub open: Map<Seq<char>, usize>,
    pub segments: Seq<(usize, usize)>,
}

/// The line work after the code `code` with `action` at point `pt`; an
/// empty code does nothing.
pub open spec fn code_step(st: LineWork, code: Seq<char>, action: CodeAction, pt: usize) -> LineWork {
    if code.len() == 0 {
        st
    } else {
        match action {
            CodeAction::Begin => LineWork { open: st.open.insert(code, pt), ..st },
            CodeAction::Continue => if st.open.contains_key(code) {
                LineWork {
                    open: st.open.insert(code, pt),
                    segments: st.segments.push((st.open[code], pt)),
                }
            } else {
                LineWork { open: st.open.insert(code, pt), ..st }
            },
            CodeAction::End => if st.open.contains_key(code) {
                LineWork { open: st.open.remove(code), segments: st.segments.push((st.open[code], pt)) }
            } else {
                st
            },
            CodeAction::NoAction => st,
        }
    }
}

/// The line work after the first `k` codes of point `pt`.
pub open spec fn point_steps(st: LineWork, codes: Seq<(Seq<char>, CodeAction)>, pt: usize, k: int) -> LineWork
    decreases k,
{
    if k <= 0 {
        st
    } else {
        let prev = point_steps(st, codes, pt, k - 1);
        code_step(prev, codes[k - 1].0, codes[k - 1].1, pt)
    }
}

/// The line work after the codes of the first `k` points.
pub open spec fn all_steps(codes: Seq<Seq<(Seq<char>, CodeAction)>>, k: int) -> LineWork
    decreases k,
{
    if k <= 0 {
        LineWork { open: Map::empty(), segments: Seq::empty() }
    } else {
        let prev = all_steps(codes, k - 1);
        point_steps(prev, codes[k - 1], (k - 1) as usize, codes[k - 1].len() as int)
    }
}

/// The open lines end at points before `n`, and every segment runs from a
/// point to the same or a later point before `n`.
pub open spec fn work_before(st: LineWork, n: int) -> bool {
    &&& forall|c: Seq<char>| #[trigger] st.open.contains_key(c) ==> st.open[c] < n
    &&& forall|i: int|
        0 <= i < st.segments.len() ==> (#[trigger] st.segments[i]).0 <= st.segments[i].1 < n
}

proof fn lemma_code_step_before(st: LineWork, code: Seq<char>, action: CodeAction, pt: usize)
    requires
        work_before(st, pt + 1),
    ensures
        work_before(code_step(st, code, action, pt), pt + 1),
{
    let r = code_step(st, code, action, pt);
    assert forall|i: int| 0 <= i < r.segments.len() implies (#[trigger] r.segments[i]).0
        <= r.segments[i].1 < pt + 1 by {
        if i < st.segments.len() {
            assert(r.segments[i] == st.segments[i]);
        }
    }
}

proof fn lemma_point_steps_before(
    st: LineWork,
    codes: Seq<(Seq<char>, CodeAction)>,
    pt: usize,
    k: int,
)
    requires
        work_before(st, pt + 1),
    ensures
        work_before(point_steps(st, codes, pt, k), pt + 1),
    decreases k,
{
    if k > 0 {
        lemma_point_steps_before(st, codes, pt, k - 1);
        lemma_code_step_before(point_steps(st, codes, pt, k - 1), codes[k - 1].0, codes[k - 1].1, pt);
    }
}

proof fn lemma_all_steps_before(codes: Seq<Seq<(Seq<char>, CodeAction)>>, k: int)
    requires
        0 <= k <= codes.len(),
        codes.len() <= usize::MAX,
    ensures
        work_before(all_steps(codes, k), k),
    decreases k,
{
    if k > 0 {
        lemma_all_steps_before(codes, k - 1);
        let prev = all_steps(codes, k - 1);
        lemma_point_steps_before(prev, codes[k - 1], (k - 1) as usize, codes[k - 1].len() as int);
    }
}

/// Line work only joins points of the field book: each segment runs from a
/// point to the same or a later point.
pub proof fn law_segments_join_book_points(codes: Seq<Seq<(Seq<char>, CodeAction)>>)
    requires
        codes.len() <= usize::MAX,
    ensures
        forall|i: int|
            0 <= i < all_steps(codes, codes.len() as int).segments.len() ==> {
                let seg = #[trigger] all_steps(codes, codes.len() as int).segments[i];
                seg.0 <= seg.1 < codes.len()
            },
{
    lemma_all_steps_before(codes, codes.len() as int);
}

/// The map that an association list stands for.
pub open spec fn list_map(l: Seq<(Seq<char>, usize)>) -> Map<Seq<char>, usize>
    decreases l.len(),
{
    if l.len() == 0 {
        Map::empty()
    } else {
        list_map(l.drop_last()).insert(l.last().0, l.last().1)
    }
}

/// No key occurs twice in the list.
pub open spec fn keys_distinct(l: Seq<(Seq<char>, usize)>) -> bool {
    forall|i: int, j: int| 0 <= i < j < l.len() ==> (#[trigger] l[i]).0 != (#[trigger] l[j]).0
}

proof fn lemma_list_map_dom(l: Seq<(Seq<char>, usize)>, k: Seq<char>)
    ensures
        list_map(l).contains_key(k) <==> exists|i: int| 0 <= i < l.len() && (#[trigger] l[i]).0 == k,
    decreases l.len(),
{
    if l.len() > 0 {
        lemma_list_map_dom(l.drop_last(), k);
        if list_map(l).contains_key(k) && l.last().0 != k {
            let i = choose|i: int| 0 <= i < l.drop_last().len() && (#[trigger] l.drop_last()[i]).0 == k;
            assert(l[i] == l.drop_last()[i]);
        }
        if exists|i: int| 0 <= i < l.len() && (#[trigger] l[i]).0 == k {
            let i = choose|i: int| 0 <= i < l.len() && (#[trigger] l[i]).0 == k;
            if i < l.len() - 1 {
                assert(l.drop_last()[i] == l[i]);
            }
        }
    }
}

proof fn lemma_list_map_val(l: Seq<(Seq<char>, usize)>, i: int)
    requires
        keys_distinct(l),
        0 <= i < l.len(),
    ensures
        list_map(l).contains_key(l[i].0),
        list_map(l)[l[i].0] == l[i].1,
    decreases l.len(),
{
    if i < l.len() - 1 {
        let dl = l.drop_last();
        assert(dl[i] == l[i]);
        assert(keys_distinct(dl)) by {
            assert forall|a: int, b: int| 0 <= a < b < dl.len() implies (#[trigger] dl[a]).0 != (#[trigger] dl[b]).0 by {
                assert(dl[a] == l[a] && dl[b] == l[b]);
            }
        }
        lemma_list_map_val(dl, i);
        assert(l[i].0 != l[l.len() - 1].0);
    }
}

proof fn lemma_distinct_drop_last(l: Seq<(Seq<char>, usize)>)
    requires
        keys_distinct(l),
        l.len() > 0,
    ensures
        keys_distinct(l.drop_last()),
        !list_map(l.drop_last()).contains_key(l.last().0),
{
    let dl = l.drop_last();
    assert forall|a: int, b: int| 0 <= a < b < dl.len() implies (#[trigger] dl[a]).0 != (#[trigger] dl[b]).0 by {
        assert(dl[a] == l[a] && dl[b] == l[b]);
    }
    lemma_list_map_dom(dl, l.last().0);
    if list_map(dl).contains_key(l.last().0) {
        let i = choose|i: int| 0 <= i < dl.len() && (#[trigger] dl[i]).0 == l.last().0;
        assert(dl[i] == l[i]);
    }
}

proof fn lemma_list_map_update(l: Seq<(Seq<char>, usize)>, i: int, v: usize)
    requires
        keys_distinct(l),
        0 <= i < l.len(),
    ensures
        list_map(l.update(i, (l[i].0, v))) == list_map(l).insert(l[i].0, v),
        keys_distinct(l.update(i, (l[i].0, v))),
    decreases l.len(),
{
    let k = l[i].0;
    let u = l.update(i, (k, v));
    let dl = l.drop_last();
    lemma_distinct_drop_last(l);
    assert forall|a: int, b: int| 0 <= a < b < u.len() implies (#[trigger] u[a]).0 != (#[trigger] u[b]).0 by {
        assert(l[a].0 != l[b].0);
    }
    if i == l.len() - 1 {
        assert(u.drop_last() =~= dl);
        assert(list_map(u) =~= list_map(l).insert(k, v));
    } else {
        assert(dl[i] == l[i]);
        lemma_list_map_update(dl, i, v);
        assert(u.drop_last() =~= dl.update(i, (k, v)));
        assert(l.last().0 != k);
        assert(list_map(u) =~= list_map(l).insert(k, v));
    }
}

proof fn lemma_list_map_remove(l: Seq<(Seq<char>, usize)>, i: int)
    requires
        keys_distinct(l),
        0 <= i < l.len(),
    ensures
        list_map(l.remove(i)) == list_map(l).remove(l[i].0),
        keys_distinct(l.remove(i)),
    decreases l.len(),
{
    let k = l[i].0;
    let r = l.remove(i);
    let dl = l.drop_last();
    lemma_distinct_drop_last(l);
    assert forall|a: int, b: int| 0 <= a < b < r.len() implies (#[trigger] r[a]).0 != (#[trigger] r[b]).0 by {
        let a0 = if a < i { a } else { a + 1 };
        let b0 = if b < i { b } else { b + 1 };
        assert(r[a] == l[a0] && r[b] == l[b0]);
    }
    if i == l.len() - 1 {
        assert(r =~= dl);
        assert(list_map(r) =~= list_map(l).remove(k));
    } else {
        assert(dl[i] == l[i]);
        lemma_list_map_remove(dl, i);
        assert(r.drop_last() =~= dl.remove(i));
        assert(r.last() == l.last());
        assert(l.last().0 != k);
        assert(list_map(r) =~= list_map(l).remove(k));
    }
}

/// The position of `code` in the list of open lines.
fn find_open(l: &Vec<(String, usize)>, code: &String) -> (r: Option<usize>)
    ensures
        match r {
            Some(i) => i < l@.len() && l@[i as int].0@ == code@,
            None => forall|i: int| 0 <= i < l@.len() ==> (#[trigger] l@[i]).0@ != code@,
        },
{
    let mut i: usize = 0;
    while i < l.len()
        invariant
            i <= l@.len(),
            forall|j: int| 0 <= j < i ==> (#[trigger] l@[j]).0@ != code@,
        decreases l@.len() - i,
    {
        if l[i].0 == *code {
            return Some(i);
        }
        i = i + 1;
    }
    None
}

/// The segments that the field codes draw.  `codes[p]` holds the codes of
/// point `p`, each with its action, in the order they were written; a
/// segment joins two point indices.
pub fn field_code_lines(codes: &Vec<Vec<(String, CodeAction)>>) -> (segments: Vec<(usize, usize)>)
    ensures
        segments@ == all_steps(
            codes@.map_values(
                |cs: Vec<(String, CodeAction)>| cs@.map_values(|e: (String, CodeAction)| (e.0@, e.1)),
            ),
            codes@.len() as int,
        ).segments,
{
    let ghost cv = codes@.map_values(
        |cs: Vec<(String, CodeAction)>| cs@.map_values(|e: (String, CodeAction)| (e.0@, e.1)),
    );
    let mut open: Vec<(String, usize)> = Vec::new();
    let mut segments: Vec<(usize, usize)> = Vec::new();
    let mut p: usize = 0;
    while p < codes.len()
        invariant
            p <= codes@.len(),
            cv == codes@.map_values(
                |cs: Vec<(String, CodeAction)>| cs@.map_values(|e: (String, CodeAction)| (e.0@, e.1)),
            ),
            keys_distinct(open@.map_values(|e: (String, usize)| (e.0@, e.1))),
            list_map(open@.map_values(|e: (String, usize)| (e.0@, e.1))) == all_steps(cv, p as int).open,
            segments@ == all_steps(cv, p as int).segments,
        decreases codes@.len() - p,
    {
        let cs = &codes[p];
        let ghost start = all_steps(cv, p as int);
        assert(cv[p as int] == cs@.map_values(|e: (String, CodeAction)| (e.0@, e.1)));
        let mut k: usize = 0;
        while k < cs.len()
            invariant
                k <= cs@.len(),
                p < codes@.len(),
                cs == &codes@[p as int],
                cv[p as int] == cs@.map_values(|e: (String, CodeAction)| (e.0@, e.1)),
                keys_distinct(open@.map_values(|e: (String, usize)| (e.0@, e.1))),
                list_map(open@.map_values(|e: (String, usize)| (e.0@, e.1))) == point_steps(start, cv[p as int], p, k as int).open,
                segments@ == point_steps(start, cv[p as int], p, k as int).segments,
            decreases cs@.len() - k,
        {
            let code = &cs[k].0;
            let action = cs[k].1;
            let ghost ov = open@.map_values(|e: (String, usize)| (e.0@, e.1));
            let ghost st = point_steps(start, cv[p as int], p, k as int);
            proof {
                assert(cv[p as int][k as int] == (code@, action));
                lemma_list_map_dom(ov, code@);
            }
            if code.as_str().unicode_len() > 0 {
                match action {
                    CodeAction::Begin => {
                        set_open(&mut open, code, p);
                    },
                    CodeAction::Continue => {
                        match find_open(&open, code) {
                            Some(i) => {
                                let prev = open[i].1;
                                proof {
                                    assert(ov[i as int] == (code@, prev));
                                    lemma_list_map_val(ov, i as int);
                                }
                                segments.push((prev, p));
                            },
                            None => {
                                proof {
                                    assert forall|j: int| 0 <= j < ov.len() implies (#[trigger] ov[j]).0 != code@ by {
                                        assert(ov[j].0 == open@[j].0@);
                                    }
                                }
                            },
                        }
                        set_open(&mut open, code, p);
                    },
                    CodeAction::End => {
                        match find_open(&open, code) {
                            Some(i) => {
                                let prev = open[i].1;
                                proof {
                                    assert(ov[i as int] == (code@, prev));
                                    lemma_list_map_val(ov, i as int);
                                    lemma_list_map_remove(ov, i as int);
                                }
                                segments.push((prev, p));
                                open.remove(i);
                                proof {
                                    assert(open@.map_values(|e: (String, usize)| (e.0@, e.1)) =~= ov.remove(i as int));
                                }
                            },
                            None => {
                                proof {
                                    assert forall|j: int| 0 <= j < ov.len() implies (#[trigger] ov[j]).0 != code@ by {
                                        assert(ov[j].0 == open@[j].0@);
                                    }
                                }
                            },
                        }
                    },
                    CodeAction::NoAction => {},
                }
            }
            k = k + 1;
        }
        p = p + 1;
    }
    segments
}

/// Records `pt` as the last point of the open line of `code`, opening it
/// if needed.
fn set_open(open: &mut Vec<(String, usize)>, code: &String, pt: usize)
    requires
        keys_distinct(old(open)@.map_values(|e: (String, usize)| (e.0@, e.1))),
    ensures
        keys_distinct(final(open)@.map_values(|e: (String, usize)| (e.0@, e.1))),
        list_map(final(open)@.map_values(|e: (String, usize)| (e.0@, e.1))) == list_map(
            old(open)@.map_values(|e: (String, usize)| (e.0@, e.1)),
        ).insert(code@, pt),
{
    let ghost ov = open@.map_values(|e: (String, usize)| (e.0@, e.1));
    match find_open(open, code) {
        Some(i) => {
            let key = open[i].0.clone();
            proof {
                assert(ov[i as int] == (code@, open@[i as int].1));
                lemma_list_map_update(ov, i as int, pt);
            }
            open.set(i, (key, pt));
            assert(open@.map_values(|e: (String, usize)| (e.0@, e.1)) =~= ov.update(i as int, (code@, pt)));
        },
        None => {
            let key = code.clone();
            open.push((key, pt));
            let ghost nv = open@.map_values(|e: (String, usize)| (e.0@, e.1));
            assert(nv =~= ov.push((code@, pt)));
            assert(nv.drop_last() =~= ov);
            assert forall|a: int, b: int| 0 <= a < b < nv.len() implies (#[trigger] nv[a]).0 != (#[trigger] nv[b]).0 by {
                if b == nv.len() - 1 {
                    assert(nv[a] == ov[a]);
                    assert(ov[a].0 == open@[a].0@);
                } else {
                    assert(nv[a] == ov[a] && nv[b] == ov[b]);
                }
            }
        },
    }
}

} // verus!
