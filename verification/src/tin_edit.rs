use vstd::prelude::*;

use crate::field_book::{is_whitespace_char, whitespace};
use crate::mesh::copy_slice;

verus! {

/// Whether `c` is an ASCII decimal digit.
pub open spec fn is_digit(c: char) -> bool {
    '0' <= c <= '9'
}

/// Whether every character of `d` is a decimal digit.
pub open spec fn all_digits(d: Seq<char>) -> bool {
    forall|i: int| 0 <= i < d.len() ==> is_digit(#[trigger] d[i])
}

/// The value of a run of decimal digits.
pub open spec fn digits_value(d: Seq<char>) -> nat
    decreases d.len(),
{
    if d.len() == 0 {
        0
    } else {
        digits_value(d.drop_last()) * 10 + ((d.last() as int) - ('0' as int)) as nat
    }
}

/// The index that a text gives when read as `str::parse::<usize>` reads
/// it: an optional `+`, then one or more decimal digits whose value fits
/// in a `usize`; anything else (a sign alone, spaces, other characters, an
/// empty text, a value too large) gives none.
pub open spec fn index_text(s: Seq<char>) -> Option<usize> {
    let d = if s.len() > 0 && s[0] == '+' {
        s.subrange(1, s.len() as int)
    } else {
        s
    };
    if d.len() > 0 && all_digits(d) && digits_value(d) <= usize::MAX {
        Some(digits_value(d) as usize)
    } else {
        None
    }
}

proof fn lemma_digits_value_grows(d: Seq<char>, k: int)
    requires
        0 <= k <= d.len(),
        forall|i: int| 0 <= i < d.len() ==> is_digit(#[trigger] d[i]),
    ensures
        digits_value(d.take(k)) <= digits_value(d),
    decreases d.len(),
{
    if k == d.len() {
        assert(d.take(k) =~= d);
    } else {
        let e = d.drop_last();
        assert(is_digit(d[d.len() - 1]));
        lemma_digits_value_grows(e, k);
        assert(e.take(k) =~= d.take(k));
    }
}

/// Reads an index typed into a dialog (see `index_text`).
pub fn parse_index(s: &str) -> (r: Option<usize>)
    ensures
        r == index_text(s@),
{
    let n = s.unicode_len();
    let mut start: usize = 0;
    if n > 0 && s.get_char(0) == '+' {
        start = 1;
    }
    let ghost d = if s@.len() > 0 && s@[0] == '+' {
        s@.subrange(1, s@.len() as int)
    } else {
        s@
    };
    assert(d =~= s@.subrange(start as int, n as int));
    if start == n {
        return None;
    }
    let mut v: usize = 0;
    let mut i: usize = start;
    assert(d.take(0) =~= Seq::<char>::empty());
    while i < n
        invariant
            n == s@.len(),
            start < n,
            start <= i <= n,
            d =~= s@.subrange(start as int, n as int),
            d == (if s@.len() > 0 && s@[0] == '+' {
                s@.subrange(1, s@.len() as int)
            } else {
                s@
            }),
            forall|j: int| 0 <= j < i - start ==> is_digit(#[trigger] d[j]),
            v == digits_value(d.take(i - start)),
        decreases n - i,
    {
        let c = s.get_char(i);
        assert(c == d[i - start]);
        if !('0' <= c && c <= '9') {
            assert(!is_digit(d[i - start]));
            return None;
        }
        let digit = (c as u32 - '0' as u32) as usize;
        proof {
            assert(d.take(i - start + 1).drop_last() =~= d.take(i - start));
            assert(d.take(i - start + 1).last() == c);
        }
        match v.checked_mul(10) {
            Some(t) => match t.checked_add(digit) {
                Some(w) => {
                    v = w;
                },
                None => {
                    proof {
                        assert(t + digit > usize::MAX);
                        assert(digit == (c as int) - ('0' as int));
                        assert(digits_value(d.take(i - start + 1)) == v * 10 + digit);
                        assert(digits_value(d.take(i - start + 1)) > usize::MAX);
                        if all_digits(d) {
                            lemma_digits_value_grows(d, i - start + 1);
                        }
                    }
                    return None;
                },
            },
            None => {
                proof {
                    assert(digits_value(d.take(i - start + 1)) > usize::MAX);
                    if all_digits(d) {
                        lemma_digits_value_grows(d, i - start + 1);
                    }
                }
                return None;
            },
        }
        i = i + 1;
    }
    assert(d.take(n - start) =~= d);
    Some(v)
}

/// Whether `c` separates the indices of a typed list: a comma or white
/// space.
pub open spec fn separates(c: char) -> bool {
    c == ',' || whitespace(c)
}

fn is_separator(c: char) -> (r: bool)
    ensures
        r == separates(c),
{
    c == ',' || is_whitespace_char(c)
}

/// The pieces of a typed list between separators, empty ones included.
pub open spec fn list_pieces(s: Seq<char>) -> Seq<Seq<char>>
    decreases s.len(),
{
    if s.len() == 0 {
        seq![Seq::empty()]
    } else {
        let init = list_pieces(s.drop_last());
        if separates(s.last()) {
            init.push(Seq::empty())
        } else {
            init.update(init.len() - 1, init.last().push(s.last()))
        }
    }
}

/// The indices that the pieces give, in order; a piece that is no index
/// is passed over.
pub open spec fn piece_indices(ps: Seq<Seq<char>>) -> Seq<usize>
    decreases ps.len(),
{
    if ps.len() == 0 {
        Seq::empty()
    } else {
        let init = piece_indices(ps.drop_last());
        match index_text(ps.last()) {
            Some(v) => init.push(v),
            None => init,
        }
    }
}

proof fn lemma_list_pieces_nonempty(s: Seq<char>)
    ensures
        list_pieces(s).len() >= 1,
    decreases s.len(),
{
    if s.len() > 0 {
        lemma_list_pieces_nonempty(s.drop_last());
    }
}

/// Reads a list of vertex indices typed as text: the text is cut at commas
/// and white space, and each piece that is an index (see `index_text`) is
/// kept, in order.
pub fn boundary_indices(s: &str) -> (r: Vec<usize>)
    ensures
        r@ == piece_indices(list_pieces(s@)),
{
    let n = s.unicode_len();
    let mut r: Vec<usize> = Vec::new();
    let mut start: usize = 0;
    let mut i: usize = 0;
    proof {
        assert(s@.take(0) =~= Seq::<char>::empty());
        assert(s@.subrange(0, 0) =~= Seq::<char>::empty());
    }
    while i < n
        invariant
            n == s@.len(),
            start <= i <= n,
            list_pieces(s@.take(i as int)).len() >= 1,
            list_pieces(s@.take(i as int)).last() == s@.subrange(start as int, i as int),
            r@ == piece_indices(list_pieces(s@.take(i as int)).drop_last()),
        decreases n - i,
    {
        let c = s.get_char(i);
        let ghost ps = list_pieces(s@.take(i as int));
        proof {
            assert(s@.take(i + 1).drop_last() =~= s@.take(i as int));
            assert(s@.take(i + 1).last() == c);
        }
        if is_separator(c) {
            let piece = s.substring_char(start, i);
            let ghost ps1 = ps.push(Seq::empty());
            match parse_index(piece) {
                Some(v) => {
                    r.push(v);
                },
                None => {},
            }
            proof {
                assert(ps1.drop_last() =~= ps);
                assert(ps.drop_last() =~= ps.take(ps.len() - 1));
            }
            start = i + 1;
            proof {
                assert(s@.subrange(start as int, (i + 1) as int) =~= Seq::<char>::empty());
            }
        } else {
            proof {
                let ps1 = ps.update(ps.len() - 1, ps.last().push(c));
                assert(ps1.drop_last() =~= ps.drop_last());
                assert(s@.subrange(start as int, (i + 1) as int) =~= s@.subrange(
                    start as int,
                    i as int,
                ).push(c));
            }
        }
        i = i + 1;
    }
    let piece = s.substring_char(start, n);
    let ghost ps = list_pieces(s@.take(n as int));
    match parse_index(piece) {
        Some(v) => {
            r.push(v);
        },
        None => {},
    }
    proof {
        assert(s@.take(n as int) =~= s@);
        assert(ps.drop_last().push(ps.last()) =~= ps);
    }
    r
}

/// A named group of surfaces that are edited together.
pub struct SurfaceGroup {
    pub name: String,
    pub surface_ids: Vec<usize>,
}

/// The surfaces that an edit of surface `surf` applies to: the members of
/// the first group that holds `surf`, or else `surf` alone.
pub open spec fn edit_targets_spec(groups: Seq<Seq<usize>>, surf: usize) -> Seq<usize>
    decreases groups.len(),
{
    if groups.len() == 0 {
        seq![surf]
    } else if groups[0].contains(surf) {
        groups[0]
    } else {
        edit_targets_spec(groups.drop_first(), surf)
    }
}

/// The members of each group.
pub open spec fn group_members(groups: Seq<SurfaceGroup>) -> Seq<Seq<usize>> {
    groups.map_values(|g: SurfaceGroup| g.surface_ids@)
}

fn holds(v: &Vec<usize>, x: usize) -> (r: bool)
    ensures
        r == v@.contains(x),
{
    let mut i: usize = 0;
    while i < v.len()
        invariant
            i <= v.len(),
            forall|j: int| 0 <= j < i ==> v@[j] != x,
        decreases v.len() - i,
    {
        if v[i] == x {
            assert(v@[i as int] == x);
            return true;
        }
        i = i + 1;
    }
    false
}

/// The surfaces that an edit of surface `surf` applies to (see
/// `edit_targets_spec`).
pub fn edit_targets(groups: &Vec<SurfaceGroup>, surf: usize) -> (r: Vec<usize>)
    ensures
        r@ == edit_targets_spec(group_members(groups@), surf),
{
    let ghost gs = group_members(groups@);
    let mut i: usize = 0;
    assert(gs.skip(0) =~= gs);
    while i < groups.len()
        invariant
            i <= groups.len(),
            gs == group_members(groups@),
            edit_targets_spec(gs.skip(i as int), surf) == edit_targets_spec(gs, surf),
        decreases groups.len() - i,
    {
        let g = &groups[i];
        proof {
            assert(gs.skip(i as int)[0] == g.surface_ids@);
            assert(gs.skip(i as int).drop_first() =~= gs.skip(i + 1));
        }
        if holds(&g.surface_ids, surf) {
            return copy_slice(g.surface_ids.as_slice());
        }
        i = i + 1;
    }
    assert(gs.skip(i as int) =~= Seq::<Seq<usize>>::empty());
    let mut r: Vec<usize> = Vec::new();
    r.push(surf);
    assert(r@ =~= seq![surf]);
    r
}

} // verus!
