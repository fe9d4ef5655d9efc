use vstd::prelude::*;
use vstd::relations::{sorted_by, total_ordering};

use crate::commands::{
    applicable, apply_spec, lemma_undo_times_last, undo_spec, undo_times, undos_applicable, Command,
    CommandStack, Context, ContextView, StackView,
};

verus! {

broadcast use {
    vstd::seq_lib::group_to_multiset_ensures,
    vstd::multiset::group_multiset_properties,
    vstd::multiset::group_multiset_axioms,
};

/// The order of indices: smaller first.
pub open spec fn index_order() -> spec_fn(usize, usize) -> bool {
    |x: usize, y: usize| x <= y
}

/// Whether the indices stand in ascending order.
pub open spec fn ascending(s: Seq<usize>) -> bool {
    forall|i: int, j: int| 0 <= i <= j < s.len() ==> s[i] <= s[j]
}

/// The indices in ascending order, each as often as it occurs in `s`.
pub open spec fn sorted_indices(s: Seq<usize>) -> Seq<usize> {
    s.sort_by(index_order())
}

proof fn lemma_index_order_total()
    ensures
        total_ordering(index_order()),
{
    let r = index_order();
    assert(vstd::relations::reflexive(r));
    assert(vstd::relations::antisymmetric(r));
    assert(vstd::relations::transitive(r));
    assert(vstd::relations::strongly_connected(r));
}

/// Two ascending sequences that hold the same indices equally often are
/// the same sequence.
pub proof fn lemma_ascending_unique(a: Seq<usize>, b: Seq<usize>)
    requires
        ascending(a),
        ascending(b),
        a.to_multiset() == b.to_multiset(),
    ensures
        a == b,
    decreases a.len(),
{
    assert(a.len() == a.to_multiset().len());
    assert(b.len() == b.to_multiset().len());
    if a.len() == 0 {
        assert(a =~= b);
    } else {
        let x = a.last();
        let y = b.last();
        assert(a.to_multiset().count(x) > 0);
        assert(b.contains(x));
        let k = choose|k: int| 0 <= k < b.len() && b[k] == x;
        assert(x <= y);
        assert(b.to_multiset().count(y) > 0);
        assert(a.contains(y));
        let k2 = choose|k: int| 0 <= k < a.len() && a[k] == y;
        assert(y <= x);
        let a1 = a.drop_last();
        let b1 = b.drop_last();
        assert(a =~= a1.push(x));
        assert(b =~= b1.push(y));
        vstd::seq_lib::to_multiset_build(a1, x);
        vstd::seq_lib::to_multiset_build(b1, y);
        assert(a1.to_multiset() =~= a.to_multiset().remove(x));
        assert(b1.to_multiset() =~= b.to_multiset().remove(y));
        lemma_ascending_unique(a1, b1);
    }
}

/// What `sorted_indices` is: ascending, with the same indices.
pub proof fn lemma_sorted_indices(s: Seq<usize>)
    ensures
        ascending(sorted_indices(s)),
        sorted_indices(s).to_multiset() == s.to_multiset(),
{
    lemma_index_order_total();
    s.lemma_sort_by_ensures(index_order());
    let t = sorted_indices(s);
    assert forall|i: int, j: int| 0 <= i <= j < t.len() implies t[i] <= t[j] by {
        if i < j {
            assert(sorted_by(t, index_order()));
            assert((index_order())(t[i], t[j]));
        }
    }
}

/// Sorts the indices in ascending order.
pub fn sort_indices(v: &mut Vec<usize>)
    ensures
        final(v)@ == sorted_indices(old(v)@),
{
    let n = v.len();
    let mut i: usize = 1;
    while i < n
        invariant
            n == v.len(),
            n == 0 || 1 <= i <= n,
            forall|a: int, b: int| 0 <= a <= b < i && b < n ==> v@[a] <= v@[b],
            v@.to_multiset() == old(v)@.to_multiset(),
        decreases n - i,
    {
        let mut j: usize = i;
        while j > 0 && v[j - 1] > v[j]
            invariant
                n == v.len(),
                1 <= i < n,
                j <= i,
                // the prefix before `j` and the part after it up to `i` are in order,
                // and everything before `j` is at most everything after it but `v[j]`
                forall|a: int, b: int| 0 <= a <= b < j ==> v@[a] <= v@[b],
                forall|a: int, b: int| j <= a <= b <= i ==> v@[a] <= v@[b],
                forall|a: int, b: int| 0 <= a < j && j < b <= i ==> v@[a] <= v@[b],
                v@.to_multiset() == old(v)@.to_multiset(),
            decreases j,
        {
            let x = v[j - 1];
            let y = v[j];
            let ghost before = v@;
            v.set(j - 1, y);
            v.set(j, x);
            proof {
                let mid = before.update(j - 1, y);
                vstd::seq_lib::to_multiset_update(before, j - 1, y);
                vstd::seq_lib::to_multiset_update(mid, j as int, x);
                assert(v@ == mid.update(j as int, x));
                assert(v@.to_multiset() =~= before.to_multiset());
            }
            j = j - 1;
        }
        assert forall|a: int, b: int| 0 <= a <= b < i + 1 implies v@[a] <= v@[b] by {
            if a < j && b == j && j > 0 {
                assert(v@[a] <= v@[j - 1]);
            }
        }
        i = i + 1;
    }
    proof {
        lemma_sorted_indices(old(v)@);
        lemma_ascending_unique(v@, sorted_indices(old(v)@));
    }
}

/// The items after removing, from the last index of `ids` to the first,
/// the item at each index that is still in range at its turn.
pub open spec fn remove_from_last<T>(s: Seq<T>, ids: Seq<usize>) -> Seq<T>
    decreases ids.len(),
{
    if ids.len() == 0 {
        s
    } else {
        let i = ids.last();
        let s1 = if i < s.len() {
            s.remove(i as int)
        } else {
            s
        };
        remove_from_last(s1, ids.drop_last())
    }
}

/// The indices that `remove_from_last` removes from a sequence of `len`
/// items, in the order of removal.
pub open spec fn removed_from_last(len: nat, ids: Seq<usize>) -> Seq<usize>
    decreases ids.len(),
{
    if ids.len() == 0 {
        Seq::empty()
    } else {
        let i = ids.last();
        if i < len {
            seq![i] + removed_from_last((len - 1) as nat, ids.drop_last())
        } else {
            removed_from_last(len, ids.drop_last())
        }
    }
}

/// Deleting the selection `sel` from `s`: its indices are sorted and the
/// items removed from the highest index down, skipping any out of range.
pub open spec fn delete_selected_spec<T>(s: Seq<T>, sel: Seq<usize>) -> Seq<T> {
    remove_from_last(s, sorted_indices(sel))
}

/// Whether `sel` holds the index `i`.
pub open spec fn selects(sel: Seq<usize>, i: int) -> bool {
    exists|k: int| 0 <= k < sel.len() && sel[k] == i
}

/// The items at positions from `i` on that `sel` does not hold, in order.
pub open spec fn kept_from<T>(s: Seq<T>, sel: Seq<usize>, i: int) -> Seq<T>
    decreases s.len() - i,
{
    if i < 0 || i >= s.len() {
        Seq::empty()
    } else {
        (if selects(sel, i) {
            Seq::empty()
        } else {
            seq![s[i]]
        }) + kept_from(s, sel, i + 1)
    }
}

/// The items at the positions that `sel` does not hold, in order.
pub open spec fn unselected<T>(s: Seq<T>, sel: Seq<usize>) -> Seq<T> {
    kept_from(s, sel, 0)
}

/// Whether the indices are strictly ascending.
pub open spec fn strictly_ascending(s: Seq<usize>) -> bool {
    forall|i: int, j: int| 0 <= i < j < s.len() ==> s[i] < s[j]
}

proof fn lemma_kept_from_tail<T>(s: Seq<T>, sel: Seq<usize>, i: int)
    requires
        0 <= i <= s.len(),
        forall|j: int| i <= j < s.len() ==> !selects(sel, j),
    ensures
        kept_from(s, sel, i) == s.subrange(i, s.len() as int),
    decreases s.len() - i,
{
    if i < s.len() {
        lemma_kept_from_tail(s, sel, i + 1);
        assert(seq![s[i]] + s.subrange(i + 1, s.len() as int) =~= s.subrange(i, s.len() as int));
    } else {
        assert(s.subrange(i, s.len() as int) =~= Seq::<T>::empty());
    }
}

proof fn lemma_kept_from_congruent<T>(s: Seq<T>, a: Seq<usize>, b: Seq<usize>, i: int)
    requires
        0 <= i,
        forall|j: int| i <= j < s.len() ==> (selects(a, j) <==> selects(b, j)),
    ensures
        kept_from(s, a, i) == kept_from(s, b, i),
    decreases s.len() - i,
{
    if i < s.len() {
        lemma_kept_from_congruent(s, a, b, i + 1);
    }
}

proof fn lemma_selects_push(t: Seq<usize>, m: usize, i: int)
    ensures
        selects(t.push(m), i) <==> (selects(t, i) || i == m),
{
    let u = t.push(m);
    if selects(t, i) {
        let k = choose|k: int| 0 <= k < t.len() && t[k] == i;
        assert(u[k] == i);
    }
    if i == m {
        assert(u[t.len() as int] == i);
    }
    if selects(u, i) {
        let k = choose|k: int| 0 <= k < u.len() && u[k] == i;
        if k < t.len() {
            assert(t[k] == i);
        }
    }
}

/// Removing item `m` drops it from the kept items when `m` joins a
/// selection of indices below it.
proof fn lemma_kept_after_remove<T>(s: Seq<T>, t: Seq<usize>, m: usize, i: int)
    requires
        m < s.len(),
        0 <= i <= m,
        forall|k: int| 0 <= k < t.len() ==> t[k] < m,
    ensures
        kept_from(s.remove(m as int), t, i) == kept_from(s, t.push(m), i),
    decreases m - i,
{
    let r = s.remove(m as int);
    assert forall|j: int| i <= j implies (selects(t.push(m), j) <==> (selects(t, j) || j == m)) by {
        lemma_selects_push(t, m, j);
    }
    if i == m {
        assert forall|j: int| m <= j < r.len() implies !selects(t, j) by {
            if selects(t, j) {
                let k = choose|k: int| 0 <= k < t.len() && t[k] == j;
            }
        }
        lemma_kept_from_tail(r, t, m as int);
        assert forall|j: int| m + 1 <= j < s.len() implies !selects(t.push(m), j) by {
            if selects(t, j) {
                let k = choose|k: int| 0 <= k < t.len() && t[k] == j;
            }
        }
        lemma_kept_from_tail(s, t.push(m), m + 1);
        assert(r.subrange(m as int, r.len() as int) =~= s.subrange(m + 1, s.len() as int));
    } else {
        lemma_kept_after_remove(s, t, m, i + 1);
        assert(r[i] == s[i]);
    }
}

/// Removing strictly ascending indices from the last one down keeps
/// exactly the items whose positions they do not hold.
proof fn lemma_remove_from_last_keeps<T>(s: Seq<T>, t: Seq<usize>)
    requires
        strictly_ascending(t),
    ensures
        remove_from_last(s, t) == unselected(s, t),
    decreases t.len(),
{
    if t.len() == 0 {
        assert forall|j: int| 0 <= j < s.len() implies !selects(t, j) by {}
        lemma_kept_from_tail(s, t, 0);
        assert(s.subrange(0, s.len() as int) =~= s);
    } else {
        let m = t.last();
        let t1 = t.drop_last();
        assert(t =~= t1.push(m));
        assert forall|k: int| 0 <= k < t1.len() implies t1[k] < m by {
            assert(t[k] < t[t.len() - 1]);
        }
        if m < s.len() {
            lemma_remove_from_last_keeps(s.remove(m as int), t1);
            lemma_kept_after_remove(s, t1, m, 0);
        } else {
            lemma_remove_from_last_keeps(s, t1);
            assert forall|j: int| 0 <= j < s.len() implies (selects(t1, j) <==> selects(t, j)) by {
                lemma_selects_push(t1, m, j);
            }
            lemma_kept_from_congruent(s, t1, t, 0);
        }
    }
}

/// The sorted selection holds the same indices, and none twice if the
/// selection holds none twice.
proof fn lemma_sorted_selection(sel: Seq<usize>)
    requires
        sel.no_duplicates(),
    ensures
        strictly_ascending(sorted_indices(sel)),
        forall|i: int| #[trigger] selects(sorted_indices(sel), i) <==> selects(sel, i),
{
    let t = sorted_indices(sel);
    lemma_sorted_indices(sel);
    assert forall|x: usize| #[trigger] t.contains(x) <==> sel.contains(x) by {
        vstd::seq_lib::to_multiset_contains(t, x);
        vstd::seq_lib::to_multiset_contains(sel, x);
    }
    assert forall|i: int| #[trigger] selects(t, i) <==> selects(sel, i) by {
        if selects(t, i) {
            let k = choose|k: int| 0 <= k < t.len() && t[k] == i;
            assert(t.contains(t[k]));
            assert(sel.contains(t[k]));
        }
        if selects(sel, i) {
            let k = choose|k: int| 0 <= k < sel.len() && sel[k] == i;
            assert(sel.contains(sel[k]));
            assert(t.contains(sel[k]));
        }
    }
    sel.lemma_multiset_has_no_duplicates();
    assert forall|x: usize| t.to_multiset().count(x) <= 1 by {}
    t.lemma_multiset_has_no_duplicates_conv();
    assert forall|i: int, j: int| 0 <= i < j < t.len() implies t[i] < t[j] by {
        assert(t[i] <= t[j]);
    }
}

/// Deleting a selection that holds no index twice keeps exactly the items
/// at the positions it does not hold, in their order.
pub proof fn law_delete_keeps_unselected<T>(s: Seq<T>, sel: Seq<usize>)
    requires
        sel.no_duplicates(),
    ensures
        delete_selected_spec(s, sel) == unselected(s, sel),
{
    let t = sorted_indices(sel);
    lemma_sorted_selection(sel);
    lemma_remove_from_last_keeps(s, t);
    lemma_kept_from_congruent(s, t, sel, 0);
}

/// Deletes the selected items (see `delete_selected_spec`) and empties the
/// selection.  Returns the indices removed, in the order of removal.
pub fn delete_selected<T>(items: &mut Vec<T>, sel: &mut Vec<usize>) -> (removed: Vec<usize>)
    ensures
        final(items)@ == delete_selected_spec(old(items)@, old(sel)@),
        removed@ == removed_from_last(old(items)@.len(), sorted_indices(old(sel)@)),
        final(sel)@.len() == 0,
{
    sort_indices(sel);
    let ghost t = sel@;
    let ghost orig = items@;
    let mut removed: Vec<usize> = Vec::new();
    let mut k = sel.len();
    assert(t.take(k as int) =~= t);
    while k > 0
        invariant
            sel@ == t,
            k <= t.len(),
            remove_from_last(items@, t.take(k as int)) == remove_from_last(orig, t),
            removed@ + removed_from_last(items@.len(), t.take(k as int)) == removed_from_last(
                orig.len(),
                t,
            ),
        decreases k,
    {
        let i = sel[k - 1];
        let ghost before = items@;
        let ghost done = removed@;
        proof {
            assert(t.take(k as int).drop_last() =~= t.take(k - 1));
            assert(t.take(k as int).last() == i);
        }
        if i < items.len() {
            items.remove(i);
            removed.push(i);
            proof {
                let rest = removed_from_last(items@.len(), t.take(k - 1));
                assert(done.push(i) + rest =~= done + (seq![i] + rest));
            }
        }
        k = k - 1;
    }
    sel.clear();
    removed
}

/// Deleting points at `ids`, from the last index to the first: each point
/// still in range at its turn is removed together with its style (where
/// the style column reaches it), and the command that puts it back is
/// recorded.  Gives the drawing after and the commands in recording order.
pub open spec fn delete_points_from_last<P, D, V>(ctx: ContextView<P, D>, ids: Seq<usize>) -> (
    ContextView<P, D>,
    Seq<Command<P, D, V>>,
)
    decreases ids.len(),
{
    if ids.len() == 0 {
        (ctx, Seq::empty())
    } else {
        let i = ids.last();
        if i < ctx.points.len() {
            let next = ContextView {
                points: ctx.points.remove(i as int),
                point_styles: if i < ctx.point_styles.len() {
                    ctx.point_styles.remove(i as int)
                } else {
                    ctx.point_styles
                },
                ..ctx
            };
            let (c, cmds) = delete_points_from_last::<P, D, V>(next, ids.drop_last());
            (c, seq![Command::AddPoint { index: i, point: ctx.points[i as int] }] + cmds)
        } else {
            delete_points_from_last(ctx, ids.drop_last())
        }
    }
}

/// Deleting the selected points: the selection is sorted and the points
/// removed from the highest index down (see `delete_points_from_last`).
pub open spec fn delete_points_spec<P, D, V>(ctx: ContextView<P, D>, sel: Seq<usize>) -> (
    ContextView<P, D>,
    Seq<Command<P, D, V>>,
) {
    delete_points_from_last(ctx, sorted_indices(sel))
}

proof fn lemma_delete_points_points<P, D, V>(ctx: ContextView<P, D>, ids: Seq<usize>)
    ensures
        delete_points_from_last::<P, D, V>(ctx, ids).0.points == remove_from_last(ctx.points, ids),
        delete_points_from_last::<P, D, V>(ctx, ids).1.len() == removed_from_last(
            ctx.points.len(),
            ids,
        ).len(),
    decreases ids.len(),
{
    if ids.len() > 0 {
        let i = ids.last();
        if i < ctx.points.len() {
            let next = ContextView {
                points: ctx.points.remove(i as int),
                point_styles: if i < ctx.point_styles.len() {
                    ctx.point_styles.remove(i as int)
                } else {
                    ctx.point_styles
                },
                ..ctx
            };
            lemma_delete_points_points::<P, D, V>(next, ids.drop_last());
        } else {
            lemma_delete_points_points::<P, D, V>(ctx, ids.drop_last());
        }
    }
}

/// Deletes the selected points of the drawing (see `delete_points_spec`),
/// records for each the command that puts it back, and empties the
/// selection.  Returns the indices removed, in the order of removal, which
/// the 3D view removes likewise.
pub fn delete_selected_points<P: Copy, D: Copy, V: Copy>(
    stack: &mut CommandStack<P, D, V>,
    ctx: &mut Context<P, D>,
    sel: &mut Vec<usize>,
) -> (removed: Vec<usize>)
    ensures
        ({
            let (c, cmds) = delete_points_spec::<P, D, V>(old(ctx)@, old(sel)@);
            &&& final(ctx)@ == c
            &&& final(stack)@.undo == old(stack)@.undo + cmds
            &&& final(stack)@.redo == (if cmds.len() > 0 {
                Seq::empty()
            } else {
                old(stack)@.redo
            })
        }),
        final(ctx)@.points == delete_selected_spec(old(ctx)@.points, old(sel)@),
        removed@ == removed_from_last(old(ctx)@.points.len(), sorted_indices(old(sel)@)),
        final(sel)@.len() == 0,
{
    sort_indices(sel);
    let ghost t = sel@;
    let ghost orig = ctx@;
    let ghost orig_stack = stack@;
    let ghost total = delete_points_from_last::<P, D, V>(orig, t);
    let mut removed: Vec<usize> = Vec::new();
    let mut k = sel.len();
    proof {
        assert(t.take(k as int) =~= t);
        lemma_delete_points_points::<P, D, V>(orig, t);
    }
    while k > 0
        invariant
            sel@ == t,
            k <= t.len(),
            total == delete_points_from_last::<P, D, V>(orig, t),
            delete_points_from_last::<P, D, V>(ctx@, t.take(k as int)).0 == total.0,
            stack@.undo + delete_points_from_last::<P, D, V>(ctx@, t.take(k as int)).1
                == orig_stack.undo + total.1,
            stack@.undo.len() > orig_stack.undo.len() ==> stack@.redo.len() == 0,
            stack@.undo.len() == orig_stack.undo.len() ==> stack@.redo == orig_stack.redo,
            stack@.undo.len() >= orig_stack.undo.len(),
            removed@ + removed_from_last(ctx@.points.len(), t.take(k as int)) == removed_from_last(
                orig.points.len(),
                t,
            ),
        decreases k,
    {
        let i = sel[k - 1];
        let ghost before = ctx@;
        let ghost done = removed@;
        let ghost undo_before = stack@.undo;
        proof {
            assert(t.take(k as int).drop_last() =~= t.take(k - 1));
            assert(t.take(k as int).last() == i);
        }
        if i < ctx.points.len() {
            let pt = ctx.points.remove(i);
            if i < ctx.point_styles.len() {
                ctx.point_styles.remove(i);
            }
            stack.push(Command::AddPoint { index: i, point: pt });
            removed.push(i);
            proof {
                let rest = removed_from_last(ctx@.points.len(), t.take(k - 1));
                assert(done.push(i) + rest =~= done + (seq![i] + rest));
                let cmd = Command::<P, D, V>::AddPoint { index: i, point: pt };
                let later = delete_points_from_last::<P, D, V>(ctx@, t.take(k - 1)).1;
                assert(undo_before.push(cmd) + later =~= undo_before + (seq![cmd] + later));
            }
        }
        k = k - 1;
    }
    sel.clear();
    proof {
        lemma_delete_points_points::<P, D, V>(orig, t);
        assert(stack@.undo =~= orig_stack.undo + total.1);
    }
    removed
}

proof fn lemma_undo_deleted_points<P, D, V>(
    prefix: Seq<Command<P, D, V>>,
    redo: Seq<Command<P, D, V>>,
    ctx: ContextView<P, D>,
    t: Seq<usize>,
)
    requires
        strictly_ascending(t),
        ctx.points.len() == ctx.point_styles.len(),
        forall|k: int|
            0 <= k < t.len() && t[k] < ctx.points.len() ==> ctx.point_styles[t[k] as int] == 0,
    ensures
        ({
            let (c, cmds) = delete_points_from_last::<P, D, V>(ctx, t);
            let s1 = StackView { undo: prefix + cmds, redo };
            &&& undos_applicable(s1, c, cmds.len())
            &&& undo_times(s1, c, cmds.len()).1 == ctx
            &&& undo_times(s1, c, cmds.len()).0.undo == prefix
        }),
    decreases t.len(),
{
    let (c, cmds) = delete_points_from_last::<P, D, V>(ctx, t);
    let s1 = StackView { undo: prefix + cmds, redo };
    if t.len() == 0 {
        assert(prefix + cmds =~= prefix);
    } else {
        let m = t.last();
        let t1 = t.drop_last();
        assert forall|k: int| 0 <= k < t1.len() implies t1[k] < m by {
            assert(t[k] < t[t.len() - 1]);
        }
        if m < ctx.points.len() {
            let next = ContextView {
                points: ctx.points.remove(m as int),
                point_styles: ctx.point_styles.remove(m as int),
                ..ctx
            };
            let a = Command::<P, D, V>::AddPoint { index: m, point: ctx.points[m as int] };
            let (c1, cmds1) = delete_points_from_last::<P, D, V>(next, t1);
            assert(c == c1 && cmds == seq![a] + cmds1);
            assert forall|k: int|
                0 <= k < t1.len() && t1[k] < next.points.len() implies next.point_styles[t1[k] as int]
                == 0 by {
                assert(t1[k] == t[k]);
            }
            lemma_undo_deleted_points::<P, D, V>(prefix.push(a), redo, next, t1);
            assert(prefix.push(a) + cmds1 =~= prefix + cmds);
            let n1 = cmds1.len();
            lemma_undo_times_last(s1, c, n1);
            let (s2, c2) = undo_times(s1, c, n1);
            assert(s2.undo == prefix.push(a));
            assert(c2 == next);
            assert(applicable(a, next));
            assert(apply_spec(a, next).points =~= ctx.points);
            assert(apply_spec(a, next).point_styles =~= ctx.point_styles);
            assert(s2.undo.drop_last() =~= prefix);
            assert(n1 + 1 == cmds.len());
        } else {
            lemma_undo_deleted_points::<P, D, V>(prefix, redo, ctx, t1);
        }
    }
}

/// Undoing, one by one, each removal that deleting a selection of points
/// recorded brings the drawing back, and each of these undos can be
/// carried out.  This holds for a selection that holds no index twice,
/// with point and style columns of the same length, where each selected
/// point has the default style 0 (an undo puts a point back with style 0).
pub proof fn law_undo_restores_deleted_points<P, D, V>(
    s: StackView<P, D, V>,
    ctx: ContextView<P, D>,
    sel: Seq<usize>,
)
    requires
        sel.no_duplicates(),
        ctx.points.len() == ctx.point_styles.len(),
        forall|k: int|
            0 <= k < sel.len() && sel[k] < ctx.points.len() ==> ctx.point_styles[sel[k] as int]
                == 0,
    ensures
        ({
            let (c, cmds) = delete_points_spec::<P, D, V>(ctx, sel);
            let s1 = StackView {
                undo: s.undo + cmds,
                redo: if cmds.len() > 0 {
                    Seq::empty()
                } else {
                    s.redo
                },
            };
            &&& undos_applicable(s1, c, cmds.len())
            &&& undo_times(s1, c, cmds.len()).1 == ctx
            &&& undo_times(s1, c, cmds.len()).0.undo == s.undo
        }),
{
    let t = sorted_indices(sel);
    lemma_sorted_selection(sel);
    assert forall|k: int|
        0 <= k < t.len() && t[k] < ctx.points.len() implies ctx.point_styles[t[k] as int] == 0 by {
        assert(selects(t, t[k] as int));
        assert(selects(sel, t[k] as int));
        let j = choose|j: int| 0 <= j < sel.len() && sel[j] == t[k] as int;
    }
    let (c, cmds) = delete_points_spec::<P, D, V>(ctx, sel);
    let redo = if cmds.len() > 0 {
        Seq::empty()
    } else {
        s.redo
    };
    lemma_undo_deleted_points::<P, D, V>(s.undo, redo, ctx, t);
}

} // verus!
