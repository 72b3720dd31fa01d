//! Stable sorting of data rows by one column.
use crate::text::{compare_int, compare_str, decimal_value, is_row_number, lex_lt};
use crate::text::{lemma_lex_irreflexive, lemma_lex_total, lemma_lex_transitive};
use core::cmp::Ordering;
use vstd::prelude::*;
use vstd::seq_lib::group_to_multiset_ensures;

verus! {

/// Row `a` sorts strictly before row `b` by column `col`: by the value of
/// the row number in column 0, lexicographically in any other column.
pub open spec fn cell_lt(col: int, a: Vec<String>, b: Vec<String>) -> bool {
    if col == 0 {
        decimal_value(a@[0]@) < decimal_value(b@[0]@)
    } else {
        lex_lt(a@[col]@, b@[col]@)
    }
}

/// Row `a` must come before row `b` in an ascending (or descending) sort.
pub open spec fn row_before(col: int, desc: bool, a: Vec<String>, b: Vec<String>) -> bool {
    if desc {
        cell_lt(col, b, a)
    } else {
        cell_lt(col, a, b)
    }
}

/// Neither row sorts before the other by column `col`.
pub open spec fn row_tie(col: int, a: Vec<String>, b: Vec<String>) -> bool {
    !cell_lt(col, a, b) && !cell_lt(col, b, a)
}

/// No row comes after a row that must come after it.
pub open spec fn sorted_by_col(rows: Seq<Vec<String>>, col: int, desc: bool) -> bool {
    forall|i: int, j: int|
        0 <= i < j < rows.len() ==> !#[trigger] row_before(col, desc, rows[j], rows[i])
}

/// Whether a row ties with `y` by column `col`.
pub open spec fn tie_with(col: int, y: Vec<String>) -> spec_fn(Vec<String>) -> bool {
    |r: Vec<String>| row_tie(col, r, y)
}

/// The rows that tie with `y` by column `col`, in their order in `rows`.
pub open spec fn ties(rows: Seq<Vec<String>>, col: int, y: Vec<String>) -> Seq<Vec<String>> {
    rows.filter(tie_with(col, y))
}

/// Rows that tie keep their relative order.
pub open spec fn keeps_tie_order(new: Seq<Vec<String>>, old: Seq<Vec<String>>, col: int) -> bool {
    forall|y: Vec<String>| #[trigger] ties(new, col, y) == ties(old, col, y)
}

/// A row whose cell in column `col` can be compared.
pub open spec fn sortable(col: int, r: Vec<String>) -> bool {
    &&& 0 <= col < r@.len()
    &&& col == 0 ==> is_row_number(r@[0]@)
}

pub proof fn lemma_cell_order(col: int, a: Vec<String>, b: Vec<String>, c: Vec<String>)
    ensures
        !cell_lt(col, a, a),
        cell_lt(col, a, b) && cell_lt(col, b, c) ==> cell_lt(col, a, c),
        !cell_lt(col, a, b) && !cell_lt(col, b, c) ==> !cell_lt(col, a, c),
{
    if col != 0 {
        let (x, y, z) = (a@[col]@, b@[col]@, c@[col]@);
        lemma_lex_irreflexive(x);
        if lex_lt(x, y) && lex_lt(y, z) {
            lemma_lex_transitive(x, y, z);
        }
        if !lex_lt(x, y) && !lex_lt(y, z) && lex_lt(x, z) {
            if x != y {
                lemma_lex_total(x, y);
                lemma_lex_transitive(y, x, z);
                if y != z {
                    lemma_lex_total(y, z);
                    lemma_lex_transitive(z, y, z);
                    lemma_lex_irreflexive(z);
                } else {
                    lemma_lex_irreflexive(z);
                }
            } else {
                if y != z {
                    lemma_lex_total(y, z);
                    lemma_lex_transitive(z, y, z);
                    lemma_lex_irreflexive(z);
                } else {
                    lemma_lex_irreflexive(z);
                }
            }
        }
    }
}

fn before(col: usize, desc: bool, a: &Vec<String>, b: &Vec<String>) -> (r: bool)
    requires
        sortable(col as int, *a),
        sortable(col as int, *b),
    ensures
        r == row_before(col as int, desc, *a, *b),
{
    let (first, second) = if desc { (b, a) } else { (a, b) };
    let ord = if col == 0 {
        compare_int(first[0].as_str(), second[0].as_str())
    } else {
        compare_str(first[col].as_str(), second[col].as_str())
    };
    proof {
        if col != 0 {
            lemma_lex_irreflexive(first@[col as int]@);
            if first@[col as int]@ != second@[col as int]@ {
                lemma_lex_total(first@[col as int]@, second@[col as int]@);
            }
        }
    }
    match ord {
        Ordering::Less => true,
        _ => false,
    }
}

proof fn lemma_before_order(col: int, desc: bool, p: Vec<String>, q: Vec<String>, s: Vec<String>)
    ensures
        !row_before(col, desc, p, p),
        row_before(col, desc, p, q) ==> !row_before(col, desc, q, p),
        !row_before(col, desc, p, q) && !row_before(col, desc, q, s) ==> !row_before(
            col,
            desc,
            p,
            s,
        ),
        row_before(col, desc, p, q) ==> !row_tie(col, p, q),
        row_tie(col, p, q) && row_tie(col, q, s) ==> row_tie(col, p, s),
{
    lemma_cell_order(col, p, q, p);
    lemma_cell_order(col, q, p, q);
    lemma_cell_order(col, p, q, s);
    lemma_cell_order(col, s, q, p);
}

/// All rows of `rows` can be compared by column `col`.
pub open spec fn all_sortable(rows: Seq<Vec<String>>, col: int) -> bool {
    forall|k: int| 0 <= k < rows.len() ==> sortable(col, #[trigger] rows[k])
}

/// Merges two sorted runs; on a tie the row of `a` comes first.
fn merge(a: Vec<Vec<String>>, b: Vec<Vec<String>>, col: usize, desc: bool) -> (r: Vec<Vec<String>>)
    requires
        sorted_by_col(a@, col as int, desc),
        sorted_by_col(b@, col as int, desc),
        all_sortable(a@, col as int),
        all_sortable(b@, col as int),
    ensures
        sorted_by_col(r@, col as int, desc),
        r@.to_multiset() == (a@ + b@).to_multiset(),
        keeps_tie_order(r@, a@ + b@, col as int),
        all_sortable(r@, col as int),
{
    broadcast use group_to_multiset_ensures;
    broadcast use Seq::filter_distributes_over_add, Seq::lemma_filter_push;

    let ghost ga = a@;
    let ghost gb = b@;
    let ghost c = col as int;
    let mut a = a;
    let mut b = b;
    let na = a.len();
    let nb = b.len();
    let mut out: Vec<Vec<String>> = Vec::new();
    let mut i: usize = 0;
    let mut j: usize = 0;
    assert(out@ =~= ga.take(0) + gb.take(0));
    while i < na || j < nb
        invariant
            c == col as int,
            na == ga.len(),
            nb == gb.len(),
            a@.len() == na,
            b@.len() == nb,
            i <= na,
            j <= nb,
            forall|k: int| i <= k < na ==> #[trigger] a@[k] == ga[k],
            forall|k: int| j <= k < nb ==> #[trigger] b@[k] == gb[k],
            sorted_by_col(ga, c, desc),
            sorted_by_col(gb, c, desc),
            all_sortable(ga, c),
            all_sortable(gb, c),
            all_sortable(out@, c),
            sorted_by_col(out@, c, desc),
            out@.to_multiset() == (ga.take(i as int) + gb.take(j as int)).to_multiset(),
            forall|y: Vec<String>| #[trigger] ties(out@, c, y) == ties(ga.take(i as int), c, y)
                + ties(gb.take(j as int), c, y),
            forall|k: int, q: int|
                0 <= k < out@.len() && i <= q < na ==> !#[trigger] row_before(
                    c,
                    desc,
                    ga[q],
                    #[trigger] out@[k],
                ),
            forall|k: int, q: int|
                0 <= k < out@.len() && j <= q < nb ==> !#[trigger] row_before(
                    c,
                    desc,
                    gb[q],
                    #[trigger] out@[k],
                ),
            forall|k: int| 0 <= k < j && i < na ==> #[trigger] row_before(c, desc, gb[k], ga[i as int]),
        decreases na - i + nb - j,
    {
        let take_a = j == nb || (i < na && !before(col, desc, &b[j], &a[i]));
        let mut x: Vec<String> = Vec::new();
        let ghost old_out = out@;
        if take_a {
            core::mem::swap(&mut x, &mut a[i]);
            assert(x == ga[i as int]);
            proof {
                assert forall|k: int| 0 <= k < old_out.len() implies !row_before(
                    c,
                    desc,
                    x,
                    old_out[k],
                ) by {
                    assert(!row_before(c, desc, ga[i as int], old_out[k]));
                }
                assert forall|q: int| i < q < na implies !row_before(c, desc, ga[q], x) by {
                    assert(!row_before(c, desc, ga[q], ga[i as int]));
                }
                assert forall|q: int| j <= q < nb implies !row_before(c, desc, gb[q], x) by {
                    if q > j {
                        assert(!row_before(c, desc, gb[q], gb[j as int]));
                    } else {
                        lemma_before_order(c, desc, gb[q], gb[q], x);
                    }
                    lemma_before_order(c, desc, gb[q], gb[j as int], x);
                }
                assert forall|k: int| 0 <= k < j && i + 1 < na implies #[trigger] row_before(
                    c,
                    desc,
                    gb[k],
                    ga[i + 1],
                ) by {
                    assert(row_before(c, desc, gb[k], ga[i as int]));
                    assert(!row_before(c, desc, ga[i + 1], ga[i as int]));
                    lemma_before_order(c, desc, gb[k], ga[i + 1], ga[i as int]);
                }
                assert(ga.take(i + 1) =~= ga.take(i as int).push(x));
                assert(ga.take(i + 1) + gb.take(j as int) =~= (ga.take(i as int) + gb.take(
                    j as int,
                )).insert(i as int, x));
                vstd::seq_lib::to_multiset_insert(ga.take(i as int) + gb.take(j as int), i as int, x);
                vstd::seq_lib::to_multiset_build(old_out, x);
                assert forall|y: Vec<String>| #[trigger] ties(old_out.push(x), c, y) == ties(
                    ga.take(i + 1),
                    c,
                    y,
                ) + ties(gb.take(j as int), c, y) by {
                    let f = tie_with(c, y);
                    assert(ties(old_out, c, y) == ties(ga.take(i as int), c, y) + ties(
                        gb.take(j as int),
                        c,
                        y,
                    ));
                    old_out.lemma_filter_push(x, f);
                    ga.take(i as int).lemma_filter_push(x, f);
                    if row_tie(c, x, y) {
                        let bt = gb.take(j as int);
                        assert forall|k: int| 0 <= k < bt.len() implies !f(bt[k]) by {
                            assert(row_before(c, desc, gb[k], x));
                            lemma_before_order(c, desc, gb[k], x, y);
                            lemma_before_order(c, desc, x, y, gb[k]);
                            lemma_before_order(c, desc, gb[k], y, x);
                            lemma_before_order(c, desc, y, x, gb[k]);
                        }
                        bt.lemma_all_neg_filter_empty(f);
                        assert(bt.filter(f) =~= Seq::<Vec<String>>::empty());
                        assert(ties(ga.take(i as int), c, y).push(x) + bt.filter(f) =~= (ties(
                            ga.take(i as int),
                            c,
                            y,
                        ) + bt.filter(f)).push(x));
                    }
                }
            }
            i = i + 1;
        } else {
            core::mem::swap(&mut x, &mut b[j]);
            assert(x == gb[j as int]);
            proof {
                assert forall|k: int| 0 <= k < old_out.len() implies !row_before(
                    c,
                    desc,
                    x,
                    old_out[k],
                ) by {
                    assert(!row_before(c, desc, gb[j as int], old_out[k]));
                }
                assert forall|q: int| j < q < nb implies !row_before(c, desc, gb[q], x) by {
                    assert(!row_before(c, desc, gb[q], gb[j as int]));
                }
                assert forall|q: int| i <= q < na implies !row_before(c, desc, ga[q], x) by {
                    if q > i {
                        assert(!row_before(c, desc, ga[q], ga[i as int]));
                    } else {
                        lemma_before_order(c, desc, ga[q], ga[q], x);
                    }
                    lemma_before_order(c, desc, x, ga[i as int], ga[q]);
                    lemma_before_order(c, desc, ga[q], ga[i as int], x);
                }
                assert(gb.take(j + 1) =~= gb.take(j as int).push(x));
                assert(ga.take(i as int) + gb.take(j + 1) =~= (ga.take(i as int) + gb.take(
                    j as int,
                )).push(x));
                vstd::seq_lib::to_multiset_build(ga.take(i as int) + gb.take(j as int), x);
                vstd::seq_lib::to_multiset_build(old_out, x);
                assert forall|y: Vec<String>| #[trigger] ties(old_out.push(x), c, y) == ties(
                    ga.take(i as int),
                    c,
                    y,
                ) + ties(gb.take(j + 1), c, y) by {
                    let f = tie_with(c, y);
                    assert(ties(old_out, c, y) == ties(ga.take(i as int), c, y) + ties(
                        gb.take(j as int),
                        c,
                        y,
                    ));
                    old_out.lemma_filter_push(x, f);
                    gb.take(j as int).lemma_filter_push(x, f);
                    if row_tie(c, x, y) {
                        assert(ties(ga.take(i as int), c, y) + ties(gb.take(j as int), c, y).push(x)
                            =~= (ties(ga.take(i as int), c, y) + ties(gb.take(j as int), c, y)).push(
                            x,
                        ));
                    }
                }
            }
            j = j + 1;
        }
        out.push(x);
        proof {
            assert forall|p: int, q: int| 0 <= p < q < out@.len() implies !#[trigger] row_before(
                c,
                desc,
                out@[q],
                out@[p],
            ) by {
                if q < old_out.len() {
                    assert(!row_before(c, desc, old_out[q], old_out[p]));
                }
            }
        }
    }
    assert(ga.take(na as int) =~= ga);
    assert(gb.take(nb as int) =~= gb);
    assert forall|y: Vec<String>| #[trigger] ties(out@, c, y) == ties(ga + gb, c, y) by {
        assert(ties(ga + gb, c, y) == ties(ga, c, y) + ties(gb, c, y));
    }
    out
}

fn merge_sort(v: Vec<Vec<String>>, col: usize, desc: bool) -> (r: Vec<Vec<String>>)
    requires
        all_sortable(v@, col as int),
    ensures
        sorted_by_col(r@, col as int, desc),
        r@.to_multiset() == v@.to_multiset(),
        keeps_tie_order(r@, v@, col as int),
        all_sortable(r@, col as int),
    decreases v@.len(),
{
    broadcast use Seq::filter_distributes_over_add;

    if v.len() <= 1 {
        return v;
    }
    let ghost whole = v@;
    let mut left = v;
    let mid = left.len() / 2;
    let right = left.split_off(mid);
    assert(whole =~= left@ + right@);
    let sl = merge_sort(left, col, desc);
    let sr = merge_sort(right, col, desc);
    let r = merge(sl, sr, col, desc);
    proof {
        vstd::seq_lib::lemma_multiset_commutative(sl@, sr@);
        vstd::seq_lib::lemma_multiset_commutative(left@, right@);
        assert forall|y: Vec<String>| #[trigger] ties(r@, col as int, y) == ties(
            whole,
            col as int,
            y,
        ) by {
            assert(ties(sl@ + sr@, col as int, y) == ties(sl@, col as int, y) + ties(sr@, col as int, y));
            assert(ties(left@ + right@, col as int, y) == ties(left@, col as int, y) + ties(
                right@,
                col as int,
                y,
            ));
        }
    }
    r
}

/// Sorts `rows` by column `col`, ascending or descending, keeping rows that
/// tie in their order.
pub fn sort_rows(rows: &mut Vec<Vec<String>>, col: usize, desc: bool)
    requires
        forall|k: int| 0 <= k < old(rows)@.len() ==> sortable(col as int, #[trigger] old(rows)@[k]),
    ensures
        sorted_by_col(final(rows)@, col as int, desc),
        final(rows)@.to_multiset() == old(rows)@.to_multiset(),
        keeps_tie_order(final(rows)@, old(rows)@, col as int),
        forall|k: int|
            0 <= k < final(rows)@.len() ==> old(rows)@.contains(#[trigger] final(rows)@[k]),
{
    broadcast use group_to_multiset_ensures;

    let ghost orig = rows@;
    let mut all: Vec<Vec<String>> = Vec::new();
    core::mem::swap(rows, &mut all);
    let sorted = merge_sort(all, col, desc);
    *rows = sorted;
    assert forall|k: int| 0 <= k < rows@.len() implies orig.contains(#[trigger] rows@[k]) by {
        assert(rows@.to_multiset().count(rows@[k]) > 0);
    }
}

} // verus!
