//! Properties that hold across operations of the table state.
use crate::renderer::RenderingAction;
use crate::sort::{cell_lt, row_before, sorted_by_col};
use crate::state::TableState;
use crate::text::{decimal_digits, decimal_value, lemma_decimal_digits};
use vstd::seq_lib::group_to_multiset_ensures;
use vstd::prelude::*;

verus! {

proof fn lemma_first_fit_same_layout(s: TableState, t: TableState, from: int, last: int)
    requires
        s.columns == t.columns,
        s.terminal_size == t.terminal_size,
    ensures
        s.first_fit(from, last) == t.first_fit(from, last),
    decreases last - from,
{
    if from < last && !s.fits(from, last) {
        lemma_first_fit_same_layout(s, t, from + 1, last);
    }
}

/// Jumping to the first row twice leaves the table as jumping once does;
/// the same holds for the last row, the start of the line and the end of
/// the line.
pub proof fn law_jumps_idempotent(s: TableState)
    requires
        s.wf(),
    ensures
        s.after_home().after_home() == s.after_home(),
        s.after_end().after_end() == s.after_end(),
        s.step_start_of_line().0.step_start_of_line().0 == s.step_start_of_line().0,
        s.after_end_of_line().after_end_of_line() == s.after_end_of_line(),
{
    lemma_first_fit_same_layout(s.after_end_of_line(), s, 0, s.n_cols() - 1);
}

/// On a grid whose rows exactly fill one window, moving down from the last
/// row does nothing; on a grid without data rows, no vertical move changes
/// the state, and the stepwise moves report that nothing changed.
pub proof fn law_vertical_boundaries(s: TableState)
    requires
        s.wf(),
    ensures
        s.n_rows() == s.disp() && s.cur_pos.row == s.n_rows() ==> s.step_down() == (
        s,
        RenderingAction::Nothing,
        ),
        s.n_rows() == 0 ==> {
            &&& s.step_down() == (s, RenderingAction::Nothing)
            &&& s.step_up() == (s, RenderingAction::Nothing)
            &&& s.step_page_down() == (s, RenderingAction::Nothing)
            &&& s.step_page_up() == (s, RenderingAction::Nothing)
            &&& s.after_home() == s
            &&& s.after_end() == s
        },
{
}

proof fn lemma_first_hit_found(s: TableState, p: Seq<char>, k: int, target: int)
    requires
        s.wf(),
        0 <= k <= target < s.n_rows(),
        s.row_matches(s.scan_row(target), p),
    ensures
        s.first_hit(p, k) is Some,
        k <= s.first_hit(p, k)->Some_0 < s.n_rows(),
        s.row_matches(s.scan_row(s.first_hit(p, k)->Some_0), p),
    decreases target - k,
{
    if !s.row_matches(s.scan_row(k), p) {
        lemma_first_hit_found(s, p, k + 1, target);
    }
}

proof fn lemma_first_hit_none(s: TableState, p: Seq<char>, k: int)
    requires
        s.wf(),
        0 <= k,
        forall|r: int| 0 <= r < s.n_rows() ==> !#[trigger] s.row_matches(r, p),
    ensures
        s.first_hit(p, k) is None,
    decreases s.n_rows() - k,
{
    if k < s.n_rows() {
        lemma_first_hit_none(s, p, k + 1);
    }
}

/// A search reaches a matching row wherever it lies, also before the
/// cursor (the scan wraps around past the last row), and leaves the cursor
/// on a row whose cell in the current column holds the pattern.
pub proof fn law_search_wraps(s: TableState, pattern: Seq<char>, row: int)
    requires
        s.wf(),
        0 <= row < s.n_rows(),
        s.row_matches(row, pattern),
    ensures
        s.after_search(pattern).cur_pos.row >= 1,
        s.row_matches(
            s.after_search(pattern).offsets.row + s.after_search(pattern).cur_pos.row - 1,
            pattern,
        ),
{
    let k = if row >= s.search_start() {
        row - s.search_start()
    } else {
        row + s.n_rows() - s.search_start()
    };
    assert(s.scan_row(k) == row);
    lemma_first_hit_found(s, pattern, 0, k);
    let found = s.scan_row(s.first_hit(pattern, 0)->Some_0);
    assert(0 <= found < s.n_rows());
    let t = s.after_jump(found);
    assert(t.cur_pos.row >= 1 && t.offsets.row + t.cur_pos.row - 1 == found);
}

/// A search for a pattern that no row holds in the current column leaves
/// the state unchanged.
pub proof fn law_search_absent(s: TableState, pattern: Seq<char>)
    requires
        s.wf(),
        forall|r: int| 0 <= r < s.n_rows() ==> !#[trigger] s.row_matches(r, pattern),
    ensures
        s.after_search(pattern) == s,
{
    lemma_first_hit_none(s, pattern, 0);
}

/// Row number of a row, as the sort by column 0 reads it.
spec fn number_of(r: Vec<String>) -> int {
    decimal_value(r@[0]@) as int
}

proof fn lemma_strictly_increasing_fills(v: Seq<int>, n: int)
    requires
        v.len() == n,
        forall|j: int| 0 <= j < n ==> 1 <= #[trigger] v[j] <= n,
        forall|a: int, b: int| 0 <= a < b < n ==> #[trigger] v[a] < #[trigger] v[b],
    ensures
        forall|j: int| 0 <= j < n ==> #[trigger] v[j] == j + 1,
{
    assert forall|j: int| 0 <= j < n implies #[trigger] v[j] == j + 1 by {
        lemma_increasing_lower(v, n, j);
        lemma_increasing_upper(v, n, j);
    }
}

proof fn lemma_increasing_lower(v: Seq<int>, n: int, j: int)
    requires
        v.len() == n,
        0 <= j < n,
        forall|k: int| 0 <= k < n ==> 1 <= #[trigger] v[k] <= n,
        forall|a: int, b: int| 0 <= a < b < n ==> #[trigger] v[a] < #[trigger] v[b],
    ensures
        v[j] >= j + 1,
    decreases j,
{
    if j > 0 {
        lemma_increasing_lower(v, n, j - 1);
        assert(v[j - 1] < v[j]);
    }
}

proof fn lemma_increasing_upper(v: Seq<int>, n: int, j: int)
    requires
        v.len() == n,
        0 <= j < n,
        forall|k: int| 0 <= k < n ==> 1 <= #[trigger] v[k] <= n,
        forall|a: int, b: int| 0 <= a < b < n ==> #[trigger] v[a] < #[trigger] v[b],
    ensures
        v[j] <= j + 1,
    decreases n - j,
{
    if j < n - 1 {
        lemma_increasing_upper(v, n, j + 1);
        assert(v[j] < v[j + 1]);
    }
}

proof fn lemma_count_two(s: Seq<Vec<String>>, a: int, b: int)
    requires
        0 <= a < b < s.len(),
        s[a] == s[b],
    ensures
        s.to_multiset().count(s[a]) >= 2,
{
    broadcast use group_to_multiset_ensures, vstd::multiset::group_multiset_axioms;

    let t = s.remove(b);
    assert(t[a] == s[a]);
    assert(t.contains(s[a]));
    assert(t.to_multiset().count(s[a]) > 0);
    assert(t.to_multiset() == s.to_multiset().remove(s[b]));
}

/// Rows numbered 1, 2, ... in their order come back to that order when
/// sorted ascending by the row-number column, whatever rearrangement (any
/// earlier sort) they went through before.
pub proof fn law_row_number_sort_restores(orig: Seq<Vec<String>>, restored: Seq<Vec<String>>)
    requires
        forall|i: int|
            0 <= i < orig.len() ==> (#[trigger] orig[i])@.len() >= 1 && orig[i]@[0]@
                == decimal_digits((i + 1) as nat),
        restored.to_multiset() == orig.to_multiset(),
        sorted_by_col(restored, 0, false),
    ensures
        restored == orig,
{
    broadcast use group_to_multiset_ensures;

    let n = orig.len() as int;
    assert forall|i: int| 0 <= i < n implies number_of(#[trigger] orig[i]) == i + 1 by {
        lemma_decimal_digits((i + 1) as nat);
    }
    assert(orig.no_duplicates()) by {
        assert forall|i: int, j: int| 0 <= i < n && 0 <= j < n && i != j implies orig[i]
            != orig[j] by {
            assert(number_of(orig[i]) == i + 1);
            assert(number_of(orig[j]) == j + 1);
        }
    }
    orig.lemma_multiset_has_no_duplicates();
    vstd::seq_lib::to_multiset_len(restored);
    vstd::seq_lib::to_multiset_len(orig);
    assert(restored.len() == n);
    // Each restored row is some original row.
    assert forall|j: int| 0 <= j < n implies exists|i: int|
        0 <= i < n && #[trigger] restored[j] == orig[i] by {
        assert(restored.to_multiset().count(restored[j]) > 0);
        assert(orig.contains(restored[j]));
    }
    let v = Seq::new(n as nat, |j: int| number_of(restored[j]));
    assert forall|j: int| 0 <= j < n implies 1 <= #[trigger] v[j] <= n by {
        let i = choose|i: int| 0 <= i < n && restored[j] == orig[i];
        assert(number_of(orig[i]) == i + 1);
    }
    assert forall|a: int, b: int| 0 <= a < b < n implies #[trigger] v[a] < #[trigger] v[b] by {
        assert(!row_before(0, false, restored[b], restored[a]));
        assert(!cell_lt(0, restored[b], restored[a]));
        if v[a] == v[b] {
            let i = choose|i: int| 0 <= i < n && restored[a] == orig[i];
            let k = choose|k: int| 0 <= k < n && restored[b] == orig[k];
            assert(number_of(orig[i]) == i + 1);
            assert(number_of(orig[k]) == k + 1);
            assert(i == k);
            lemma_count_two(restored, a, b);
            assert(orig.to_multiset().contains(orig[i]));
        }
    }
    lemma_strictly_increasing_fills(v, n);
    assert forall|j: int| 0 <= j < n implies restored[j] == orig[j] by {
        let i = choose|i: int| 0 <= i < n && restored[j] == orig[i];
        assert(number_of(orig[i]) == i + 1);
        assert(v[j] == j + 1);
    }
    assert(restored =~= orig);
}

} // verus!
