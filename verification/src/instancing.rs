use vstd::prelude::*;

use vstd::arithmetic::div_mod::lemma_fundamental_div_mod_converse;

verus! {

/// Number of values that `range_step(start, stop, step)` yields: the values
/// `start + k * step` that lie strictly before `stop` in the direction of
/// `step`.
pub open spec fn range_step_len(start: int, stop: int, step: int) -> int {
    if step > 0 && start < stop {
        (stop - start + step - 1) / step
    } else if step < 0 && start > stop {
        (start - stop - step - 1) / (-step)
    } else {
        0
    }
}

proof fn lemma_ceil_div(d: int, s: int, k: int)
    requires
        s > 0,
        k >= 1,
        (k - 1) * s < d <= k * s,
    ensures
        (d + s - 1) / s == k,
{
    assert((k - 1) * s == k * s - s) by (nonlinear_arith);
    lemma_fundamental_div_mod_converse(d + s - 1, s, k, d + s - 1 - k * s);
}

/// The values `start, start + step, start + 2 * step, ...` that come before
/// `stop` (below it for a positive step, above it for a negative one).
/// The iteration stops early when the next value would overflow, which can
/// only happen once the values have passed `stop`. A zero step never
/// reaches `stop`, so it is only allowed when the range is empty.
pub fn range_step(start: i32, stop: i32, step: i32) -> (values: Vec<i32>)
    requires
        step != 0 || start >= stop,
    ensures
        values@.len() == range_step_len(start as int, stop as int, step as int),
        forall|k: int| 0 <= k < values@.len() ==> values@[k] == start + k * step,
{
    let rev = step < 0;
    let mut values: Vec<i32> = Vec::new();
    let mut state = start;
    let ghost n = range_step_len(start as int, stop as int, step as int);
    let ghost mut finished = false;
    assert(start + values@.len() * step == start) by (nonlinear_arith)
        requires
            values@.len() == 0,
    ;
    while (rev && state > stop) || (!rev && state < stop)
        invariant
            rev == (step < 0),
            step != 0 || start >= stop,
            n == range_step_len(start as int, stop as int, step as int),
            forall|j: int| 0 <= j < values@.len() ==> values@[j] == start + j * step,
            forall|j: int|
                0 <= j < values@.len() ==> (if rev {
                    values@[j] > stop
                } else {
                    values@[j] < stop
                }),
            finished ==> state == stop && values@.len() == n,
            !finished ==> state == start + values@.len() * step,
            step == 0 ==> state == start,
        decreases (if rev && state > stop {
            state - stop
        } else if !rev && state < stop {
            stop - state
        } else {
            0
        }),
    {
        let ghost k = values@.len() as int;
        values.push(state);
        assert(values@[k] == start + k * step);
        assert(start + (k + 1) * step == state + step) by (nonlinear_arith)
            requires
                state == start + k * step,
        ;
        match state.checked_add(step) {
            Some(x) => {
                assert(!rev ==> step > 0);
                assert(x == state + step);
                state = x;
            },
            None => {
                proof {
                    finished = true;
                    if rev {
                        assert(state + step < stop);
                        assert((k + 1) * (-step) == -((k + 1) * step)) by (nonlinear_arith);
                        assert(k * (-step) == -(k * step)) by (nonlinear_arith);
                        lemma_ceil_div(start - stop, -step, k + 1);
                    } else {
                        assert(state + step > stop);
                        lemma_ceil_div(stop - start, step as int, k + 1);
                    }
                }
                state = stop;
            },
        }
    }
    proof {
        if !finished {
            let k = values@.len() as int;
            if k == 0 {
                if step > 0 {
                } else if step < 0 {
                }
            } else if rev {
                assert(values@[k - 1] > stop);
                assert((k - 1) * (-step) == -((k - 1) * step)) by (nonlinear_arith);
                assert(k * (-step) == -(k * step)) by (nonlinear_arith);
                lemma_ceil_div(start - stop, -step, k);
            } else {
                assert(values@[k - 1] < stop);
                if step == 0 {
                    assert(false);
                }
                lemma_ceil_div(stop - start, step as int, k);
            }
        }
    }
    values
}

/// The cells of a square grid, row by row: for each `y` of
/// `range_step(start, stop, step)` and, within that row, each `x` of the
/// same range, the pair `(x, y)`. The instancing example places one quad at
/// each cell.
pub fn instance_grid(start: i32, stop: i32, step: i32) -> (cells: Vec<(i32, i32)>)
    requires
        step != 0 || start >= stop,
    ensures
        ({
            let n = range_step_len(start as int, stop as int, step as int);
            &&& cells@.len() == n * n
            &&& forall|k: int|
                0 <= k < n * n ==> cells@[k].0 == start + (k % n) * step
                    && cells@[k].1 == start + (k / n) * step
        }),
{
    let ghost n = range_step_len(start as int, stop as int, step as int);
    let mut cells: Vec<(i32, i32)> = Vec::new();
    let ys = range_step(start, stop, step);
    let mut row: usize = 0;
    while row < ys.len()
        invariant
            step != 0 || start >= stop,
            n == range_step_len(start as int, stop as int, step as int),
            ys@.len() == n,
            forall|k: int| 0 <= k < ys@.len() ==> ys@[k] == start + k * step,
            row <= n,
            cells@.len() == row * n,
            forall|k: int|
                0 <= k < row * n ==> cells@[k].0 == start + (k % n) * step
                    && cells@[k].1 == start + (k / n) * step,
        decreases ys@.len() - row,
    {
        let y = ys[row];
        let xs = range_step(start, stop, step);
        let mut col: usize = 0;
        while col < xs.len()
            invariant
                ys@.len() == n,
                xs@.len() == n,
                forall|k: int| 0 <= k < xs@.len() ==> xs@[k] == start + k * step,
                row < n,
                y == start + row * step,
                col <= n,
                cells@.len() == row * n + col,
                forall|k: int|
                    0 <= k < row * n + col ==> cells@[k].0 == start + (k % n) * step
                        && cells@[k].1 == start + (k / n) * step,
            decreases xs@.len() - col,
        {
            let ghost k = row * n + col;
            proof {
                lemma_fundamental_div_mod_converse(k, n, row as int, col as int);
            }
            cells.push((xs[col], y));
            col = col + 1;
            assert(cells@.len() == row * n + col);
        }
        row = row + 1;
        assert(row * n == (row - 1) * n + n) by (nonlinear_arith);
    }
    cells
}

/// What `range_step` yields: every value lies strictly before `stop` in the
/// direction of `step`, and the value after the last one would reach or
/// pass `stop`, so no value that lies before `stop` is left out; the values
/// advance by exactly `step`.
pub proof fn lemma_range_step_bounds(start: int, stop: int, step: int, values: Seq<i32>)
    requires
        step != 0 || start >= stop,
        values.len() == range_step_len(start, stop, step),
        forall|k: int| 0 <= k < values.len() ==> values[k] == start + k * step,
    ensures
        forall|k: int| 0 <= k < values.len() ==> if step > 0 {
            #[trigger] values[k] < stop
        } else {
            values[k] > stop
        },
        step > 0 ==> start + values.len() * step >= stop,
        step < 0 ==> start + values.len() * step <= stop,
        forall|k: int| 0 <= k < values.len() - 1 ==> #[trigger] values[k + 1] == values[k] + step,
        values.len() > 0 ==> values[0] == start,
{
    let n = values.len() as int;
    if step > 0 && start < stop {
        let d = stop - start;
        assert(n * step >= d && (n - 1) * step < d) by (nonlinear_arith)
            requires
                step > 0,
                d > 0,
                n == (d + step - 1) / step,
        ;
        assert forall|k: int| 0 <= k < values.len() implies #[trigger] values[k] < stop by {
            assert(k * step <= (n - 1) * step) by (nonlinear_arith)
                requires
                    k <= n - 1,
                    step > 0,
            ;
        }
    } else if step < 0 && start > stop {
        let d = start - stop;
        let s = -step;
        assert(n * s >= d && (n - 1) * s < d) by (nonlinear_arith)
            requires
                s > 0,
                d > 0,
                n == (d + s - 1) / s,
        ;
        assert(n * step == -(n * s)) by (nonlinear_arith)
            requires
                s == -step,
        ;
        assert forall|k: int| 0 <= k < values.len() implies #[trigger] values[k] > stop by {
            assert(k * s <= (n - 1) * s) by (nonlinear_arith)
                requires
                    k <= n - 1,
                    s > 0,
            ;
            assert(k * step == -(k * s)) by (nonlinear_arith)
                requires
                    s == -step,
            ;
        }
    }
    assert forall|k: int| 0 <= k < values.len() - 1 implies #[trigger] values[k + 1] == values[k]
        + step by {
        assert((k + 1) * step == k * step + step) by (nonlinear_arith);
    }
}

} // verus!
