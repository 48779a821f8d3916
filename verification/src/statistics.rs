//! Summary statistics of a cumulative equity curve: wins, losses, profit
//! factor and averages, all in the fixed-point scale.

use vstd::prelude::*;
use crate::fx::{FX_MAX_ABS, FX_SCALE};

verus! {

/// The step the equity curve takes at row `i` (the first row steps from 0).
pub open spec fn step_of(s: Seq<i128>, i: int) -> int {
    (s[i] as int) - (if i == 0 {
        0int
    } else {
        s[i - 1] as int
    })
}

/// Sum of the positive steps among the first `n` rows.
pub open spec fn win_sum(s: Seq<i128>, n: int) -> int
    decreases n,
{
    if n <= 0 {
        0
    } else {
        win_sum(s, n - 1) + (if step_of(s, n - 1) > 0 {
            step_of(s, n - 1)
        } else {
            0
        })
    }
}

/// Sum of the magnitudes of the non-positive steps among the first `n`.
pub open spec fn loss_sum(s: Seq<i128>, n: int) -> int
    decreases n,
{
    if n <= 0 {
        0
    } else {
        loss_sum(s, n - 1) + (if step_of(s, n - 1) > 0 {
            0int
        } else {
            -step_of(s, n - 1)
        })
    }
}

/// How many of the first `n` steps are strictly positive.
pub open spec fn win_count(s: Seq<i128>, n: int) -> int
    decreases n,
{
    if n <= 0 {
        0
    } else {
        win_count(s, n - 1) + (if step_of(s, n - 1) > 0 {
            1int
        } else {
            0
        })
    }
}

/// The profit factor reported when there are no losses at all.
pub const NO_LOSS_PROFIT_FACTOR: i64 = 1_000_000;

/// Performance summary of one equity curve.
pub struct Statistics {
    pub result: i128,
    pub win: i128,
    pub loss: i128,
    pub profit_factor: i128,
    pub count: usize,
    pub percent_profitable: i128,
    pub avg_win: i128,
    pub avg_loss: i128,
}

impl Statistics {
    /// Summarize an equity curve whose per-row steps are bounded returns.
    pub fn new(equity: &Vec<i128>) -> (r: Statistics)
        requires
            forall|i: int|
                0 <= i < equity@.len() ==> -(FX_MAX_ABS as int) <= #[trigger] step_of(equity@, i)
                    <= FX_MAX_ABS as int,
        ensures
            r.count == equity@.len(),
            r.win as int == win_sum(equity@, equity@.len() as int),
            r.loss as int == loss_sum(equity@, equity@.len() as int),
            r.result == r.win - r.loss,
            r.profit_factor as int == (if r.loss == 0 {
                (NO_LOSS_PROFIT_FACTOR as int) * (FX_SCALE as int)
            } else {
                (r.win as int) * (FX_SCALE as int) / (r.loss as int)
            }),
            r.percent_profitable as int == (if equity@.len() == 0 {
                0int
            } else {
                100 * (FX_SCALE as int) * win_count(equity@, equity@.len() as int) / (
                equity@.len() as int)
            }),
            r.avg_win as int == (if win_count(equity@, equity@.len() as int) == 0 {
                0int
            } else {
                (r.win as int) * (FX_SCALE as int) / win_count(equity@, equity@.len() as int)
            }),
            r.avg_loss as int == (if win_count(equity@, equity@.len() as int)
                == equity@.len() as int {
                0int
            } else {
                (r.loss as int) * (FX_SCALE as int) / (equity@.len() - win_count(
                    equity@,
                    equity@.len() as int,
                ))
            }),
    {
        let cnt = equity.len();
        let mut prev: i128 = 0;
        let mut win: i128 = 0;
        let mut loss: i128 = 0;
        let mut win_cnt: usize = 0;
        let mut i: usize = 0;
        while i < cnt
            invariant
                i <= cnt,
                cnt == equity@.len(),
                forall|j: int|
                    0 <= j < cnt ==> -(FX_MAX_ABS as int) <= #[trigger] step_of(equity@, j)
                        <= FX_MAX_ABS as int,
                prev as int == (if i == 0 {
                    0int
                } else {
                    equity@[i - 1] as int
                }),
                win as int == win_sum(equity@, i as int),
                loss as int == loss_sum(equity@, i as int),
                win_cnt as int == win_count(equity@, i as int),
                0 <= win as int <= (i as int) * (FX_MAX_ABS as int),
                0 <= loss as int <= (i as int) * (FX_MAX_ABS as int),
                win_cnt <= i,
            decreases cnt - i,
        {
            proof {
                assert(-(FX_MAX_ABS as int) <= step_of(equity@, i as int) <= FX_MAX_ABS as int);
            }
            let temp = equity[i];
            let res = temp - prev;
            prev = temp;
            if res > 0 {
                win_cnt = win_cnt + 1;
                win = win + res;
            } else {
                loss = loss - res;
            }
            i = i + 1;
        }
        let profit_factor: i128 = if loss == 0 {
            (NO_LOSS_PROFIT_FACTOR as i128) * (FX_SCALE as i128)
        } else {
            (((win as u128) * (FX_SCALE as u128)) / (loss as u128)) as i128
        };
        let percent_profitable: i128 = if cnt == 0 {
            0
        } else {
            ((100u128 * (FX_SCALE as u128) * (win_cnt as u128)) / (cnt as u128)) as i128
        };
        let avg_win: i128 = if win_cnt == 0 {
            0
        } else {
            (((win as u128) * (FX_SCALE as u128)) / (win_cnt as u128)) as i128
        };
        let avg_loss: i128 = if win_cnt == cnt {
            0
        } else {
            (((loss as u128) * (FX_SCALE as u128)) / ((cnt - win_cnt) as u128)) as i128
        };
        Statistics {
            result: win - loss,
            win,
            loss,
            profit_factor,
            count: cnt,
            percent_profitable,
            avg_win,
            avg_loss,
        }
    }
}

} // verus!
