use vstd::prelude::*;
use crate::arith::{ceil_div, ceil_div_i128, lemma_ceil_div};
use crate::axis::AxisRange;

verus! {

/// The fewest ticks wanted along the smaller axis.
pub const MIN_TICKS: u32 = 5;

pub open spec fn pow10(n: nat) -> int
    decreases n,
{
    if n == 0 {
        1
    } else {
        10 * pow10((n - 1) as nat)
    }
}

/// The `i`-th "nice" step in increasing order: 1, 2, 5, 10, 20, 50, 100, ...
/// that is, the numbers `d * 10^n` with `d` one of 1, 2 and 5.
pub open spec fn nice_at(i: nat) -> int {
    let d = if i % 3 == 0 {
        1int
    } else if i % 3 == 1 {
        2int
    } else {
        5int
    };
    d * pow10(i / 3)
}

pub open spec fn is_nice(m: int) -> bool {
    exists|i: nat| nice_at(i) == m
}

/// `m` lies within `[0.5, 1.5]` times the rough step `extent / min_ticks`.
pub open spec fn in_band(m: int, extent: int, min_ticks: int) -> bool {
    extent <= 2 * (min_ticks * m) <= 3 * extent
}

/// `min_ticks` times the distance of `m` from the rough step.
pub open spec fn gap(m: int, extent: int, min_ticks: int) -> int {
    let t = min_ticks * m - extent;
    if t >= 0 {
        t
    } else {
        -t
    }
}

/// `a` is nearer the rough step than `b`, or as near and not larger.
pub open spec fn no_worse(a: int, b: int, extent: int, min_ticks: int) -> bool {
    gap(a, extent, min_ticks) < gap(b, extent, min_ticks) || (gap(a, extent, min_ticks) == gap(
        b,
        extent,
        min_ticks,
    ) && a <= b)
}

proof fn lemma_pow10_pos(n: nat)
    ensures
        pow10(n) >= 1,
    decreases n,
{
    if n > 0 {
        lemma_pow10_pos((n - 1) as nat);
    }
}

/// Each nice step is larger than the one before, by a factor of at most 2.5.
proof fn lemma_nice_next(i: nat)
    ensures
        nice_at(i) < nice_at(i + 1),
        2 * nice_at(i + 1) <= 5 * nice_at(i),
        nice_at(i) >= 1,
        i % 3 == 0 ==> nice_at(i + 1) == 2 * nice_at(i),
        i % 3 == 1 ==> nice_at(i + 1) == (nice_at(i) / 2) * 5 && nice_at(i) % 2 == 0,
        i % 3 == 2 ==> nice_at(i + 1) == 2 * nice_at(i),
{
    let q = i / 3;
    lemma_pow10_pos(q);
    if i % 3 == 2 {
        assert((i + 1) / 3 == q + 1);
        assert(pow10(q + 1) == 10 * pow10(q));
    } else {
        assert((i + 1) / 3 == q);
    }
}

proof fn lemma_nice_mono(i: nat, j: nat)
    requires
        i <= j,
    ensures
        nice_at(i) <= nice_at(j),
        i < j ==> nice_at(i) < nice_at(j),
    decreases j - i,
{
    if i < j {
        lemma_nice_mono(i, (j - 1) as nat);
        lemma_nice_next((j - 1) as nat);
    }
}

/// `r` is the nice step nearest to `extent / min_ticks` among those in the
/// band, and `None` exactly when the band holds none.
pub open spec fn best_increment(r: Option<u64>, extent: int, min_ticks: int) -> bool {
    &&& r.is_some() == (2 * min_ticks <= 3 * extent)
    &&& r.is_some() ==> is_nice(r.unwrap() as int) && in_band(r.unwrap() as int, extent, min_ticks)
    &&& r.is_some() ==> forall|i: nat|
        in_band(nice_at(i), extent, min_ticks) ==> no_worse(
            r.unwrap() as int,
            nice_at(i),
            extent,
            min_ticks,
        )
}

/// The nice step nearest to `extent / min_ticks` among those within
/// `[0.5, 1.5]` times it (the smaller one on a tie). There is one exactly
/// when the band reaches up to 1, the smallest step.
pub fn nice_increment(extent: i64, min_ticks: u32) -> (r: Option<u64>)
    requires
        extent > 0,
        min_ticks > 0,
    ensures
        best_increment(r, extent as int, min_ticks as int),
{
    let e = extent as i128;
    let k = min_ticks as i128;
    let mut m: i128 = 1;
    let ghost mut i: nat = 0;
    let mut phase: u8 = 0;
    let mut best: Option<i128> = None;
    let mut best_gap: i128 = 0;
    while 2 * (k * m) <= 3 * e
        invariant
            e == extent,
            k == min_ticks,
            e > 0,
            k > 0,
            m == nice_at(i),
            phase == i % 3,
            1 <= m,
            2 * (k * m) <= 8 * e + 2 * k,
            best.is_some() ==> 1 <= best.unwrap() < m,
            best.is_some() ==> best_gap == gap(best.unwrap() as int, e as int, k as int),
            best.is_some() ==> in_band(best.unwrap() as int, e as int, k as int),
            best.is_some() ==> exists|j: nat| j < i && nice_at(j) == best.unwrap(),
            forall|j: nat|
                j < i && in_band(nice_at(j), e as int, k as int) ==> best.is_some() && no_worse(
                    best.unwrap() as int,
                    nice_at(j),
                    e as int,
                    k as int,
                ),
            i > 0 ==> 2 * (k * nice_at((i - 1) as nat)) <= 3 * e,
        decreases 8 * e + 2 * k - 2 * (k * m),
    {
        proof {
            lemma_nice_next(i);
            assert(1 <= m <= k * m) by (nonlinear_arith)
                requires
                    k >= 1,
                    m >= 1,
            ;
        }
        let t = k * m - e;
        let g = if t >= 0 {
            t
        } else {
            -t
        };
        if e <= 2 * (k * m) {
            if best.is_none() || g < best_gap {
                best = Some(m);
                best_gap = g;
            }
        }
        let next = if phase == 1 {
            (m / 2) * 5
        } else {
            2 * m
        };
        proof {
            if i >= 1 {
                lemma_nice_mono((i - 1) as nat, i);
            }
            assert forall|j: nat|
                j < i + 1 && in_band(nice_at(j), e as int, k as int) implies best.is_some()
                && no_worse(best.unwrap() as int, nice_at(j), e as int, k as int) by {
                if j < i {
                    lemma_nice_mono(j, i);
                }
            }
        }
        proof {
            assert(next == nice_at(i + 1));
            assert(k * next > k * m) by (nonlinear_arith)
                requires
                    next > m,
                    k > 0,
            ;
            assert(k * (2 * next) <= k * (5 * m)) by (nonlinear_arith)
                requires
                    2 * next <= 5 * m,
                    k > 0,
            ;
            assert(k * (2 * next) == 2 * (k * next)) by (nonlinear_arith);
            assert(k * (5 * m) == 5 * (k * m)) by (nonlinear_arith);
        }
        m = next;
        phase = if phase == 2 {
            0
        } else {
            phase + 1
        };
        proof {
            i = i + 1;
        }
    }
    proof {
        if 2 * k <= 3 * e {
            assert(i > 0) by {
                if i == 0 {
                    assert(nice_at(0) == 1);
                }
            }
            let last = nice_at((i - 1) as nat);
            lemma_nice_next((i - 1) as nat);
            assert(((i - 1) as nat + 1) as nat == i);
            assert(k * (2 * m) <= k * (5 * last)) by (nonlinear_arith)
                requires
                    2 * m <= 5 * last,
                    k > 0,
            ;
            assert(k * (2 * m) == 2 * (k * m)) by (nonlinear_arith);
            assert(k * (5 * last) == 5 * (k * last)) by (nonlinear_arith);
        } else if i > 0 {
            lemma_nice_next((i - 1) as nat);
            assert(k <= k * nice_at((i - 1) as nat)) by (nonlinear_arith)
                requires
                    k > 0,
                    nice_at((i - 1) as nat) >= 1,
            ;
        }
        assert forall|j: nat| in_band(nice_at(j), e as int, k as int) implies j < i by {
            if j >= i {
                lemma_nice_mono(i, j);
                assert(k * nice_at(j) >= k * m) by (nonlinear_arith)
                    requires
                        k > 0,
                        nice_at(j) >= m,
                ;
            }
        }
    }
    match best {
        Some(b) => {
            proof {
                assert(2 * b <= 3 * e) by (nonlinear_arith)
                    requires
                        2 * (k * b) <= 3 * e,
                        k >= 1,
                        b >= 1,
                ;
                assert forall|j: nat|
                    in_band(nice_at(j), extent as int, min_ticks as int) implies no_worse(
                    b as int,
                    nice_at(j),
                    extent as int,
                    min_ticks as int,
                ) by {
                    assert(j < i);
                }
            }
            Some(b as u64)
        },
        None => None,
    }
}

/// Index of the first tick: the first multiple of `increment` at or after
/// `start`, that is `start / increment` rounded up.
pub open spec fn first_tick_index(start: int, increment: int) -> int {
    ceil_div(start, increment)
}

/// `ticks` are the consecutive multiples of `increment` that lie in
/// `range`, from the first one at or after `range.start` (less than one
/// increment past it) to the last one not beyond `range.end`.
pub open spec fn ticks_of(ticks: Seq<i64>, range: AxisRange, increment: int) -> bool {
    let first = first_tick_index(range.start as int, increment);
    &&& range.start <= first * increment < range.start + increment
    &&& forall|j: int| 0 <= j < ticks.len() ==> ticks[j] == (first + j) * increment
    &&& forall|j: int| 0 <= j < ticks.len() ==> range.start <= #[trigger] ticks[j] <= range.end
    &&& (first + ticks.len()) * increment > range.end
}

/// The tick values along `range`: the multiples of `increment` from the
/// first at or after `range.start` up to the last not beyond `range.end`.
pub fn tick_values(range: &AxisRange, increment: u64) -> (r: Vec<i64>)
    requires
        range.wf(),
        increment > 0,
    ensures
        ticks_of(r@, *range, increment as int),
{
    let inc = increment as i128;
    let first = ceil_div_i128(range.start as i128, inc);
    proof {
        lemma_ceil_div(range.start as int, inc as int);
        assert(range.start <= first * inc < range.start + inc) by (nonlinear_arith)
            requires
                inc * first - inc < range.start <= inc * first,
        ;
    }
    let mut tick: i128 = first * inc;
    let mut out: Vec<i64> = Vec::new();
    let end = range.end as i128;
    while tick <= end
        invariant
            inc == increment,
            inc > 0,
            end == range.end,
            first == first_tick_index(range.start as int, increment as int),
            range.start <= first * inc < range.start + inc,
            tick == (first + out@.len()) * inc,
            range.start <= tick <= end + inc,
            forall|j: int| 0 <= j < out@.len() ==> out@[j] == (first + j) * inc,
            forall|j: int| 0 <= j < out@.len() ==> range.start <= #[trigger] out@[j] <= range.end,
        decreases end + inc - tick,
    {
        out.push(tick as i64);
        proof {
            assert((first + out@.len()) * inc == tick + inc) by (nonlinear_arith)
                requires
                    tick == (first + (out@.len() - 1)) * inc,
            ;
        }
        tick = tick + inc;
    }
    out
}

} // verus!
