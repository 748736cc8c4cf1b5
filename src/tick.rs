//! Choice of a "nice" major-tick interval for an axis.
//!
//! The span that an axis covers has already been scaled up to an integer with
//! enough resolution; the search below picks, among the intervals 1, 2, 5 and
//! 25 times a power of ten, the one whose tick count is closest to the wanted
//! count without falling under a floor.

use vstd::prelude::*;
use vstd::arithmetic::div_mod::{lemma_div_denominator, lemma_div_is_ordered};

verus! {

/// No automatic interval is chosen that yields fewer ticks than this (or than
/// the wanted count, when that is smaller).
pub const MIN_NUMBER_OF_TICKS: u8 = 4;

/// Ten to the power `k`.
pub open spec fn pow10(k: nat) -> nat
    decreases k,
{
    if k == 0 {
        1
    } else {
        10 * pow10((k - 1) as nat)
    }
}

/// The base intervals that, scaled by a power of ten, make up every nice tick.
pub open spec fn is_base_tick(b: nat) -> bool {
    b == 1 || b == 2 || b == 5 || b == 25
}

/// A nice tick interval: 1, 2, 5 or 25 times a power of ten.
pub open spec fn is_nice_tick(t: nat) -> bool {
    exists|k: nat, b: nat| is_base_tick(b) && t == b * pow10(k)
}

/// The least number of ticks an automatic interval must give.
pub open spec fn tick_floor(wanted: nat) -> nat {
    if wanted < MIN_NUMBER_OF_TICKS as nat {
        wanted
    } else {
        MIN_NUMBER_OF_TICKS as nat
    }
}

/// Distance between two counts.
pub open spec fn dist(a: nat, b: nat) -> nat {
    if a >= b {
        (a - b) as nat
    } else {
        (b - a) as nat
    }
}

/// A candidate interval `tick` giving `count` ticks replaces the best pair
/// (interval, count) so far when it respects the floor and comes strictly closer
/// to the wanted count.
pub open spec fn weigh(wanted: nat, count: nat, tick: nat, best: (nat, nat)) -> (nat, nat) {
    if count >= tick_floor(wanted) && dist(wanted, count) < dist(wanted, best.1) {
        (tick, count)
    } else {
        best
    }
}

/// One round of the search: the four base intervals scaled by `growing`, where
/// `rest` is the span divided by `growing`.
pub open spec fn weigh_round(wanted: nat, rest: nat, growing: nat, best: (nat, nat)) -> (nat, nat) {
    let b1 = weigh(wanted, rest / 1, growing * 1, best);
    let b2 = weigh(wanted, rest / 2, growing * 2, b1);
    let b5 = weigh(wanted, rest / 5, growing * 5, b2);
    weigh(wanted, rest / 25, growing * 25, b5)
}

/// The rounds of the search, one per power of ten that fits in the span.
pub open spec fn search(wanted: nat, rest: nat, growing: nat, best: (nat, nat)) -> (nat, nat)
    decreases rest,
{
    if rest == 0 {
        best
    } else {
        search(wanted, rest / 10, growing * 10, weigh_round(wanted, rest, growing, best))
    }
}

/// The interval that the search settles on for an integer span; it starts from
/// the interval 1, which gives `span` ticks.
pub open spec fn best_tick(span: nat, wanted: nat) -> nat {
    search(wanted, span, 1, (1, span)).0
}

/// The candidate interval `b * 10^k` is weighed by the search over `span` and
/// gives at least the floor of ticks.
pub open spec fn qualifies(span: nat, wanted: nat, k: nat, b: nat) -> bool {
    is_base_tick(b) && pow10(k) <= span && span / (b * pow10(k)) >= tick_floor(wanted)
}

/// `best` holds a nice interval and the tick count it gives over `span`.
spec fn sound_best(span: nat, wanted: nat, best: (nat, nat)) -> bool {
    &&& best.0 >= 1
    &&& is_nice_tick(best.0)
    &&& best.1 == span / best.0
    &&& (best.1 >= tick_floor(wanted) || best.0 == 1)
}

/// `best` comes at least as close to the wanted count as every qualifying
/// candidate of the rounds before round `k`.
spec fn covers(span: nat, wanted: nat, k: nat, best: (nat, nat)) -> bool {
    forall|j: nat, b: nat|
        j < k && #[trigger] qualifies(span, wanted, j, b) ==> dist(wanted, best.1) <= dist(
            wanted,
            span / (b * pow10(j)),
        )
}

pub proof fn lemma_pow10_positive(k: nat)
    ensures
        pow10(k) >= 1,
    decreases k,
{
    if k > 0 {
        lemma_pow10_positive((k - 1) as nat);
    }
}

pub proof fn lemma_pow10_monotone(j: nat, k: nat)
    requires
        j <= k,
    ensures
        pow10(j) <= pow10(k),
    decreases k - j,
{
    if j < k {
        lemma_pow10_monotone(j, (k - 1) as nat);
        lemma_pow10_positive((k - 1) as nat);
    }
}

proof fn lemma_weigh_step(span: nat, wanted: nat, k: nat, b: nat, best: (nat, nat))
    requires
        is_base_tick(b),
        sound_best(span, wanted, best),
    ensures
        ({
            let r = weigh(wanted, (span / pow10(k)) / b, pow10(k) * b, best);
            &&& sound_best(span, wanted, r)
            &&& dist(wanted, r.1) <= dist(wanted, best.1)
            &&& (qualifies(span, wanted, k, b) ==> dist(wanted, r.1) <= dist(
                wanted,
                span / (b * pow10(k)),
            ))
        }),
{
    lemma_pow10_positive(k);
    lemma_div_denominator(span as int, pow10(k) as int, b as int);
    assert(pow10(k) * b == b * pow10(k)) by (nonlinear_arith);
    assert(pow10(k) * b >= 1) by (nonlinear_arith)
        requires
            pow10(k) >= 1,
            b >= 1,
    ;
    assert(is_base_tick(b) && pow10(k) * b == b * pow10(k));
    assert(is_nice_tick(pow10(k) * b));
}

proof fn lemma_search(span: nat, wanted: nat, k: nat, best: (nat, nat))
    requires
        sound_best(span, wanted, best),
        covers(span, wanted, k, best),
    ensures
        ({
            let r = search(wanted, span / pow10(k), pow10(k), best);
            &&& sound_best(span, wanted, r)
            &&& forall|j: nat, b: nat| #[trigger]
                qualifies(span, wanted, j, b) ==> dist(wanted, r.1) <= dist(
                    wanted,
                    span / (b * pow10(j)),
                )
        }),
    decreases span / pow10(k),
{
    lemma_pow10_positive(k);
    let rest = span / pow10(k);
    let growing = pow10(k);
    if rest == 0 {
        assert forall|j: nat, b: nat| #[trigger] qualifies(span, wanted, j, b) implies dist(
            wanted,
            best.1,
        ) <= dist(wanted, span / (b * pow10(j))) by {
            if j >= k {
                lemma_pow10_monotone(k, j);
                lemma_div_is_ordered(pow10(k) as int, span as int, pow10(k) as int);
                lemma_div_is_ordered(pow10(k) as int, pow10(j) as int, pow10(k) as int);
            }
        }
    } else {
        lemma_weigh_step(span, wanted, k, 1, best);
        let b1 = weigh(wanted, rest / 1, growing * 1, best);
        lemma_weigh_step(span, wanted, k, 2, b1);
        let b2 = weigh(wanted, rest / 2, growing * 2, b1);
        lemma_weigh_step(span, wanted, k, 5, b2);
        let b5 = weigh(wanted, rest / 5, growing * 5, b2);
        lemma_weigh_step(span, wanted, k, 25, b5);
        let nb = weigh(wanted, rest / 25, growing * 25, b5);
        assert(nb == weigh_round(wanted, rest, growing, best));
        assert(covers(span, wanted, k + 1, nb)) by {
            assert forall|j: nat, b: nat|
                j < k + 1 && #[trigger] qualifies(span, wanted, j, b) implies dist(
                    wanted,
                    nb.1,
                ) <= dist(wanted, span / (b * pow10(j))) by {
                if j < k {
                    assert(qualifies(span, wanted, j, b));
                }
            }
        }
        lemma_div_denominator(span as int, pow10(k) as int, 10);
        assert(pow10(k + 1) == pow10(k) * 10);
        assert(rest / 10 == span / pow10(k + 1));
        lemma_search(span, wanted, k + 1, nb);
    }
}

/// Every automatic interval is nice, comes at least as close to the wanted
/// count as each nice interval that the search weighs and that respects the
/// floor, and itself respects the floor whenever the span holds that many ticks.
pub proof fn lemma_best_tick(span: nat, wanted: nat)
    ensures
        best_tick(span, wanted) >= 1,
        is_nice_tick(best_tick(span, wanted)),
        span >= tick_floor(wanted) ==> span / best_tick(span, wanted) >= tick_floor(wanted),
        forall|j: nat, b: nat| #[trigger]
            qualifies(span, wanted, j, b) ==> dist(wanted, span / best_tick(span, wanted)) <= dist(
                wanted,
                span / (b * pow10(j)),
            ),
{
    assert(pow10(0) == 1);
    assert(is_base_tick(1nat) && 1nat == 1nat * pow10(0nat));
    assert(is_nice_tick(1));
    lemma_search(span, wanted, 0, (1, span));
}

/// Tick count bound: for a wanted count of at least one and a span scaled to at
/// least a thousand times that count, the chosen interval is nice and leaves at
/// least `min(wanted, MIN_NUMBER_OF_TICKS)` ticks.
pub proof fn lemma_tick_count_bound(span: nat, wanted: nat)
    requires
        wanted >= 1,
        span >= 1000 * wanted,
    ensures
        is_nice_tick(best_tick(span, wanted)),
        span / best_tick(span, wanted) >= tick_floor(wanted),
{
    lemma_best_tick(span, wanted);
}

/// `min(wanted, MIN_NUMBER_OF_TICKS)`.
pub fn min_tick_count(wanted: u8) -> (r: u8)
    ensures
        r as nat == tick_floor(wanted as nat),
{
    if wanted < MIN_NUMBER_OF_TICKS {
        wanted
    } else {
        MIN_NUMBER_OF_TICKS
    }
}


fn dist_u64(a: u64, b: u64) -> (r: u64)
    ensures
        r as nat == dist(a as nat, b as nat),
{
    if a >= b {
        a - b
    } else {
        b - a
    }
}

/// Executable form of `weigh`.
fn weigh_candidate(wanted: u64, count: u64, tick: u128, best: (u128, u64)) -> (r: (u128, u64))
    requires
        wanted <= u8::MAX,
    ensures
        (r.0 as nat, r.1 as nat) == weigh(wanted as nat, count as nat, tick as nat, (best.0 as nat, best.1 as nat)),
{
    let floor = min_tick_count(wanted as u8) as u64;
    if count >= floor && dist_u64(wanted, count) < dist_u64(wanted, best.1) {
        (tick, count)
    } else {
        best
    }
}

/// Picks the nice interval for a span already scaled to an integer: among the
/// intervals 1, 2, 5 and 25 times each power of ten up to the span, the first
/// one, in increasing order of the power and then of the base, whose tick count
/// `draw_space / interval` is at least `min_tick_count(wanted_num_ticks)` and
/// closest to `wanted_num_ticks`; the interval 1 when none comes closer than it.
pub fn best_tick_from_big(draw_space: u64, wanted_num_ticks: u8) -> (tick: u128)
    ensures
        tick as nat == best_tick(draw_space as nat, wanted_num_ticks as nat),
        tick >= 1,
        is_nice_tick(tick as nat),
        draw_space >= tick_floor(wanted_num_ticks as nat) ==> (draw_space as nat) / (tick as nat) >= tick_floor(
            wanted_num_ticks as nat,
        ),
        forall|j: nat, b: nat| #[trigger]
            qualifies(draw_space as nat, wanted_num_ticks as nat, j, b) ==> dist(
                wanted_num_ticks as nat,
                (draw_space as nat) / (tick as nat),
            ) <= dist(wanted_num_ticks as nat, (draw_space as nat) / (b * pow10(j))),
{
    proof {
        lemma_best_tick(draw_space as nat, wanted_num_ticks as nat);
    }
    let wanted = wanted_num_ticks as u64;
    let mut best: (u128, u64) = (1, draw_space);
    let mut rest: u64 = draw_space;
    let mut growing: u128 = 1;
    while rest != 0
        invariant
            wanted == wanted_num_ticks,
            search(wanted as nat, rest as nat, growing as nat, (best.0 as nat, best.1 as nat))
                == search(wanted as nat, draw_space as nat, 1, (1, draw_space as nat)),
            growing >= 1,
            growing * rest <= draw_space,
            growing <= 10 * (u64::MAX as int),
        decreases rest,
    {
        assert(growing <= draw_space) by (nonlinear_arith)
            requires
                growing * rest <= draw_space,
                rest >= 1,
                growing >= 1,
        ;
        best = weigh_candidate(wanted, rest / 1, growing * 1, best);
        best = weigh_candidate(wanted, rest / 2, growing * 2, best);
        best = weigh_candidate(wanted, rest / 5, growing * 5, best);
        best = weigh_candidate(wanted, rest / 25, growing * 25, best);
        assert((growing * 10) * (rest / 10) <= growing * rest) by (nonlinear_arith)
            requires
                growing >= 1,
        ;
        rest = rest / 10;
        growing = growing * 10;
    }
    best.0
}

} // verus!
