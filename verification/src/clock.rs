//! The animation clock: which step of its cycle an animation shows after a
//! given time, and when it will next show another.
//!
//! Everything is a function of elapsed time in whole nanoseconds, so a frame
//! that is missed or late changes nothing of what the next one shows.

use crate::time::{Instant, Span, StepCount, MAX_NANOS};
use vstd::arithmetic::div_mod::{
    lemma_fundamental_div_mod, lemma_fundamental_div_mod_converse, lemma_mod_bound,
};
use vstd::prelude::*;

verus! {

/// How far into the current cycle an animation is after `elapsed`.
pub open spec fn cycle_position(elapsed: nat, cycle: nat) -> nat {
    elapsed % cycle
}

/// The step shown after `elapsed`: the cycle is cut into `steps` equal windows
/// and step `k` owns the positions `p` with `k <= p * steps / cycle < k + 1`.
/// A value past the last step is clamped to it.
pub open spec fn phase_index(elapsed: nat, cycle: nat, steps: nat) -> nat {
    let raw = (cycle_position(elapsed, cycle) * steps) / cycle;
    if raw < steps {
        raw
    } else {
        (steps - 1) as nat
    }
}

/// The first position of a cycle that belongs to step `step`: `step * cycle /
/// steps`, rounded up to a whole nanosecond.
pub open spec fn step_start(step: nat, cycle: nat, steps: nat) -> nat {
    ((step * cycle + steps - 1) / (steps as int)) as nat
}

/// The elapsed time at which the step that is shown after `elapsed` ends: the
/// start of the next step's window, or of the next cycle after the last step.
pub open spec fn next_boundary(elapsed: nat, cycle: nat, steps: nat) -> nat {
    (elapsed - cycle_position(elapsed, cycle) + step_start(
        phase_index(elapsed, cycle, steps) + 1,
        cycle,
        steps,
    )) as nat
}

/// The clock reading at which an animation that began at `start` next changes
/// its step, seen from `now`. A `now` before `start` counts as `start`.
pub open spec fn boundary_reading(now: nat, start: nat, cycle: nat, steps: nat) -> nat {
    start + next_boundary(crate::time::elapsed_between(now, start), cycle, steps)
}

/// `q` is the quotient of `x` by `d` once `x` lies in the `q`-th window of width `d`.
proof fn lemma_quotient(x: int, d: int, q: int)
    requires
        d > 0,
        q * d <= x < (q + 1) * d,
    ensures
        x / d == q,
        x % d == x - q * d,
{
    assert((q + 1) * d == q * d + d) by (nonlinear_arith);
    lemma_fundamental_div_mod_converse(x, d, q, x - q * d);
}

/// The window of width `d` that `x` lies in.
proof fn lemma_window(x: int, d: int)
    requires
        d > 0,
    ensures
        (x / d) * d <= x < (x / d + 1) * d,
        x % d == x - (x / d) * d,
        0 <= x % d < d,
{
    lemma_fundamental_div_mod(x, d);
    lemma_mod_bound(x, d);
    assert(d * (x / d) == (x / d) * d) by (nonlinear_arith);
    assert((x / d + 1) * d == (x / d) * d + d) by (nonlinear_arith);
}

/// Inside a cycle the unclamped step is already below `steps`, and it grows
/// with the position.
proof fn lemma_raw_step(pos: nat, cycle: nat, steps: nat)
    requires
        cycle > 0,
        steps > 0,
        pos < cycle,
    ensures
        (pos * steps) / cycle < steps,
        phase_index(pos, cycle, steps) == (pos * steps) / cycle,
        ((pos * steps) / cycle) * cycle <= pos * steps,
        pos * steps < ((pos * steps) / cycle + 1) * cycle,
{
    let x = (pos * steps) as int;
    let c = cycle as int;
    let k = x / c;
    lemma_window(x, c);
    assert(x < steps * c) by (nonlinear_arith)
        requires
            x == pos * steps,
            pos < cycle,
            steps > 0,
            c == cycle,
    ;
    assert(k < steps) by (nonlinear_arith)
        requires
            k * c <= x,
            x < steps * c,
            c > 0,
    ;
    assert(0 <= k) by (nonlinear_arith)
        requires
            x < (k + 1) * c,
            0 <= x,
            c > 0,
    ;
    lemma_quotient(pos as int, c, 0);
}

/// `step_start` rounds `step * cycle / steps` up.
proof fn lemma_step_start(step: nat, cycle: nat, steps: nat)
    requires
        steps > 0,
    ensures
        step_start(step, cycle, steps) * steps >= step * cycle,
        (step_start(step, cycle, steps) - 1) * steps < step * cycle,
{
    let x = (step * cycle + steps - 1) as int;
    let n = steps as int;
    assert(0 <= step * cycle) by (nonlinear_arith);
    lemma_window(x, n);
    let b = x / n;
    assert(0 <= b) by (nonlinear_arith)
        requires
            x < (b + 1) * n,
            0 <= x,
            n > 0,
    ;
    assert((b - 1) * n == b * n - n) by (nonlinear_arith);
    assert((b + 1) * n == b * n + n) by (nonlinear_arith);
}

/// What holds of the step shown at position `pos` of a cycle and of the
/// position `b` where the next window starts.
proof fn lemma_window_of_step(pos: nat, cycle: nat, steps: nat)
    requires
        cycle > 0,
        steps > 0,
        pos < cycle,
    ensures
        ({
            let k = phase_index(pos, cycle, steps);
            let b = step_start(k + 1, cycle, steps);
            &&& k < steps
            &&& pos < b <= cycle
            &&& forall|p: nat| pos <= p < b ==> #[trigger] phase_index(p, cycle, steps) == k
            &&& b < cycle ==> phase_index(b, cycle, steps) > k
            &&& b < cycle && steps <= cycle ==> phase_index(b, cycle, steps) == k + 1 && k + 1
                < steps
            &&& b == cycle && steps <= cycle ==> k + 1 == steps
        }),
{
    let c = cycle as int;
    let n = steps as int;
    let k = phase_index(pos, cycle, steps) as int;
    let b = step_start((k + 1) as nat, cycle, steps) as int;
    lemma_raw_step(pos, cycle, steps);
    lemma_step_start((k + 1) as nat, cycle, steps);
    assert(pos < b) by (nonlinear_arith)
        requires
            b * n >= (k + 1) * c,
            pos * n < (k + 1) * c,
            n > 0,
    ;
    assert(b <= c) by (nonlinear_arith)
        requires
            (b - 1) * n < (k + 1) * c,
            k + 1 <= n,
            n > 0,
            c > 0,
    ;
    assert forall|p: nat| pos <= p < b implies #[trigger] phase_index(p, cycle, steps) == k by {
        lemma_raw_step(p, cycle, steps);
        let x = (p * steps) as int;
        assert(k * c <= x) by (nonlinear_arith)
            requires
                k * c <= pos * n,
                pos <= p,
                x == p * n,
                n > 0,
        ;
        assert(x < (k + 1) * c) by (nonlinear_arith)
            requires
                (b - 1) * n < (k + 1) * c,
                p <= b - 1,
                x == p * n,
                n > 0,
        ;
        lemma_quotient(x, c, k);
    }
    if b < c {
        lemma_raw_step(b as nat, cycle, steps);
        let x = b * n;
        let kb = x / c;
        assert(kb >= k + 1) by (nonlinear_arith)
            requires
                x < (kb + 1) * c,
                x >= (k + 1) * c,
                c > 0,
        ;
        if n <= c {
            assert(x < (k + 2) * c) by (nonlinear_arith)
                requires
                    (b - 1) * n < (k + 1) * c,
                    x == b * n,
                    n <= c,
            ;
            assert(kb < k + 2) by (nonlinear_arith)
                requires
                    kb * c <= x,
                    x < (k + 2) * c,
                    c > 0,
            ;
        }
    }
    if b == c && n <= c && k + 1 < n {
        assert(false) by (nonlinear_arith)
            requires
                (b - 1) * n < (k + 1) * c,
                b == c,
                k + 1 <= n - 1,
                n <= c,
                n > 0,
        ;
    }
}

/// What is left of `a` after taking out every whole `b`.
pub fn mod_duration(a: Span, b: Span) -> (rest: Span)
    requires
        b@ > 0,
    ensures
        rest@ == a@ % b@,
{
    let whole: u128 = a.as_nanos();
    let rem: u128 = whole % b.as_nanos();
    proof {
        lemma_window(whole as int, b@ as int);
        assert(rem <= whole) by (nonlinear_arith)
            requires
                (whole as int / b@ as int) * b@ <= whole,
                rem == whole - (whole as int / b@ as int) * b@,
                0 <= whole,
                b@ > 0,
        ;
    }
    Span::split(rem)
}

/// The step, counted from zero, that an animation of `steps` steps per `cycle`
/// shows when `elapsed` has passed since it began.
pub fn index_in_cycle(elapsed: Span, cycle: Span, steps: StepCount) -> (index: u32)
    requires
        cycle@ > 0,
    ensures
        index == phase_index(elapsed@, cycle@, steps@),
        index < steps@,
{
    let n: u128 = steps.get() as u128;
    let c: u128 = cycle.as_nanos();
    let pos: u128 = elapsed.as_nanos() % c;
    proof {
        lemma_window(elapsed@ as int, c as int);
        lemma_raw_step(pos as nat, cycle@, steps@);
        assert(pos * n <= MAX_NANOS * 0xffff_ffff) by (nonlinear_arith)
            requires
                pos <= MAX_NANOS,
                n <= 0xffff_ffff,
        ;
    }
    let raw: u128 = (pos * n) / c;
    let last: u32 = steps.get() - 1;
    if raw > last as u128 {
        last
    } else {
        raw as u32
    }
}

/// The clock reading at which the window of the step shown at `now` ends,
/// for an animation that began at `start`: the reading to wake up at, so as
/// to draw once for each step and not once for each frame. `None` when that
/// reading is past what an [`Instant`] can hold.
pub fn next_boundary_instant(now: Instant, start: Instant, cycle: Span, steps: StepCount) -> (at:
    Option<Instant>)
    requires
        cycle@ > 0,
    ensures
        match at {
            Some(reading) => reading@ == boundary_reading(now@, start@, cycle@, steps@),
            None => boundary_reading(now@, start@, cycle@, steps@) > MAX_NANOS,
        },
{
    let n: u128 = steps.get() as u128;
    let c: u128 = cycle.as_nanos();
    let elapsed: u128 = now.duration_since(start).as_nanos();
    let pos: u128 = elapsed % c;
    proof {
        lemma_window(elapsed as int, c as int);
        lemma_raw_step(pos as nat, cycle@, steps@);
        assert(pos * n <= MAX_NANOS * 0xffff_ffff) by (nonlinear_arith)
            requires
                pos <= MAX_NANOS,
                n <= 0xffff_ffff,
        ;
    }
    let raw: u128 = (pos * n) / c;
    let step: u128 = if raw > n - 1 {
        n - 1
    } else {
        raw
    };
    proof {
        assert((step + 1) * c <= 0x1_0000_0000 * MAX_NANOS) by (nonlinear_arith)
            requires
                step + 1 <= 0x1_0000_0000,
                c <= MAX_NANOS,
        ;
    }
    let next: u128 = ((step + 1) * c + (n - 1)) / n;
    let reading: u128 = start.since_origin().as_nanos() + (elapsed - pos + next);
    match Span::from_nanos(reading) {
        Some(span) => Some(Instant::from_origin(span)),
        None => None,
    }
}

/// The step is always one of `0 .. steps`, and within one cycle it never
/// falls as time passes.
pub proof fn lemma_phase_monotone(earlier: nat, later: nat, cycle: nat, steps: nat)
    requires
        cycle > 0,
        steps > 0,
        earlier <= later,
        earlier / cycle == later / cycle,
    ensures
        phase_index(later, cycle, steps) < steps,
        phase_index(earlier, cycle, steps) <= phase_index(later, cycle, steps),
{
    let c = cycle as int;
    let n = steps as int;
    lemma_window(earlier as int, c);
    lemma_window(later as int, c);
    let p = cycle_position(earlier, cycle);
    let q = cycle_position(later, cycle);
    lemma_raw_step(p, cycle, steps);
    lemma_raw_step(q, cycle, steps);
    lemma_quotient(p as int, c, 0);
    lemma_quotient(q as int, c, 0);
    let kp = ((p * steps) / cycle) as int;
    let kq = ((q * steps) / cycle) as int;
    assert(kp < kq + 1) by (nonlinear_arith)
        requires
            kp * c <= p * n,
            q * n < (kq + 1) * c,
            p <= q,
            n > 0,
            c > 0,
    ;
}

/// At every whole number of cycles the animation is back at step 0, and a
/// whole cycle later it shows the step it shows now, always one of
/// `0 .. steps`.
pub proof fn lemma_phase_wraps(elapsed: nat, cycles: nat, cycle: nat, steps: nat)
    requires
        cycle > 0,
        steps > 0,
    ensures
        phase_index(cycles * cycle, cycle, steps) == 0,
        phase_index(elapsed + cycle, cycle, steps) == phase_index(elapsed, cycle, steps),
        phase_index(elapsed, cycle, steps) < steps,
{
    let c = cycle as int;
    assert(0 <= cycles * cycle) by (nonlinear_arith);
    assert((cycles + 1) * c == cycles * c + c) by (nonlinear_arith);
    lemma_quotient((cycles * cycle) as int, c, cycles as int);
    lemma_raw_step(0, cycle, steps);
    assert(0 * steps == 0);
    lemma_quotient(0, c, 0);

    lemma_window(elapsed as int, c);
    let q = elapsed as int / c;
    assert((q + 1) * c == q * c + c) by (nonlinear_arith);
    assert((q + 2) * c == q * c + c + c) by (nonlinear_arith);
    lemma_quotient((elapsed + cycle) as int, c, q + 1);
    lemma_raw_step(cycle_position(elapsed, cycle), cycle, steps);
}

/// The reading that [`next_boundary`] gives lies after `elapsed` and at most a
/// cycle away; until then the step stays what it is; and at that reading the
/// step has either advanced or wrapped to 0.
pub proof fn lemma_boundary_closes_step(elapsed: nat, cycle: nat, steps: nat)
    requires
        cycle > 0,
        steps > 0,
    ensures
        elapsed < next_boundary(elapsed, cycle, steps) <= elapsed + cycle,
        forall|t: nat|
            elapsed <= t < next_boundary(elapsed, cycle, steps) ==> #[trigger] phase_index(
                t,
                cycle,
                steps,
            ) == phase_index(elapsed, cycle, steps),
        phase_index(next_boundary(elapsed, cycle, steps), cycle, steps) > phase_index(
            elapsed,
            cycle,
            steps,
        ) || phase_index(next_boundary(elapsed, cycle, steps), cycle, steps) == 0,
{
    let c = cycle as int;
    let pos = cycle_position(elapsed, cycle);
    let q = elapsed as int / c;
    lemma_window(elapsed as int, c);
    lemma_window_of_step(pos, cycle, steps);
    lemma_raw_step(pos, cycle, steps);
    lemma_quotient(pos as int, c, 0);
    let k = phase_index(elapsed, cycle, steps);
    assert(k == phase_index(pos, cycle, steps));
    let b = step_start(k + 1, cycle, steps);
    let at = next_boundary(elapsed, cycle, steps);
    assert(at == q * c + b);
    assert((q + 1) * c == q * c + c) by (nonlinear_arith);
    assert((q + 2) * c == q * c + c + c) by (nonlinear_arith);
    assert forall|t: nat| elapsed <= t < at implies #[trigger] phase_index(t, cycle, steps)
        == k by {
        let p = (t - q * c) as nat;
        lemma_quotient(t as int, c, q);
        assert(cycle_position(t, cycle) == p);
        lemma_quotient(p as int, c, 0);
        assert(phase_index(p, cycle, steps) == k);
    }
    if b < cycle {
        lemma_quotient(at as int, c, q);
        lemma_quotient(b as int, c, 0);
        assert(phase_index(at, cycle, steps) == phase_index(b, cycle, steps));
    } else {
        lemma_quotient(at as int, c, q + 1);
        lemma_raw_step(0, cycle, steps);
        assert(0 * steps == 0);
        lemma_quotient(0, c, 0);
    }
}

/// Where the cycle has at least as many nanoseconds as steps, so that every
/// step is shown: one nanosecond before the reading that [`next_boundary`]
/// gives the step is still the one shown at `elapsed`, and at that reading
/// it is the next one, step 0 following the last.
pub proof fn lemma_boundary_is_next_step(elapsed: nat, cycle: nat, steps: nat)
    requires
        cycle > 0,
        steps > 0,
        steps <= cycle,
    ensures
        next_boundary(elapsed, cycle, steps) >= 1,
        phase_index((next_boundary(elapsed, cycle, steps) - 1) as nat, cycle, steps)
            == phase_index(elapsed, cycle, steps),
        phase_index(next_boundary(elapsed, cycle, steps), cycle, steps) == (phase_index(
            elapsed,
            cycle,
            steps,
        ) + 1) % steps,
{
    let c = cycle as int;
    let pos = cycle_position(elapsed, cycle);
    let q = elapsed as int / c;
    lemma_boundary_closes_step(elapsed, cycle, steps);
    lemma_window(elapsed as int, c);
    lemma_window_of_step(pos, cycle, steps);
    lemma_raw_step(pos, cycle, steps);
    lemma_quotient(pos as int, c, 0);
    let k = phase_index(elapsed, cycle, steps);
    assert(k == phase_index(pos, cycle, steps));
    let b = step_start(k + 1, cycle, steps);
    let at = next_boundary(elapsed, cycle, steps);
    assert(at == q * c + b);
    assert((q + 1) * c == q * c + c) by (nonlinear_arith);
    assert((q + 2) * c == q * c + c + c) by (nonlinear_arith);
    let before = (at - 1) as nat;
    assert(phase_index(before, cycle, steps) == k);
    if b < cycle {
        lemma_quotient(at as int, c, q);
        lemma_quotient(b as int, c, 0);
        assert(phase_index(at, cycle, steps) == phase_index(b, cycle, steps));
        lemma_quotient((k + 1) as int, steps as int, 0);
    } else {
        lemma_quotient(at as int, c, q + 1);
        lemma_raw_step(0, cycle, steps);
        assert(0 * steps == 0);
        lemma_quotient(0, c, 0);
        assert(k + 1 == steps);
        lemma_quotient((k + 1) as int, steps as int, 1);
    }
}

/// The remainder is below the divisor, and taking it off leaves a whole
/// number of divisors.
pub proof fn lemma_remainder_exact(a: nat, b: nat)
    requires
        b > 0,
    ensures
        0 <= a % b < b,
        a % b <= a,
        (a - a % b) % (b as int) == 0,
        a - a % b == (a / b) * b,
{
    lemma_window(a as int, b as int);
    let q = a as int / b as int;
    assert(0 <= q) by (nonlinear_arith)
        requires
            a < (q + 1) * b,
            0 <= a,
            b > 0,
    ;
    assert(0 <= q * b) by (nonlinear_arith)
        requires
            0 <= q,
            b > 0,
    ;
    assert((q + 1) * b == q * b + b) by (nonlinear_arith);
    lemma_quotient(q * b, b as int, q);
}

/// Where the steps divide the cycle evenly, the time left until the next
/// boundary is what the position lacks to a whole step.
pub proof fn lemma_boundary_even_steps(elapsed: nat, cycle: nat, steps: nat)
    requires
        cycle > 0,
        steps > 0,
        cycle % steps == 0,
    ensures
        cycle / steps > 0,
        next_boundary(elapsed, cycle, steps) - elapsed == cycle / steps - cycle_position(
            elapsed,
            cycle,
        ) % (cycle / steps),
{
    let c = cycle as int;
    let n = steps as int;
    let w = c / n;
    lemma_window(c, n);
    assert(c == w * n);
    assert(w > 0) by (nonlinear_arith)
        requires
            c == w * n,
            c > 0,
            n > 0,
    ;
    let pos = cycle_position(elapsed, cycle);
    lemma_window(elapsed as int, c);
    lemma_raw_step(pos, cycle, steps);
    lemma_quotient(pos as int, c, 0);
    let k = phase_index(elapsed, cycle, steps) as int;
    assert(k == phase_index(pos, cycle, steps));
    // step k covers the positions from k * w up to (k + 1) * w
    assert(k * w <= pos) by (nonlinear_arith)
        requires
            k * c <= pos * n,
            c == w * n,
            n > 0,
    ;
    assert(pos < (k + 1) * w) by (nonlinear_arith)
        requires
            pos * n < (k + 1) * c,
            c == w * n,
            n > 0,
    ;
    lemma_quotient(pos as int, w, k);
    let x = (k + 1) * c + n - 1;
    assert(((k + 1) * w) * n <= x < ((k + 1) * w + 1) * n) by (nonlinear_arith)
        requires
            x == (k + 1) * c + n - 1,
            c == w * n,
            n > 0,
    ;
    lemma_quotient(x, n, (k + 1) * w);
    assert((k + 1) * w == k * w + w) by (nonlinear_arith);
}

} // verus!
