//! The fixed-step integrator: Euler's method and the explicit midpoint
//! method, advanced side by side and compared against an analytic solution.
//!
//! The arithmetic of the number type, the derivative `f(x, y)` and the
//! analytic solution `y(x)` are capabilities handed in by the caller; the loop
//! decides in which order they are combined and at which points they are
//! evaluated. The contract states that order over what each capability
//! ensures of its result.
use vstd::prelude::*;

verus! {

/// The arithmetic the integrator needs from its number type.
pub struct Arithmetic<P, M, H> {
    /// `a + b`.
    pub plus: P,
    /// `a * b`.
    pub times: M,
    /// `a / 2`.
    pub half: H,
}

/// Initial state and step schedule of one run.
pub struct IntegrationParameters<R> {
    pub x0: R,
    pub y0: R,
    pub step_length: R,
    pub step_count: usize,
}

/// Four index-aligned sequences, one entry per completed step: the abscissa
/// after the step, the Euler and midpoint approximations, and the analytic
/// value at that abscissa.
pub struct ResultSeries<R> {
    pub x: Vec<R>,
    pub euler: Vec<R>,
    pub midpoint: Vec<R>,
    pub exact: Vec<R>,
}

impl<R> ResultSeries<R> {
    /// All four sequences hold `n` entries.
    pub open spec fn has_len(&self, n: int) -> bool {
        &&& self.x@.len() == n
        &&& self.euler@.len() == n
        &&& self.midpoint@.len() == n
        &&& self.exact@.len() == n
    }
}

/// The value before step `i` of a series that starts at `init`.
pub open spec fn before_step<R>(s: Seq<R>, init: R, i: int) -> R {
    if i == 0 {
        init
    } else {
        s[i - 1]
    }
}

/// One forward Euler step from `(x, y)`: `y_next = y + h * f(x, y)`.
pub open spec fn is_euler_step<R, P, M, H, F>(
    ops: Arithmetic<P, M, H>,
    f: F,
    h: R,
    x: R,
    y: R,
    y_next: R,
) -> bool where P: Fn(R, R) -> R, M: Fn(R, R) -> R, H: Fn(R) -> R, F: Fn(R, R) -> R {
    exists|d: R, p: R|
        {
            &&& f.ensures((x, y), d)
            &&& ops.times.ensures((h, d), p)
            &&& ops.plus.ensures((y, p), y_next)
        }
}

/// One explicit midpoint step from `(x, y)`: a half-step Euler probe from
/// `(x, y)` gives `(mid_x, mid_y) = (x + h/2, y + (h/2) * f(x, y))`, and
/// `y_next = y + h * f(mid_x, mid_y)`.
pub open spec fn is_midpoint_step<R, P, M, H, F>(
    ops: Arithmetic<P, M, H>,
    f: F,
    h: R,
    x: R,
    y: R,
    y_next: R,
) -> bool where P: Fn(R, R) -> R, M: Fn(R, R) -> R, H: Fn(R) -> R, F: Fn(R, R) -> R {
    exists|hh: R, mid_x: R, d1: R, p1: R, mid_y: R, d2: R, p2: R|
        {
            &&& ops.half.ensures((h,), hh)
            &&& ops.plus.ensures((x, hh), mid_x)
            &&& f.ensures((x, y), d1)
            &&& ops.times.ensures((hh, d1), p1)
            &&& ops.plus.ensures((y, p1), mid_y)
            &&& f.ensures((mid_x, mid_y), d2)
            &&& ops.times.ensures((h, d2), p2)
            &&& ops.plus.ensures((y, p2), y_next)
        }
}

/// Entry `i` of `r` is step `i + 1` of a run from `params`: each scheme
/// advanced once from the state before the step, `x` advanced by the step
/// length, and the analytic value taken at the new `x`.
pub open spec fn is_step<R, P, M, H, F, G>(
    ops: Arithmetic<P, M, H>,
    f: F,
    solution: G,
    params: IntegrationParameters<R>,
    xs: Seq<R>,
    euler: Seq<R>,
    midpoint: Seq<R>,
    exact: Seq<R>,
    i: int,
) -> bool where
    P: Fn(R, R) -> R,
    M: Fn(R, R) -> R,
    H: Fn(R) -> R,
    F: Fn(R, R) -> R,
    G: Fn(R) -> R,
 {
    let h = params.step_length;
    let x = before_step(xs, params.x0, i);
    &&& ops.plus.ensures((x, h), xs[i])
    &&& is_euler_step(ops, f, h, x, before_step(euler, params.y0, i), euler[i])
    &&& is_midpoint_step(ops, f, h, x, before_step(midpoint, params.y0, i), midpoint[i])
    &&& solution.ensures((xs[i],), exact[i])
}

/// Every entry of `r` is the step that `is_step` describes, and there are
/// `params.step_count` of them.
pub open spec fn is_run<R, P, M, H, F, G>(
    ops: Arithmetic<P, M, H>,
    f: F,
    solution: G,
    params: IntegrationParameters<R>,
    r: ResultSeries<R>,
) -> bool where
    P: Fn(R, R) -> R,
    M: Fn(R, R) -> R,
    H: Fn(R) -> R,
    F: Fn(R, R) -> R,
    G: Fn(R) -> R,
 {
    &&& r.has_len(params.step_count as int)
    &&& forall|i: int|
        0 <= i < params.step_count ==> #[trigger] is_step(
            ops,
            f,
            solution,
            params,
            r.x@,
            r.euler@,
            r.midpoint@,
            r.exact@,
            i,
        )
}

/// `g` gives at most one result for each pair of arguments.
pub open spec fn is_function2<R, B: Fn(R, R) -> R>(g: B) -> bool {
    forall|a: R, b: R, r1: R, r2: R|
        #[trigger] g.ensures((a, b), r1) && #[trigger] g.ensures((a, b), r2) ==> r1 == r2
}

/// `g` gives at most one result for each argument.
pub open spec fn is_function1<R, U: Fn(R) -> R>(g: U) -> bool {
    forall|a: R, r1: R, r2: R| #[trigger] g.ensures((a,), r1) && #[trigger] g.ensures((a,), r2) ==> r1 == r2
}

proof fn lemma_runs_agree_upto<R, P, M, H, F, G>(
    ops: Arithmetic<P, M, H>,
    f: F,
    solution: G,
    params: IntegrationParameters<R>,
    r1: ResultSeries<R>,
    r2: ResultSeries<R>,
    k: int,
) where
    P: Fn(R, R) -> R,
    M: Fn(R, R) -> R,
    H: Fn(R) -> R,
    F: Fn(R, R) -> R,
    G: Fn(R) -> R,

    requires
        is_function2(ops.plus),
        is_function2(ops.times),
        is_function1(ops.half),
        is_function2(f),
        is_function1(solution),
        is_run(ops, f, solution, params, r1),
        is_run(ops, f, solution, params, r2),
        0 <= k <= params.step_count,
    ensures
        forall|i: int| 0 <= i < k ==> #[trigger] r1.x@[i] == r2.x@[i],
        forall|i: int| 0 <= i < k ==> #[trigger] r1.euler@[i] == r2.euler@[i],
        forall|i: int| 0 <= i < k ==> #[trigger] r1.midpoint@[i] == r2.midpoint@[i],
        forall|i: int| 0 <= i < k ==> #[trigger] r1.exact@[i] == r2.exact@[i],
    decreases k,
{
    if k > 0 {
        lemma_runs_agree_upto(ops, f, solution, params, r1, r2, k - 1);
        let i = k - 1;
        let x = before_step(r1.x@, params.x0, i);
        assert(x == before_step(r2.x@, params.x0, i));
        assert(before_step(r1.euler@, params.y0, i) == before_step(r2.euler@, params.y0, i));
        assert(before_step(r1.midpoint@, params.y0, i) == before_step(r2.midpoint@, params.y0, i));
        assert(is_step(ops, f, solution, params, r1.x@, r1.euler@, r1.midpoint@, r1.exact@, i));
        assert(is_step(ops, f, solution, params, r2.x@, r2.euler@, r2.midpoint@, r2.exact@, i));
        assert(r1.x@[i] == r2.x@[i]);
        assert(r1.euler@[i] == r2.euler@[i]);
        assert(r1.midpoint@[i] == r2.midpoint@[i]);
        assert(r1.exact@[i] == r2.exact@[i]);
    }
}

/// Two runs with the same parameters and the same capabilities give the same
/// four sequences, provided each capability is a function: it gives at most
/// one result for each argument.
pub proof fn lemma_integrate_deterministic<R, P, M, H, F, G>(
    ops: Arithmetic<P, M, H>,
    f: F,
    solution: G,
    params: IntegrationParameters<R>,
    r1: ResultSeries<R>,
    r2: ResultSeries<R>,
) where
    P: Fn(R, R) -> R,
    M: Fn(R, R) -> R,
    H: Fn(R) -> R,
    F: Fn(R, R) -> R,
    G: Fn(R) -> R,

    requires
        is_function2(ops.plus),
        is_function2(ops.times),
        is_function1(ops.half),
        is_function2(f),
        is_function1(solution),
        is_run(ops, f, solution, params, r1),
        is_run(ops, f, solution, params, r2),
    ensures
        r1.x@ == r2.x@,
        r1.euler@ == r2.euler@,
        r1.midpoint@ == r2.midpoint@,
        r1.exact@ == r2.exact@,
{
    lemma_runs_agree_upto(ops, f, solution, params, r1, r2, params.step_count as int);
    assert(r1.x@ =~= r2.x@);
    assert(r1.euler@ =~= r2.euler@);
    assert(r1.midpoint@ =~= r2.midpoint@);
    assert(r1.exact@ =~= r2.exact@);
}

/// Runs `params.step_count` steps from `(x0, y0)`, the Euler and midpoint
/// approximations both starting at `y0`. Each step, from the state
/// `(x, yEuler, yMid)` before it:
/// - `yEuler <- yEuler + h * f(x, yEuler)`;
/// - `midX <- x + h/2`, `midY <- yMid + (h/2) * f(x, yMid)`,
///   then `yMid <- yMid + h * f(midX, midY)`;
/// - `x <- x + h`;
/// and appends `x`, `yEuler`, `yMid` and `solution(x)` at the new `x`.
pub fn integrate<R, P, M, H, F, G>(
    params: &IntegrationParameters<R>,
    ops: &Arithmetic<P, M, H>,
    f: F,
    solution: G,
) -> (r: ResultSeries<R>) where
    R: Copy,
    P: Fn(R, R) -> R,
    M: Fn(R, R) -> R,
    H: Fn(R) -> R,
    F: Fn(R, R) -> R,
    G: Fn(R) -> R,

    requires
        forall|a: R, b: R| ops.plus.requires((a, b)),
        forall|a: R, b: R| ops.times.requires((a, b)),
        forall|a: R| ops.half.requires((a,)),
        forall|x: R, y: R| f.requires((x, y)),
        forall|x: R| solution.requires((x,)),
    ensures
        is_run(*ops, f, solution, *params, r),
        params.step_count == 0 ==> r.x@.len() == 0 && r.euler@.len() == 0 && r.midpoint@.len()
            == 0 && r.exact@.len() == 0,
{
    let h: R = params.step_length;
    let half_h: R = (ops.half)(h);
    let mut x: R = params.x0;
    let mut y_euler: R = params.y0;
    let mut y_mid: R = params.y0;
    let mut out = ResultSeries { x: Vec::new(), euler: Vec::new(), midpoint: Vec::new(), exact: Vec::new() };
    let mut step: usize = 0;
    while step < params.step_count
        invariant
            step <= params.step_count,
            out.has_len(step as int),
            h == params.step_length,
            ops.half.ensures((h,), half_h),
            x == before_step(out.x@, params.x0, step as int),
            y_euler == before_step(out.euler@, params.y0, step as int),
            y_mid == before_step(out.midpoint@, params.y0, step as int),
            forall|a: R, b: R| ops.plus.requires((a, b)),
            forall|a: R, b: R| ops.times.requires((a, b)),
            forall|a: R| ops.half.requires((a,)),
            forall|x: R, y: R| f.requires((x, y)),
            forall|x: R| solution.requires((x,)),
            forall|i: int|
                0 <= i < step ==> #[trigger] is_step(
                    *ops,
                    f,
                    solution,
                    *params,
                    out.x@,
                    out.euler@,
                    out.midpoint@,
                    out.exact@,
                    i,
                ),
        decreases params.step_count - step,
    {
        let d: R = f(x, y_euler);
        let p: R = (ops.times)(h, d);
        let euler_next: R = (ops.plus)(y_euler, p);

        let mid_x: R = (ops.plus)(x, half_h);
        let d1: R = f(x, y_mid);
        let p1: R = (ops.times)(half_h, d1);
        let mid_y: R = (ops.plus)(y_mid, p1);
        let d2: R = f(mid_x, mid_y);
        let p2: R = (ops.times)(h, d2);
        let mid_next: R = (ops.plus)(y_mid, p2);

        let x_next: R = (ops.plus)(x, h);
        let y_exact: R = solution(x_next);

        proof {
            assert(is_euler_step(*ops, f, h, x, y_euler, euler_next));
            assert(is_midpoint_step(*ops, f, h, x, y_mid, mid_next));
        }
        let ghost old_out_x = out.x@;
        let ghost old_out_euler = out.euler@;
        let ghost old_out_mid = out.midpoint@;
        let ghost old_out_exact = out.exact@;
        out.x.push(x_next);
        out.euler.push(euler_next);
        out.midpoint.push(mid_next);
        out.exact.push(y_exact);
        proof {
            assert forall|i: int| 0 <= i < step + 1 implies #[trigger] is_step(
                *ops,
                f,
                solution,
                *params,
                out.x@,
                out.euler@,
                out.midpoint@,
                out.exact@,
                i,
            ) by {
                if i < step {
                    assert(is_step(
                        *ops,
                        f,
                        solution,
                        *params,
                        old_out_x,
                        old_out_euler,
                        old_out_mid,
                        old_out_exact,
                        i,
                    ));
                }
            }
        }
        x = x_next;
        y_euler = euler_next;
        y_mid = mid_next;
        step = step + 1;
    }
    out
}

} // verus!
