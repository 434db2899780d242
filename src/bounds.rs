//! Axis bounds of the chart. The x-axis spans the first to the last abscissa;
//! the y-axis spans the least Euler value to the greatest analytic value.
//! Values are compared through integer ordering keys that order them as the
//! values themselves are ordered.
use vstd::prelude::*;

verus! {

/// `m` is the first position of a least key.
pub open spec fn is_first_min(keys: Seq<i64>, m: int) -> bool {
    &&& 0 <= m < keys.len()
    &&& forall|j: int| 0 <= j < keys.len() ==> keys[m] <= #[trigger] keys[j]
    &&& forall|j: int| 0 <= j < m ==> keys[m] < #[trigger] keys[j]
}

/// `m` is the last position of a greatest key.
pub open spec fn is_last_max(keys: Seq<i64>, m: int) -> bool {
    &&& 0 <= m < keys.len()
    &&& forall|j: int| 0 <= j < keys.len() ==> #[trigger] keys[j] <= keys[m]
    &&& forall|j: int| m < j < keys.len() ==> #[trigger] keys[j] < keys[m]
}

/// Positions in the result series of the values that bound the chart's axes.
#[derive(Debug, Clone, Copy, PartialEq, Eq, Structural)]
pub struct AxisBounds {
    /// Abscissa at the left edge.
    pub x_first: usize,
    /// Abscissa at the right edge.
    pub x_last: usize,
    /// Euler value at the bottom edge.
    pub y_low: usize,
    /// Analytic value at the top edge.
    pub y_high: usize,
}

/// First position of a least key.
pub fn first_min_index(keys: &Vec<i64>) -> (m: usize)
    requires
        keys@.len() > 0,
    ensures
        is_first_min(keys@, m as int),
{
    let mut m: usize = 0;
    let mut i: usize = 1;
    while i < keys.len()
        invariant
            1 <= i <= keys@.len(),
            is_first_min(keys@.subrange(0, i as int), m as int),
        decreases keys@.len() - i,
    {
        if keys[i] < keys[m] {
            m = i;
        }
        i = i + 1;
    }
    assert(keys@.subrange(0, i as int) =~= keys@);
    m
}

/// Last position of a greatest key.
pub fn last_max_index(keys: &Vec<i64>) -> (m: usize)
    requires
        keys@.len() > 0,
    ensures
        is_last_max(keys@, m as int),
{
    let mut m: usize = 0;
    let mut i: usize = 1;
    while i < keys.len()
        invariant
            1 <= i <= keys@.len(),
            is_last_max(keys@.subrange(0, i as int), m as int),
        decreases keys@.len() - i,
    {
        if keys[i] >= keys[m] {
            m = i;
        }
        i = i + 1;
    }
    assert(keys@.subrange(0, i as int) =~= keys@);
    m
}

/// Bounds of a chart of `x_len` abscissae whose Euler series and analytic
/// series have the given ordering keys; `None` when any of them is empty.
pub fn axis_bounds(x_len: usize, euler_keys: &Vec<i64>, exact_keys: &Vec<i64>) -> (r: Option<
    AxisBounds,
>)
    ensures
        r is Some <==> (x_len > 0 && euler_keys@.len() > 0 && exact_keys@.len() > 0),
        r matches Some(b) ==> {
            &&& b.x_first == 0
            &&& b.x_last == x_len - 1
            &&& is_first_min(euler_keys@, b.y_low as int)
            &&& is_last_max(exact_keys@, b.y_high as int)
        },
{
    if x_len == 0 || euler_keys.len() == 0 || exact_keys.len() == 0 {
        None
    } else {
        Some(
            AxisBounds {
                x_first: 0,
                x_last: x_len - 1,
                y_low: first_min_index(euler_keys),
                y_high: last_max_index(exact_keys),
            },
        )
    }
}

} // verus!
