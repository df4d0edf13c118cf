//! Reconciling the length of a per-period series with a target length.

use vstd::prelude::*;

verus! {

/// Why a series could not be brought to a length.
#[derive(Clone, Copy, Debug, PartialEq, Eq, Structural)]
pub enum AlignError {
    /// The series is empty, so it has no last value to repeat, and the
    /// target length is not zero.
    EmptySeries,
}

/// `s` brought to length `target`: its prefix where it is long enough,
/// followed by copies of its last value where it is not.
pub open spec fn aligned<T>(s: Seq<T>, target: nat) -> Seq<T> {
    Seq::new(target, |i: int| if i < s.len() { s[i] } else { s.last() })
}

/// Truncates `series` to `target` values, or extends it by repeating its
/// last value until it has `target` values.
pub fn align_series<T: Copy>(series: &Vec<T>, target: usize) -> (r: Result<Vec<T>, AlignError>)
    ensures
        match r {
            Ok(v) => v@ == aligned(series@, target as nat),
            Err(AlignError::EmptySeries) => series@.len() == 0 && target > 0,
        },
        series@.len() == 0 && target > 0 ==> r is Err,
{
    let n = series.len();
    if n == 0 && target > 0 {
        return Err(AlignError::EmptySeries);
    }
    let mut v: Vec<T> = Vec::new();
    let mut i: usize = 0;
    while i < target
        invariant
            0 <= i <= target,
            n == series@.len(),
            n > 0 || target == 0,
            v@.len() == i,
            forall|k: int| 0 <= k < i ==> #[trigger] v@[k] == aligned(series@, target as nat)[k],
        decreases target - i,
    {
        let x = if i < n {
            series[i]
        } else {
            series[n - 1]
        };
        v.push(x);
        i = i + 1;
    }
    assert(v@ =~= aligned(series@, target as nat));
    Ok(v)
}

} // verus!
