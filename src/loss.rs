use vstd::prelude::*;

use crate::error::LayerError;
use crate::layer::{accumulate, is_accumulation};

verus! {

/// `loss` is a mean squared error of `predictions` against `targets`: the squared
/// errors are folded by `add_squared_error` from `zero`, first element first, and
/// the total goes with the element count to `mean`.
pub open spec fn is_mse<T, F: Fn(T, T, T) -> T, M: Fn(T, usize) -> T>(
    zero: T,
    add_squared_error: F,
    mean: M,
    predictions: Seq<T>,
    targets: Seq<T>,
    loss: T,
) -> bool {
    exists|sums: Seq<T>|
        #[trigger] is_accumulation(add_squared_error, zero, predictions, targets, sums)
            && mean.ensures((sums.last(), predictions.len() as usize), loss)
}

/// Mean squared error of `predictions` against `targets`.
///
/// `add_squared_error(acc, p, t)` adds the square of `p - t` to `acc`, and
/// `mean(total, n)` divides a total by the count `n`. Fails with `LengthMismatch`
/// when the two vectors differ in length.
pub fn mse_loss<T: Copy, F: Fn(T, T, T) -> T, M: Fn(T, usize) -> T>(
    predictions: &Vec<T>,
    targets: &Vec<T>,
    zero: T,
    add_squared_error: F,
    mean: M,
) -> (r: Result<T, LayerError>)
    requires
        forall|acc: T, p: T, t: T| #[trigger] add_squared_error.requires((acc, p, t)),
        forall|total: T, n: usize| #[trigger] mean.requires((total, n)),
    ensures
        r is Err <==> predictions@.len() != targets@.len(),
        r is Err ==> r->Err_0 == LayerError::LengthMismatch,
        r is Ok ==> is_mse(zero, add_squared_error, mean, predictions@, targets@, r->Ok_0),
{
    if predictions.len() != targets.len() {
        return Err(LayerError::LengthMismatch);
    }
    let total = accumulate(zero, predictions, targets, &add_squared_error);
    let loss = mean(total, predictions.len());
    Ok(loss)
}

} // verus!
