//! Exchange lot-size filter: the minimum tradable quantity and the step size.

use vstd::prelude::*;
use crate::decimal::{normalize, normalized};
use crate::order::OrderError;

verus! {

/// The `LOT_SIZE` filter of a symbol, in fixed-point units.
#[derive(Clone, Copy, Debug, PartialEq, Eq, Structural)]
pub struct LotSize {
    pub min_qty: u64,
    pub step_size: u64,
}

/// Degraded-mode default used when the exchange's lot-size lookup fails:
/// a minimum quantity and a step of 0.01.
pub const FALLBACK_LOT: u64 = 1_000_000;

/// The normalized quantity of a rung under `lot`, or the reason it is refused.
pub open spec fn lot_check(lot: LotSize, quantity: int) -> Result<u64, OrderError> {
    let n = normalized(quantity, lot.step_size as int);
    if n < lot.min_qty {
        Err(OrderError::BelowMinimum)
    } else {
        Ok(n as u64)
    }
}

impl LotSize {
    /// A usable filter has a positive step size.
    pub open spec fn wf(&self) -> bool {
        self.step_size > 0
    }

    /// Builds a filter; a zero step size is rejected.
    pub fn new(min_qty: u64, step_size: u64) -> (r: Option<LotSize>)
        ensures
            step_size == 0 ==> r is None,
            step_size > 0 ==> r == Some(LotSize { min_qty, step_size }),
    {
        if step_size == 0 {
            None
        } else {
            Some(LotSize { min_qty, step_size })
        }
    }

    /// The documented degraded-mode default (minimum 0.01, step 0.01), for use
    /// only when the exchange's filter could not be fetched.
    pub fn fallback() -> (r: LotSize)
        ensures
            r.wf(),
            r.min_qty == FALLBACK_LOT,
            r.step_size == FALLBACK_LOT,
    {
        LotSize { min_qty: FALLBACK_LOT, step_size: FALLBACK_LOT }
    }

    /// Normalizes `quantity` to the step size and refuses it when the result
    /// falls below the minimum quantity.
    pub fn check(&self, quantity: u64) -> (r: Result<u64, OrderError>)
        requires
            self.wf(),
        ensures
            r == lot_check(*self, quantity as int),
    {
        let n = normalize(quantity, self.step_size);
        if n < self.min_qty {
            Err(OrderError::BelowMinimum)
        } else {
            Ok(n)
        }
    }
}

} // verus!
