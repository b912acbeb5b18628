//! Capital allocations and the checks made before a grid starts.

use vstd::prelude::*;
use vstd::string::StringExecFns;
use crate::text::{decimal_value, parse_decimal, parse_unsigned, unsigned_value};

verus! {

/// Capital set aside for one trading pair.
#[derive(Clone, Debug)]
pub struct CapitalAllocation {
    pub symbol: String,
    pub amount: u64,
    pub min_price: u64,
    pub max_price: u64,
    /// A grid is running for the pair.
    pub is_active: bool,
}

/// A pair as listed for launch selection.
#[derive(Clone, Debug)]
pub struct PairStatus {
    pub symbol: String,
    pub is_active: bool,
}

/// Why a grid was not launched.
#[derive(Clone, Copy, Debug, PartialEq, Eq, Structural)]
pub enum LaunchError {
    /// No pair has capital allocated.
    NoPairs,
    /// The choice is not the number of a listed pair.
    InvalidSelection,
    /// A grid already runs for the chosen pair.
    AlreadyRunning,
}

/// Why operator input for an allocation was refused.
#[derive(Clone, Copy, Debug, PartialEq, Eq, Structural)]
pub enum InputError {
    InvalidAmount,
    InvalidMinPrice,
    InvalidMaxPrice,
}

/// The outcome of choosing pair number `choice` (counted from 1).
pub open spec fn selection(pairs: Seq<PairStatus>, choice: Option<u64>) -> Result<usize, LaunchError> {
    if pairs.len() == 0 {
        Err(LaunchError::NoPairs)
    } else {
        match choice {
            Some(c) => if c == 0 || c > pairs.len() {
                Err(LaunchError::InvalidSelection)
            } else if pairs[c - 1].is_active {
                Err(LaunchError::AlreadyRunning)
            } else {
                Ok((c - 1) as usize)
            },
            None => Err(LaunchError::InvalidSelection),
        }
    }
}

/// Picks the pair to launch from the operator's typed choice: the index of a
/// listed, inactive pair, or why there is none.
pub fn select_pair(pairs: &Vec<PairStatus>, choice: &str) -> (r: Result<usize, LaunchError>)
    ensures
        r == selection(pairs@, unsigned_value(choice@)),
{
    if pairs.len() == 0 {
        return Err(LaunchError::NoPairs);
    }
    match parse_unsigned(choice) {
        Some(c) => if c == 0 || c > pairs.len() as u64 {
            Err(LaunchError::InvalidSelection)
        } else if pairs[(c - 1) as usize].is_active {
            Err(LaunchError::AlreadyRunning)
        } else {
            Ok((c - 1) as usize)
        },
        None => Err(LaunchError::InvalidSelection),
    }
}

/// An allocation typed by the operator; it starts inactive.
pub open spec fn allocation_of(
    symbol: Seq<char>,
    amount: Seq<char>,
    min_price: Seq<char>,
    max_price: Seq<char>,
) -> Result<(u64, u64, u64), InputError> {
    match (decimal_value(amount), decimal_value(min_price), decimal_value(max_price)) {
        (Some(a), Some(lo), Some(hi)) => Ok((a, lo, hi)),
        (None, _, _) => Err(InputError::InvalidAmount),
        (Some(_), None, _) => Err(InputError::InvalidMinPrice),
        (Some(_), Some(_), None) => Err(InputError::InvalidMaxPrice),
    }
}

impl CapitalAllocation {
    /// Reads an allocation from the operator's answers. A new allocation is
    /// not active.
    pub fn from_input(symbol: &str, amount: &str, min_price: &str, max_price: &str) -> (r: Result<
        CapitalAllocation,
        InputError,
    >)
        ensures
            match allocation_of(symbol@, amount@, min_price@, max_price@) {
                Ok((a, lo, hi)) => r matches Ok(c) && c.symbol@ == symbol@ && c.amount == a
                    && c.min_price == lo && c.max_price == hi && !c.is_active,
                Err(e) => r == Err::<CapitalAllocation, InputError>(e),
            },
    {
        let a = match parse_decimal(amount) {
            Some(v) => v,
            None => return Err(InputError::InvalidAmount),
        };
        let lo = match parse_decimal(min_price) {
            Some(v) => v,
            None => return Err(InputError::InvalidMinPrice),
        };
        let hi = match parse_decimal(max_price) {
            Some(v) => v,
            None => return Err(InputError::InvalidMaxPrice),
        };
        Ok(CapitalAllocation {
            symbol: String::from_str(symbol),
            amount: a,
            min_price: lo,
            max_price: hi,
            is_active: false,
        })
    }
}

/// The capital still free for a pair: the ledger's summed quantity once the
/// grid has traded, the allocated amount before that.
pub fn remaining_capital(has_trades: bool, traded_sum: u64, allocated: u64) -> (r: u64)
    ensures
        r == if has_trades { traded_sum } else { allocated },
{
    if has_trades {
        traded_sum
    } else {
        allocated
    }
}

/// Most ledger orders allowed before new orders are held back.
pub const MAX_ACTIVE_ORDERS: u64 = 5;

/// New orders may be placed while the ledger holds fewer than the maximum.
pub fn can_place_more(active_orders: u64) -> (r: bool)
    ensures
        r == (active_orders < MAX_ACTIVE_ORDERS),
{
    active_orders < MAX_ACTIVE_ORDERS
}

} // verus!
