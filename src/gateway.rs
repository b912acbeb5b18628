//! Lookups in the exchange's listings, with their decimal fields parsed into
//! fixed point: a symbol's lot-size and notional filters, and an asset's free
//! balance.

use vstd::prelude::*;
use crate::lot::LotSize;
use crate::text::{decimal_value, parse_decimal, text_equals};

verus! {

/// One filter of one symbol from the exchange information listing. A field
/// the filter does not carry is empty.
#[derive(Clone, Debug)]
pub struct FilterEntry {
    pub symbol: String,
    /// `LOT_SIZE`, `NOTIONAL`, `PRICE_FILTER`, ...
    pub filter_type: String,
    pub min_qty: String,
    pub step_size: String,
    pub min_notional: String,
}

/// One asset of the account listing.
#[derive(Clone, Debug)]
pub struct AssetBalance {
    pub asset: String,
    pub free: String,
    pub locked: String,
}

/// Why no lot-size filter could be taken from the listing.
#[derive(Clone, Copy, Debug, PartialEq, Eq, Structural)]
pub enum LotSizeError {
    /// The listing has no `LOT_SIZE` filter for the symbol.
    NotListed,
    /// The filter's step size is zero or unreadable.
    ZeroStep,
}

/// Default minimum notional (10) when the listing does not give one.
pub const DEFAULT_MIN_NOTIONAL: u64 = 1_000_000_000;

/// The first filter of kind `kind` for `symbol`.
pub open spec fn first_filter(entries: Seq<FilterEntry>, symbol: Seq<char>, kind: Seq<char>) -> Option<
    FilterEntry,
>
    decreases entries.len(),
{
    if entries.len() == 0 {
        None
    } else if entries[0].symbol@ == symbol && entries[0].filter_type@ == kind {
        Some(entries[0])
    } else {
        first_filter(entries.drop_first(), symbol, kind)
    }
}

/// The value of a decimal field, zero when it is unreadable.
pub open spec fn field_or_zero(s: Seq<char>) -> u64 {
    match decimal_value(s) {
        Some(v) => v,
        None => 0,
    }
}

/// The lot size the listing gives for `symbol`.
pub open spec fn lot_size_of(entries: Seq<FilterEntry>, symbol: Seq<char>) -> Result<
    LotSize,
    LotSizeError,
> {
    match first_filter(entries, symbol, "LOT_SIZE"@) {
        None => Err(LotSizeError::NotListed),
        Some(e) => if field_or_zero(e.step_size@) == 0 {
            Err(LotSizeError::ZeroStep)
        } else {
            Ok(LotSize { min_qty: field_or_zero(e.min_qty@), step_size: field_or_zero(e.step_size@) })
        },
    }
}

/// The minimum notional the listing gives for `symbol`, or the default.
pub open spec fn min_notional_of(entries: Seq<FilterEntry>, symbol: Seq<char>) -> u64 {
    match first_filter(entries, symbol, "NOTIONAL"@) {
        None => DEFAULT_MIN_NOTIONAL,
        Some(e) => match decimal_value(e.min_notional@) {
            Some(v) => v,
            None => DEFAULT_MIN_NOTIONAL,
        },
    }
}

/// The first balance entry of `asset`.
pub open spec fn first_balance(balances: Seq<AssetBalance>, asset: Seq<char>) -> Option<AssetBalance>
    decreases balances.len(),
{
    if balances.len() == 0 {
        None
    } else if balances[0].asset@ == asset {
        Some(balances[0])
    } else {
        first_balance(balances.drop_first(), asset)
    }
}

/// Finds the first filter of kind `kind` for `symbol`.
fn find_filter(entries: &Vec<FilterEntry>, symbol: &str, kind: &str) -> (r: Option<usize>)
    ensures
        match r {
            Some(i) => i < entries@.len() && first_filter(entries@, symbol@, kind@) == Some(
                entries@[i as int],
            ),
            None => first_filter(entries@, symbol@, kind@) is None,
        },
{
    let mut i: usize = 0;
    assert(entries@.skip(0) == entries@);
    while i < entries.len()
        invariant
            i <= entries@.len(),
            first_filter(entries@, symbol@, kind@) == first_filter(
                entries@.skip(i as int),
                symbol@,
                kind@,
            ),
        decreases entries@.len() - i,
    {
        assert(entries@.skip(i as int)[0] == entries@[i as int]);
        assert(entries@.skip(i as int).drop_first() == entries@.skip(i + 1));
        if text_equals(entries[i].symbol.as_str(), symbol) && text_equals(
            entries[i].filter_type.as_str(),
            kind,
        ) {
            return Some(i);
        }
        i = i + 1;
    }
    None
}

fn decimal_or_zero(s: &str) -> (r: u64)
    ensures
        r == field_or_zero(s@),
{
    match parse_decimal(s) {
        Some(v) => v,
        None => 0,
    }
}

/// The `LOT_SIZE` filter of `symbol` in the exchange listing. An unreadable
/// field counts as zero; a zero step size is refused.
pub fn find_lot_size(entries: &Vec<FilterEntry>, symbol: &str) -> (r: Result<LotSize, LotSizeError>)
    ensures
        r == lot_size_of(entries@, symbol@),
        r matches Ok(lot) ==> lot.wf(),
{
    match find_filter(entries, symbol, "LOT_SIZE") {
        None => Err(LotSizeError::NotListed),
        Some(i) => {
            let min_qty = decimal_or_zero(entries[i].min_qty.as_str());
            let step_size = decimal_or_zero(entries[i].step_size.as_str());
            if step_size == 0 {
                Err(LotSizeError::ZeroStep)
            } else {
                Ok(LotSize { min_qty, step_size })
            }
        },
    }
}

/// The `NOTIONAL` filter's minimum notional for `symbol`, or 10 when the
/// listing has none or it is unreadable.
pub fn find_min_notional(entries: &Vec<FilterEntry>, symbol: &str) -> (r: u64)
    ensures
        r == min_notional_of(entries@, symbol@),
{
    match find_filter(entries, symbol, "NOTIONAL") {
        None => DEFAULT_MIN_NOTIONAL,
        Some(i) => match parse_decimal(entries[i].min_notional.as_str()) {
            Some(v) => v,
            None => DEFAULT_MIN_NOTIONAL,
        },
    }
}

/// The free balance of `asset` in the account listing: `None` when the asset
/// is not listed, zero when its free amount is unreadable.
pub fn find_free_balance(balances: &Vec<AssetBalance>, asset: &str) -> (r: Option<u64>)
    ensures
        r == match first_balance(balances@, asset@) {
            Some(b) => Some(field_or_zero(b.free@)),
            None => None,
        },
{
    let mut i: usize = 0;
    assert(balances@.skip(0) == balances@);
    while i < balances.len()
        invariant
            i <= balances@.len(),
            first_balance(balances@, asset@) == first_balance(balances@.skip(i as int), asset@),
        decreases balances@.len() - i,
    {
        assert(balances@.skip(i as int)[0] == balances@[i as int]);
        assert(balances@.skip(i as int).drop_first() == balances@.skip(i + 1));
        if text_equals(balances[i].asset.as_str(), asset) {
            return Some(decimal_or_zero(balances[i].free.as_str()));
        }
        i = i + 1;
    }
    None
}

} // verus!
