//! Fee tiers and the quote built from them.
//!
//! All amounts are in wei. A tier's priority fee is a fixed percentage of the
//! observed gas price, so it need not be a whole number of wei: amounts are
//! kept exact, in hundredths of a wei.

use vstd::prelude::*;
use crate::hex::{decode, hex_to_decimal, HexError};

verus! {

/// Hundredths in one wei.
pub const HUNDREDTHS_PER_WEI: u64 = 100;

/// The slow tier's priority fee, in percent of the gas price.
pub const SLOW_PERCENT: u64 = 80;

/// The standard tier's priority fee, in percent of the gas price.
pub const STANDARD_PERCENT: u64 = 100;

/// The fast tier's priority fee, in percent of the gas price.
pub const FAST_PERCENT: u64 = 120;

/// An amount of wei, exact to a hundredth.
#[derive(Clone, Copy, Debug, PartialEq, Eq, Structural)]
pub struct Amount {
    /// The amount in hundredths of a wei.
    pub hundredths: u128,
}

/// One suggestion: what to offer the block producer, and the ceiling to
/// authorise.
#[derive(Clone, Copy, Debug, PartialEq, Eq, Structural)]
pub struct FeeTier {
    /// The fee offered on top of the base fee.
    pub priority_fee: Amount,
    /// The priority fee plus the base fee.
    pub max_fee: Amount,
}

/// The three suggestions, with the base fee and the block they were derived
/// from.
#[derive(Clone, Debug, PartialEq, Eq)]
pub struct FeeQuote {
    /// The cheapest suggestion.
    pub slow: FeeTier,
    /// The suggestion at the observed gas price.
    pub standard: FeeTier,
    /// The dearest suggestion.
    pub fast: FeeTier,
    /// The base fee of the block, in wei.
    pub base_fee: u64,
    /// The number of the block, as the node reported it.
    pub block_number: String,
}

/// What a [`FeeQuote`] holds, as mathematical values.
pub struct FeeQuoteView {
    pub slow: FeeTier,
    pub standard: FeeTier,
    pub fast: FeeTier,
    pub base_fee: u64,
    pub block_number: Seq<char>,
}

impl View for FeeQuote {
    type V = FeeQuoteView;

    open spec fn view(&self) -> FeeQuoteView {
        FeeQuoteView {
            slow: self.slow,
            standard: self.standard,
            fast: self.fast,
            base_fee: self.base_fee,
            block_number: self.block_number@,
        }
    }
}

/// `percent` percent of `gas_price` wei.
pub open spec fn percent_of(gas_price: u64, percent: u64) -> Amount {
    Amount { hundredths: (gas_price * percent) as u128 }
}

/// The slow, standard and fast priority fees at a gas price.
pub open spec fn priority_fees(gas_price: u64) -> (Amount, Amount, Amount) {
    (
        percent_of(gas_price, SLOW_PERCENT),
        percent_of(gas_price, STANDARD_PERCENT),
        percent_of(gas_price, FAST_PERCENT),
    )
}

/// The tier with the given priority fee over a base fee of `base_fee` wei.
pub open spec fn tier_over(priority_fee: Amount, base_fee: u64) -> FeeTier {
    FeeTier {
        priority_fee,
        max_fee: Amount {
            hundredths: (priority_fee.hundredths + base_fee * HUNDREDTHS_PER_WEI) as u128,
        },
    }
}

/// The quote for a gas price and a base fee, both in wei.
pub open spec fn quote_of(gas_price: u64, base_fee: u64, block_number: Seq<char>) -> FeeQuoteView {
    FeeQuoteView {
        slow: tier_over(priority_fees(gas_price).0, base_fee),
        standard: tier_over(priority_fees(gas_price).1, base_fee),
        fast: tier_over(priority_fees(gas_price).2, base_fee),
        base_fee,
        block_number,
    }
}

/// The quote for a gas price and a base fee as the node reported them, or the
/// reason why the first of them that is malformed could not be decoded.
pub open spec fn quote_of_hex(
    gas_price: Seq<char>,
    base_fee: Seq<char>,
    block_number: Seq<char>,
) -> Result<FeeQuoteView, HexError> {
    match decode(gas_price) {
        Err(e) => Err(e),
        Ok(price) => match decode(base_fee) {
            Err(e) => Err(e),
            Ok(base) => Ok(quote_of(price, base, block_number)),
        },
    }
}

/// A result with the quote in it taken by its view.
pub open spec fn quote_outcome(r: Result<FeeQuote, HexError>) -> Result<FeeQuoteView, HexError> {
    match r {
        Ok(quote) => Ok(quote@),
        Err(e) => Err(e),
    }
}

impl Amount {
    /// The amount of `wei` whole wei.
    pub fn from_wei(wei: u64) -> (amount: Amount)
        ensures
            amount.hundredths == wei * HUNDREDTHS_PER_WEI,
    {
        let scale: u128 = HUNDREDTHS_PER_WEI as u128;
        Amount { hundredths: wei as u128 * scale }
    }

    /// The whole wei in the amount, rounded down.
    pub fn whole_wei(&self) -> (wei: u128)
        ensures
            wei == self.hundredths / (HUNDREDTHS_PER_WEI as u128),
    {
        self.hundredths / (HUNDREDTHS_PER_WEI as u128)
    }

    /// The hundredths of a wei beyond the whole wei.
    pub fn fraction(&self) -> (hundredths: u128)
        ensures
            hundredths == self.hundredths % (HUNDREDTHS_PER_WEI as u128),
            hundredths < HUNDREDTHS_PER_WEI,
    {
        self.hundredths % (HUNDREDTHS_PER_WEI as u128)
    }
}

/// `percent` percent of `gas_price` wei.
fn percentage(gas_price: u64, percent: u64) -> (amount: Amount)
    ensures
        amount == percent_of(gas_price, percent),
{
    assert(gas_price * percent <= u64::MAX * u64::MAX) by (nonlinear_arith)
        requires
            gas_price <= u64::MAX,
            percent <= u64::MAX,
    ;
    Amount { hundredths: gas_price as u128 * percent as u128 }
}

/// The tier with the given priority fee over a base fee of `base_fee` wei.
fn tier(priority_fee: Amount, base_fee: u64) -> (t: FeeTier)
    requires
        priority_fee.hundredths <= FAST_PERCENT * u64::MAX,
    ensures
        t == tier_over(priority_fee, base_fee),
{
    let base: Amount = Amount::from_wei(base_fee);
    FeeTier {
        priority_fee,
        max_fee: Amount { hundredths: priority_fee.hundredths + base.hundredths },
    }
}

/// Computes the slow, standard and fast priority fees, in this order, from
/// the observed gas price in wei: each is its tier's percentage of it.
pub fn calculate_priority_fees(standard_gas_price: u64) -> (fees: (Amount, Amount, Amount))
    ensures
        fees == priority_fees(standard_gas_price),
        fees.0.hundredths == SLOW_PERCENT * standard_gas_price,
        fees.1.hundredths == STANDARD_PERCENT * standard_gas_price,
        fees.2.hundredths == FAST_PERCENT * standard_gas_price,
        fees.0.hundredths <= fees.1.hundredths <= fees.2.hundredths,
{
    (
        percentage(standard_gas_price, SLOW_PERCENT),
        percentage(standard_gas_price, STANDARD_PERCENT),
        percentage(standard_gas_price, FAST_PERCENT),
    )
}

/// Builds the quote for a gas price and a base fee, both in wei: each tier's
/// max fee is its priority fee plus the base fee.
pub fn assemble_quote(gas_price: u64, base_fee: u64, block_number: String) -> (quote: FeeQuote)
    ensures
        quote@ == quote_of(gas_price, base_fee, block_number@),
{
    let fees = calculate_priority_fees(gas_price);
    FeeQuote {
        slow: tier(fees.0, base_fee),
        standard: tier(fees.1, base_fee),
        fast: tier(fees.2, base_fee),
        base_fee,
        block_number,
    }
}

/// Builds the quote from the gas price and the base fee as the node reported
/// them. The gas price is decoded first; the first text that cannot be
/// decoded gives the error.
pub fn quote_from_hex(gas_price: &str, base_fee: &str, block_number: String) -> (quote: Result<
    FeeQuote,
    HexError,
>)
    ensures
        quote_outcome(quote) == quote_of_hex(gas_price@, base_fee@, block_number@),
{
    match hex_to_decimal(gas_price) {
        Err(e) => Err(e),
        Ok(price) => match hex_to_decimal(base_fee) {
            Err(e) => Err(e),
            Ok(base) => Ok(assemble_quote(price, base, block_number)),
        },
    }
}

/// In every quote the tiers are ordered, slow to fast, by priority fee and by
/// max fee; each max fee exceeds its priority fee by exactly the base fee;
/// and the standard priority fee is the gas price itself.
pub proof fn lemma_quote_shape(gas_price: u64, base_fee: u64, block_number: Seq<char>)
    ensures
        ({
            let q = quote_of(gas_price, base_fee, block_number);
            &&& q.slow.priority_fee.hundredths <= q.standard.priority_fee.hundredths
                <= q.fast.priority_fee.hundredths
            &&& q.slow.max_fee.hundredths <= q.standard.max_fee.hundredths
                <= q.fast.max_fee.hundredths
            &&& q.slow.max_fee.hundredths == q.slow.priority_fee.hundredths + HUNDREDTHS_PER_WEI
                * base_fee
            &&& q.standard.max_fee.hundredths == q.standard.priority_fee.hundredths
                + HUNDREDTHS_PER_WEI * base_fee
            &&& q.fast.max_fee.hundredths == q.fast.priority_fee.hundredths + HUNDREDTHS_PER_WEI
                * base_fee
            &&& q.standard.priority_fee.hundredths == HUNDREDTHS_PER_WEI * gas_price
        }),
{
}

} // verus!
