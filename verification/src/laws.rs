//! Laws of the accounting math, stated once over all inputs and proved: the
//! bootstrap identity of the conversions, their rejection of negative
//! amounts, the round-down guarantee that favors the vault, and the effect of
//! harvested yield on the share price.

use vstd::prelude::*;

use crate::accounting::{
    assets_result, shares_result, spec_convert_to_assets, spec_convert_to_shares,
};
use crate::errors::Error;

verus! {

/// While either total is zero, both conversions are the identity: the
/// bootstrap exchange rate is one share per asset.
pub proof fn lemma_bootstrap_conversion(total_shares: int, total_assets: int, amount: int)
    requires
        total_shares == 0 || total_assets == 0,
        0 <= amount <= i128::MAX,
    ensures
        shares_result(total_shares, total_assets, amount) == Ok::<i128, Error>(amount as i128),
        assets_result(total_shares, total_assets, amount) == Ok::<i128, Error>(amount as i128),
{
}

/// A negative amount is rejected by both conversions, whatever the totals.
pub proof fn lemma_negative_amount_rejected(total_shares: int, total_assets: int, amount: int)
    requires
        amount < 0,
    ensures
        shares_result(total_shares, total_assets, amount) == Err::<i128, Error>(
            Error::NegativeAmount,
        ),
        assets_result(total_shares, total_assets, amount) == Err::<i128, Error>(
            Error::NegativeAmount,
        ),
{
}

/// Conversion to shares rounds down: the minted shares never exceed the fair
/// proportion, and one more share would overshoot it.  Rounding favors the
/// vault over the depositor.
pub proof fn lemma_convert_to_shares_rounds_down(total_shares: int, total_assets: int, amount: int)
    requires
        total_shares >= 1,
        total_assets >= 1,
        amount >= 0,
    ensures
        spec_convert_to_shares(total_shares, total_assets, amount) * total_assets <= amount
            * total_shares,
        amount * total_shares < (spec_convert_to_shares(total_shares, total_assets, amount) + 1)
            * total_assets,
{
    let p = amount * total_shares;
    assert(p / total_assets * total_assets <= p < (p / total_assets + 1) * total_assets)
        by (nonlinear_arith)
        requires
            p >= 0,
            total_assets >= 1,
    ;
}

/// Conversion to assets rounds down: the released assets never exceed the
/// fair proportion, and one more asset would overshoot it.  Rounding favors
/// the vault over the withdrawer.
pub proof fn lemma_convert_to_assets_rounds_down(total_shares: int, total_assets: int, shares: int)
    requires
        total_shares >= 1,
        total_assets >= 1,
        shares >= 0,
    ensures
        spec_convert_to_assets(total_shares, total_assets, shares) * total_shares <= shares
            * total_assets,
        shares * total_assets < (spec_convert_to_assets(total_shares, total_assets, shares) + 1)
            * total_shares,
{
    let p = shares * total_assets;
    assert(p / total_shares * total_shares <= p < (p / total_shares + 1) * total_shares)
        by (nonlinear_arith)
        requires
            p >= 0,
            total_shares >= 1,
    ;
}

/// Growing the asset total without minting shares never lowers the asset
/// value of any share amount: a positive harvest leaves the share price equal
/// or higher.  This needs a positive asset total to start from — a vault
/// holding shares against zero assets values every share amount at par, and
/// par can exceed the post-harvest proportional value.
pub proof fn lemma_harvest_raises_share_price(
    total_shares: int,
    total_assets_before: int,
    total_assets_after: int,
    shares: int,
)
    requires
        total_shares >= 0,
        1 <= total_assets_before <= total_assets_after,
        shares >= 0,
    ensures
        spec_convert_to_assets(total_shares, total_assets_before, shares) <= spec_convert_to_assets(
            total_shares,
            total_assets_after,
            shares,
        ),
{
    if total_shares != 0 {
        assert(shares * total_assets_before / total_shares <= shares * total_assets_after
            / total_shares) by (nonlinear_arith)
            requires
                total_shares >= 1,
                1 <= total_assets_before <= total_assets_after,
                shares >= 0,
        ;
    }
}

} // verus!
