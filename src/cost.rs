//! The integer part of the cost admission gate: what a transaction's gas costs
//! in wei, and the capital that the cost is measured against.
use crate::uint256::{limb_base, max_value, Uint256};
use vstd::prelude::*;

verus! {

/// The gas cost in wei where it is below `2^128`; `None` where it is not,
/// which includes every product that saturates 256 bits. A cost limit rejects a
/// transaction whose cost is `None`.
pub open spec fn priced_gas_cost(gas_estimate: nat, gas_price: nat) -> Option<u128> {
    if gas_estimate * gas_price < limb_base() * limb_base() {
        Some((gas_estimate * gas_price) as u128)
    } else {
        None
    }
}

/// The cost in wei of `gas_estimate` units of gas at `gas_price` wei each,
/// or `None` where it is too large to price.
pub fn gas_cost_wei(gas_estimate: Uint256, gas_price: Uint256) -> (r: Option<u128>)
    ensures
        r == priced_gas_cost(gas_estimate.value(), gas_price.value()),
{
    let cost = gas_estimate.saturating_mul(gas_price);
    proof {
        assert(limb_base() * limb_base() <= max_value()) by (nonlinear_arith)
            requires limb_base() == 0x1_0000_0000_0000_0000nat, max_value() == (limb_base()
                * limb_base() * limb_base() * limb_base() - 1) as nat;
    }
    cost.to_u128()
}

/// The capital of a leg as a count of units for the cost limit, clamped to `u128::MAX`.
pub fn capital_units(active_capital: Uint256) -> (r: u128)
    ensures
        r == (if active_capital.value() <= u128::MAX {
            active_capital.value()
        } else {
            u128::MAX as nat
        }),
{
    active_capital.saturating_to_u128()
}

/// A gas cost whose 256-bit product saturates is never priced, so the cost limit
/// never admits it.
pub proof fn lemma_saturated_cost_unpriced(gas_estimate: Uint256, gas_price: Uint256)
    requires
        gas_estimate.value() * gas_price.value() >= max_value(),
    ensures
        priced_gas_cost(gas_estimate.value(), gas_price.value()) is None,
{
    assert(limb_base() * limb_base() <= max_value()) by (nonlinear_arith)
        requires limb_base() == 0x1_0000_0000_0000_0000nat, max_value() == (limb_base()
            * limb_base() * limb_base() * limb_base() - 1) as nat;
}

} // verus!
