//! The rules that map a pool's two legs and the current price to operations.
use crate::uint256::{amount, Uint256};
use crate::{Operation, Position};
use vstd::prelude::*;

verus! {

/// The legs' capitals differ by more than a tenth of the larger one.
pub open spec fn rebalance_due(long_capital: nat, hedge_capital: nat) -> bool {
    if long_capital > hedge_capital {
        (long_capital - hedge_capital) as nat > long_capital / 10
    } else {
        (hedge_capital - long_capital) as nat > hedge_capital / 10
    }
}

/// The long leg has room and the price is at or below its band.
pub open spec fn long_buy_due(p: Position, price: nat) -> bool {
    p.number < p.number_max && price <= amount(p.price_min@)
}

/// The long leg holds units and the price is at or above its band.
pub open spec fn long_sell_due(p: Position, price: nat) -> bool {
    p.number > 0 && price >= amount(p.price_max@)
}

/// The hedge leg has room and the price is at or above its band.
pub open spec fn hedge_sell_due(p: Position, price: nat) -> bool {
    p.number < p.number_max && price >= amount(p.price_max@)
}

/// The hedge leg holds units and the price is at or below its band.
pub open spec fn hedge_rebuy_due(p: Position, price: nat) -> bool {
    p.number > 0 && price <= amount(p.price_min@)
}

/// The rebalance step: `Rebalance` or nothing.
pub open spec fn rebalance_ops(long: Position, hedge: Position) -> Seq<Operation> {
    if rebalance_due(amount(long.active_capital@), amount(hedge.active_capital@)) {
        seq![Operation::Rebalance]
    } else {
        seq![]
    }
}

/// The long step: `LongBuy`, else `LongSell`, else nothing.
pub open spec fn long_ops(long: Position, price: nat) -> Seq<Operation> {
    if long_buy_due(long, price) {
        seq![Operation::LongBuy]
    } else if long_sell_due(long, price) {
        seq![Operation::LongSell]
    } else {
        seq![]
    }
}

/// The hedge step: `HedgeSell`, else `HedgeRebuy`, else nothing.
pub open spec fn hedge_ops(hedge: Position, price: nat) -> Seq<Operation> {
    if hedge_sell_due(hedge, price) {
        seq![Operation::HedgeSell]
    } else if hedge_rebuy_due(hedge, price) {
        seq![Operation::HedgeRebuy]
    } else {
        seq![]
    }
}

/// The operations for one pool, in order: rebalance, long leg, hedge leg.
pub open spec fn operations(long: Position, hedge: Position, price: nat) -> Seq<Operation> {
    rebalance_ops(long, hedge) + long_ops(long, price) + hedge_ops(hedge, price)
}

/// Whether the legs' capitals are skewed by more than a tenth of the larger.
pub fn needs_rebalance(long: &Position, hedge: &Position) -> (r: bool)
    ensures
        r == rebalance_due(amount(long.active_capital@), amount(hedge.active_capital@)),
{
    let long_capital = Uint256::parse_amount(&long.active_capital);
    let hedge_capital = Uint256::parse_amount(&hedge.active_capital);
    let ten = Uint256::from_u64(10);
    if !long_capital.le(hedge_capital) {
        let diff = long_capital.saturating_sub(hedge_capital);
        let tenth = long_capital.div(ten);
        !diff.le(tenth)
    } else {
        let diff = hedge_capital.saturating_sub(long_capital);
        let tenth = hedge_capital.div(ten);
        !diff.le(tenth)
    }
}

/// Whether the long leg should buy at `current_price`.
pub fn should_long_buy(position: &Position, current_price: Uint256) -> (r: bool)
    ensures
        r == long_buy_due(*position, current_price.value()),
{
    let price_min = Uint256::parse_amount(&position.price_min);
    position.number < position.number_max && current_price.le(price_min)
}

/// Whether the long leg should sell at `current_price`.
pub fn should_long_sell(position: &Position, current_price: Uint256) -> (r: bool)
    ensures
        r == long_sell_due(*position, current_price.value()),
{
    let price_max = Uint256::parse_amount(&position.price_max);
    position.number > 0 && price_max.le(current_price)
}

/// Whether the hedge leg should sell at `current_price`.
pub fn should_hedge_sell(position: &Position, current_price: Uint256) -> (r: bool)
    ensures
        r == hedge_sell_due(*position, current_price.value()),
{
    let price_max = Uint256::parse_amount(&position.price_max);
    position.number < position.number_max && price_max.le(current_price)
}

/// Whether the hedge leg should buy back at `current_price`.
pub fn should_hedge_rebuy(position: &Position, current_price: Uint256) -> (r: bool)
    ensures
        r == hedge_rebuy_due(*position, current_price.value()),
{
    let price_min = Uint256::parse_amount(&position.price_min);
    position.number > 0 && current_price.le(price_min)
}

/// The operations to attempt for a pool whose legs are `long` and `hedge`,
/// at `current_price`, in priority order.
pub fn evaluate(long: &Position, hedge: &Position, current_price: Uint256) -> (r: Vec<Operation>)
    ensures
        r@ == operations(*long, *hedge, current_price.value()),
{
    let mut ops: Vec<Operation> = Vec::new();
    if needs_rebalance(long, hedge) {
        ops.push(Operation::Rebalance);
    }
    assert(ops@ == rebalance_ops(*long, *hedge));
    if should_long_buy(long, current_price) {
        ops.push(Operation::LongBuy);
    } else if should_long_sell(long, current_price) {
        ops.push(Operation::LongSell);
    }
    assert(ops@ == rebalance_ops(*long, *hedge) + long_ops(*long, current_price.value()));
    if should_hedge_sell(hedge, current_price) {
        ops.push(Operation::HedgeSell);
    } else if should_hedge_rebuy(hedge, current_price) {
        ops.push(Operation::HedgeRebuy);
    }
    ops
}

/// Legs of equal capital never call for a rebalance, at any price.
pub proof fn lemma_equal_capital_no_rebalance(long: Position, hedge: Position, price: nat)
    requires
        amount(long.active_capital@) == amount(hedge.active_capital@),
    ensures
        !operations(long, hedge, price).contains(Operation::Rebalance),
{
    lemma_operations_members(long, hedge, price);
}

/// A long leg at capacity never buys, at any price.
pub proof fn lemma_full_long_never_buys(long: Position, hedge: Position, price: nat)
    requires
        long.number == long.number_max,
    ensures
        !operations(long, hedge, price).contains(Operation::LongBuy),
{
    lemma_operations_members(long, hedge, price);
}

/// One call never asks both to buy and to sell the long leg, nor both to sell
/// and to buy back the hedge leg.
pub proof fn lemma_legs_exclusive(long: Position, hedge: Position, price: nat)
    ensures
        !(operations(long, hedge, price).contains(Operation::LongBuy) && operations(
            long,
            hedge,
            price,
        ).contains(Operation::LongSell)),
        !(operations(long, hedge, price).contains(Operation::HedgeSell) && operations(
            long,
            hedge,
            price,
        ).contains(Operation::HedgeRebuy)),
{
    lemma_operations_members(long, hedge, price);
}

/// Which operations the result holds, each by the rule that emits it.
pub proof fn lemma_operations_members(long: Position, hedge: Position, price: nat)
    ensures
        operations(long, hedge, price).contains(Operation::Rebalance) <==> rebalance_due(
            amount(long.active_capital@),
            amount(hedge.active_capital@),
        ),
        operations(long, hedge, price).contains(Operation::LongBuy) <==> long_buy_due(long, price),
        operations(long, hedge, price).contains(Operation::LongSell) <==> (!long_buy_due(long, price)
            && long_sell_due(long, price)),
        operations(long, hedge, price).contains(Operation::HedgeSell) <==> hedge_sell_due(
            hedge,
            price,
        ),
        operations(long, hedge, price).contains(Operation::HedgeRebuy) <==> (!hedge_sell_due(
            hedge,
            price,
        ) && hedge_rebuy_due(hedge, price)),
{
    let a = rebalance_ops(long, hedge);
    let b = long_ops(long, price);
    let c = hedge_ops(hedge, price);
    let ops = operations(long, hedge, price);
    assert forall|op: Operation| ops.contains(op) <==> (a.contains(op) || b.contains(op) || c.contains(op)) by {
        if ops.contains(op) {
            let i = choose|i: int| 0 <= i < ops.len() && ops[i] == op;
            if i < a.len() {
                assert(a[i] == op);
            } else if i < a.len() + b.len() {
                assert(b[i - a.len()] == op);
            } else {
                assert(c[i - a.len() - b.len()] == op);
            }
        }
        if a.contains(op) {
            let i = choose|i: int| 0 <= i < a.len() && a[i] == op;
            assert(ops[i] == op);
        }
        if b.contains(op) {
            let i = choose|i: int| 0 <= i < b.len() && b[i] == op;
            assert(ops[a.len() + i] == op);
        }
        if c.contains(op) {
            let i = choose|i: int| 0 <= i < c.len() && c[i] == op;
            assert(ops[a.len() + b.len() + i] == op);
        }
    }
    assert(seq![Operation::Rebalance][0] == Operation::Rebalance);
    assert(seq![Operation::LongBuy][0] == Operation::LongBuy);
    assert(seq![Operation::LongSell][0] == Operation::LongSell);
    assert(seq![Operation::HedgeSell][0] == Operation::HedgeSell);
    assert(seq![Operation::HedgeRebuy][0] == Operation::HedgeRebuy);
}

} // verus!
