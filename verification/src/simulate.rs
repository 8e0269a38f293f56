//! Rule-based traders for repeated rounds of the auction: each trader bids a
//! threshold and adapts it from round to round.

use vstd::prelude::*;
use crate::field::{Fp, M};
use crate::node::Branch;
use crate::auction::{
    allocation, allocation_defined, allocation_for, branch_of, clear_market, derived,
    market_outcome, set_share_for_send, set_share_from_draws, shares_drawn, shares_of,
};

verus! {

/// A trader with a valuation (a buyer's worth, a seller's cost) and
/// a public bid: threshold and quantity.
#[derive(Debug, Clone, Copy, PartialEq)]
pub struct Trader {
    pub is_buyer: bool,
    pub true_value: u64,
    pub threshold: u64,
    pub quantity: u64,
}

/// The bids `(threshold, quantity, is_buyer)` of a list of traders.
pub open spec fn bids_of(traders: Seq<Trader>) -> Seq<(u64, u64, bool)> {
    traders.map_values(|t: Trader| (t.threshold, t.quantity, t.is_buyer))
}

/// A trader's margin per unit at `price`: worth minus price for a buyer, price
/// minus cost for a seller, in `i64` as the trader computes it.
pub open spec fn margin(t: Trader, price: u64) -> int {
    if t.is_buyer {
        (t.true_value as i64) - (price as i64)
    } else {
        (price as i64) - (t.true_value as i64)
    }
}

/// The threshold after one adaptation step. Without a trade the threshold
/// moves halfway towards the valuation. With a trade it stays, or, under
/// the aggressive rule, moves 5 yen in the trader's favour.
pub open spec fn adjusted_threshold(t: Trader, traded: bool, aggressive: bool) -> u64 {
    if !traded {
        if t.is_buyer {
            (t.threshold + (t.true_value - t.threshold) / 2) as u64
        } else {
            (t.threshold - (t.threshold - t.true_value) / 2) as u64
        }
    } else if aggressive {
        if t.is_buyer {
            (t.threshold - 5) as u64
        } else {
            (t.threshold + 5) as u64
        }
    } else {
        t.threshold
    }
}

/// The adaptation step can be taken without underflow or overflow.
pub open spec fn adjust_defined(t: Trader, traded: bool, aggressive: bool) -> bool {
    if !traded {
        if t.is_buyer {
            t.threshold <= t.true_value
        } else {
            t.true_value <= t.threshold
        }
    } else if aggressive {
        if t.is_buyer {
            t.threshold >= 5
        } else {
            t.threshold + 5 <= u64::MAX
        }
    } else {
        true
    }
}

/// `after` is `before` with only its threshold set to `threshold`.
pub open spec fn with_threshold(after: Trader, before: Trader, threshold: u64) -> bool {
    &&& after.is_buyer == before.is_buyer
    &&& after.true_value == before.true_value
    &&& after.quantity == before.quantity
    &&& after.threshold == threshold
}

impl Trader {
    pub fn new(is_buyer: bool, true_value: u64, threshold: u64, quantity: u64) -> (r: Trader)
        ensures
            r.is_buyer == is_buyer,
            r.true_value == true_value,
            r.threshold == threshold,
            r.quantity == quantity,
    {
        Trader { is_buyer: is_buyer, true_value: true_value, threshold: threshold, quantity: quantity }
    }

    /// The trader's bid, split into one share vector per node, and its side;
    /// the first two shares of each band are drawn uniformly from `[0, M)`.
    pub fn trade(self) -> (r: ([[Fp; 9]; 3], Branch))
        ensures
            r.1 == branch_of(self.is_buyer),
            shares_of(r.0[0], r.0[1], r.0[2], derived(self.threshold, self.quantity, self.is_buyer)),
            forall|j: int|
                0 <= j < 9 ==> #[trigger] r.0[2][j]@ == (derived(self.threshold, self.quantity, self.is_buyer)[j]
                    - r.0[0][j]@ - r.0[1][j]@) % (M as int),
    {
        set_share_for_send(self.threshold, self.quantity, self.is_buyer)
    }

    /// The trader's bid split with the given draws, and its side.
    pub fn trade_from_draws(self, draws_1: &[u64; 9], draws_2: &[u64; 9]) -> (r: ([[Fp; 9]; 3], Branch))
        requires
            forall|j: int| 0 <= j < 9 ==> #[trigger] draws_1[j] < M && draws_2[j] < M,
        ensures
            r.1 == branch_of(self.is_buyer),
            shares_drawn(
                r.0[0],
                r.0[1],
                r.0[2],
                derived(self.threshold, self.quantity, self.is_buyer),
                *draws_1,
                *draws_2,
            ),
            shares_of(r.0[0], r.0[1], r.0[2], derived(self.threshold, self.quantity, self.is_buyer)),
    {
        set_share_from_draws(self.threshold, self.quantity, self.is_buyer, draws_1, draws_2)
    }

    /// Profit of trading `quantity` units at `price`: margin times quantity.
    pub fn profit(self, price: u64, quantity: u64) -> (r: i64)
        requires
            i64::MIN <= margin(self, price) <= i64::MAX,
            i64::MIN <= margin(self, price) * (quantity as i64) <= i64::MAX,
        ensures
            r == margin(self, price) * (quantity as i64),
    {
        if self.is_buyer {
            (self.true_value as i64 - price as i64) * quantity as i64
        } else {
            (price as i64 - self.true_value as i64) * quantity as i64
        }
    }

    /// Adaptation rule 1: after a trade keep the threshold; otherwise move it
    /// halfway towards the valuation.
    pub fn adjust(&mut self, traded: bool)
        requires
            adjust_defined(*old(self), traded, false),
        ensures
            with_threshold(*final(self), *old(self), adjusted_threshold(*old(self), traded, false)),
    {
        if self.is_buyer {
            if !traded {
                let price_delta: u64 = self.true_value - self.threshold;
                self.threshold = self.threshold + price_delta / 2;
            }
        } else {
            if !traded {
                let price_delta: u64 = self.threshold - self.true_value;
                self.threshold = self.threshold - price_delta / 2;
            }
        }
    }

    /// Adaptation rule 2: after a trade move the threshold 5 yen in the
    /// trader's favour; otherwise move it halfway towards the valuation.
    pub fn adjust_aggressive(&mut self, traded: bool)
        requires
            adjust_defined(*old(self), traded, true),
        ensures
            with_threshold(*final(self), *old(self), adjusted_threshold(*old(self), traded, true)),
    {
        if self.is_buyer {
            if !traded {
                let price_delta: u64 = self.true_value - self.threshold;
                self.threshold = self.threshold + price_delta / 2;
            } else {
                self.threshold = self.threshold - 5;
            }
        } else {
            if !traded {
                let price_delta: u64 = self.threshold - self.true_value;
                self.threshold = self.threshold - price_delta / 2;
            } else {
                self.threshold = self.threshold + 5;
            }
        }
    }
}

/// Whether an adaptation step can be taken.
pub fn adjust_ok(t: &Trader, traded: bool, aggressive: bool) -> (r: bool)
    ensures
        r == adjust_defined(*t, traded, aggressive),
{
    if !traded {
        if t.is_buyer {
            t.threshold <= t.true_value
        } else {
            t.true_value <= t.threshold
        }
    } else if aggressive {
        if t.is_buyer {
            t.threshold >= 5
        } else {
            t.threshold <= u64::MAX - 5
        }
    } else {
        true
    }
}

/// One round of the market among the traders: clearing price, volume, total
/// demand and total supply at the clearing band.
pub fn round(traders: &[Trader]) -> (r: Option<(u64, u64, u64, u64)>)
    ensures
        r == market_outcome(bids_of(traders@)),
{
    let mut bids: Vec<(u64, u64, bool)> = Vec::new();
    for i in 0..traders.len()
        invariant
            bids@ =~= bids_of(traders@.take(i as int)),
    {
        let trader: Trader = traders[i];
        bids.push((trader.threshold, trader.quantity, trader.is_buyer));
        proof {
            assert(traders@.take(i + 1) =~= traders@.take(i as int).push(traders@[i as int]));
        }
    }
    proof {
        assert(traders@.take(traders@.len() as int) =~= traders@);
    }
    clear_market(bids.as_slice())
}

/// Plays one round and lets every trader adapt: returns the clearing price,
/// the volume and each trader's allocation (in order), and updates every
/// threshold by the chosen rule, a trader counting as traded when its
/// allocation is positive. Without a clearing band nothing changes.
pub fn play_round(traders: &mut Vec<Trader>, aggressive: bool) -> (r: Option<(u64, u64, Vec<u64>)>)
    requires
        market_outcome(bids_of(old(traders)@)) matches Some(o) ==> forall|i: int|
            0 <= i < old(traders)@.len() ==> {
                let t = #[trigger] old(traders)@[i];
                &&& allocation_defined(o, t.threshold, t.quantity, t.is_buyer)
                &&& adjust_defined(
                    t,
                    allocation(o, t.threshold, t.quantity, t.is_buyer) > 0,
                    aggressive,
                )
            },
    ensures
        match market_outcome(bids_of(old(traders)@)) {
            None => r is None && final(traders)@ == old(traders)@,
            Some(o) => r matches Some(res) && {
                &&& res.0 == o.0
                &&& res.1 == o.1
                &&& res.2@.len() == old(traders)@.len()
                &&& final(traders)@.len() == old(traders)@.len()
                &&& forall|i: int|
                    0 <= i < old(traders)@.len() ==> {
                        let t = #[trigger] old(traders)@[i];
                        let a = allocation(o, t.threshold, t.quantity, t.is_buyer);
                        &&& res.2@[i] == a
                        &&& with_threshold(
                            final(traders)@[i],
                            t,
                            adjusted_threshold(t, a > 0, aggressive),
                        )
                    }
            },
        },
{
    let outcome: Option<(u64, u64, u64, u64)> = round(traders.as_slice());
    match outcome {
        None => None,
        Some(o) => {
            let mut quantities: Vec<u64> = Vec::new();
            let n: usize = traders.len();
            let ghost start = traders@;
            for i in 0..n
                invariant
                    n == traders@.len(),
                    start.len() == n,
                    market_outcome(bids_of(start)) == Some(o),
                    forall|k: int|
                        0 <= k < n ==> {
                            let t = #[trigger] start[k];
                            &&& allocation_defined(o, t.threshold, t.quantity, t.is_buyer)
                            &&& adjust_defined(
                                t,
                                allocation(o, t.threshold, t.quantity, t.is_buyer) > 0,
                                aggressive,
                            )
                        },
                    quantities@.len() == i,
                    forall|k: int| i <= k < n ==> #[trigger] traders@[k] == start[k],
                    forall|k: int|
                        0 <= k < i ==> {
                            let t = #[trigger] start[k];
                            let a = allocation(o, t.threshold, t.quantity, t.is_buyer);
                            &&& quantities@[k] == a
                            &&& with_threshold(
                                traders@[k],
                                t,
                                adjusted_threshold(t, a > 0, aggressive),
                            )
                        },
            {
                let mut trader: Trader = traders[i];
                let trade_quantity: u64 = allocation_for(
                    o,
                    trader.threshold,
                    trader.quantity,
                    trader.is_buyer,
                );
                let is_trade: bool = trade_quantity > 0;
                if aggressive {
                    trader.adjust_aggressive(is_trade);
                } else {
                    trader.adjust(is_trade);
                }
                quantities.push(trade_quantity);
                traders.set(i, trader);
            }
            Some((o.0, o.1, quantities))
        },
    }
}

/// Without a trade, either rule moves a trader's threshold towards its
/// valuation without passing it: up for a buyer, down for a seller.
pub proof fn lemma_adjust_towards_valuation(t: Trader, aggressive: bool)
    requires
        adjust_defined(t, false, aggressive),
    ensures
        t.is_buyer ==> t.threshold <= adjusted_threshold(t, false, aggressive) <= t.true_value,
        !t.is_buyer ==> t.true_value <= adjusted_threshold(t, false, aggressive) <= t.threshold,
{
}

/// Under the first rule a trade keeps the threshold; under the aggressive
/// rule it moves 5 yen in the trader's favour: down for a buyer, up for a
/// seller.
pub proof fn lemma_adjust_after_trade(t: Trader)
    requires
        adjust_defined(t, true, true),
    ensures
        adjusted_threshold(t, true, false) == t.threshold,
        t.is_buyer ==> adjusted_threshold(t, true, true) + 5 == t.threshold,
        !t.is_buyer ==> adjusted_threshold(t, true, true) == t.threshold + 5,
{
}

/// Without a trade the threshold closes half the gap to the valuation,
/// rounded towards the old threshold, whatever the gap: a buyer moves up by
/// `m` and a seller down by `m`, where `2 * m` is the gap or one less.
pub proof fn lemma_adjust_halves_the_gap(t: Trader, aggressive: bool)
    requires
        adjust_defined(t, false, aggressive),
    ensures
        t.is_buyer ==> {
            let m = adjusted_threshold(t, false, aggressive) - t.threshold;
            let gap = t.true_value - t.threshold;
            m >= 0 && 2 * m <= gap <= 2 * m + 1
        },
        !t.is_buyer ==> {
            let m = t.threshold - adjusted_threshold(t, false, aggressive);
            let gap = t.threshold - t.true_value;
            m >= 0 && 2 * m <= gap <= 2 * m + 1
        },
{
}

} // verus!
