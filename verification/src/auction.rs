//! The sealed double auction on a fixed price grid: bids become per-band
//! quantities, are secret-shared across three nodes, summed there, and the
//! recombined demand and supply curves give the clearing price and volume.

use vstd::prelude::*;
use vstd::arithmetic::div_mod::*;
use crate::field::{Fp, M, shares_from_draws, random_range, lemma_fp_view_injective};
use crate::node::{Node, Branch, band_share_sum, lemma_tally_step};

verus! {

/// The price grid (yen), lowest first.
pub const PRICES: [u64; 9] = [95, 100, 105, 110, 115, 120, 125, 130, 135];

/// A quantity for each band of the price grid.
#[derive(PartialEq, Eq, Debug, Clone, Copy)]
pub struct PriceQuantity {
    quantities: [Fp; 9],
}

impl View for PriceQuantity {
    type V = Seq<nat>;

    closed spec fn view(&self) -> Seq<nat> {
        Seq::new(9, |j: int| self.quantities[j]@)
    }
}

/// The residues of an array of field elements.
pub open spec fn residues(a: [Fp; 9]) -> Seq<nat> {
    Seq::new(9, |j: int| a[j]@)
}

/// A bid with `threshold` on the given side takes part at price `price`:
/// a buyer at prices up to its threshold, a seller at prices from it.
pub open spec fn accepts(price: u64, threshold: u64, is_buyer: bool) -> bool {
    if is_buyer {
        price <= threshold
    } else {
        price >= threshold
    }
}

/// What a bid puts into band `j`: its quantity (as a residue) where it takes
/// part, zero elsewhere.
pub open spec fn band_quantity(threshold: u64, quantity: u64, is_buyer: bool, j: int) -> nat {
    if accepts(PRICES[j], threshold, is_buyer) {
        (quantity % M) as nat
    } else {
        0
    }
}

/// The per-band quantities of a single bid.
pub open spec fn derived(threshold: u64, quantity: u64, is_buyer: bool) -> Seq<nat> {
    Seq::new(9, |j: int| band_quantity(threshold, quantity, is_buyer, j))
}

/// The total that the bids of one side put into band `j`, modulo `M`.
/// A participant is `(threshold, quantity, is_buyer)`.
pub open spec fn side_total(ps: Seq<(u64, u64, bool)>, buyer_side: bool, j: int) -> nat
    decreases ps.len(),
{
    if ps.len() == 0 {
        0
    } else {
        let p = ps.last();
        (side_total(ps.drop_last(), buyer_side, j) + (if p.2 == buyer_side {
            band_quantity(p.0, p.1, p.2, j)
        } else {
            0
        })) % (M as nat)
    }
}

/// The demand curve of a set of bids: total buyer quantity in each band.
pub open spec fn demand_curve(ps: Seq<(u64, u64, bool)>) -> Seq<nat> {
    Seq::new(9, |j: int| side_total(ps, true, j))
}

/// The supply curve of a set of bids: total seller quantity in each band.
pub open spec fn supply_curve(ps: Seq<(u64, u64, bool)>) -> Seq<nat> {
    Seq::new(9, |j: int| side_total(ps, false, j))
}

/// The lowest band at or above `from` where demand does not exceed supply.
pub open spec fn first_clearing_band(d: Seq<nat>, s: Seq<nat>, from: int) -> Option<int>
    decreases 9 - from,
{
    if from >= 9 {
        None
    } else if d[from] <= s[from] {
        Some(from)
    } else {
        first_clearing_band(d, s, from + 1)
    }
}

/// The clearing price and the demand there, if some band clears.
pub open spec fn clearing(d: Seq<nat>, s: Seq<nat>) -> Option<(u64, u64)> {
    match first_clearing_band(d, s, 0) {
        Some(j) => Some((PRICES[j], d[j] as u64)),
        None => None,
    }
}

/// The outcome of a market over the given bids: clearing price, traded
/// volume, and total demand and total supply at the clearing band.
pub open spec fn market_outcome(ps: Seq<(u64, u64, bool)>) -> Option<(u64, u64, u64, u64)> {
    let d = demand_curve(ps);
    let s = supply_curve(ps);
    match first_clearing_band(d, s, 0) {
        Some(j) => Some((PRICES[j], d[j] as u64, d[j] as u64, s[j] as u64)),
        None => None,
    }
}

/// The pro-rata allocation of a bid in a cleared market `(price, volume,
/// total_demand, total_supply)` can be computed without overflowing.
pub open spec fn allocation_defined(
    outcome: (u64, u64, u64, u64),
    threshold: u64,
    quantity: u64,
    is_buyer: bool,
) -> bool {
    accepts(outcome.0, threshold, is_buyer) ==> outcome.1 * quantity <= u64::MAX
}

/// The pro-rata allocation of a bid: `volume * quantity / total` of its side
/// where it takes part at the clearing price and that side's total there is
/// positive, zero otherwise.
pub open spec fn allocation(
    outcome: (u64, u64, u64, u64),
    threshold: u64,
    quantity: u64,
    is_buyer: bool,
) -> u64 {
    let total = if is_buyer { outcome.2 } else { outcome.3 };
    if accepts(outcome.0, threshold, is_buyer) && total > 0 {
        (outcome.1 * quantity / (total as int)) as u64
    } else {
        0
    }
}

/// The three share vectors together stand for `values`.
pub open spec fn shares_of(s1: [Fp; 9], s2: [Fp; 9], s3: [Fp; 9], values: Seq<nat>) -> bool {
    forall|j: int| 0 <= j < 9 ==> #[trigger] band_share_sum(s1, s2, s3, j) == values[j]
}

/// Band `j` of the three vectors holds the shares that the draws
/// `draws_1[j]` and `draws_2[j]` give for `values[j]`: the draws themselves
/// and the rest modulo `M`.
pub open spec fn band_drawn(
    s1: [Fp; 9],
    s2: [Fp; 9],
    s3: [Fp; 9],
    values: Seq<nat>,
    draws_1: [u64; 9],
    draws_2: [u64; 9],
    j: int,
) -> bool {
    &&& s1[j]@ == draws_1[j]
    &&& s2[j]@ == draws_2[j]
    &&& s3[j]@ == (values[j] - draws_1[j] - draws_2[j]) % (M as int)
}

/// Every band of the three vectors holds the shares given by the draws.
pub open spec fn shares_drawn(
    s1: [Fp; 9],
    s2: [Fp; 9],
    s3: [Fp; 9],
    values: Seq<nat>,
    draws_1: [u64; 9],
    draws_2: [u64; 9],
) -> bool {
    forall|j: int| 0 <= j < 9 ==> #[trigger] band_drawn(s1, s2, s3, values, draws_1, draws_2, j)
}

/// Two draws from `[0, M)` for each band, band by band.
fn draw_masks() -> (r: ([u64; 9], [u64; 9]))
    ensures
        forall|j: int| 0 <= j < 9 ==> #[trigger] r.0[j] < M && r.1[j] < M,
{
    let mut draws_1: [u64; 9] = [0u64;9];
    let mut draws_2: [u64; 9] = [0u64;9];
    for i in 0..9
        invariant
            forall|j: int| 0 <= j < i ==> #[trigger] draws_1[j] < M && draws_2[j] < M,
    {
        let ghost o1 = draws_1;
        let ghost o2 = draws_2;
        draws_1[i] = random_range(0, M);
        draws_2[i] = random_range(0, M);
        assert forall|j: int| 0 <= j < i + 1 implies #[trigger] draws_1[j] < M && draws_2[j] < M by {
            if j < i {
                assert(o1[j] < M && o2[j] < M);
            }
        }
    }
    (draws_1, draws_2)
}

impl PriceQuantity {
    /// Two values with the same per-band residues are equal.
    pub proof fn lemma_view_injective(a: PriceQuantity, b: PriceQuantity)
        ensures
            a@ == b@ ==> a == b,
    {
        if a@ == b@ {
            assert forall|j: int| 0 <= j < 9 implies a.quantities[j] == b.quantities[j] by {
                assert(a@[j] == b@[j]);
                lemma_fp_view_injective(a.quantities[j], b.quantities[j]);
            }
            assert(a.quantities =~= b.quantities);
        }
    }

    pub fn new(values: [Fp; 9]) -> (r: PriceQuantity)
        ensures
            r@ == residues(values),
    {
        PriceQuantity { quantities: values }
    }

    /// Each quantity reduced modulo `M`.
    pub fn from_quantities(values: &[u64; 9]) -> (r: PriceQuantity)
        ensures
            r@ == Seq::new(9, |j: int| (values[j] % M) as nat),
    {
        let mut quantities: [Fp; 9] = [Fp::zero();9];
        for i in 0..9
            invariant
                forall|j: int| 0 <= j < i ==> #[trigger] quantities[j]@ == values[j] % M,
        {
            quantities[i] = Fp::new(values[i]);
        }
        let r: PriceQuantity = PriceQuantity::new(quantities);
        assert(r@ =~= Seq::new(9, |j: int| (values[j] % M) as nat));
        r
    }

    /// The per-band quantities as integers.
    pub fn to_quantities(&self) -> (r: [u64; 9])
        ensures
            forall|j: int| 0 <= j < 9 ==> #[trigger] r[j] == self@[j],
    {
        let mut r: [u64; 9] = [0u64;9];
        for i in 0..9
            invariant
                forall|j: int| 0 <= j < i ==> #[trigger] r[j] == self@[j],
        {
            r[i] = self.quantities[i].value();
        }
        r
    }

    /// Splits every band into three shares, one vector per node, with the
    /// given draws: band `j` gets the shares `draws_1[j]`, `draws_2[j]` and
    /// the rest (see `shares_from_draws`).
    pub fn quantities_share_from_draws(self, draws_1: &[u64; 9], draws_2: &[u64; 9]) -> (r: (
        [Fp; 9],
        [Fp; 9],
        [Fp; 9],
    ))
        requires
            forall|j: int| 0 <= j < 9 ==> #[trigger] draws_1[j] < M && draws_2[j] < M,
        ensures
            shares_drawn(r.0, r.1, r.2, self@, *draws_1, *draws_2),
            shares_of(r.0, r.1, r.2, self@),
    {
        let mut share_1: [Fp; 9] = [Fp::zero();9];
        let mut share_2: [Fp; 9] = [Fp::zero();9];
        let mut share_3: [Fp; 9] = [Fp::zero();9];
        for i in 0..9
            invariant
                forall|j: int| 0 <= j < 9 ==> #[trigger] draws_1[j] < M && draws_2[j] < M,
                forall|j: int|
                    0 <= j < i ==> #[trigger] band_drawn(share_1, share_2, share_3, self@, *draws_1, *draws_2, j),
                forall|j: int|
                    0 <= j < i ==> #[trigger] band_share_sum(share_1, share_2, share_3, j)
                        == self@[j],
        {
            let ghost o1 = share_1;
            let ghost o2 = share_2;
            let ghost o3 = share_3;
            assert(draws_1[i as int] < M && draws_2[i as int] < M);
            let share: [Fp; 3] = shares_from_draws(self.quantities[i], draws_1[i], draws_2[i]);
            share_1[i] = share[0];
            share_2[i] = share[1];
            share_3[i] = share[2];
            assert(self@[i as int] == self.quantities[i as int]@);
            assert(band_drawn(share_1, share_2, share_3, self@, *draws_1, *draws_2, i as int));
            assert forall|j: int| 0 <= j < i implies #[trigger] band_share_sum(
                share_1,
                share_2,
                share_3,
                j,
            ) == self@[j] by {
                assert(band_share_sum(o1, o2, o3, j) == self@[j]);
            }
            assert forall|j: int| 0 <= j < i + 1 implies #[trigger] band_drawn(
                share_1,
                share_2,
                share_3,
                self@,
                *draws_1,
                *draws_2,
                j,
            ) by {
                if j < i {
                    assert(band_drawn(o1, o2, o3, self@, *draws_1, *draws_2, j));
                }
            }
        }
        (share_1, share_2, share_3)
    }

    /// Splits every band into three shares, one vector per node; the first
    /// two of each band are drawn uniformly from `[0, M)` and the third is
    /// the rest.
    pub fn quantities_share(self) -> (r: ([Fp; 9], [Fp; 9], [Fp; 9]))
        ensures
            shares_of(r.0, r.1, r.2, self@),
            forall|j: int|
                0 <= j < 9 ==> #[trigger] r.2[j]@ == (self@[j] - r.0[j]@ - r.1[j]@) % (M as int),
    {
        let (draws_1, draws_2) = draw_masks();
        let r = self.quantities_share_from_draws(&draws_1, &draws_2);
        assert forall|j: int| 0 <= j < 9 implies #[trigger] r.2[j]@ == (self@[j] - r.0[j]@
            - r.1[j]@) % (M as int) by {
            assert(band_drawn(r.0, r.1, r.2, self@, draws_1, draws_2, j));
        }
        r
    }

    /// Recombines three share vectors band by band.
    pub fn quantities_join(share_1: &[Fp; 9], share_2: &[Fp; 9], share_3: &[Fp; 9]) -> (r:
        PriceQuantity)
        ensures
            forall|j: int|
                0 <= j < 9 ==> #[trigger] r@[j] == band_share_sum(*share_1, *share_2, *share_3, j),
    {
        let mut values: [Fp; 9] = [Fp::zero();9];
        for i in 0..9
            invariant
                forall|j: int|
                    0 <= j < i ==> #[trigger] values[j]@ == band_share_sum(*share_1, *share_2, *share_3, j),
        {
            values[i] = share_1[i] + share_2[i] + share_3[i];
            proof {
                let m: int = M as int;
                let a: int = share_1[i as int]@ as int;
                let b: int = share_2[i as int]@ as int;
                let c: int = share_3[i as int]@ as int;
                lemma_add_mod_noop_right(c, a + b, m);
            }
        }
        PriceQuantity { quantities: values }
    }
}

/// Joining the shares of a split gives back the split value.
pub proof fn lemma_join_of_share(pq: PriceQuantity, s1: [Fp; 9], s2: [Fp; 9], s3: [Fp; 9], r: PriceQuantity)
    requires
        shares_of(s1, s2, s3, pq@),
        forall|j: int| 0 <= j < 9 ==> #[trigger] r@[j] == band_share_sum(s1, s2, s3, j),
    ensures
        r == pq,
{
    assert(r@ =~= pq@);
    PriceQuantity::lemma_view_injective(r, pq);
}

/// The per-band quantities of one bid: its quantity in every band where it
/// takes part (up to the threshold for a buyer, from it for a seller).
pub fn derive(threshold: u64, quantity: u64, is_buyer: bool) -> (r: PriceQuantity)
    ensures
        r@ == derived(threshold, quantity, is_buyer),
{
    let mut quantities: [Fp; 9] = [Fp::zero();9];
    for i in 0..9
        invariant
            forall|j: int|
                0 <= j < i ==> #[trigger] quantities[j]@ == band_quantity(
                    threshold,
                    quantity,
                    is_buyer,
                    j,
                ),
            forall|j: int| i <= j < 9 ==> #[trigger] quantities[j]@ == 0,
    {
        let price: u64 = PRICES[i];
        if is_buyer {
            if price <= threshold {
                quantities[i] = Fp::new(quantity);
            }
        } else {
            if price >= threshold {
                quantities[i] = Fp::new(quantity);
            }
        }
    }
    let r: PriceQuantity = PriceQuantity::new(quantities);
    assert(r@ =~= derived(threshold, quantity, is_buyer));
    r
}

/// The lowest band where demand does not exceed supply, if any.
fn first_clearing(demand: &PriceQuantity, supply: &PriceQuantity) -> (r: Option<usize>)
    ensures
        r matches Some(j) ==> j < 9 && first_clearing_band(demand@, supply@, 0) == Some(j as int),
        r is None ==> first_clearing_band(demand@, supply@, 0) is None,
{
    for i in 0..9
        invariant
            first_clearing_band(demand@, supply@, 0) == first_clearing_band(demand@, supply@, i as int),
    {
        if demand.quantities[i].value() <= supply.quantities[i].value() {
            return Some(i);
        }
    }
    None
}

/// The clearing price and the demand there: the first band of the grid, from
/// the lowest price, where demand does not exceed supply.
pub fn clearing_price(demand: PriceQuantity, supply: PriceQuantity) -> (r: Option<(u64, u64)>)
    ensures
        r == clearing(demand@, supply@),
{
    match first_clearing(&demand, &supply) {
        Some(j) => Some((PRICES[j], demand.quantities[j].value())),
        None => None,
    }
}

/// The pro-rata share `traded * desired / total`, rounded down.
pub fn allocate(desired: u64, total: u64, traded: u64) -> (r: u64)
    requires
        total > 0,
        traded * desired <= u64::MAX,
    ensures
        r == traded * desired / (total as int),
{
    traded * desired / total
}

/// Whether the allocation of a bid in a cleared market can be computed.
pub fn allocation_ok(outcome: (u64, u64, u64, u64), threshold: u64, quantity: u64, is_buyer: bool) -> (r:
    bool)
    ensures
        r == allocation_defined(outcome, threshold, quantity, is_buyer),
{
    let (price, volume, _, _) = outcome;
    let takes_part: bool = if is_buyer {
        price <= threshold
    } else {
        price >= threshold
    };
    !takes_part || volume.checked_mul(quantity).is_some()
}

/// The allocation of one bid in a cleared market.
pub fn allocation_for(outcome: (u64, u64, u64, u64), threshold: u64, quantity: u64, is_buyer: bool) -> (r:
    u64)
    requires
        allocation_defined(outcome, threshold, quantity, is_buyer),
    ensures
        r == allocation(outcome, threshold, quantity, is_buyer),
{
    let (price, volume, total_demand, total_supply) = outcome;
    if is_buyer {
        if price <= threshold && total_demand > 0 {
            return allocate(quantity, total_demand, volume);
        }
    } else {
        if price >= threshold && total_supply > 0 {
            return allocate(quantity, total_supply, volume);
        }
    }
    0
}

/// The branch a bid's shares go to.
pub open spec fn branch_of(is_buyer: bool) -> Branch {
    if is_buyer {
        Branch::Buyer
    } else {
        Branch::Seller
    }
}

/// The three share vectors (one per node) of a bid's per-band quantities for
/// the given draws, and the side they belong to.
pub fn set_share_from_draws(
    threshold: u64,
    quantity: u64,
    is_buyer: bool,
    draws_1: &[u64; 9],
    draws_2: &[u64; 9],
) -> (r: ([[Fp; 9]; 3], Branch))
    requires
        forall|j: int| 0 <= j < 9 ==> #[trigger] draws_1[j] < M && draws_2[j] < M,
    ensures
        r.1 == branch_of(is_buyer),
        shares_drawn(r.0[0], r.0[1], r.0[2], derived(threshold, quantity, is_buyer), *draws_1, *draws_2),
        shares_of(r.0[0], r.0[1], r.0[2], derived(threshold, quantity, is_buyer)),
{
    let pq: PriceQuantity = derive(threshold, quantity, is_buyer);
    let (s1, s2, s3) = pq.quantities_share_from_draws(draws_1, draws_2);
    let branch: Branch = if is_buyer {
        Branch::Buyer
    } else {
        Branch::Seller
    };
    ([s1, s2, s3], branch)
}

/// The three share vectors (one per node) of a bid's per-band quantities,
/// and the side they belong to; the first two shares of each band are drawn
/// uniformly from `[0, M)`.
pub fn set_share_for_send(threshold: u64, quantity: u64, is_buyer: bool) -> (r: (
    [[Fp; 9]; 3],
    Branch,
))
    ensures
        r.1 == branch_of(is_buyer),
        shares_of(r.0[0], r.0[1], r.0[2], derived(threshold, quantity, is_buyer)),
        forall|j: int|
            0 <= j < 9 ==> #[trigger] r.0[2][j]@ == (derived(threshold, quantity, is_buyer)[j]
                - r.0[0][j]@ - r.0[1][j]@) % (M as int),
{
    let (draws_1, draws_2) = draw_masks();
    let r = set_share_from_draws(threshold, quantity, is_buyer, &draws_1, &draws_2);
    assert forall|j: int| 0 <= j < 9 implies #[trigger] r.0[2][j]@ == (derived(
        threshold,
        quantity,
        is_buyer,
    )[j] - r.0[0][j]@ - r.0[1][j]@) % (M as int) by {
        assert(band_drawn(r.0[0], r.0[1], r.0[2], derived(threshold, quantity, is_buyer), draws_1, draws_2, j));
    }
    r
}

/// A side total is a residue.
proof fn lemma_side_total_reduced(ps: Seq<(u64, u64, bool)>, buyer_side: bool, j: int)
    ensures
        side_total(ps, buyer_side, j) < M,
{
}

/// Extending the bids by one bid of the other side leaves a side total as it
/// was.
proof fn lemma_side_total_other_side(ps: Seq<(u64, u64, bool)>, buyer_side: bool, j: int)
    requires
        ps.len() > 0,
        ps.last().2 != buyer_side,
    ensures
        side_total(ps, buyer_side, j) == side_total(ps.drop_last(), buyer_side, j),
{
    lemma_side_total_reduced(ps.drop_last(), buyer_side, j);
    lemma_small_mod(side_total(ps.drop_last(), buyer_side, j), M as nat);
}

/// Runs the auction over bids `(threshold, quantity, is_buyer)`: every bid is
/// turned into per-band quantities and split into three shares, each node
/// sums the shares it receives, and the recombined curves are cleared.
/// Returns the clearing price, the traded volume, and the total demand and
/// total supply in the clearing band.
pub fn clear_market(participants: &[(u64, u64, bool)]) -> (r: Option<(u64, u64, u64, u64)>)
    ensures
        r == market_outcome(participants@),
{
    let mut node_a: Node = Node::new();
    let mut node_b: Node = Node::new();
    let mut node_c: Node = Node::new();
    let n: usize = participants.len();
    proof {
        assert(participants@.take(0).len() == 0);
    }
    for i in 0..n
        invariant
            n == participants@.len(),
            forall|j: int|
                0 <= j < 9 ==> #[trigger] band_share_sum(
                    node_a.buyer_quantities,
                    node_b.buyer_quantities,
                    node_c.buyer_quantities,
                    j,
                ) == side_total(participants@.take(i as int), true, j),
            forall|j: int|
                0 <= j < 9 ==> #[trigger] band_share_sum(
                    node_a.seller_quantities,
                    node_b.seller_quantities,
                    node_c.seller_quantities,
                    j,
                ) == side_total(participants@.take(i as int), false, j),
    {
        let (threshold, quantity, is_buyer) = participants[i];
        let ghost prev_a = node_a;
        let ghost prev_b = node_b;
        let ghost prev_c = node_c;
        let (shares, branch) = set_share_for_send(threshold, quantity, is_buyer);
        node_a = node_a.add_share(shares[0], branch);
        node_b = node_b.add_share(shares[1], branch);
        node_c = node_c.add_share(shares[2], branch);
        proof {
            let pre = participants@.take(i as int);
            let post = participants@.take(i + 1);
            assert(post.drop_last() =~= pre);
            assert(post.last() == participants@[i as int]);
            assert forall|j: int| 0 <= j < 9 implies #[trigger] band_share_sum(
                node_a.buyer_quantities,
                node_b.buyer_quantities,
                node_c.buyer_quantities,
                j,
            ) == side_total(post, true, j) by {
                if is_buyer {
                    assert(band_share_sum(shares[0], shares[1], shares[2], j) == derived(
                        threshold,
                        quantity,
                        is_buyer,
                    )[j]);
                    lemma_tally_step(
                        prev_a.buyer_quantities[j]@,
                        prev_b.buyer_quantities[j]@,
                        prev_c.buyer_quantities[j]@,
                        shares[0][j]@,
                        shares[1][j]@,
                        shares[2][j]@,
                    );
                    assert(band_share_sum(
                        prev_a.buyer_quantities,
                        prev_b.buyer_quantities,
                        prev_c.buyer_quantities,
                        j,
                    ) == side_total(pre, true, j));
                } else {
                    lemma_side_total_other_side(post, true, j);
                    assert(band_share_sum(
                        prev_a.buyer_quantities,
                        prev_b.buyer_quantities,
                        prev_c.buyer_quantities,
                        j,
                    ) == side_total(pre, true, j));
                }
            }
            assert forall|j: int| 0 <= j < 9 implies #[trigger] band_share_sum(
                node_a.seller_quantities,
                node_b.seller_quantities,
                node_c.seller_quantities,
                j,
            ) == side_total(post, false, j) by {
                if !is_buyer {
                    assert(band_share_sum(shares[0], shares[1], shares[2], j) == derived(
                        threshold,
                        quantity,
                        is_buyer,
                    )[j]);
                    lemma_tally_step(
                        prev_a.seller_quantities[j]@,
                        prev_b.seller_quantities[j]@,
                        prev_c.seller_quantities[j]@,
                        shares[0][j]@,
                        shares[1][j]@,
                        shares[2][j]@,
                    );
                    assert(band_share_sum(
                        prev_a.seller_quantities,
                        prev_b.seller_quantities,
                        prev_c.seller_quantities,
                        j,
                    ) == side_total(pre, false, j));
                } else {
                    lemma_side_total_other_side(post, false, j);
                    assert(band_share_sum(
                        prev_a.seller_quantities,
                        prev_b.seller_quantities,
                        prev_c.seller_quantities,
                        j,
                    ) == side_total(pre, false, j));
                }
            }
        }
    }
    let total: Node = Node::add_node(node_a, node_b, node_c);
    let demand: PriceQuantity = PriceQuantity::new(total.buyer_quantities);
    let supply: PriceQuantity = PriceQuantity::new(total.seller_quantities);
    proof {
        assert(participants@.take(n as int) =~= participants@);
        assert forall|j: int| 0 <= j < 9 implies #[trigger] demand@[j] == demand_curve(
            participants@,
        )[j] by {
            assert(band_share_sum(
                node_a.buyer_quantities,
                node_b.buyer_quantities,
                node_c.buyer_quantities,
                j,
            ) == side_total(participants@, true, j));
        }
        assert forall|j: int| 0 <= j < 9 implies #[trigger] supply@[j] == supply_curve(
            participants@,
        )[j] by {
            assert(band_share_sum(
                node_a.seller_quantities,
                node_b.seller_quantities,
                node_c.seller_quantities,
                j,
            ) == side_total(participants@, false, j));
        }
        assert(demand@ =~= demand_curve(participants@));
        assert(supply@ =~= supply_curve(participants@));
    }
    match first_clearing(&demand, &supply) {
        Some(j) => {
            let volume: u64 = demand.quantities[j].value();
            let total_supply: u64 = supply.quantities[j].value();
            Some((PRICES[j], volume, volume, total_supply))
        },
        None => None,
    }
}

/// The bids of the fixed five-party market: three buyers, then two sellers.
pub open spec fn five_party_bids(
    threshold_b1: u64,
    threshold_b2: u64,
    threshold_b3: u64,
    threshold_s1: u64,
    threshold_s2: u64,
    quantity_b1: u64,
    quantity_b2: u64,
    quantity_b3: u64,
    quantity_s1: u64,
    quantity_s2: u64,
) -> Seq<(u64, u64, bool)> {
    seq![
        (threshold_b1, quantity_b1, true),
        (threshold_b2, quantity_b2, true),
        (threshold_b3, quantity_b3, true),
        (threshold_s1, quantity_s1, false),
        (threshold_s2, quantity_s2, false),
    ]
}

/// A market of three buyers and two sellers: the clearing price and the
/// allocation of each party, buyers first. Nothing is reported where no band
/// clears or where the clearing band trades nothing (as when there is no
/// demand at all).
pub fn aggrigate_market(
    threshold_b1: u64,
    threshold_b2: u64,
    threshold_b3: u64,
    threshold_s1: u64,
    threshold_s2: u64,
    quantity_b1: u64,
    quantity_b2: u64,
    quantity_b3: u64,
    quantity_s1: u64,
    quantity_s2: u64,
) -> (r: Option<(u64, (u64, u64, u64, u64, u64))>)
    requires
        market_outcome(
            five_party_bids(
                threshold_b1,
                threshold_b2,
                threshold_b3,
                threshold_s1,
                threshold_s2,
                quantity_b1,
                quantity_b2,
                quantity_b3,
                quantity_s1,
                quantity_s2,
            ),
        ) matches Some(o) ==> {
            &&& allocation_defined(o, threshold_b1, quantity_b1, true)
            &&& allocation_defined(o, threshold_b2, quantity_b2, true)
            &&& allocation_defined(o, threshold_b3, quantity_b3, true)
            &&& allocation_defined(o, threshold_s1, quantity_s1, false)
            &&& allocation_defined(o, threshold_s2, quantity_s2, false)
        },
    ensures
        r == match market_outcome(
            five_party_bids(
                threshold_b1,
                threshold_b2,
                threshold_b3,
                threshold_s1,
                threshold_s2,
                quantity_b1,
                quantity_b2,
                quantity_b3,
                quantity_s1,
                quantity_s2,
            ),
        ) {
            Some(o) => if o.1 == 0 {
                None
            } else {
                Some(
                (
                    o.0,
                    (
                        allocation(o, threshold_b1, quantity_b1, true),
                        allocation(o, threshold_b2, quantity_b2, true),
                        allocation(o, threshold_b3, quantity_b3, true),
                        allocation(o, threshold_s1, quantity_s1, false),
                        allocation(o, threshold_s2, quantity_s2, false),
                    ),
                ),
            )
            },
            None => None,
        },
{
    let participants: Vec<(u64, u64, bool)> = vec![
        (threshold_b1, quantity_b1, true),
        (threshold_b2, quantity_b2, true),
        (threshold_b3, quantity_b3, true),
        (threshold_s1, quantity_s1, false),
        (threshold_s2, quantity_s2, false),
    ];
    proof {
        assert(participants@ =~= five_party_bids(
            threshold_b1,
            threshold_b2,
            threshold_b3,
            threshold_s1,
            threshold_s2,
            quantity_b1,
            quantity_b2,
            quantity_b3,
            quantity_s1,
            quantity_s2,
        ));
    }
    match clear_market(participants.as_slice()) {
        Some(outcome) => {
            if outcome.1 == 0 {
                return None;
            }
            let b1_trade: u64 = allocation_for(outcome, threshold_b1, quantity_b1, true);
            let b2_trade: u64 = allocation_for(outcome, threshold_b2, quantity_b2, true);
            let b3_trade: u64 = allocation_for(outcome, threshold_b3, quantity_b3, true);
            let s1_trade: u64 = allocation_for(outcome, threshold_s1, quantity_s1, false);
            let s2_trade: u64 = allocation_for(outcome, threshold_s2, quantity_s2, false);
            Some((outcome.0, (b1_trade, b2_trade, b3_trade, s1_trade, s2_trade)))
        },
        None => None,
    }
}

/// The grid is strictly increasing.
pub proof fn lemma_prices_increasing()
    ensures
        forall|j: int, k: int| 0 <= j < k < 9 ==> PRICES@[j] < PRICES@[k],
{
    assert(PRICES@ =~= seq![95u64, 100, 105, 110, 115, 120, 125, 130, 135]);
}

/// A buyer's per-band quantities never increase with the price, and a
/// seller's never decrease.
pub proof fn lemma_derived_monotone(threshold: u64, quantity: u64, is_buyer: bool, j: int, k: int)
    requires
        0 <= j <= k < 9,
    ensures
        is_buyer ==> derived(threshold, quantity, is_buyer)[k] <= derived(
            threshold,
            quantity,
            is_buyer,
        )[j],
        !is_buyer ==> derived(threshold, quantity, is_buyer)[j] <= derived(
            threshold,
            quantity,
            is_buyer,
        )[k],
{
    lemma_prices_increasing();
}

/// The clearing band is the lowest band where demand does not exceed supply:
/// demand exceeds supply in every band below it, and no band clears when
/// there is none.
pub proof fn lemma_clearing_band_is_first(d: Seq<nat>, s: Seq<nat>, from: int)
    requires
        0 <= from <= 9,
    ensures
        first_clearing_band(d, s, from) matches Some(j) ==> from <= j < 9 && d[j] <= s[j] && forall|
            k: int,
        | from <= k < j ==> d[k] > s[k],
        first_clearing_band(d, s, from) is None ==> forall|k: int| from <= k < 9 ==> d[k] > s[k],
    decreases 9 - from,
{
    if from < 9 {
        lemma_clearing_band_is_first(d, s, from + 1);
    }
}

/// In a cleared market the traded volume is the total demand at the clearing
/// price, and it does not exceed the total supply there.
pub proof fn lemma_outcome_volume(ps: Seq<(u64, u64, bool)>)
    ensures
        market_outcome(ps) matches Some(o) ==> o.1 == o.2 && o.2 <= o.3 && PRICES@.contains(o.0),
{
    let d = demand_curve(ps);
    let s = supply_curve(ps);
    lemma_clearing_band_is_first(d, s, 0);
    if let Some(j) = first_clearing_band(d, s, 0) {
        lemma_side_total_reduced(ps, true, j);
        lemma_side_total_reduced(ps, false, j);
        assert(PRICES@[j] == PRICES[j]);
    }
}

/// At the clearing price every buyer that takes part is filled in full,
/// where the total demand there is positive.
pub proof fn lemma_buyers_filled(ps: Seq<(u64, u64, bool)>, threshold: u64, quantity: u64)
    requires
        market_outcome(ps) matches Some(o) && accepts(o.0, threshold, true) && o.2 > 0
            && allocation_defined(o, threshold, quantity, true),
    ensures
        allocation(market_outcome(ps)->0, threshold, quantity, true) == quantity,
{
    let o = market_outcome(ps)->0;
    lemma_outcome_volume(ps);
    lemma_div_multiples_vanish(quantity as int, o.2 as int);
    assert(o.1 * quantity == o.2 * quantity);
    vstd::arithmetic::mul::lemma_mul_is_commutative(o.2 as int, quantity as int);
}

/// At the clearing price a seller that takes part sells at most its
/// quantity.
pub proof fn lemma_sellers_within_quantity(ps: Seq<(u64, u64, bool)>, threshold: u64, quantity: u64)
    requires
        market_outcome(ps) matches Some(o) && allocation_defined(o, threshold, quantity, false),
    ensures
        allocation(market_outcome(ps)->0, threshold, quantity, false) <= quantity,
{
    let o = market_outcome(ps)->0;
    lemma_outcome_volume(ps);
    if accepts(o.0, threshold, false) && o.3 > 0 {
        vstd::arithmetic::mul::lemma_mul_inequality(o.1 as int, o.3 as int, quantity as int);
        lemma_div_is_ordered((o.1 * quantity) as int, (o.3 * quantity) as int, o.3 as int);
        lemma_div_multiples_vanish(quantity as int, o.3 as int);
        vstd::arithmetic::mul::lemma_mul_is_commutative(o.3 as int, quantity as int);
    }
}

/// Nothing is traded while there is no demand, or no supply, at any price:
/// if the market clears at all, its volume is zero.
pub proof fn lemma_no_volume_without_both_sides(ps: Seq<(u64, u64, bool)>)
    requires
        (forall|j: int| 0 <= j < 9 ==> #[trigger] demand_curve(ps)[j] == 0) || (forall|j: int|
            0 <= j < 9 ==> #[trigger] supply_curve(ps)[j] == 0),
    ensures
        market_outcome(ps) matches Some(o) ==> o.1 == 0,
{
    let d = demand_curve(ps);
    let s = supply_curve(ps);
    lemma_clearing_band_is_first(d, s, 0);
}

/// What one bid adds to a side's total in band `j`.
pub open spec fn contribution(p: (u64, u64, bool), buyer_side: bool, j: int) -> nat {
    if p.2 == buyer_side {
        band_quantity(p.0, p.1, p.2, j)
    } else {
        0
    }
}

/// The plain (unreduced) sum of a side's contributions in band `j`.
pub open spec fn plain_total(ps: Seq<(u64, u64, bool)>, buyer_side: bool, j: int) -> nat
    decreases ps.len(),
{
    if ps.len() == 0 {
        0
    } else {
        plain_total(ps.drop_last(), buyer_side, j) + contribution(ps.last(), buyer_side, j)
    }
}

/// A side total is the plain sum of the contributions, reduced modulo `M`.
pub proof fn lemma_side_total_is_reduced_sum(ps: Seq<(u64, u64, bool)>, buyer_side: bool, j: int)
    ensures
        side_total(ps, buyer_side, j) == plain_total(ps, buyer_side, j) % (M as nat),
    decreases ps.len(),
{
    if ps.len() > 0 {
        lemma_side_total_is_reduced_sum(ps.drop_last(), buyer_side, j);
        lemma_add_mod_noop_right(
            contribution(ps.last(), buyer_side, j) as int,
            plain_total(ps.drop_last(), buyer_side, j) as int,
            M as int,
        );
    }
}

/// The bids with positions `i` and `i + 1` exchanged.
pub open spec fn swap_adjacent(ps: Seq<(u64, u64, bool)>, i: int) -> Seq<(u64, u64, bool)> {
    ps.update(i, ps[i + 1]).update(i + 1, ps[i])
}

proof fn lemma_plain_total_swap(ps: Seq<(u64, u64, bool)>, i: int, buyer_side: bool, j: int)
    requires
        0 <= i,
        i + 1 < ps.len(),
    ensures
        plain_total(swap_adjacent(ps, i), buyer_side, j) == plain_total(ps, buyer_side, j),
    decreases ps.len(),
{
    let qs = swap_adjacent(ps, i);
    if i + 2 < ps.len() {
        assert(qs.drop_last() =~= swap_adjacent(ps.drop_last(), i));
        assert(qs.last() == ps.last());
        lemma_plain_total_swap(ps.drop_last(), i, buyer_side, j);
    } else {
        let pre = ps.drop_last().drop_last();
        assert(qs.drop_last().drop_last() =~= pre);
        assert(qs.drop_last().last() == ps.last());
        assert(qs.last() == ps.drop_last().last());
        assert(plain_total(qs.drop_last(), buyer_side, j) == plain_total(pre, buyer_side, j)
            + contribution(ps.last(), buyer_side, j));
        assert(plain_total(ps.drop_last(), buyer_side, j) == plain_total(pre, buyer_side, j)
            + contribution(ps.drop_last().last(), buyer_side, j));
    }
}

/// The outcome of the market does not depend on the order in which the bids
/// arrive: exchanging two neighbouring bids leaves it unchanged (and so does
/// any reordering, as a sequence of such exchanges).
pub proof fn lemma_outcome_order_independent(ps: Seq<(u64, u64, bool)>, i: int)
    requires
        0 <= i,
        i + 1 < ps.len(),
    ensures
        market_outcome(swap_adjacent(ps, i)) == market_outcome(ps),
{
    let qs = swap_adjacent(ps, i);
    assert forall|j: int| 0 <= j < 9 implies side_total(qs, true, j) == side_total(ps, true, j)
        && side_total(qs, false, j) == side_total(ps, false, j) by {
        lemma_side_total_is_reduced_sum(qs, true, j);
        lemma_side_total_is_reduced_sum(ps, true, j);
        lemma_side_total_is_reduced_sum(qs, false, j);
        lemma_side_total_is_reduced_sum(ps, false, j);
        lemma_plain_total_swap(ps, i, true, j);
        lemma_plain_total_swap(ps, i, false, j);
    }
    assert(demand_curve(qs) =~= demand_curve(ps));
    assert(supply_curve(qs) =~= supply_curve(ps));
}

proof fn lemma_plain_total_monotone(ps: Seq<(u64, u64, bool)>, j: int, k: int)
    requires
        0 <= j <= k < 9,
    ensures
        plain_total(ps, true, k) <= plain_total(ps, true, j),
        plain_total(ps, false, j) <= plain_total(ps, false, k),
    decreases ps.len(),
{
    if ps.len() > 0 {
        let p = ps.last();
        lemma_plain_total_monotone(ps.drop_last(), j, k);
        lemma_derived_monotone(p.0, p.1, p.2, j, k);
        assert(derived(p.0, p.1, p.2)[j] == band_quantity(p.0, p.1, p.2, j));
        assert(derived(p.0, p.1, p.2)[k] == band_quantity(p.0, p.1, p.2, k));
    }
}

/// While the totals stay below `M`, demand never rises with the price and
/// supply never falls.
pub proof fn lemma_curves_monotone(ps: Seq<(u64, u64, bool)>, j: int, k: int)
    requires
        0 <= j <= k < 9,
        plain_total(ps, true, j) < M,
        plain_total(ps, false, k) < M,
    ensures
        demand_curve(ps)[k] <= demand_curve(ps)[j],
        supply_curve(ps)[j] <= supply_curve(ps)[k],
{
    lemma_plain_total_monotone(ps, j, k);
    lemma_side_total_is_reduced_sum(ps, true, j);
    lemma_side_total_is_reduced_sum(ps, true, k);
    lemma_side_total_is_reduced_sum(ps, false, j);
    lemma_side_total_is_reduced_sum(ps, false, k);
    lemma_small_mod(plain_total(ps, true, j), M as nat);
    lemma_small_mod(plain_total(ps, true, k), M as nat);
    lemma_small_mod(plain_total(ps, false, j), M as nat);
    lemma_small_mod(plain_total(ps, false, k), M as nat);
}

} // verus!
