//! A computing node: it holds, per price band, the running sums of the
//! demand shares and of the supply shares it has received.

use vstd::prelude::*;
use vstd::arithmetic::div_mod::*;
use crate::field::{Fp, M, lemma_fp_view_injective};

verus! {

/// The side of the market a share belongs to.
#[derive(Debug, Clone, Copy, PartialEq, Eq, Structural)]
pub enum Branch {
    Seller,
    Buyer,
}

/// Per-band sums of the shares a node has received, for each side.
#[derive(Debug, Clone, PartialEq)]
pub struct Node {
    pub seller_quantities: [Fp; 9],
    pub buyer_quantities: [Fp; 9],
}

/// `r` is the band-wise sum of `a` and `b` modulo `M`.
pub open spec fn is_band_sum(r: [Fp; 9], a: [Fp; 9], b: [Fp; 9]) -> bool {
    forall|j: int| 0 <= j < 9 ==> #[trigger] r[j]@ == (a[j]@ + b[j]@) % (M as nat)
}

/// What band `j` of three share vectors stands for.
pub open spec fn band_share_sum(s1: [Fp; 9], s2: [Fp; 9], s3: [Fp; 9], j: int) -> nat {
    (s1[j]@ + s2[j]@ + s3[j]@) % (M as nat)
}

/// Adding three share vectors into three running sums adds what the shares
/// stand for to what the sums stand for.
pub proof fn lemma_tally_step(a: nat, b: nat, c: nat, x: nat, y: nat, z: nat)
    ensures
        ((a + x) % (M as nat) + (b + y) % (M as nat) + (c + z) % (M as nat)) % (M as nat) == ((a + b
            + c) % (M as nat) + (x + y + z) % (M as nat)) % (M as nat),
{
    let m: int = M as int;
    let u: int = ((a + x) % (M as nat) + (b + y) % (M as nat)) as int;
    let v: int = ((c + z) % (M as nat)) as int;
    lemma_add_mod_noop((a + x) as int, (b + y) as int, m);
    lemma_add_mod_noop(u, v, m);
    lemma_mod_twice((c + z) as int, m);
    lemma_add_mod_noop((a + x + b + y) as int, (c + z) as int, m);
    lemma_add_mod_noop((a + b + c) as int, (x + y + z) as int, m);
}


/// `after` is `before` with `share` added band by band to the side `branch`;
/// the other side is kept.
pub open spec fn share_added(before: Node, after: Node, share: [Fp; 9], branch: Branch) -> bool {
    match branch {
        Branch::Seller => is_band_sum(after.seller_quantities, before.seller_quantities, share)
            && after.buyer_quantities == before.buyer_quantities,
        Branch::Buyer => is_band_sum(after.buyer_quantities, before.buyer_quantities, share)
            && after.seller_quantities == before.seller_quantities,
    }
}

/// `r` holds, band by band and side by side, the sums of three nodes.
pub open spec fn nodes_combined(r: Node, a: Node, b: Node, c: Node) -> bool {
    &&& forall|j: int|
        0 <= j < 9 ==> #[trigger] r.buyer_quantities[j]@ == band_share_sum(
            a.buyer_quantities,
            b.buyer_quantities,
            c.buyer_quantities,
            j,
        )
    &&& forall|j: int|
        0 <= j < 9 ==> #[trigger] r.seller_quantities[j]@ == band_share_sum(
            a.seller_quantities,
            b.seller_quantities,
            c.seller_quantities,
            j,
        )
}

/// Every band of `a` holds zero.
pub open spec fn all_zero(a: [Fp; 9]) -> bool {
    forall|j: int| 0 <= j < 9 ==> #[trigger] a[j]@ == 0
}

impl Node {
    /// A node that has received nothing.
    pub fn new() -> (r: Node)
        ensures
            all_zero(r.seller_quantities),
            all_zero(r.buyer_quantities),
    {
        Node { seller_quantities: [Fp::zero();9], buyer_quantities: [Fp::zero();9] }
    }

    /// Adds a share vector to the sums of the given side; the other side is
    /// kept.
    pub fn add_share(&self, share: [Fp; 9], branch: Branch) -> (r: Node)
        ensures
            share_added(*self, r, share, branch),
    {
        match branch {
            Branch::Seller => {
                let updates: [Fp; 9] = update_share(self.seller_quantities, share);
                Node { buyer_quantities: self.buyer_quantities, seller_quantities: updates }
            },
            Branch::Buyer => {
                let updates: [Fp; 9] = update_share(self.buyer_quantities, share);
                Node { seller_quantities: self.seller_quantities, buyer_quantities: updates }
            },
        }
    }

    /// Combines the sums of three nodes, band by band and side by side.
    pub fn add_node(node_1: Node, node_2: Node, node_3: Node) -> (r: Node)
        ensures
            nodes_combined(r, node_1, node_2, node_3),
    {
        let mut results: Node = node_1;
        results = results.add_share(node_2.buyer_quantities, Branch::Buyer);
        results = results.add_share(node_3.buyer_quantities, Branch::Buyer);
        results = results.add_share(node_2.seller_quantities, Branch::Seller);
        results = results.add_share(node_3.seller_quantities, Branch::Seller);
        proof {
            assert forall|j: int| 0 <= j < 9 implies #[trigger] results.buyer_quantities[j]@ == (
            node_1.buyer_quantities[j]@ + node_2.buyer_quantities[j]@
                + node_3.buyer_quantities[j]@) % (M as nat) by {
                lemma_add_mod_noop_right(
                    node_3.buyer_quantities[j]@ as int,
                    (node_1.buyer_quantities[j]@ + node_2.buyer_quantities[j]@) as int,
                    M as int,
                );
            }
            assert forall|j: int| 0 <= j < 9 implies #[trigger] results.seller_quantities[j]@ == (
            node_1.seller_quantities[j]@ + node_2.seller_quantities[j]@
                + node_3.seller_quantities[j]@) % (M as nat) by {
                lemma_add_mod_noop_right(
                    node_3.seller_quantities[j]@ as int,
                    (node_1.seller_quantities[j]@ + node_2.seller_quantities[j]@) as int,
                    M as int,
                );
            }
        }
        results
    }
}

/// Adds two share vectors band by band.
pub fn update_share(updates: [Fp; 9], share: [Fp; 9]) -> (results: [Fp; 9])
    ensures
        is_band_sum(results, updates, share),
{
    let mut results: [Fp; 9] = [Fp::zero();9];
    for i in 0..9
        invariant
            forall|j: int| 0 <= j < i ==> #[trigger] results[j]@ == (updates[j]@ + share[j]@) % (
            M as nat),
    {
        results[i] = updates[i] + share[i];
    }
    results
}

/// A band-wise sum is determined by its summands.
proof fn lemma_band_sum_unique(r1: [Fp; 9], r2: [Fp; 9], a: [Fp; 9], b: [Fp; 9])
    requires
        is_band_sum(r1, a, b),
        is_band_sum(r2, a, b),
    ensures
        r1 == r2,
{
    assert forall|j: int| 0 <= j < 9 implies r1[j] == r2[j] by {
        assert(r1[j]@ == r2[j]@);
        lemma_fp_view_injective(r1[j], r2[j]);
    }
    assert(r1 =~= r2);
}

/// Adding `a` then `b` to a running sum gives what adding `b` then `a` gives.
proof fn lemma_band_sum_commutes(r1: [Fp; 9], r2: [Fp; 9], x: [Fp; 9], y1: [Fp; 9], y2: [Fp; 9], a: [Fp; 9], b: [Fp; 9])
    requires
        is_band_sum(r1, x, a),
        is_band_sum(y1, r1, b),
        is_band_sum(r2, x, b),
        is_band_sum(y2, r2, a),
    ensures
        y1 == y2,
{
    assert forall|j: int| 0 <= j < 9 implies y1[j] == y2[j] by {
        let m: int = M as int;
        lemma_add_mod_noop_right(b[j]@ as int, (x[j]@ + a[j]@) as int, m);
        lemma_add_mod_noop_right(a[j]@ as int, (x[j]@ + b[j]@) as int, m);
        assert(y1[j]@ == y2[j]@);
        lemma_fp_view_injective(y1[j], y2[j]);
    }
    assert(y1 =~= y2);
}

/// The order in which a node receives two share vectors does not matter:
/// adding them in either order gives the same node.
pub proof fn lemma_add_share_commutes(
    n: Node,
    s1: [Fp; 9],
    b1: Branch,
    s2: [Fp; 9],
    b2: Branch,
    x1: Node,
    y1: Node,
    x2: Node,
    y2: Node,
)
    requires
        share_added(n, x1, s1, b1),
        share_added(x1, y1, s2, b2),
        share_added(n, x2, s2, b2),
        share_added(x2, y2, s1, b1),
    ensures
        y1 == y2,
{
    if b1 == Branch::Buyer && b2 == Branch::Buyer {
        lemma_band_sum_commutes(
            x1.buyer_quantities,
            x2.buyer_quantities,
            n.buyer_quantities,
            y1.buyer_quantities,
            y2.buyer_quantities,
            s1,
            s2,
        );
    } else if b1 == Branch::Seller && b2 == Branch::Seller {
        lemma_band_sum_commutes(
            x1.seller_quantities,
            x2.seller_quantities,
            n.seller_quantities,
            y1.seller_quantities,
            y2.seller_quantities,
            s1,
            s2,
        );
    } else if b1 == Branch::Buyer {
        lemma_band_sum_unique(y1.buyer_quantities, y2.buyer_quantities, n.buyer_quantities, s1);
        lemma_band_sum_unique(y1.seller_quantities, y2.seller_quantities, n.seller_quantities, s2);
    } else {
        lemma_band_sum_unique(y1.buyer_quantities, y2.buyer_quantities, n.buyer_quantities, s2);
        lemma_band_sum_unique(y1.seller_quantities, y2.seller_quantities, n.seller_quantities, s1);
    }
}

/// What the participants put into one side of band `i`: the sum, modulo `M`,
/// of the values of the participants on that side (`values[k]` and
/// `branches[k]` belong to participant `k`).
pub open spec fn side_value_total(values: Seq<Seq<nat>>, branches: Seq<Branch>, side: Branch, i: int) -> nat
    decreases values.len(),
{
    if values.len() == 0 {
        0
    } else {
        let k: int = values.len() - 1;
        (side_value_total(values.drop_last(), branches, side, i) + (if branches[k] == side {
            values[k][i]
        } else {
            0
        })) % (M as nat)
    }
}

/// What one received share vector adds to a side in band `i`.
pub open spec fn item_amount(item: ([Fp; 9], Branch), side: Branch, i: int) -> nat {
    if item.1 == side {
        item.0[i]@
    } else {
        0
    }
}

/// The plain sum of what a list of received share vectors adds to a side in
/// band `i`.
pub open spec fn received_total(items: Seq<([Fp; 9], Branch)>, side: Branch, i: int) -> nat
    decreases items.len(),
{
    if items.len() == 0 {
        0
    } else {
        received_total(items.drop_last(), side, i) + item_amount(items.last(), side, i)
    }
}

/// `ns` is the run of a node that starts empty and receives `items` in turn:
/// `ns[m + 1]` is `ns[m]` with `items[m]` added.
pub open spec fn received_in_turn(ns: Seq<Node>, items: Seq<([Fp; 9], Branch)>) -> bool {
    &&& ns.len() == items.len() + 1
    &&& all_zero(ns[0].buyer_quantities) && all_zero(ns[0].seller_quantities)
    &&& forall|m: int|
        0 <= m < items.len() ==> share_added(ns[m], ns[m + 1], (#[trigger] items[m]).0, items[m].1)
}

/// The share vectors the participants send to node `node` (0, 1 or 2), each
/// with its side, in participant order.
pub open spec fn sent_to(shares: Seq<[[Fp; 9]; 3]>, branches: Seq<Branch>, node: int) -> Seq<
    ([Fp; 9], Branch),
> {
    Seq::new(shares.len(), |k: int| (shares[k][node], branches[k]))
}

/// After its first `k` additions a node holds, band by band and side by
/// side, the sum modulo `M` of what it received.
proof fn lemma_node_holds_received(ns: Seq<Node>, items: Seq<([Fp; 9], Branch)>, k: int)
    requires
        received_in_turn(ns, items),
        0 <= k <= items.len(),
    ensures
        forall|i: int|
            0 <= i < 9 ==> #[trigger] ns[k].buyer_quantities[i]@ == received_total(
                items.take(k),
                Branch::Buyer,
                i,
            ) % (M as nat),
        forall|i: int|
            0 <= i < 9 ==> #[trigger] ns[k].seller_quantities[i]@ == received_total(
                items.take(k),
                Branch::Seller,
                i,
            ) % (M as nat),
    decreases k,
{
    if k == 0 {
        assert(items.take(0).len() == 0);
        assert forall|i: int| 0 <= i < 9 implies #[trigger] ns[0].buyer_quantities[i]@ == 0
            && ns[0].seller_quantities[i]@ == 0 by {}
    } else {
        let m: int = k - 1;
        lemma_node_holds_received(ns, items, m);
        assert(items.take(k).drop_last() =~= items.take(m));
        assert(items.take(k).last() == items[m]);
        let item = items[m];
        assert(share_added(ns[m], ns[k], item.0, item.1));
        assert forall|i: int| 0 <= i < 9 implies #[trigger] ns[k].buyer_quantities[i]@
            == received_total(items.take(k), Branch::Buyer, i) % (M as nat) by {
            let prev: nat = received_total(items.take(m), Branch::Buyer, i);
            lemma_add_mod_noop_right(item_amount(item, Branch::Buyer, i) as int, prev as int, M as int);
        }
        assert forall|i: int| 0 <= i < 9 implies #[trigger] ns[k].seller_quantities[i]@
            == received_total(items.take(k), Branch::Seller, i) % (M as nat) by {
            let prev: nat = received_total(items.take(m), Branch::Seller, i);
            lemma_add_mod_noop_right(item_amount(item, Branch::Seller, i) as int, prev as int, M as int);
        }
    }
}

/// Taking out the vector at position `k` takes its amount out of the total.
proof fn lemma_received_total_remove(t: Seq<([Fp; 9], Branch)>, k: int, side: Branch, i: int)
    requires
        0 <= k < t.len(),
    ensures
        received_total(t, side, i) == received_total(t.remove(k), side, i) + item_amount(t[k], side, i),
    decreases t.len(),
{
    if k == t.len() - 1 {
        assert(t.remove(k) =~= t.drop_last());
    } else {
        assert(t.remove(k).drop_last() =~= t.drop_last().remove(k));
        assert(t.remove(k).last() == t.last());
        lemma_received_total_remove(t.drop_last(), k, side, i);
    }
}

/// The total of the received vectors does not depend on their order: two
/// lists with the same elements, counted with multiplicity, have the same
/// total.
proof fn lemma_received_total_permutation(
    s: Seq<([Fp; 9], Branch)>,
    t: Seq<([Fp; 9], Branch)>,
    side: Branch,
    i: int,
)
    requires
        s.to_multiset() == t.to_multiset(),
    ensures
        received_total(s, side, i) == received_total(t, side, i),
    decreases s.len(),
{
    broadcast use vstd::seq_lib::group_to_multiset_ensures;
    broadcast use vstd::multiset::group_multiset_axioms;

    if s.len() == 0 {
        assert(t.len() == t.to_multiset().len());
    } else {
        let x = s.last();
        let rest = s.drop_last();
        assert(s =~= rest.push(x));
        assert(s.to_multiset().count(x) > 0);
        assert(t.contains(x));
        let k: int = choose|k: int| 0 <= k < t.len() && t[k] == x;
        assert(t.remove(k).to_multiset() =~= rest.to_multiset());
        lemma_received_total_permutation(rest, t.remove(k), side, i);
        lemma_received_total_remove(t, k, side, i);
    }
}

/// Over the first `k` participants, the three nodes' plain totals together
/// stand for the participants' side total.
proof fn lemma_sent_totals(
    shares: Seq<[[Fp; 9]; 3]>,
    branches: Seq<Branch>,
    values: Seq<Seq<nat>>,
    side: Branch,
    i: int,
    k: int,
)
    requires
        shares.len() == branches.len() == values.len(),
        0 <= k <= shares.len(),
        forall|m: int, j: int|
            0 <= m < shares.len() && 0 <= j < 9 ==> #[trigger] band_share_sum(
                shares[m][0],
                shares[m][1],
                shares[m][2],
                j,
            ) == values[m][j],
        0 <= i < 9,
    ensures
        (received_total(sent_to(shares, branches, 0).take(k), side, i) + received_total(
            sent_to(shares, branches, 1).take(k),
            side,
            i,
        ) + received_total(sent_to(shares, branches, 2).take(k), side, i)) % (M as nat)
            == side_value_total(values.take(k), branches, side, i),
    decreases k,
{
    if k == 0 {
        assert(sent_to(shares, branches, 0).take(0).len() == 0);
        assert(sent_to(shares, branches, 1).take(0).len() == 0);
        assert(sent_to(shares, branches, 2).take(0).len() == 0);
        assert(values.take(0).len() == 0);
    } else {
        let m: int = k - 1;
        lemma_sent_totals(shares, branches, values, side, i, m);
        assert(sent_to(shares, branches, 0).take(k).drop_last() =~= sent_to(shares, branches, 0).take(m));
        assert(sent_to(shares, branches, 1).take(k).drop_last() =~= sent_to(shares, branches, 1).take(m));
        assert(sent_to(shares, branches, 2).take(k).drop_last() =~= sent_to(shares, branches, 2).take(m));
        assert(values.take(k).drop_last() =~= values.take(m));
        let prev: int = (received_total(sent_to(shares, branches, 0).take(m), side, i)
            + received_total(sent_to(shares, branches, 1).take(m), side, i) + received_total(
            sent_to(shares, branches, 2).take(m),
            side,
            i,
        )) as int;
        let svt: nat = side_value_total(values.take(m), branches, side, i);
        assert(band_share_sum(shares[m][0], shares[m][1], shares[m][2], i) == values[m][i]);
        if branches[m] == side {
            let t: int = (shares[m][0][i]@ + shares[m][1][i]@ + shares[m][2][i]@) as int;
            lemma_add_mod_noop(prev, t, M as int);
            lemma_add_mod_noop(svt as int, t, M as int);
            lemma_mod_twice(t, M as int);
        } else {
            lemma_small_mod(svt, M as nat);
        }
    }
}

/// Three nodes that start empty and each receive, in an order of their own,
/// the share vector every participant sends them (node `a` the first share
/// of each participant, `b` the second, `c` the third, each with the
/// participant's side) combine into the participants' totals: band by band,
/// the buyer side holds the sum modulo `M` of the buyers' values and the
/// seller side that of the sellers' values, whatever the shares were and
/// whatever order each node received them in.
pub proof fn lemma_three_nodes_sum(
    shares: Seq<[[Fp; 9]; 3]>,
    branches: Seq<Branch>,
    values: Seq<Seq<nat>>,
    la: Seq<([Fp; 9], Branch)>,
    lb: Seq<([Fp; 9], Branch)>,
    lc: Seq<([Fp; 9], Branch)>,
    na: Seq<Node>,
    nb: Seq<Node>,
    nc: Seq<Node>,
    total: Node,
)
    requires
        shares.len() == branches.len() == values.len(),
        forall|m: int, j: int|
            0 <= m < shares.len() && 0 <= j < 9 ==> #[trigger] band_share_sum(
                shares[m][0],
                shares[m][1],
                shares[m][2],
                j,
            ) == values[m][j],
        la.to_multiset() == sent_to(shares, branches, 0).to_multiset(),
        lb.to_multiset() == sent_to(shares, branches, 1).to_multiset(),
        lc.to_multiset() == sent_to(shares, branches, 2).to_multiset(),
        received_in_turn(na, la),
        received_in_turn(nb, lb),
        received_in_turn(nc, lc),
        nodes_combined(total, na.last(), nb.last(), nc.last()),
    ensures
        forall|i: int|
            0 <= i < 9 ==> #[trigger] total.buyer_quantities[i]@ == side_value_total(
                values,
                branches,
                Branch::Buyer,
                i,
            ),
        forall|i: int|
            0 <= i < 9 ==> #[trigger] total.seller_quantities[i]@ == side_value_total(
                values,
                branches,
                Branch::Seller,
                i,
            ),
{
    let n: int = shares.len() as int;
    assert(la.take(la.len() as int) =~= la);
    assert(lb.take(lb.len() as int) =~= lb);
    assert(lc.take(lc.len() as int) =~= lc);
    assert(values.take(n) =~= values);
    assert(sent_to(shares, branches, 0).take(n) =~= sent_to(shares, branches, 0));
    assert(sent_to(shares, branches, 1).take(n) =~= sent_to(shares, branches, 1));
    assert(sent_to(shares, branches, 2).take(n) =~= sent_to(shares, branches, 2));
    assert forall|i: int| 0 <= i < 9 implies #[trigger] total.buyer_quantities[i]@
        == side_value_total(values, branches, Branch::Buyer, i) by {
        lemma_three_sides(shares, branches, values, la, lb, lc, na, nb, nc, total, Branch::Buyer, i);
    }
    assert forall|i: int| 0 <= i < 9 implies #[trigger] total.seller_quantities[i]@
        == side_value_total(values, branches, Branch::Seller, i) by {
        lemma_three_sides(shares, branches, values, la, lb, lc, na, nb, nc, total, Branch::Seller, i);
    }
}

/// One band of one side of the combined node is that side's total.
proof fn lemma_three_sides(
    shares: Seq<[[Fp; 9]; 3]>,
    branches: Seq<Branch>,
    values: Seq<Seq<nat>>,
    la: Seq<([Fp; 9], Branch)>,
    lb: Seq<([Fp; 9], Branch)>,
    lc: Seq<([Fp; 9], Branch)>,
    na: Seq<Node>,
    nb: Seq<Node>,
    nc: Seq<Node>,
    total: Node,
    side: Branch,
    i: int,
)
    requires
        shares.len() == branches.len() == values.len(),
        forall|m: int, j: int|
            0 <= m < shares.len() && 0 <= j < 9 ==> #[trigger] band_share_sum(
                shares[m][0],
                shares[m][1],
                shares[m][2],
                j,
            ) == values[m][j],
        la.to_multiset() == sent_to(shares, branches, 0).to_multiset(),
        lb.to_multiset() == sent_to(shares, branches, 1).to_multiset(),
        lc.to_multiset() == sent_to(shares, branches, 2).to_multiset(),
        received_in_turn(na, la),
        received_in_turn(nb, lb),
        received_in_turn(nc, lc),
        nodes_combined(total, na.last(), nb.last(), nc.last()),
        0 <= i < 9,
        la.take(la.len() as int) == la,
        lb.take(lb.len() as int) == lb,
        lc.take(lc.len() as int) == lc,
        values.take(shares.len() as int) == values,
        sent_to(shares, branches, 0).take(shares.len() as int) == sent_to(shares, branches, 0),
        sent_to(shares, branches, 1).take(shares.len() as int) == sent_to(shares, branches, 1),
        sent_to(shares, branches, 2).take(shares.len() as int) == sent_to(shares, branches, 2),
    ensures
        side == Branch::Buyer ==> total.buyer_quantities[i]@ == side_value_total(values, branches, side, i),
        side == Branch::Seller ==> total.seller_quantities[i]@ == side_value_total(values, branches, side, i),
{
    let n: int = shares.len() as int;
    lemma_node_holds_received(na, la, la.len() as int);
    lemma_node_holds_received(nb, lb, lb.len() as int);
    lemma_node_holds_received(nc, lc, lc.len() as int);
    lemma_received_total_permutation(la, sent_to(shares, branches, 0), side, i);
    lemma_received_total_permutation(lb, sent_to(shares, branches, 1), side, i);
    lemma_received_total_permutation(lc, sent_to(shares, branches, 2), side, i);
    lemma_sent_totals(shares, branches, values, side, i, n);
    let a: int = received_total(la, side, i) as int;
    let b: int = received_total(lb, side, i) as int;
    let c: int = received_total(lc, side, i) as int;
    let m: int = M as int;
    lemma_add_mod_noop(a, b, m);
    lemma_add_mod_noop(a % m + b % m, c % m, m);
    lemma_mod_twice(c, m);
    lemma_add_mod_noop(a + b, c, m);
    assert(total.buyer_quantities[i]@ == band_share_sum(
        na.last().buyer_quantities,
        nb.last().buyer_quantities,
        nc.last().buyer_quantities,
        i,
    ));
    assert(total.seller_quantities[i]@ == band_share_sum(
        na.last().seller_quantities,
        nb.last().seller_quantities,
        nc.last().seller_quantities,
        i,
    ));
}

} // verus!
