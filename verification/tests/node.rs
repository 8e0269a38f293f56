use mpc_rust::field::Fp;
use mpc_rust::node::{update_share, Branch, Node};

#[test]
fn test_add_share() {
    let mut node1 = Node::new();
    let mut node2 = Node::new();
    let q1 = [Fp::new(10); 9];
    let q2 = [Fp::new(20); 9];
    node1 = node1.add_share(q1, Branch::Buyer);
    node1 = node1.add_share(q1, Branch::Buyer);
    node2 = node2.add_share(q2, Branch::Buyer);

    assert_eq!(node1, node2);

    node1 = node1.add_share(q1, Branch::Seller);
    node1 = node1.add_share(q1, Branch::Seller);
    node2 = node2.add_share(q2, Branch::Seller);

    assert_eq!(node1, node2);
}

#[test]
fn test_add_node() {
    let mut node1 = Node::new();
    let mut node2 = Node::new();
    let mut node3 = Node::new();
    let mut node4 = Node::new();

    let q1 = [Fp::new(10); 9];
    let q2 = [Fp::new(20); 9];
    node1 = node1.add_share(q1, Branch::Buyer);
    node2 = node2.add_share(q1, Branch::Buyer);
    node3 = node3.add_share(q2, Branch::Buyer);
    let mut node5 = Node::add_node(node1.clone(), node2.clone(), node3.clone());

    node4 = node4.add_share(q1, Branch::Buyer);
    node4 = node4.add_share(q1, Branch::Buyer);
    node4 = node4.add_share(q2, Branch::Buyer);

    assert_eq!(node4, node5);

    node1 = node1.add_share(q1, Branch::Seller);
    node2 = node2.add_share(q1, Branch::Seller);
    node3 = node3.add_share(q2, Branch::Seller);
    node5 = Node::add_node(node1.clone(), node2.clone(), node3.clone());

    node4 = node4.add_share(q1, Branch::Seller);
    node4 = node4.add_share(q1, Branch::Seller);
    node4 = node4.add_share(q2, Branch::Seller);
    assert_eq!(node4, node5);
}

#[test]
fn add_share_keeps_the_other_side() {
    let node = Node::new().add_share([Fp::new(5); 9], Branch::Seller);
    assert_eq!(node.buyer_quantities, [Fp::zero(); 9]);
    assert_eq!(node.seller_quantities, [Fp::new(5); 9]);
}

#[test]
fn update_share_adds_band_by_band_modulo_m() {
    let mut a = [Fp::zero(); 9];
    let mut b = [Fp::zero(); 9];
    for i in 0..9 {
        a[i] = Fp::new(i as u64);
        b[i] = Fp::new(100 * i as u64);
    }
    let r = update_share(a, b);
    for i in 0..9 {
        assert_eq!(r[i].value(), 101 * i as u64);
    }
    let wrap = update_share([Fp::new(mpc_rust::field::M - 1); 9], [Fp::new(2); 9]);
    assert_eq!(wrap, [Fp::one(); 9]);
}

#[test]
fn three_nodes_recombine_the_participants_totals() {
    let bids = [(120u64, 100u64, true), (105, 50, true), (100, 70, false)];
    let mut nodes = [Node::new(), Node::new(), Node::new()];
    for (threshold, quantity, is_buyer) in bids {
        let (shares, branch) = mpc_rust::auction::set_share_for_send(threshold, quantity, is_buyer);
        for k in 0..3 {
            nodes[k] = nodes[k].add_share(shares[k], branch);
        }
    }
    let total = Node::add_node(nodes[0].clone(), nodes[1].clone(), nodes[2].clone());
    let buyers: Vec<u64> = total.buyer_quantities.iter().map(|f| f.value()).collect();
    let sellers: Vec<u64> = total.seller_quantities.iter().map(|f| f.value()).collect();
    assert_eq!(buyers, vec![150, 150, 150, 100, 100, 100, 0, 0, 0]);
    assert_eq!(sellers, vec![0, 70, 70, 70, 70, 70, 70, 70, 70]);
}

#[test]
fn a_node_ignores_the_order_of_its_shares() {
    let a = [Fp::new(5); 9];
    let b = [Fp::new(mpc_rust::field::M - 2); 9];
    let c = [Fp::new(9); 9];
    let first = Node::new().add_share(a, Branch::Buyer).add_share(b, Branch::Buyer).add_share(c, Branch::Seller);
    let second = Node::new().add_share(c, Branch::Seller).add_share(b, Branch::Buyer).add_share(a, Branch::Buyer);
    assert_eq!(first, second);
    assert_eq!(first.buyer_quantities, [Fp::new(3); 9]);
    assert_eq!(first.seller_quantities, [Fp::new(9); 9]);
}

#[test]
fn three_nodes_recombine_whatever_order_each_node_receives() {
    let bids = [(120u64, 100u64, true), (105, 50, true), (100, 70, false)];
    let sent: Vec<([[Fp; 9]; 3], Branch)> =
        bids.iter().map(|(t, q, b)| mpc_rust::auction::set_share_for_send(*t, *q, *b)).collect();
    let orders = [[0usize, 1, 2], [2, 1, 0], [1, 2, 0]];
    let mut nodes = [Node::new(), Node::new(), Node::new()];
    for k in 0..3 {
        for &p in orders[k].iter() {
            nodes[k] = nodes[k].add_share(sent[p].0[k], sent[p].1);
        }
    }
    let total = Node::add_node(nodes[0].clone(), nodes[1].clone(), nodes[2].clone());
    let buyers: Vec<u64> = total.buyer_quantities.iter().map(|f| f.value()).collect();
    let sellers: Vec<u64> = total.seller_quantities.iter().map(|f| f.value()).collect();
    assert_eq!(buyers, vec![150, 150, 150, 100, 100, 100, 0, 0, 0]);
    assert_eq!(sellers, vec![0, 70, 70, 70, 70, 70, 70, 70, 70]);
}
