//! Bidding agents: company profiles, the bids they propose, the checks a bid
//! must pass against company policy, and the settlement of a round of bids.

use vstd::prelude::*;
use crate::auction::{
    PRICES, allocation, allocation_defined, allocation_for, clear_market, market_outcome,
};

verus! {

/// A company taking part, buyer or supplier.
pub enum Profile {
    Buyer(BuyerProfile),
    Supplier(SupplierProfile),
}

/// Why a proposed bid is refused.
#[derive(Debug, PartialEq, Eq, Structural)]
pub enum BidError {
    /// The threshold is not a price of the grid.
    NotOnGrid(u64),
    /// The quantity exceeds what the company can take or give: (quantity, limit).
    QuantityExceedsMax(u64, u64),
    /// The threshold breaks the company's price policy.
    PolicyViolation,
}

/// A buyer's situation (stock in litres) and policy.
#[derive(Debug, Clone)]
pub struct BuyerProfile {
    pub strategy: String,
    pub current_stock: u64,
    pub use_per_day: u64,
    pub reorder_point: u64,
    pub max_stock: u64,
    pub order_history: Vec<OrderRecord>,
    /// Company policy: the highest price it may buy at.
    pub price_ceiling: u64,
    /// Free-form remarks.
    pub notes: String,
}

impl BuyerProfile {
    pub fn new(
        strategy: String,
        current_stock: u64,
        use_per_day: u64,
        reorder_point: u64,
        max_stock: u64,
        order_history: Vec<OrderRecord>,
        price_ceiling: u64,
        notes: String,
    ) -> (r: Self)
        ensures
            r == (BuyerProfile {
                strategy,
                current_stock,
                use_per_day,
                reorder_point,
                max_stock,
                order_history,
                price_ceiling,
                notes,
            }),
    {
        BuyerProfile {
            strategy,
            current_stock,
            use_per_day,
            reorder_point,
            max_stock,
            order_history,
            price_ceiling,
            notes,
        }
    }
}

/// A past purchase.
#[derive(Debug, Clone)]
pub struct OrderRecord {
    pub date: String,
    pub order_amount: u64,
}

/// A supplier's situation (stock in litres) and policy.
#[derive(Debug, Clone)]
pub struct SupplierProfile {
    pub strategy: String,
    pub current_stock: u64,
    pub supply_per_day: u64,
    pub safety_stock: u64,
    pub max_stock: u64,
    pub supply_history: Vec<SupplyRecord>,
    /// Company policy: the lowest price it may sell at.
    pub price_floor: u64,
    /// Free-form remarks.
    pub notes: String,
}

/// A past sale.
#[derive(Debug, Clone)]
pub struct SupplyRecord {
    pub date: String,
    pub supply_amount: u64,
}

/// A proposed bid: threshold price, quantity, and the agent's reason.
#[derive(Debug, Clone, PartialEq)]
pub struct Bid {
    pub threshold: u64,
    pub quantity: u64,
    pub reason: String,
}

/// The public result of one round.
pub struct RoundResult {
    pub round: usize,
    pub price: u64,
    pub volume: u64,
    pub allocation: Vec<u64>,
    pub thresholds: Vec<u64>,
}

/// `price` is one of the grid prices.
pub open spec fn on_grid(price: u64) -> bool {
    PRICES@.contains(price)
}

/// The checks of a bid can run without underflow: where the threshold
/// passes the price checks, the company's stock lies within its limits.
pub open spec fn validation_defined(bid: Bid, profile: Profile) -> bool {
    match profile {
        Profile::Buyer(b) => on_grid(bid.threshold) && bid.threshold <= b.price_ceiling
            ==> b.current_stock <= b.max_stock,
        Profile::Supplier(s) => on_grid(bid.threshold) && bid.threshold >= s.price_floor
            ==> s.safety_stock <= s.current_stock,
    }
}

/// The verdict on a bid: off the grid, against the price policy, above the
/// quantity a buyer can store (`max_stock - current_stock`) or a supplier can
/// spare (`current_stock - safety_stock`), checked in that order; otherwise
/// the bid itself.
pub open spec fn validation(bid: Bid, profile: Profile) -> Result<Bid, BidError> {
    match profile {
        Profile::Buyer(b) => {
            if !on_grid(bid.threshold) {
                Err(BidError::NotOnGrid(bid.threshold))
            } else if bid.threshold > b.price_ceiling {
                Err(BidError::PolicyViolation)
            } else if bid.quantity > b.max_stock - b.current_stock {
                Err(BidError::QuantityExceedsMax(bid.quantity, (b.max_stock - b.current_stock) as u64))
            } else {
                Ok(bid)
            }
        },
        Profile::Supplier(s) => {
            if !on_grid(bid.threshold) {
                Err(BidError::NotOnGrid(bid.threshold))
            } else if bid.threshold < s.price_floor {
                Err(BidError::PolicyViolation)
            } else if bid.quantity > s.current_stock - s.safety_stock {
                Err(
                    BidError::QuantityExceedsMax(
                        bid.quantity,
                        (s.current_stock - s.safety_stock) as u64,
                    ),
                )
            } else {
                Ok(bid)
            }
        },
    }
}

/// Whether `price` is a grid price.
fn is_grid_price(price: u64) -> (r: bool)
    ensures
        r == on_grid(price),
{
    for i in 0..9
        invariant
            forall|j: int| 0 <= j < i ==> PRICES@[j] != price,
    {
        if PRICES[i] == price {
            return true;
        }
    }
    false
}

/// Whether the checks of a bid can run (see `validation_defined`).
pub fn validation_defined_for(bid: &Bid, profile: &Profile) -> (r: bool)
    ensures
        r == validation_defined(*bid, *profile),
{
    match profile {
        Profile::Buyer(b) => !(is_grid_price(bid.threshold) && bid.threshold <= b.price_ceiling)
            || b.current_stock <= b.max_stock,
        Profile::Supplier(s) => !(is_grid_price(bid.threshold) && bid.threshold >= s.price_floor)
            || s.safety_stock <= s.current_stock,
    }
}

/// A copy of the bid.
fn copy_bid(bid: &Bid) -> (r: Bid)
    ensures
        r == *bid,
{
    Bid { threshold: bid.threshold, quantity: bid.quantity, reason: bid.reason.clone() }
}

/// Checks a proposed bid against the company's grid, price policy and stock.
pub fn validate_bid(bid: &Bid, profile: &Profile) -> (r: Result<Bid, BidError>)
    requires
        validation_defined(*bid, *profile),
    ensures
        r == validation(*bid, *profile),
{
    match profile {
        Profile::Buyer(buyer_profile) => {
            if !is_grid_price(bid.threshold) {
                Err(BidError::NotOnGrid(bid.threshold))
            } else if bid.threshold > buyer_profile.price_ceiling {
                Err(BidError::PolicyViolation)
            } else if bid.quantity > buyer_profile.max_stock - buyer_profile.current_stock {
                Err(
                    BidError::QuantityExceedsMax(
                        bid.quantity,
                        buyer_profile.max_stock - buyer_profile.current_stock,
                    ),
                )
            } else {
                Ok(copy_bid(bid))
            }
        },
        Profile::Supplier(supplier_profile) => {
            if !is_grid_price(bid.threshold) {
                Err(BidError::NotOnGrid(bid.threshold))
            } else if bid.threshold < supplier_profile.price_floor {
                Err(BidError::PolicyViolation)
            } else if bid.quantity > (supplier_profile.current_stock
                - supplier_profile.safety_stock) {
                Err(
                    BidError::QuantityExceedsMax(
                        bid.quantity,
                        supplier_profile.current_stock - supplier_profile.safety_stock,
                    ),
                )
            } else {
                Ok(copy_bid(bid))
            }
        },
    }
}

/// The auction bids `(threshold, quantity, is_buyer)` of a round of bids.
pub open spec fn auction_bids(bids: Seq<(Bid, bool)>) -> Seq<(u64, u64, bool)> {
    bids.map_values(|b: (Bid, bool)| (b.0.threshold, b.0.quantity, b.1))
}

/// Runs the auction over the bids, each tagged with whether it is a buy:
/// clearing price, volume, total demand and total supply at the clearing
/// band.
pub fn aggregate_bids(bids: &[(Bid, bool)]) -> (r: Option<(u64, u64, u64, u64)>)
    ensures
        r == market_outcome(auction_bids(bids@)),
{
    let mut participants: Vec<(u64, u64, bool)> = Vec::new();
    for i in 0..bids.len()
        invariant
            participants@ =~= auction_bids(bids@.take(i as int)),
    {
        let (bid, is_buyer) = &bids[i];
        participants.push((bid.threshold, bid.quantity, *is_buyer));
        proof {
            assert(bids@.take(i + 1) =~= bids@.take(i as int).push(bids@[i as int]));
        }
    }
    proof {
        assert(bids@.take(bids@.len() as int) =~= bids@);
    }
    clear_market(participants.as_slice())
}

/// Every allocation of a round of bids can be computed.
pub open spec fn settlement_defined(bids: Seq<(Bid, bool)>) -> bool {
    market_outcome(auction_bids(bids)) matches Some(o) ==> forall|i: int|
        0 <= i < bids.len() ==> allocation_defined(
            o,
            (#[trigger] bids[i]).0.threshold,
            bids[i].0.quantity,
            bids[i].1,
        )
}

/// The public result of round `round_num` over the bids: price, volume and
/// each bidder's allocation when the market clears, zeros otherwise, and
/// the thresholds bid.
pub fn settle_round(round_num: usize, bids: &[(Bid, bool)]) -> (r: RoundResult)
    requires
        settlement_defined(bids@),
    ensures
        r.round == round_num,
        r.thresholds@ == bids@.map_values(|b: (Bid, bool)| b.0.threshold),
        r.allocation@.len() == bids@.len(),
        match market_outcome(auction_bids(bids@)) {
            Some(o) => {
                &&& r.price == o.0
                &&& r.volume == o.1
                &&& forall|i: int|
                    0 <= i < bids@.len() ==> #[trigger] r.allocation@[i] == allocation(
                        o,
                        bids@[i].0.threshold,
                        bids@[i].0.quantity,
                        bids@[i].1,
                    )
            },
            None => {
                &&& r.price == 0
                &&& r.volume == 0
                &&& forall|i: int| 0 <= i < bids@.len() ==> #[trigger] r.allocation@[i] == 0
            },
        },
{
    let outcome: Option<(u64, u64, u64, u64)> = aggregate_bids(bids);
    let mut fills: Vec<u64> = Vec::new();
    let mut thresholds: Vec<u64> = Vec::new();
    let n: usize = bids.len();
    for i in 0..n
        invariant
            n == bids@.len(),
            outcome == market_outcome(auction_bids(bids@)),
            settlement_defined(bids@),
            fills@.len() == i,
            thresholds@ =~= bids@.take(i as int).map_values(|b: (Bid, bool)| b.0.threshold),
            forall|k: int|
                0 <= k < i ==> #[trigger] fills@[k] == match outcome {
                    Some(o) => allocation(o, bids@[k].0.threshold, bids@[k].0.quantity, bids@[k].1),
                    None => 0,
                },
    {
        let (bid, is_buyer) = &bids[i];
        let trade_quantity: u64 = match outcome {
            Some(o) => allocation_for(o, bid.threshold, bid.quantity, *is_buyer),
            None => 0,
        };
        fills.push(trade_quantity);
        thresholds.push(bid.threshold);
        proof {
            assert(bids@.take(i + 1) =~= bids@.take(i as int).push(bids@[i as int]));
        }
    }
    proof {
        assert(bids@.take(n as int) =~= bids@);
    }
    match outcome {
        Some(o) => RoundResult {
            round: round_num,
            price: o.0,
            volume: o.1,
            allocation: fills,
            thresholds: thresholds,
        },
        None => RoundResult {
            round: round_num,
            price: 0,
            volume: 0,
            allocation: fills,
            thresholds: thresholds,
        },
    }
}

/// What to do after one attempt to obtain a bid from the model.
#[derive(Debug, PartialEq)]
pub enum ProposalStep {
    /// The bid passed the checks: use it.
    Accept(Bid),
    /// Try again; the refusal, if the bid was refused.
    Retry(Option<BidError>),
    /// No attempts left: fall back on the previous bid; the refusal, if the
    /// last bid was refused.
    GiveUp(Option<BidError>),
}

/// The decision after attempt `attempt` (from 0) of `max_retries`, where
/// `parsed` is the bid read from the model's answer, or `None` when the call
/// or the reading failed.
pub open spec fn proposal_step(
    profile: Profile,
    attempt: u32,
    max_retries: u32,
    parsed: Option<Bid>,
) -> ProposalStep {
    let refusal = match parsed {
        Some(b) => match validation(b, profile) {
            Ok(_) => None,
            Err(e) => Some(e),
        },
        None => None,
    };
    if parsed matches Some(b) && validation(b, profile) is Ok {
        ProposalStep::Accept(parsed->0)
    } else if attempt + 1 < max_retries {
        ProposalStep::Retry(refusal)
    } else {
        ProposalStep::GiveUp(refusal)
    }
}

/// Decides, after one attempt, whether to accept the bid, retry or give up.
pub fn next_proposal_step(profile: &Profile, attempt: u32, max_retries: u32, parsed: Option<Bid>) -> (r:
    ProposalStep)
    requires
        attempt < max_retries,
        parsed matches Some(b) ==> validation_defined(b, *profile),
    ensures
        r == proposal_step(*profile, attempt, max_retries, parsed),
{
    let refusal: Option<BidError> = match &parsed {
        Some(bid) => match validate_bid(bid, profile) {
            Ok(valid) => {
                return ProposalStep::Accept(valid);
            },
            Err(e) => Some(e),
        },
        None => None,
    };
    if attempt + 1 < max_retries {
        ProposalStep::Retry(refusal)
    } else {
        ProposalStep::GiveUp(refusal)
    }
}

/// The bid to use when no valid bid was obtained: the previous one.
pub fn fallback_bid(prev: Option<&Bid>) -> (r: Bid)
    requires
        prev is Some,
    ensures
        r == *prev->0,
{
    copy_bid(prev.unwrap())
}

/// The ASCII code of `{`.
pub const OPEN_BRACE: u8 = 123;

/// The ASCII code of `}`.
pub const CLOSE_BRACE: u8 = 125;

/// `i` is the first position of `c` in `s`.
pub open spec fn is_first_index(s: Seq<u8>, c: u8, i: int) -> bool {
    &&& 0 <= i < s.len()
    &&& s[i] == c
    &&& forall|k: int| 0 <= k < i ==> s[k] != c
}

/// `i` is the last position of `c` in `s`.
pub open spec fn is_last_index(s: Seq<u8>, c: u8, i: int) -> bool {
    &&& 0 <= i < s.len()
    &&& s[i] == c
    &&& forall|k: int| i < k < s.len() ==> s[k] != c
}

/// The byte span of the JSON object in a model answer: the position of the
/// first `{` and of the last `}`, or `None` when either is missing.
pub fn json_object_span(text: &[u8]) -> (r: Option<(usize, usize)>)
    ensures
        match r {
            Some((start, end)) => is_first_index(text@, OPEN_BRACE, start as int) && is_last_index(
                text@,
                CLOSE_BRACE,
                end as int,
            ),
            None => !text@.contains(OPEN_BRACE) || !text@.contains(CLOSE_BRACE),
        },
{
    let n: usize = text.len();
    let mut start: usize = 0;
    while start < n && text[start] != OPEN_BRACE
        invariant
            start <= n,
            n == text@.len(),
            forall|k: int| 0 <= k < start ==> text@[k] != OPEN_BRACE,
        decreases n - start,
    {
        start = start + 1;
    }
    if start == n {
        return None;
    }
    let mut end: usize = n;
    while end > 0 && text[end - 1] != CLOSE_BRACE
        invariant
            end <= n,
            n == text@.len(),
            forall|k: int| end <= k < n ==> text@[k] != CLOSE_BRACE,
        decreases end,
    {
        end = end - 1;
    }
    if end == 0 {
        return None;
    }
    Some((start, end - 1))
}

/// A bid that passes the checks is the bid itself, on the grid, within the
/// company's price policy and within its stock limits.
pub proof fn lemma_accepted_bid_is_admissible(bid: Bid, profile: Profile)
    requires
        validation(bid, profile) is Ok,
    ensures
        validation(bid, profile) == Ok::<Bid, BidError>(bid),
        on_grid(bid.threshold),
        profile matches Profile::Buyer(b) ==> bid.threshold <= b.price_ceiling && bid.quantity
            <= b.max_stock - b.current_stock,
        profile matches Profile::Supplier(s) ==> bid.threshold >= s.price_floor && bid.quantity
            <= s.current_stock - s.safety_stock,
{
}

/// A bid that meets the company's rules is accepted as it is: for a buyer,
/// a grid price at or below its price ceiling and a quantity within its
/// stock room; for a supplier, a grid price at or above its price floor and
/// a quantity within what it can give above its safety stock.
pub proof fn lemma_admissible_bid_is_accepted(bid: Bid, profile: Profile)
    ensures
        profile matches Profile::Buyer(b) ==> (on_grid(bid.threshold) && bid.threshold
            <= b.price_ceiling && bid.quantity <= b.max_stock - b.current_stock ==> validation(
            bid,
            profile,
        ) == Ok::<Bid, BidError>(bid)),
        profile matches Profile::Supplier(s) ==> (on_grid(bid.threshold) && bid.threshold
            >= s.price_floor && bid.quantity <= s.current_stock - s.safety_stock ==> validation(
            bid,
            profile,
        ) == Ok::<Bid, BidError>(bid)),
{
}

/// Why a bid is refused: a threshold off the grid is reported first, then a
/// threshold that breaks the price policy (above a buyer's ceiling, below a
/// supplier's floor), then a quantity beyond the company's room, with that
/// room.
pub proof fn lemma_refusal_reasons(bid: Bid, profile: Profile)
    ensures
        !on_grid(bid.threshold) ==> validation(bid, profile) == Err::<Bid, BidError>(
            BidError::NotOnGrid(bid.threshold),
        ),
        profile matches Profile::Buyer(b) ==> (on_grid(bid.threshold) && bid.threshold
            > b.price_ceiling ==> validation(bid, profile) == Err::<Bid, BidError>(
            BidError::PolicyViolation,
        )),
        profile matches Profile::Buyer(b) ==> (on_grid(bid.threshold) && bid.threshold
            <= b.price_ceiling && bid.quantity > b.max_stock - b.current_stock ==> validation(
            bid,
            profile,
        ) == Err::<Bid, BidError>(
            BidError::QuantityExceedsMax(bid.quantity, (b.max_stock - b.current_stock) as u64),
        )),
        profile matches Profile::Supplier(s) ==> (on_grid(bid.threshold) && bid.threshold
            < s.price_floor ==> validation(bid, profile) == Err::<Bid, BidError>(
            BidError::PolicyViolation,
        )),
        profile matches Profile::Supplier(s) ==> (on_grid(bid.threshold) && bid.threshold
            >= s.price_floor && bid.quantity > s.current_stock - s.safety_stock ==> validation(
            bid,
            profile,
        ) == Err::<Bid, BidError>(
            BidError::QuantityExceedsMax(bid.quantity, (s.current_stock - s.safety_stock) as u64),
        )),
{
}

/// A bid read from the model that passes the checks is taken at once, on
/// any attempt, the last one included; and a bid is taken only then.
pub proof fn lemma_valid_bid_is_accepted(
    profile: Profile,
    attempt: u32,
    max_retries: u32,
    parsed: Option<Bid>,
)
    ensures
        parsed matches Some(b) && validation(b, profile) is Ok ==> proposal_step(
            profile,
            attempt,
            max_retries,
            parsed,
        ) == ProposalStep::Accept(parsed->0),
        proposal_step(profile, attempt, max_retries, parsed) matches ProposalStep::Accept(x) ==> parsed
            == Some(x) && validation(x, profile) is Ok,
{
}

/// Without an acceptable bid the agent retries while attempts are left and
/// gives up on the last one, passing on why the bid was refused (nothing
/// when no bid could be read).
pub proof fn lemma_retry_until_last_attempt(
    profile: Profile,
    attempt: u32,
    max_retries: u32,
    parsed: Option<Bid>,
)
    requires
        !(parsed matches Some(b) && validation(b, profile) is Ok),
    ensures
        attempt + 1 < max_retries ==> proposal_step(profile, attempt, max_retries, parsed)
            is Retry,
        attempt + 1 >= max_retries ==> proposal_step(profile, attempt, max_retries, parsed)
            is GiveUp,
        parsed is None ==> (proposal_step(profile, attempt, max_retries, parsed) matches
            ProposalStep::Retry(e) ==> e is None) && (proposal_step(
            profile,
            attempt,
            max_retries,
            parsed,
        ) matches ProposalStep::GiveUp(e) ==> e is None),
        parsed matches Some(b) ==> (proposal_step(profile, attempt, max_retries, parsed) matches
            ProposalStep::Retry(e) ==> e == Some(validation(b, profile)->Err_0)) && (
        proposal_step(profile, attempt, max_retries, parsed) matches ProposalStep::GiveUp(e) ==> e
            == Some(validation(b, profile)->Err_0)),
{
}

} // verus!
