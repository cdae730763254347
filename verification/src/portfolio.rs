//! The fund ledger: per-asset state, the portfolio configuration, and the
//! validator that every configuration must pass before modeling.
//!
//! All quantities are quantized to thousandths and stored as integers:
//! `shares_milli` is thousandths of a share, `price_milli` thousandths of a
//! currency unit, `prop_milli` thousandths of the whole portfolio.

use vstd::prelude::*;

verus! {

/// Largest magnitude, in thousandths, that a quantized share count, price or
/// budget may have. Keeps every derived product within `i128` range.
pub const MAX_MILLI: i64 = 1_000_000_000_000;

/// Largest number of funds a configuration may hold.
pub const MAX_FUNDS: usize = 10_000;

/// One asset of the portfolio: existing holdings, a price, and the target
/// fraction of total portfolio value it should represent.
pub struct Fund {
    /// Unique identifier of the asset.
    pub symbol: String,
    /// Existing holdings, in thousandths of a share. Non-negative.
    pub shares_milli: i64,
    /// Price per share, in thousandths. The validator rejects non-positive
    /// prices, but the ledger itself can hold them so that validation has
    /// something to report.
    pub price_milli: i64,
    /// Target fraction of post-purchase portfolio value, in thousandths of
    /// the whole; lies in (0, 1].
    pub prop_milli: i64,
}

impl Fund {
    /// Field ranges every ledger entry keeps.
    pub open spec fn wf(self) -> bool {
        &&& 0 <= self.shares_milli <= MAX_MILLI
        &&& -MAX_MILLI <= self.price_milli <= MAX_MILLI
        &&& 1 <= self.prop_milli <= 1000
    }

    /// Builds a fund, refusing values outside the representable ranges.
    pub fn new(symbol: String, shares_milli: i64, price_milli: i64, prop_milli: i64) -> (r: Option<
        Fund,
    >)
        ensures
            r is Some <==> {
                &&& 0 <= shares_milli <= MAX_MILLI
                &&& -MAX_MILLI <= price_milli <= MAX_MILLI
                &&& 1 <= prop_milli <= 1000
            },
            r matches Some(f) ==> f == (Fund { symbol, shares_milli, price_milli, prop_milli })
                && f.wf(),
    {
        if 0 <= shares_milli && shares_milli <= MAX_MILLI && -MAX_MILLI <= price_milli
            && price_milli <= MAX_MILLI && 1 <= prop_milli && prop_milli <= 1000 {
            Some(Fund { symbol, shares_milli, price_milli, prop_milli })
        } else {
            None
        }
    }
}

/// A whole portfolio configuration: the budget ceiling and the fund ledger.
pub struct Config {
    /// The funds, in the order reports will list them.
    pub funds: Vec<Fund>,
    /// Budget ceiling for this solve, in thousandths. May be non-positive,
    /// in which case no purchase plan exists.
    pub target_buy_milli: i64,
}

/// Sum of the target proportions of the first `k` funds, in thousandths.
pub open spec fn prop_sum_upto(funds: Seq<Fund>, k: int) -> int
    decreases k,
{
    if k <= 0 {
        0
    } else {
        prop_sum_upto(funds, k - 1) + funds[k - 1].prop_milli
    }
}

/// Sum of all target proportions, in thousandths.
pub open spec fn prop_sum(funds: Seq<Fund>) -> int {
    prop_sum_upto(funds, funds.len() as int)
}

/// Every fund's price is strictly positive.
pub open spec fn prices_positive(funds: Seq<Fund>) -> bool {
    forall|i: int| 0 <= i < funds.len() ==> funds[i].price_milli > 0
}

/// No two funds share a symbol.
pub open spec fn symbols_unique(funds: Seq<Fund>) -> bool {
    forall|i: int, j: int|
        0 <= i < j < funds.len() ==> funds[i].symbol@ != funds[j].symbol@
}

/// Everything that can go wrong in the pipeline.
#[derive(Debug)]
pub enum Error {
    /// The target proportions do not sum to 1 within the tolerance; carries
    /// the actual sum, in thousandths.
    ProportionSum { sum_milli: i64 },
    /// A fund's price is zero or negative; carries its symbol.
    NonPositivePrice { symbol: String },
    /// Two funds share this symbol.
    DuplicateSymbol { symbol: String },
    /// The solver found no assignment satisfying the constraints.
    NoSolution,
    /// The solver produced a model but the named fund's decision variable
    /// could not be evaluated from it.
    Evaluation { symbol: String },
}

impl Config {
    /// Size bounds every configuration keeps.
    pub open spec fn wf(self) -> bool {
        &&& self.funds@.len() <= MAX_FUNDS
        &&& forall|i: int| 0 <= i < self.funds@.len() ==> self.funds@[i].wf()
        &&& -MAX_MILLI <= self.target_buy_milli <= MAX_MILLI
    }

    /// The three invariants validation enforces: proportions sum to 1 within
    /// an absolute tolerance of 0.01, every price is strictly positive, and
    /// symbols are unique.
    pub open spec fn spec_valid(self) -> bool {
        &&& 990 <= prop_sum(self.funds@) <= 1010
        &&& prices_positive(self.funds@)
        &&& symbols_unique(self.funds@)
    }

    /// Builds a configuration, refusing out-of-range entries.
    pub fn new(funds: Vec<Fund>, target_buy_milli: i64) -> (r: Option<Config>)
        ensures
            r is Some <==> {
                &&& funds@.len() <= MAX_FUNDS
                &&& forall|i: int| 0 <= i < funds@.len() ==> funds@[i].wf()
                &&& -MAX_MILLI <= target_buy_milli <= MAX_MILLI
            },
            r matches Some(c) ==> c == (Config { funds, target_buy_milli }) && c.wf(),
    {
        if funds.len() > MAX_FUNDS || target_buy_milli < -MAX_MILLI || target_buy_milli
            > MAX_MILLI {
            return None;
        }
        let n = funds.len();
        for i in 0..n
            invariant
                n == funds@.len(),
                forall|j: int| 0 <= j < i ==> funds@[j].wf(),
        {
            let f = &funds[i];
            if !(0 <= f.shares_milli && f.shares_milli <= MAX_MILLI && -MAX_MILLI <= f.price_milli
                && f.price_milli <= MAX_MILLI && 1 <= f.prop_milli && f.prop_milli <= 1000) {
                return None;
            }
        }
        Some(Config { funds, target_buy_milli })
    }

    /// Checks the configuration's invariants, in order: the proportion sum
    /// (reporting the actual sum on failure), then each price (reporting the
    /// first offending symbol), then symbol uniqueness (reporting the first
    /// duplicated symbol).
    pub fn validate(&self) -> (r: Result<(), Error>)
        requires
            self.wf(),
        ensures
            r is Ok <==> self.spec_valid(),
            ({
                let funds = self.funds@;
                let sum = prop_sum(funds);
                &&& ((sum < 990 || sum > 1010) ==> (r matches Err(e) && e matches
                    Error::ProportionSum { sum_milli } && sum_milli == sum))
                &&& ((990 <= sum <= 1010 && !prices_positive(funds)) ==> (r matches Err(e)
                    && exists|i: int|
                    {
                        &&& 0 <= i < funds.len()
                        &&& funds[i].price_milli <= 0
                        &&& (forall|j: int| 0 <= j < i ==> funds[j].price_milli > 0)
                        &&& e == (Error::NonPositivePrice { symbol: funds[i].symbol })
                    }))
                &&& ((990 <= sum <= 1010 && prices_positive(funds) && !symbols_unique(funds))
                    ==> (r matches Err(e) && exists|i: int, j: int|
                    {
                        &&& 0 <= i < j < funds.len()
                        &&& funds[i].symbol@ == funds[j].symbol@
                        &&& (forall|i2: int, j2: int|
                            0 <= i2 < j2 < funds.len() && funds[i2].symbol@ == funds[j2].symbol@
                                ==> i <= i2)
                        &&& e == (Error::DuplicateSymbol { symbol: funds[i].symbol })
                    }))
            }),
    {
        let n = self.funds.len();
        let mut sum: i64 = 0;
        for i in 0..n
            invariant
                self.wf(),
                n == self.funds@.len(),
                sum == prop_sum_upto(self.funds@, i as int),
                0 <= sum <= 1000 * i,
        {
            sum = sum + self.funds[i].prop_milli;
        }
        if sum < 990 || sum > 1010 {
            return Err(Error::ProportionSum { sum_milli: sum });
        }
        for i in 0..n
            invariant
                self.wf(),
                n == self.funds@.len(),
                990 <= prop_sum(self.funds@) <= 1010,
                forall|j: int| 0 <= j < i ==> self.funds@[j].price_milli > 0,
        {
            if self.funds[i].price_milli <= 0 {
                let symbol = self.funds[i].symbol.clone();
                proof {
                    let funds = self.funds@;
                    let w = i as int;
                    assert({
                        &&& 0 <= w < funds.len()
                        &&& funds[w].price_milli <= 0
                        &&& (forall|j: int| 0 <= j < w ==> funds[j].price_milli > 0)
                        &&& (Error::NonPositivePrice { symbol }) == (Error::NonPositivePrice {
                            symbol: funds[w].symbol,
                        })
                    });
                }
                return Err(Error::NonPositivePrice { symbol });
            }
        }
        for i in 0..n
            invariant
                self.wf(),
                n == self.funds@.len(),
                990 <= prop_sum(self.funds@) <= 1010,
                prices_positive(self.funds@),
                forall|i2: int, j2: int|
                    0 <= i2 < j2 < self.funds@.len() && i2 < i ==> self.funds@[i2].symbol@
                        != self.funds@[j2].symbol@,
        {
            let m = n;
            for j in (i + 1)..m
                invariant
                    self.wf(),
                    m == n == self.funds@.len(),
                    i < n,
                    990 <= prop_sum(self.funds@) <= 1010,
                    prices_positive(self.funds@),
                    forall|i2: int, j2: int|
                        0 <= i2 < j2 < self.funds@.len() && i2 < i ==> self.funds@[i2].symbol@
                            != self.funds@[j2].symbol@,
                    forall|j2: int| i < j2 < j ==> self.funds@[i as int].symbol@
                        != self.funds@[j2].symbol@,
            {
                if self.funds[i].symbol == self.funds[j].symbol {
                    let symbol = self.funds[i].symbol.clone();
                    proof {
                        let funds = self.funds@;
                        let wi = i as int;
                        let wj = j as int;
                        assert({
                            &&& 0 <= wi < wj < funds.len()
                            &&& funds[wi].symbol@ == funds[wj].symbol@
                            &&& (forall|i2: int, j2: int|
                                0 <= i2 < j2 < funds.len() && funds[i2].symbol@
                                    == funds[j2].symbol@ ==> wi <= i2)
                            &&& (Error::DuplicateSymbol { symbol }) == (Error::DuplicateSymbol {
                                symbol: funds[wi].symbol,
                            })
                        });
                    }
                    return Err(Error::DuplicateSymbol { symbol });
                }
            }
        }
        Ok(())
    }
}

} // verus!
