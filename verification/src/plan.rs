//! The result extractor: turns the solver's outcome into a purchase plan.
//!
//! The solver is a black box. Whatever it hands back is re-checked here
//! against the model's own constraints before any derived quantity is
//! computed, so a plan is only ever produced from an assignment that
//! satisfies every constraint: strictly under budget, nothing negative.

use vstd::prelude::*;
use crate::model::{Model, lemma_mul_nonneg_le, lemma_term_bounds, to_ints};
use crate::portfolio::{Error, MAX_MILLI};

verus! {

/// What one solve of the optimization backend handed back.
pub enum SolveOutcome {
    /// The backend reported that no satisfying assignment exists, or gave
    /// up without a witness.
    NoSolution,
    /// A candidate assignment: for each fund, in ledger order, the
    /// evaluated decision variable, or `None` where the backend could not
    /// evaluate it.
    Assignment(Vec<Option<i64>>),
}

/// The purchase recommendation for one fund.
pub struct FundPlan {
    /// The fund's symbol, copied from the ledger.
    pub symbol: String,
    /// Optimal number of whole shares to buy.
    pub shares: i64,
    /// Purchase amount, in thousandths: shares times quantized price.
    pub purchase_milli: i128,
    /// The fund's value after the purchase, in millionths: price times
    /// the sum of bought and existing shares.
    pub value_micro: i128,
}

/// The extracted result of one solve.
pub struct Plan {
    /// One entry per fund, in ledger order. A fund's new proportion of
    /// the portfolio is its `value_micro` over `new_total_micro`.
    pub funds: Vec<FundPlan>,
    /// Total purchase amount, in thousandths.
    pub total_purchase_milli: i128,
    /// New portfolio total, in millionths.
    pub new_total_micro: i128,
}

/// The backend evaluated a value for each of the first `n` variables.
pub open spec fn vals_complete(vals: Seq<Option<i64>>, n: int) -> bool {
    forall|f: int| 0 <= f < n ==> f < vals.len() && vals[f] is Some
}

/// The first `n` evaluated values, as mathematical integers.
pub open spec fn unwrapped(vals: Seq<Option<i64>>, n: int) -> Seq<int> {
    Seq::new(n as nat, |f: int| vals[f]->0 as int)
}

/// The plan `p` reports exactly the derived quantities of assignment `xs`
/// under model `m`.
pub open spec fn plan_matches(m: Model, xs: Seq<int>, p: Plan) -> bool {
    let funds = m.cfg.funds@;
    &&& p.funds@.len() == funds.len()
    &&& (forall|f: int|
        0 <= f < funds.len() ==> {
            let fp = #[trigger] p.funds@[f];
            &&& fp.symbol@ == funds[f].symbol@
            &&& fp.shares == xs[f]
            &&& fp.purchase_milli == xs[f] * funds[f].price_milli
            &&& fp.value_micro == funds[f].price_milli * (1000 * xs[f] + funds[f].shares_milli)
        })
    &&& p.total_purchase_milli == m.spec_total_bought_milli(xs)
    &&& p.new_total_micro == m.spec_new_total_micro(xs)
}

/// Reads the solver's outcome back into a purchase plan.
///
/// A missing outcome is the no-solution signal. An assignment with an
/// unevaluated variable fails with the symbol of the first fund affected.
/// An assignment that does not satisfy the model's constraints is no
/// solved model at all and is treated as the no-solution signal. A
/// satisfying assignment yields the plan: per fund the shares to buy,
/// the purchase amount and the new value, plus the total purchase and the
/// new portfolio total.
#[verifier::rlimit(100)]
pub fn extract(m: &Model, outcome: SolveOutcome) -> (r: Result<Plan, Error>)
    requires
        m.wf(),
    ensures
        (outcome matches SolveOutcome::NoSolution) ==> r == Result::<Plan, Error>::Err(
            Error::NoSolution,
        ),
        (outcome matches SolveOutcome::Assignment(vals) ==> {
            let n = m.fund_count();
            &&& (!vals_complete(vals@, n) ==> (r matches Err(e) && exists|f: int|
                {
                    &&& 0 <= f < n
                    &&& !(f < vals@.len() && vals@[f] is Some)
                    &&& (forall|g: int| 0 <= g < f ==> g < vals@.len() && vals@[g] is Some)
                    &&& e == (Error::Evaluation { symbol: m.cfg.funds@[f].symbol })
                }))
            &&& ((vals_complete(vals@, n) && !m.spec_satisfies(unwrapped(vals@, n))) ==> r
                == Result::<Plan, Error>::Err(Error::NoSolution))
            &&& ((vals_complete(vals@, n) && m.spec_satisfies(unwrapped(vals@, n))) ==> (r matches
                Ok(p) && plan_matches(*m, unwrapped(vals@, n), p)))
        }),
{
    match outcome {
        SolveOutcome::NoSolution => Err(Error::NoSolution),
        SolveOutcome::Assignment(vals) => {
            let n = m.cfg.funds.len();
            let mut xs: Vec<i64> = Vec::new();
            for f in 0..n
                invariant
                    m.wf(),
                    outcome == SolveOutcome::Assignment(vals),
                    n == m.cfg.funds@.len(),
                    xs@.len() == f,
                    forall|g: int| 0 <= g < f ==> g < vals@.len() && (#[trigger] vals@[g]) is Some,
                    forall|g: int| 0 <= g < f ==> #[trigger] xs@[g] == vals@[g]->0,
            {
                let missing = if f >= vals.len() {
                    true
                } else {
                    vals[f].is_none()
                };
                if missing {
                    let symbol = m.cfg.funds[f].symbol.clone();
                    proof {
                        let w = f as int;
                        assert({
                            &&& 0 <= w < m.fund_count()
                            &&& !(w < vals@.len() && vals@[w] is Some)
                            &&& (forall|g: int|
                                0 <= g < w ==> g < vals@.len() && (#[trigger] vals@[g]) is Some)
                            &&& (Error::Evaluation { symbol }) == (Error::Evaluation {
                                symbol: m.cfg.funds@[w].symbol,
                            })
                        });
                    }
                    return Err(Error::Evaluation { symbol });
                }
                let v = vals[f].unwrap();
                xs.push(v);
            }
            proof {
                assert(vals_complete(vals@, m.fund_count()));
                assert(to_ints(xs@) =~= unwrapped(vals@, m.fund_count()));
                assert(to_ints(xs@) == unwrapped(vals@, m.fund_count()));
            }
            if !m.check_assignment(&xs) {
                return Err(Error::NoSolution);
            }
            let bought = m.total_bought_milli(&xs);
            let newt = m.new_total_micro(&xs);
            let ghost ints = to_ints(xs@);
            let mut out: Vec<FundPlan> = Vec::new();
            for f in 0..n
                invariant
                    m.wf(),
                    outcome == SolveOutcome::Assignment(vals),
                    n == m.cfg.funds@.len(),
                    xs@.len() == n,
                    ints == to_ints(xs@),
                    m.spec_satisfies(ints),
                    out@.len() == f,
                    forall|g: int|
                        0 <= g < f ==> {
                            let fp = #[trigger] out@[g];
                            let fund = m.cfg.funds@[g];
                            &&& fp.symbol@ == fund.symbol@
                            &&& fp.shares == ints[g]
                            &&& fp.purchase_milli == ints[g] * fund.price_milli
                            &&& fp.value_micro == fund.price_milli * (1000 * ints[g]
                                + fund.shares_milli)
                        },
            {
                let fund = &m.cfg.funds[f];
                let shares = xs[f];
                proof {
                    assert(MAX_MILLI == 1_000_000_000_000);
                    lemma_term_bounds(*m, ints, f as int);
                    lemma_mul_nonneg_le(
                        fund.price_milli as int,
                        1000 * ints[f as int] + fund.shares_milli,
                        1_000_000_000_000,
                        1_001_000_000_000_000,
                    );
                }
                let purchase = (shares as i128) * (fund.price_milli as i128);
                let value = (fund.price_milli as i128) * (1000i128 * (shares as i128) + (
                fund.shares_milli as i128));
                out.push(
                    FundPlan {
                        symbol: fund.symbol.clone(),
                        shares,
                        purchase_milli: purchase,
                        value_micro: value,
                    },
                );
            }
            Ok(Plan { funds: out, total_purchase_milli: bought, new_total_micro: newt })
        },
    }
}

} // verus!
