//! The optimization model: decision variables, constraints, and the
//! objective, all over exact integer arithmetic.
//!
//! One non-negative integer decision variable per fund ("shares to buy")
//! is encoded by its index. The hard constraints are that every variable
//! is non-negative and that the total bought stays strictly below the
//! budget. The objective, measured in billionths of a currency unit, is
//! the sum over funds of the absolute deviation between the fund's new
//! value and its ideal share of the new portfolio total, plus an
//! underspend penalty that pulls the total bought toward the budget.
//!
//! The external solver only searches; everything it hands back is checked
//! and evaluated here, so the stated properties hold of whatever it
//! returns.

use vstd::prelude::*;
use crate::portfolio::{Config, Fund, MAX_FUNDS, MAX_MILLI, prices_positive};

verus! {

/// The view of an assignment vector as a sequence of mathematical integers.
pub open spec fn to_ints(s: Seq<i64>) -> Seq<int> {
    Seq::new(s.len(), |i: int| s[i] as int)
}

/// Absolute value.
pub open spec fn abs_val(x: int) -> int {
    if x < 0 {
        -x
    } else {
        x
    }
}

/// Total spent on the first `k` funds, in thousandths: sum of shares
/// bought times quantized price.
pub open spec fn bought_upto(funds: Seq<Fund>, a: Seq<int>, k: int) -> int
    decreases k,
{
    if k <= 0 {
        0
    } else {
        bought_upto(funds, a, k - 1) + a[k - 1] * funds[k - 1].price_milli
    }
}

/// Value already held in the first `k` funds, in millionths: sum of
/// existing shares times price, both in thousandths.
pub open spec fn existing_upto(funds: Seq<Fund>, k: int) -> int
    decreases k,
{
    if k <= 0 {
        0
    } else {
        existing_upto(funds, k - 1) + funds[k - 1].shares_milli * funds[k - 1].price_milli
    }
}

/// A built optimization model: the validated ledger, the budget, and the
/// cached total of existing holdings.
pub struct Model {
    /// The validated configuration the model was built from.
    pub cfg: Config,
    /// Value of all existing holdings, in millionths of a currency unit.
    pub total_existing_micro: i128,
}

impl Model {
    /// Number of decision variables: one per fund.
    pub open spec fn fund_count(self) -> int {
        self.cfg.funds@.len() as int
    }

    /// A model is well formed when its configuration is in range and
    /// validated and the cached total matches the ledger.
    pub open spec fn wf(self) -> bool {
        &&& self.cfg.wf()
        &&& self.cfg.spec_valid()
        &&& self.total_existing_micro == existing_upto(self.cfg.funds@, self.fund_count())
    }

    /// Total spent under assignment `a`, in thousandths.
    pub open spec fn spec_total_bought_milli(self, a: Seq<int>) -> int {
        bought_upto(self.cfg.funds@, a, self.fund_count())
    }

    /// New portfolio total under assignment `a`, in millionths: what is
    /// bought plus what is already held.
    pub open spec fn spec_new_total_micro(self, a: Seq<int>) -> int {
        1000 * self.spec_total_bought_milli(a) + existing_upto(self.cfg.funds@, self.fund_count())
    }

    /// The hard constraints: one value per fund, every value
    /// non-negative, and total bought strictly below the budget.
    pub open spec fn spec_satisfies(self, a: Seq<int>) -> bool {
        &&& a.len() == self.fund_count()
        &&& forall|i: int| 0 <= i < a.len() ==> a[i] >= 0
        &&& self.spec_total_bought_milli(a) < self.cfg.target_buy_milli
    }

    /// Deviation of fund `f` from its ideal share of the new total, in
    /// billionths: `|price * (shares_to_buy + existing_shares) -
    /// new_total * target_proportion|`.
    pub open spec fn spec_deviation_nano(self, a: Seq<int>, f: int) -> int {
        let fund = self.cfg.funds@[f];
        abs_val(
            1_000_000 * fund.price_milli * a[f] + 1000 * fund.price_milli * fund.shares_milli
                - self.spec_new_total_micro(a) * fund.prop_milli,
        )
    }

    /// Sum of the deviations of the first `k` funds, in billionths.
    pub open spec fn dev_sum_upto(self, a: Seq<int>, k: int) -> int
        decreases k,
    {
        if k <= 0 {
            0
        } else {
            self.dev_sum_upto(a, k - 1) + self.spec_deviation_nano(a, k - 1)
        }
    }

    /// The objective the solver minimizes, in billionths: summed
    /// deviations plus the underspend penalty `target_buy - total_bought`,
    /// weighted equally.
    pub open spec fn spec_objective_nano(self, a: Seq<int>) -> int {
        self.dev_sum_upto(a, self.fund_count()) + 1_000_000 * (
        self.cfg.target_buy_milli - self.spec_total_bought_milli(a))
    }
}

/// The product of values in `[0, bx]` and `[0, by]` lies in `[0, bx * by]`.
pub proof fn lemma_mul_nonneg_le(x: int, y: int, bx: int, by: int)
    by (nonlinear_arith)
    requires
        0 <= x <= bx,
        0 <= y <= by,
    ensures
        0 <= x * y <= bx * by,
{
}

/// The product of values bounded by `bx` and `by` in magnitude is bounded
/// by `bx * by` in magnitude.
proof fn lemma_mul_abs_le(x: int, y: int, bx: int, by: int)
    by (nonlinear_arith)
    requires
        -bx <= x <= bx,
        -by <= y <= by,
        0 <= bx,
        0 <= by,
    ensures
        -(bx * by) <= x * y <= bx * by,
{
}

/// The product of non-negative values is non-negative.
proof fn lemma_mul_sign(x: int, y: int)
    by (nonlinear_arith)
    requires
        0 <= x,
        0 <= y,
    ensures
        0 <= x * y,
{
}

/// Multiplying a non-negative value by a factor of at least one can only
/// grow it.
proof fn lemma_le_own_mul(x: int, p: int)
    by (nonlinear_arith)
    requires
        0 <= x,
        1 <= p,
    ensures
        x <= x * p,
        0 <= x * p,
{
}

/// Bounds on the existing-holdings sum: non-negative, and at most one
/// maximal product per fund counted.
proof fn lemma_existing_bounds(funds: Seq<Fund>, k: int)
    requires
        0 <= k <= funds.len(),
        forall|i: int| 0 <= i < funds.len() ==> funds[i].wf(),
        prices_positive(funds),
    ensures
        0 <= existing_upto(funds, k) <= k * 1_000_000_000_000_000_000_000_000,
    decreases k,
{
    if k > 0 {
        lemma_existing_bounds(funds, k - 1);
        lemma_mul_nonneg_le(
            funds[k - 1].shares_milli as int,
            funds[k - 1].price_milli as int,
            1_000_000_000_000,
            1_000_000_000_000,
        );
    }
}

/// With non-negative shares and positive prices, every partial
/// total-bought sum is non-negative.
proof fn lemma_bought_nonneg(funds: Seq<Fund>, a: Seq<int>, k: int)
    requires
        0 <= k <= funds.len(),
        a.len() == funds.len(),
        forall|i: int| 0 <= i < a.len() ==> a[i] >= 0,
        prices_positive(funds),
    ensures
        bought_upto(funds, a, k) >= 0,
    decreases k,
{
    if k > 0 {
        lemma_bought_nonneg(funds, a, k - 1);
        lemma_mul_sign(a[k - 1], funds[k - 1].price_milli as int);
    }
}

/// With non-negative terms the partial total-bought sums grow with `k`,
/// so each term is bounded by the full sum.
proof fn lemma_bought_prefix_le(funds: Seq<Fund>, a: Seq<int>, j: int, k: int)
    requires
        0 <= j <= k <= funds.len(),
        a.len() == funds.len(),
        forall|i: int| 0 <= i < a.len() ==> a[i] >= 0,
        prices_positive(funds),
    ensures
        bought_upto(funds, a, j) <= bought_upto(funds, a, k),
    decreases k - j,
{
    if j < k {
        lemma_bought_prefix_le(funds, a, j, k - 1);
        lemma_mul_sign(a[k - 1], funds[k - 1].price_milli as int);
    }
}

/// Under a satisfying assignment each fund's own spend, and hence its
/// share count, is bounded by the budget.
pub proof fn lemma_term_bounds(m: Model, a: Seq<int>, f: int)
    requires
        m.wf(),
        m.spec_satisfies(a),
        0 <= f < m.fund_count(),
    ensures
        0 <= a[f] * m.cfg.funds@[f].price_milli <= 1_000_000_000_000,
        0 <= a[f] <= 1_000_000_000_000,
{
    let funds = m.cfg.funds@;
    assert(MAX_MILLI == 1_000_000_000_000);
    lemma_bought_nonneg(funds, a, f);
    lemma_bought_prefix_le(funds, a, f + 1, funds.len() as int);
    assert(a[f] * funds[f].price_milli == bought_upto(funds, a, f + 1) - bought_upto(funds, a, f));
    lemma_mul_sign(a[f], funds[f].price_milli as int);
    lemma_le_own_mul(a[f], funds[f].price_milli as int);
}

/// Builds the optimization model for a validated configuration: caches
/// the value of the existing holdings and fixes the ledger and budget the
/// constraints and objective are stated over.
pub fn build_model(cfg: Config) -> (m: Model)
    requires
        cfg.wf(),
        cfg.spec_valid(),
    ensures
        m.wf(),
        m.cfg == cfg,
{
    let n = cfg.funds.len();
    let mut acc: i128 = 0;
    for i in 0..n
        invariant
            cfg.wf(),
            cfg.spec_valid(),
            n == cfg.funds@.len(),
            acc == existing_upto(cfg.funds@, i as int),
            0 <= acc <= (i as int) * 1_000_000_000_000_000_000_000_000,
    {
        let f = &cfg.funds[i];
        proof {
            assert(MAX_MILLI == 1_000_000_000_000 && MAX_FUNDS == 10_000);
            lemma_mul_nonneg_le(
                f.shares_milli as int,
                f.price_milli as int,
                1_000_000_000_000,
                1_000_000_000_000,
            );
        }
        acc = acc + (f.shares_milli as i128) * (f.price_milli as i128);
    }
    Model { cfg, total_existing_micro: acc }
}

impl Model {
    /// Evaluates the total spent under `a`, in thousandths.
    pub fn total_bought_milli(&self, a: &Vec<i64>) -> (t: i128)
        requires
            self.wf(),
            a@.len() == self.fund_count(),
        ensures
            t == self.spec_total_bought_milli(to_ints(a@)),
    {
        let n = self.cfg.funds.len();
        let mut acc: i128 = 0;
        for i in 0..n
            invariant
                self.wf(),
                a@.len() == n == self.cfg.funds@.len(),
                acc == bought_upto(self.cfg.funds@, to_ints(a@), i as int),
                -(i as int) * 9_223_372_036_854_775_808_000_000_000_000 <= acc <= (i as int)
                    * 9_223_372_036_854_775_808_000_000_000_000,
        {
            let f = &self.cfg.funds[i];
            proof {
                assert(MAX_MILLI == 1_000_000_000_000 && MAX_FUNDS == 10_000);
                lemma_mul_abs_le(
                    a@[i as int] as int,
                    f.price_milli as int,
                    9_223_372_036_854_775_808,
                    1_000_000_000_000,
                );
            }
            acc = acc + (a[i] as i128) * (f.price_milli as i128);
        }
        acc
    }

    /// Decides whether `a` satisfies every hard constraint of the model:
    /// one value per fund, each non-negative, and total bought strictly
    /// below the budget.
    pub fn check_assignment(&self, a: &Vec<i64>) -> (r: bool)
        requires
            self.wf(),
        ensures
            r == self.spec_satisfies(to_ints(a@)),
    {
        let n = self.cfg.funds.len();
        if a.len() != n {
            return false;
        }
        for i in 0..n
            invariant
                self.wf(),
                a@.len() == n == self.cfg.funds@.len(),
                forall|j: int| 0 <= j < i ==> to_ints(a@)[j] >= 0,
        {
            if a[i] < 0 {
                proof {
                    assert(to_ints(a@)[i as int] < 0);
                }
                return false;
            }
        }
        let bought = self.total_bought_milli(a);
        bought < (self.cfg.target_buy_milli as i128)
    }

    /// Evaluates the new portfolio total under `a`, in millionths.
    pub fn new_total_micro(&self, a: &Vec<i64>) -> (t: i128)
        requires
            self.wf(),
            self.spec_satisfies(to_ints(a@)),
        ensures
            t == self.spec_new_total_micro(to_ints(a@)),
            0 <= t,
    {
        proof {
            lemma_bought_nonneg(self.cfg.funds@, to_ints(a@), self.fund_count());
            lemma_existing_bounds(self.cfg.funds@, self.fund_count());
        }
        let bought = self.total_bought_milli(a);
        1000i128 * bought + self.total_existing_micro
    }

    /// Evaluates the objective under a satisfying assignment, in
    /// billionths: summed per-fund deviations plus the underspend
    /// penalty. The absolute value of each raw deviation is taken by
    /// branching on its sign, the same conditional encoding the solver is
    /// given.
    pub fn objective_nano(&self, a: &Vec<i64>) -> (w: i128)
        requires
            self.wf(),
            self.spec_satisfies(to_ints(a@)),
        ensures
            w == self.spec_objective_nano(to_ints(a@)),
    {
        let ghost ints = to_ints(a@);
        let n = self.cfg.funds.len();
        let bought = self.total_bought_milli(a);
        let newt = self.new_total_micro(a);
        proof {
            assert(MAX_MILLI == 1_000_000_000_000 && MAX_FUNDS == 10_000);
            lemma_bought_nonneg(self.cfg.funds@, ints, self.fund_count());
            lemma_existing_bounds(self.cfg.funds@, self.fund_count());
        }
        let mut devs: i128 = 0;
        for f in 0..n
            invariant
                self.wf(),
                self.spec_satisfies(ints),
                ints == to_ints(a@),
                a@.len() == n == self.cfg.funds@.len(),
                devs == self.dev_sum_upto(ints, f as int),
                0 <= devs <= (f as int) * 100_000_000_000_000_000_000_000_000_000_000,
                bought == self.spec_total_bought_milli(ints),
                newt == self.spec_new_total_micro(ints),
                0 <= bought <= 1_000_000_000_000,
                0 <= newt <= 11_000_000_000_000_000_000_000_000_000,
        {
            let fund = &self.cfg.funds[f];
            let av: i128 = a[f] as i128;
            let pv: i128 = fund.price_milli as i128;
            let sv: i128 = fund.shares_milli as i128;
            let qv: i128 = fund.prop_milli as i128;
            proof {
                assert(MAX_MILLI == 1_000_000_000_000 && MAX_FUNDS == 10_000);
                lemma_term_bounds(*self, ints, f as int);
                lemma_mul_nonneg_le(sv as int, pv as int, 1_000_000_000_000, 1_000_000_000_000);
            }
            let spend = av * pv;
            let value_nano = 1_000_000i128 * spend + 1000i128 * (sv * pv);
            proof {
                lemma_mul_nonneg_le(newt as int, qv as int, 11_000_000_000_000_000_000_000_000_000, 1000);
            }
            let ideal_nano = newt * qv;
            let diff = value_nano - ideal_nano;
            let dev = if diff < 0 {
                -diff
            } else {
                diff
            };
            proof {
                let fd = self.cfg.funds@[f as int];
                assert(1_000_000 * (av as int * pv as int) == 1_000_000 * fd.price_milli * ints[f as int]
                    && 1000 * (sv as int * pv as int) == 1000 * fd.price_milli * fd.shares_milli)
                    by (nonlinear_arith)
                    requires
                        av == ints[f as int],
                        pv == fd.price_milli,
                        sv == fd.shares_milli,
                ;
                assert(dev == self.spec_deviation_nano(ints, f as int));
            }
            devs = devs + dev;
        }
        let underspend = 1_000_000i128 * ((self.cfg.target_buy_milli as i128) - bought);
        devs + underspend
    }
}

/// Budget strictness: any assignment that satisfies the model spends
/// strictly less than the budget — never exactly it, never more.
pub proof fn lemma_budget_strict(m: Model, a: Seq<int>)
    requires
        m.wf(),
        m.spec_satisfies(a),
    ensures
        m.spec_total_bought_milli(a) < m.cfg.target_buy_milli,
{
}

/// Non-negativity: any assignment that satisfies the model buys a
/// non-negative number of shares of every fund.
pub proof fn lemma_shares_nonneg(m: Model, a: Seq<int>, f: int)
    requires
        m.wf(),
        m.spec_satisfies(a),
        0 <= f < m.fund_count(),
    ensures
        a[f] >= 0,
{
}

/// Infeasibility of a non-positive budget: with every price positive and
/// every decision variable constrained non-negative, total bought is
/// non-negative, so no assignment can spend strictly less than a budget
/// that is at most zero. The solver must report no solution.
pub proof fn lemma_no_solution_for_nonpositive_budget(m: Model, a: Seq<int>)
    requires
        m.wf(),
        m.cfg.target_buy_milli <= 0,
    ensures
        !m.spec_satisfies(a),
{
    if m.spec_satisfies(a) {
        lemma_bought_nonneg(m.cfg.funds@, a, m.fund_count());
    }
}

/// Single-fund degenerate case: with one fund holding nothing, priced at
/// 10 units, with target proportion 1 and a budget of 100 units, the
/// deviation term vanishes for every assignment, so the objective is
/// minimized by buying as many shares as the strict budget allows: nine.
pub proof fn lemma_single_fund_optimum(m: Model)
    requires
        m.wf(),
        m.fund_count() == 1,
        m.cfg.funds@[0].price_milli == 10_000,
        m.cfg.funds@[0].shares_milli == 0,
        m.cfg.funds@[0].prop_milli == 1000,
        m.cfg.target_buy_milli == 100_000,
    ensures
        m.spec_satisfies(seq![9int]),
        forall|b: Seq<int>|
            m.spec_satisfies(b) ==> m.spec_objective_nano(seq![9int]) <= m.spec_objective_nano(b),
{
    let funds = m.cfg.funds@;
    reveal_with_fuel(existing_upto, 2);
    reveal_with_fuel(bought_upto, 2);
    reveal_with_fuel(Model::dev_sum_upto, 2);
    assert(existing_upto(funds, 1) == funds[0].shares_milli * funds[0].price_milli);
    assert(funds[0].shares_milli * funds[0].price_milli == 0) by (nonlinear_arith)
        requires
            funds[0].shares_milli == 0,
    ;
    let nine = seq![9int];
    assert(bought_upto(funds, nine, 1) == nine[0] * funds[0].price_milli);
    assert(nine[0] * funds[0].price_milli == 90_000) by (nonlinear_arith)
        requires
            nine[0] == 9,
            funds[0].price_milli == 10_000,
    ;
    assert(m.spec_satisfies(nine));
    assert forall|b: Seq<int>| m.spec_satisfies(b) implies m.spec_objective_nano(nine)
        <= m.spec_objective_nano(b) by {
        lemma_single_fund_objective(m, b);
        lemma_single_fund_objective(m, nine);
        let b0 = b[0];
        assert(bought_upto(funds, b, 1) == b0 * funds[0].price_milli);
        assert(b0 <= 9) by (nonlinear_arith)
            requires
                b0 * 10_000 < 100_000,
                funds[0].price_milli == 10_000,
                b0 * funds[0].price_milli < 100_000,
        ;
        assert(b0 * 10_000 >= 0 && 9 * 10_000 == 90_000 && b0 * 10_000 <= 90_000)
            by (nonlinear_arith)
            requires
                0 <= b0 <= 9,
        ;
    }
}

/// In the single-fund degenerate case the deviation term is zero for
/// every one-variable assignment, so the objective reduces to the
/// underspend penalty alone.
proof fn lemma_single_fund_objective(m: Model, b: Seq<int>)
    requires
        m.wf(),
        m.fund_count() == 1,
        m.cfg.funds@[0].price_milli == 10_000,
        m.cfg.funds@[0].shares_milli == 0,
        m.cfg.funds@[0].prop_milli == 1000,
        b.len() == 1,
    ensures
        m.spec_objective_nano(b) == 1_000_000 * (m.cfg.target_buy_milli - b[0] * 10_000),
{
    let funds = m.cfg.funds@;
    reveal_with_fuel(existing_upto, 2);
    reveal_with_fuel(bought_upto, 2);
    reveal_with_fuel(Model::dev_sum_upto, 2);
    let b0 = b[0];
    assert(funds[0].shares_milli * funds[0].price_milli == 0) by (nonlinear_arith)
        requires
            funds[0].shares_milli == 0,
    ;
    assert(existing_upto(funds, 1) == 0);
    assert(bought_upto(funds, b, 1) == b0 * funds[0].price_milli);
    let newt = m.spec_new_total_micro(b);
    assert(newt == 1000 * (b0 * 10_000));
    assert(1_000_000 * funds[0].price_milli * b0 + 1000 * funds[0].price_milli
        * funds[0].shares_milli - (1000 * (b0 * 10_000)) * funds[0].prop_milli == 0)
        by (nonlinear_arith)
        requires
            funds[0].price_milli == 10_000,
            funds[0].shares_milli == 0,
            funds[0].prop_milli == 1000,
    ;
    assert(m.spec_deviation_nano(b, 0) == 0);
    assert(m.dev_sum_upto(b, 1) == 0);
    assert(m.spec_total_bought_milli(b) == b0 * 10_000);
}

} // verus!
