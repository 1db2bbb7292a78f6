//! Fixed-order quadrature: a table of nodes and weights applied to an integrand
//! without subdivision and without an error estimate.
//!
//! A rule of one of the nine families is made from the table of its nodes and
//! weights and sums the products of weight and value. The Gauss-Legendre
//! tables are the library's own, tabulated or computed, in multiples of
//! `2^-56`: `GLFixedTable::entry` hands out their entries and
//! `GLFixedTable::apply` sums values taken at the points of a rule.
use vstd::prelude::*;
use crate::fixedpoint::{
    clamp_to_i64,
    ONE,
    product,
    product_of,
    saturate,
    truncated_quotient,
};
use crate::legendre::{MOST_COMPUTED, ordered_roots, roots, roots_of, weight, weight_of};
use crate::legendre_tables::{
    LARGEST_RULE,
    legendre_node,
    LEGENDRE_NODES,
    legendre_weight,
    LEGENDRE_WEIGHTS,
    rule_length_of,
    rule_offset_of,
};
use crate::rule::{scale, scaled, width};
use crate::status::Value;

verus! {

/// The families of weight functions for which fixed-order rules exist.
#[derive(Clone, Copy, Debug, PartialEq, Eq, Structural)]
pub enum IntegrationFixedType {
    Legendre,
    Chebyshev,
    Gegenbauer,
    Jacobi,
    Laguerre,
    Hermite,
    Exponential,
    Rational,
    Chebyshev2,
}

impl IntegrationFixedType {
    /// Weight 1 on `(a, b)`.
    pub fn legendre() -> (r: IntegrationFixedType)
        ensures
            r == IntegrationFixedType::Legendre,
    {
        IntegrationFixedType::Legendre
    }

    /// Weight `1 / sqrt((b - x)(x - a))` on `(a, b)`.
    pub fn chebyshev() -> (r: IntegrationFixedType)
        ensures
            r == IntegrationFixedType::Chebyshev,
    {
        IntegrationFixedType::Chebyshev
    }

    /// Weight `sqrt((b - x)(x - a))` on `(a, b)`.
    pub fn chebyshev2() -> (r: IntegrationFixedType)
        ensures
            r == IntegrationFixedType::Chebyshev2,
    {
        IntegrationFixedType::Chebyshev2
    }

    /// Weight `((b - x)(x - a))^alpha` on `(a, b)`.
    pub fn gegenbauer() -> (r: IntegrationFixedType)
        ensures
            r == IntegrationFixedType::Gegenbauer,
    {
        IntegrationFixedType::Gegenbauer
    }

    /// Weight `(b - x)^alpha (x - a)^beta` on `(a, b)`.
    pub fn jacobi() -> (r: IntegrationFixedType)
        ensures
            r == IntegrationFixedType::Jacobi,
    {
        IntegrationFixedType::Jacobi
    }

    /// Weight `(x - a)^alpha exp(-b (x - a))` on `(a, inf)`.
    pub fn laguerre() -> (r: IntegrationFixedType)
        ensures
            r == IntegrationFixedType::Laguerre,
    {
        IntegrationFixedType::Laguerre
    }

    /// Weight `|x - a|^alpha exp(-b (x - a)^2)` on the whole line.
    pub fn hermite() -> (r: IntegrationFixedType)
        ensures
            r == IntegrationFixedType::Hermite,
    {
        IntegrationFixedType::Hermite
    }

    /// Weight `|x - (a + b) / 2|^alpha` on `(a, b)`.
    pub fn exponential() -> (r: IntegrationFixedType)
        ensures
            r == IntegrationFixedType::Exponential,
    {
        IntegrationFixedType::Exponential
    }

    /// Weight `(x - a)^alpha (x + b)^beta` on `(a, inf)`.
    pub fn rational() -> (r: IntegrationFixedType)
        ensures
            r == IntegrationFixedType::Rational,
    {
        IntegrationFixedType::Rational
    }
}

impl IntegrationFixedType {
    /// The parameters are those of a weight function of the family with a
    /// finite integral, and the rule has at least one point.
    pub open spec fn parameters_valid(self, n: usize, a: i64, b: i64, alpha: i64, beta: i64) -> bool {
        n >= 1 && match self {
            IntegrationFixedType::Legendre => b > a,
            IntegrationFixedType::Chebyshev => b > a,
            IntegrationFixedType::Chebyshev2 => b > a,
            IntegrationFixedType::Gegenbauer => alpha > -ONE && b > a,
            IntegrationFixedType::Exponential => alpha > -ONE && b > a,
            IntegrationFixedType::Jacobi => alpha > -ONE && beta > -ONE && b > a,
            IntegrationFixedType::Laguerre => alpha > -ONE && b > 0,
            IntegrationFixedType::Hermite => alpha > -ONE && b > 0,
            IntegrationFixedType::Rational => alpha > -ONE && alpha + beta + 2 * n * ONE < 0 && a
                + b > 0,
        }
    }

    /// The point `x` lies where the weight function of the family lives.
    pub open spec fn supports(self, a: i64, b: i64, x: i64) -> bool {
        match self {
            IntegrationFixedType::Laguerre => a <= x,
            IntegrationFixedType::Rational => a <= x,
            IntegrationFixedType::Hermite => true,
            _ => a <= x <= b,
        }
    }

    /// True when the parameters are those of a weight function of the family.
    pub fn check_parameters(self, n: usize, a: i64, b: i64, alpha: i64, beta: i64) -> (r: bool)
        ensures
            r == self.parameters_valid(n, a, b, alpha, beta),
    {
        n >= 1 && match self {
            IntegrationFixedType::Legendre => b > a,
            IntegrationFixedType::Chebyshev => b > a,
            IntegrationFixedType::Chebyshev2 => b > a,
            IntegrationFixedType::Gegenbauer => alpha > -ONE && b > a,
            IntegrationFixedType::Exponential => alpha > -ONE && b > a,
            IntegrationFixedType::Jacobi => alpha > -ONE && beta > -ONE && b > a,
            IntegrationFixedType::Laguerre => alpha > -ONE && b > 0,
            IntegrationFixedType::Hermite => alpha > -ONE && b > 0,
            IntegrationFixedType::Rational => alpha > -ONE && (alpha as i128) + (beta as i128) + 2
                * (n as i128) * 0x100_0000_0000 < 0 && (a as i128) + (b as i128) > 0,
        }
    }

    /// True when `x` lies where the weight function of the family lives.
    pub fn is_supported(self, a: i64, b: i64, x: i64) -> (r: bool)
        ensures
            r == self.supports(a, b, x),
    {
        match self {
            IntegrationFixedType::Laguerre => a <= x,
            IntegrationFixedType::Rational => a <= x,
            IntegrationFixedType::Hermite => true,
            _ => a <= x && x <= b,
        }
    }
}

/// The sum of the first `k` products of weight and value, saturated at every
/// step.
pub open spec fn weighted_total(w: Seq<i64>, v: Seq<i64>, k: nat) -> int
    decreases k,
{
    if k == 0 {
        0
    } else {
        clamp_to_i64(
            weighted_total(w, v, (k - 1) as nat) + product_of(w[k - 1] as int, v[k - 1] as int),
        )
    }
}

/// The mathematical content of a fixed-order rule.
pub struct FixedRule {
    pub family: IntegrationFixedType,
    pub a: i64,
    pub b: i64,
    pub alpha: i64,
    pub beta: i64,
    pub nodes: Seq<i64>,
    pub weights: Seq<i64>,
}

impl FixedRule {
    /// The invariant of a rule: as many weights as nodes and at least one, valid
    /// parameters, and every node where the weight function lives.
    pub open spec fn wf(self) -> bool {
        &&& self.nodes.len() == self.weights.len()
        &&& self.nodes.len() <= usize::MAX
        &&& self.family.parameters_valid(
            self.nodes.len() as usize,
            self.a,
            self.b,
            self.alpha,
            self.beta,
        )
        &&& forall|k: int|
            0 <= k < self.nodes.len() ==> self.family.supports(self.a, self.b, #[trigger] self.nodes[k])
    }

    /// The values `v` are what `f` returned at the nodes.
    pub open spec fn sampled<F: Fn(i64) -> i64>(self, f: &F, v: Seq<i64>) -> bool {
        &&& v.len() == self.nodes.len()
        &&& forall|k: int| 0 <= k < v.len() ==> call_ensures(*f, (self.nodes[k],), #[trigger] v[k])
    }
}

/// A fixed-order rule: the nodes and weights of a rule of one family, made
/// from their table and applied without subdivision.
pub struct IntegrationFixedWorkspace {
    family: IntegrationFixedType,
    a: i64,
    b: i64,
    alpha: i64,
    beta: i64,
    nodes: Vec<i64>,
    weights: Vec<i64>,
}

impl View for IntegrationFixedWorkspace {
    type V = FixedRule;

    closed spec fn view(&self) -> FixedRule {
        FixedRule {
            family: self.family,
            a: self.a,
            b: self.b,
            alpha: self.alpha,
            beta: self.beta,
            nodes: self.nodes@,
            weights: self.weights@,
        }
    }
}

impl IntegrationFixedWorkspace {
    /// The rule of `n` points of the family `type_` with the given parameters,
    /// whose nodes and weights are `nodes` and `weights`. `None` when the
    /// parameters are not valid for the family, when the tables do not hold `n`
    /// entries each, or when a node lies where the weight function does not
    /// live.
    pub fn from_table(
        type_: IntegrationFixedType,
        n: usize,
        a: i64,
        b: i64,
        alpha: i64,
        beta: i64,
        nodes: Vec<i64>,
        weights: Vec<i64>,
    ) -> (r: Option<IntegrationFixedWorkspace>)
        ensures
            r is Some <==> (FixedRule {
                family: type_,
                a,
                b,
                alpha,
                beta,
                nodes: nodes@,
                weights: weights@,
            }).wf() && nodes@.len() == n,
            r matches Some(w) ==> w@ == (FixedRule {
                family: type_,
                a,
                b,
                alpha,
                beta,
                nodes: nodes@,
                weights: weights@,
            }),
    {
        if nodes.len() != n || weights.len() != n || !type_.check_parameters(n, a, b, alpha, beta) {
            return None;
        }
        let mut k: usize = 0;
        while k < n
            invariant
                k <= n,
                n == nodes@.len(),
                forall|i: int| 0 <= i < k ==> type_.supports(a, b, #[trigger] nodes@[i]),
            decreases n - k,
        {
            if !type_.is_supported(a, b, nodes[k]) {
                return None;
            }
            k = k + 1;
        }
        Some(IntegrationFixedWorkspace { family: type_, a, b, alpha, beta, nodes, weights })
    }

    /// The number of points of the rule.
    pub fn n(&self) -> (r: usize)
        ensures
            r == self@.nodes.len(),
    {
        self.nodes.len()
    }

    /// The nodes of the rule.
    pub fn nodes(&self) -> (r: Option<&[i64]>)
        ensures
            r matches Some(s) && s@ == self@.nodes,
    {
        Some(self.nodes.as_slice())
    }

    /// The weights of the rule.
    pub fn weights(&self) -> (r: Option<&[i64]>)
        ensures
            r matches Some(s) && s@ == self@.weights,
    {
        Some(self.weights.as_slice())
    }

    /// The sum of the products of the weights and the values `values` of an
    /// integrand at the nodes.
    pub fn apply(&self, values: &[i64]) -> (r: i64)
        requires
            values@.len() == self@.nodes.len(),
            self@.nodes.len() == self@.weights.len(),
        ensures
            r == weighted_total(self@.weights, values@, self@.nodes.len()),
    {
        let n = self.weights.len();
        let mut total: i64 = 0;
        let mut k: usize = 0;
        while k < n
            invariant
                k <= n,
                n == self.weights@.len(),
                n == values@.len(),
                total == weighted_total(self.weights@, values@, k as nat),
            decreases n - k,
        {
            let term = product(self.weights[k], values[k]);
            total = saturate((total as i128) + (term as i128));
            k = k + 1;
        }
        total
    }

    /// Applies the rule to the integrand `f`: the sum of the products of the
    /// weights and the values of `f` at the nodes. The integrand is called at
    /// the nodes and nowhere else.
    pub fn fixed<F: Fn(i64) -> i64>(&self, f: F) -> (r: (Value, i64))
        requires
            self@.wf(),
            forall|x: i64| self@.family.supports(self@.a, self@.b, x) ==> call_requires(f, (x,)),
        ensures
            r.0 is Success,
            exists|v: Seq<i64>| #[trigger]
                self@.sampled(&f, v) && r.1 == weighted_total(self@.weights, v, self@.nodes.len()),
    {
        let n = self.nodes.len();
        let mut values: Vec<i64> = Vec::new();
        let mut k: usize = 0;
        while k < n
            invariant
                k <= n,
                n == self.nodes@.len(),
                self@.wf(),
                values@.len() == k,
                forall|x: i64|
                    self@.family.supports(self@.a, self@.b, x) ==> call_requires(f, (x,)),
                forall|i: int|
                    0 <= i < k ==> call_ensures(f, (self.nodes@[i],), #[trigger] values@[i]),
            decreases n - k,
        {
            assert(self@.family.supports(self@.a, self@.b, self@.nodes[k as int]));
            let y = f(self.nodes[k]);
            values.push(y);
            k = k + 1;
        }
        let total = self.apply(values.as_slice());
        proof {
            assert(self@.sampled(&f, values@));
        }
        (Value::Success, total)
    }
}

/// The sum of the first `k` weights of a table.
pub open spec fn weight_sum(w: Seq<u64>, k: nat) -> int
    decreases k,
{
    if k == 0 {
        0
    } else {
        weight_sum(w, (k - 1) as nat) + w[k - 1]
    }
}

/// The abscissae of a table ascend strictly.
pub open spec fn ascending_nodes(x: Seq<u64>) -> bool {
    forall|j: int, k: int| 0 <= j < k < x.len() ==> x[j] < x[k]
}

/// The mathematical content of a Gauss-Legendre table: the half of a symmetric
/// rule of `n` points on `[-1, 1]` that lies at and above zero. The abscissae
/// and the weights are multiples of `2^-56`.
pub struct LegendreRule {
    /// The number of points of the rule.
    pub n: nat,
    /// The non-negative abscissae, ascending.
    pub nodes: Seq<u64>,
    /// The weights of those abscissae.
    pub weights: Seq<u64>,
}

impl LegendreRule {
    /// The number of table entries.
    pub open spec fn half(self) -> int {
        (self.n as int + 1) / 2
    }

    /// The sum of the weights of all `n` points: an entry weighs two points,
    /// but for the centre of a rule with an odd number of points.
    pub open spec fn total(self) -> int {
        2 * weight_sum(self.weights, self.weights.len()) - if self.n % 2 == 1 {
            self.weights[0] as int
        } else {
            0
        }
    }

    /// The invariant of a table: it holds the half of a rule of `n` points,
    /// with abscissae that ascend strictly from zero (for an odd number of
    /// points) or above, none beyond one, and with weights that sum to two over
    /// the whole interval, exactly.
    pub open spec fn wf(self) -> bool {
        &&& self.n >= 1
        &&& self.nodes.len() == self.half()
        &&& self.weights.len() == self.half()
        &&& forall|k: int| 0 <= k < self.nodes.len() ==> #[trigger] self.nodes[k] <= 0x100_0000_0000_0000
        &&& ascending_nodes(self.nodes)
        &&& self.n % 2 == 1 ==> self.nodes[0] == 0
        &&& self.total() == 0x200_0000_0000_0000
    }

    /// The table place of the `i`-th point, the points counted by ascending
    /// abscissa on `[-1, 1]`.
    pub open spec fn place(self, i: int) -> int {
        let n = self.n as int;
        if n % 2 == 1 {
            if i < n / 2 {
                n / 2 - i
            } else {
                i - n / 2
            }
        } else if i < n / 2 {
            n / 2 - 1 - i
        } else {
            i - n / 2
        }
    }

    /// The point below the centre that the table entry `j` weighs; for the
    /// centre of a rule with an odd number of points, the centre itself.
    pub open spec fn lower_point(self, j: int) -> int {
        if self.n % 2 == 1 {
            self.n / 2 - j
        } else {
            self.n / 2 - 1 - j
        }
    }

    /// The point above the centre that the table entry `j` weighs; for the
    /// centre of a rule with an odd number of points, the centre itself.
    pub open spec fn upper_point(self, j: int) -> int {
        self.n / 2 + j
    }

    /// The sum of the values that the table entry `j` weighs: the values at the
    /// two points it stands for, or the one value at the centre.
    pub open spec fn weighed(self, v: Seq<i64>, j: int) -> int {
        if self.n % 2 == 1 && j == 0 {
            v[self.upper_point(j)] as int
        } else {
            v[self.lower_point(j)] + v[self.upper_point(j)]
        }
    }

    /// The sum of the products of the first `k` table weights and the values
    /// they weigh.
    pub open spec fn sum(self, v: Seq<i64>, k: nat) -> int
        decreases k,
    {
        if k == 0 {
            0
        } else {
            self.sum(v, (k - 1) as nat) + self.weights[k - 1] * self.weighed(v, k - 1)
        }
    }

    /// The integral from `a` to `b` that the rule gives for an integrand with
    /// the values `v` at its points.
    pub open spec fn integral(self, a: i64, b: i64, v: Seq<i64>) -> int {
        if a <= b {
            clamp_to_i64(scaled(self.sum(v, self.half() as nat), b - a))
        } else {
            clamp_to_i64(scaled(-self.sum(v, self.half() as nat), a - b))
        }
    }
}

/// The rule of `n` points from the tables of the library.
pub open spec fn tabulated_rule(n: int) -> LegendreRule {
    LegendreRule {
        n: n as nat,
        nodes: LEGENDRE_NODES@.subrange(rule_offset_of(n), rule_offset_of(n) + rule_length_of(n)),
        weights: LEGENDRE_WEIGHTS@.subrange(
            rule_offset_of(n),
            rule_offset_of(n) + rule_length_of(n),
        ),
    }
}

/// The sums of the weights of a table grow with the number of weights, and none
/// exceeds half the total and the centre weight.
pub proof fn lemma_weight_sum_grows(w: Seq<u64>, j: nat, k: nat)
    requires
        j <= k <= w.len(),
    ensures
        0 <= weight_sum(w, j) <= weight_sum(w, k),
    decreases k,
{
    if j < k {
        lemma_weight_sum_grows(w, j, (k - 1) as nat);
    } else if j > 0 {
        lemma_weight_sum_grows(w, (j - 1) as nat, (j - 1) as nat);
    }
}

/// In a well-formed table no sum of weights exceeds two, and no weight.
pub proof fn lemma_weights_bounded(rule: LegendreRule, k: nat)
    requires
        rule.wf(),
        k <= rule.weights.len(),
    ensures
        0 <= weight_sum(rule.weights, k) <= 0x200_0000_0000_0000,
        k < rule.weights.len() ==> rule.weights[k as int] <= 0x200_0000_0000_0000,
{
    let w = rule.weights;
    lemma_weight_sum_grows(w, k, w.len());
    lemma_weight_sum_grows(w, 1, w.len());
    assert(weight_sum(w, 1) == w[0]) by {
        assert(weight_sum(w, 0) == 0);
    }
    if k < w.len() {
        lemma_weight_sum_grows(w, (k + 1) as nat, w.len());
        lemma_weight_sum_grows(w, k, k);
    }
}

/// The values at the `i`-th point from one end and at the `i`-th point from
/// the other are `2 c` together, for every `i`: the values of a constant `c`
/// plus an integrand that is odd about the centre of the range.
pub open spec fn balanced(v: Seq<i64>, c: i64) -> bool {
    forall|i: int| 0 <= i < v.len() ==> #[trigger] v[i] + v[v.len() - 1 - i] == 2 * c
}

/// The sum of samples that are balanced about `c`: `c` times the weights, an
/// entry counted twice but for the centre of a rule with an odd number of
/// points.
pub proof fn lemma_balanced_legendre_sum(rule: LegendreRule, v: Seq<i64>, c: i64, k: nat)
    requires
        rule.n >= 1,
        rule.weights.len() == rule.half(),
        v.len() == rule.n,
        balanced(v, c),
        k <= rule.half(),
    ensures
        rule.sum(v, k) == c * (2 * weight_sum(rule.weights, k) - if rule.n % 2 == 1 && k >= 1 {
            rule.weights[0] as int
        } else {
            0
        }),
    decreases k,
{
    if k > 0 {
        lemma_balanced_legendre_sum(rule, v, c, (k - 1) as nat);
        let j = k - 1;
        let n = rule.n as int;
        let w = rule.weights[j] as int;
        let t = weight_sum(rule.weights, j as nat);
        let before = rule.sum(v, j as nat);
        let up = rule.upper_point(j);
        assert(0 <= up < n);
        assert(v[up] + v[v.len() - 1 - up] == 2 * c);
        assert(rule.sum(v, k) == before + w * rule.weighed(v, j));
        assert(weight_sum(rule.weights, k) == t + w);
        if n % 2 == 1 && j == 0 {
            assert(v.len() - 1 - up == up);
            assert(rule.weighed(v, j) == c);
            assert(t == 0);
            assert(before == 0);
            assert(0 + w * c == c * (2 * (0 + w) - w)) by (nonlinear_arith);
        } else {
            assert(rule.lower_point(j) == v.len() - 1 - up);
            assert(rule.weighed(v, j) == c + c);
            if n % 2 == 1 {
                let w0 = rule.weights[0] as int;
                assert(before == c * (2 * t - w0));
                assert(c * (2 * t - w0) + w * (c + c) == c * (2 * (t + w) - w0))
                    by (nonlinear_arith);
            } else {
                assert(before == c * (2 * t - 0));
                assert(c * (2 * t - 0) + w * (c + c) == c * (2 * (t + w) - 0)) by (nonlinear_arith);
            }
        }
    } else {
        assert(c * (2 * 0 - 0) == 0) by (nonlinear_arith);
    }
}

/// A Gauss-Legendre rule of any number of points integrates exactly what is
/// balanced about the centre of the range: for values that are a constant `c`
/// plus the values of an integrand that is odd about the centre, as those of
/// every polynomial of degree one are, it gives the product of `c` and the
/// width of the range, with the sign of the direction of the range.
pub proof fn lemma_balanced_is_integrated_exactly(
    rule: LegendreRule,
    a: i64,
    b: i64,
    v: Seq<i64>,
    c: i64,
)
    requires
        rule.wf(),
        v.len() == rule.n,
        balanced(v, c),
    ensures
        rule.integral(a, b, v) == clamp_to_i64(
            truncated_quotient(c * (b - a), ONE as int),
        ),
{
    lemma_balanced_legendre_sum(rule, v, c, rule.half() as nat);
    let total = rule.sum(v, rule.half() as nat);
    assert(total == c * 0x200_0000_0000_0000);
    assert(truncated_quotient(total, 0x200_0000_0000_0000) == c);
    assert(truncated_quotient(-total, 0x200_0000_0000_0000) == -c);
    assert((-c) * (a - b) == c * (b - a)) by (nonlinear_arith);
}

/// A Gauss-Legendre rule of any number of points integrates a constant
/// exactly: for values that all equal `c` it gives the product of `c` and the
/// width of the range, with the sign of the direction of the range.
pub proof fn lemma_constant_is_integrated_exactly(
    rule: LegendreRule,
    a: i64,
    b: i64,
    v: Seq<i64>,
    c: i64,
)
    requires
        rule.wf(),
        v.len() == rule.n,
        forall|i: int| 0 <= i < v.len() ==> v[i] == c,
    ensures
        rule.integral(a, b, v) == clamp_to_i64(
            truncated_quotient(c * (b - a), ONE as int),
        ),
{
    assert(balanced(v, c));
    lemma_balanced_is_integrated_exactly(rule, a, b, v, c);
}

proof fn lemma_tabulated_1()
    ensures
        tabulated_rule(1).wf(),
{
    let r = tabulated_rule(1);
    reveal_with_fuel(weight_sum, 2);
    assert(r.weights.len() == 1 && r.nodes.len() == 1);
}

proof fn lemma_tabulated_2()
    ensures
        tabulated_rule(2).wf(),
{
    let r = tabulated_rule(2);
    reveal_with_fuel(weight_sum, 2);
    assert(r.weights.len() == 1 && r.nodes.len() == 1);
}

proof fn lemma_tabulated_3()
    ensures
        tabulated_rule(3).wf(),
{
    let r = tabulated_rule(3);
    reveal_with_fuel(weight_sum, 3);
    assert(r.weights.len() == 2 && r.nodes.len() == 2);
}

proof fn lemma_tabulated_4()
    ensures
        tabulated_rule(4).wf(),
{
    let r = tabulated_rule(4);
    reveal_with_fuel(weight_sum, 3);
    assert(r.weights.len() == 2 && r.nodes.len() == 2);
}

proof fn lemma_tabulated_5()
    ensures
        tabulated_rule(5).wf(),
{
    let r = tabulated_rule(5);
    reveal_with_fuel(weight_sum, 4);
    assert(r.weights.len() == 3 && r.nodes.len() == 3);
}

proof fn lemma_tabulated_6()
    ensures
        tabulated_rule(6).wf(),
{
    let r = tabulated_rule(6);
    reveal_with_fuel(weight_sum, 4);
    assert(r.weights.len() == 3 && r.nodes.len() == 3);
}

proof fn lemma_tabulated_7()
    ensures
        tabulated_rule(7).wf(),
{
    let r = tabulated_rule(7);
    reveal_with_fuel(weight_sum, 5);
    assert(r.weights.len() == 4 && r.nodes.len() == 4);
}

proof fn lemma_tabulated_8()
    ensures
        tabulated_rule(8).wf(),
{
    let r = tabulated_rule(8);
    reveal_with_fuel(weight_sum, 5);
    assert(r.weights.len() == 4 && r.nodes.len() == 4);
}

proof fn lemma_tabulated_9()
    ensures
        tabulated_rule(9).wf(),
{
    let r = tabulated_rule(9);
    reveal_with_fuel(weight_sum, 6);
    assert(r.weights.len() == 5 && r.nodes.len() == 5);
}

proof fn lemma_tabulated_10()
    ensures
        tabulated_rule(10).wf(),
{
    let r = tabulated_rule(10);
    reveal_with_fuel(weight_sum, 6);
    assert(r.weights.len() == 5 && r.nodes.len() == 5);
}

proof fn lemma_tabulated_11()
    ensures
        tabulated_rule(11).wf(),
{
    let r = tabulated_rule(11);
    reveal_with_fuel(weight_sum, 7);
    assert(r.weights.len() == 6 && r.nodes.len() == 6);
}

proof fn lemma_tabulated_12()
    ensures
        tabulated_rule(12).wf(),
{
    let r = tabulated_rule(12);
    reveal_with_fuel(weight_sum, 7);
    assert(r.weights.len() == 6 && r.nodes.len() == 6);
}

proof fn lemma_tabulated_13()
    ensures
        tabulated_rule(13).wf(),
{
    let r = tabulated_rule(13);
    reveal_with_fuel(weight_sum, 8);
    assert(r.weights.len() == 7 && r.nodes.len() == 7);
}

proof fn lemma_tabulated_14()
    ensures
        tabulated_rule(14).wf(),
{
    let r = tabulated_rule(14);
    reveal_with_fuel(weight_sum, 8);
    assert(r.weights.len() == 7 && r.nodes.len() == 7);
}

proof fn lemma_tabulated_15()
    ensures
        tabulated_rule(15).wf(),
{
    let r = tabulated_rule(15);
    reveal_with_fuel(weight_sum, 9);
    assert(r.weights.len() == 8 && r.nodes.len() == 8);
}

proof fn lemma_tabulated_16()
    ensures
        tabulated_rule(16).wf(),
{
    let r = tabulated_rule(16);
    reveal_with_fuel(weight_sum, 9);
    assert(r.weights.len() == 8 && r.nodes.len() == 8);
}

proof fn lemma_tabulated_17()
    ensures
        tabulated_rule(17).wf(),
{
    let r = tabulated_rule(17);
    reveal_with_fuel(weight_sum, 10);
    assert(r.weights.len() == 9 && r.nodes.len() == 9);
}

proof fn lemma_tabulated_18()
    ensures
        tabulated_rule(18).wf(),
{
    let r = tabulated_rule(18);
    reveal_with_fuel(weight_sum, 10);
    assert(r.weights.len() == 9 && r.nodes.len() == 9);
}

proof fn lemma_tabulated_19()
    ensures
        tabulated_rule(19).wf(),
{
    let r = tabulated_rule(19);
    reveal_with_fuel(weight_sum, 11);
    assert(r.weights.len() == 10 && r.nodes.len() == 10);
}

proof fn lemma_tabulated_20()
    ensures
        tabulated_rule(20).wf(),
{
    let r = tabulated_rule(20);
    reveal_with_fuel(weight_sum, 11);
    assert(r.weights.len() == 10 && r.nodes.len() == 10);
}

/// Every tabulated rule is well formed.
pub proof fn lemma_tabulated_rules(n: int)
    requires
        1 <= n <= LARGEST_RULE,
    ensures
        tabulated_rule(n).wf(),
{
    if n == 1 {
        lemma_tabulated_1();
    }     else if n == 2 {
        lemma_tabulated_2();
    }     else if n == 3 {
        lemma_tabulated_3();
    }     else if n == 4 {
        lemma_tabulated_4();
    }     else if n == 5 {
        lemma_tabulated_5();
    }     else if n == 6 {
        lemma_tabulated_6();
    }     else if n == 7 {
        lemma_tabulated_7();
    }     else if n == 8 {
        lemma_tabulated_8();
    }     else if n == 9 {
        lemma_tabulated_9();
    }     else if n == 10 {
        lemma_tabulated_10();
    }     else if n == 11 {
        lemma_tabulated_11();
    }     else if n == 12 {
        lemma_tabulated_12();
    }     else if n == 13 {
        lemma_tabulated_13();
    }     else if n == 14 {
        lemma_tabulated_14();
    }     else if n == 15 {
        lemma_tabulated_15();
    }     else if n == 16 {
        lemma_tabulated_16();
    }     else if n == 17 {
        lemma_tabulated_17();
    }     else if n == 18 {
        lemma_tabulated_18();
    }     else if n == 19 {
        lemma_tabulated_19();
    }     else if n == 20 {
        lemma_tabulated_20();
    }
}

/// The abscissae in the unit of the tables, from roots in multiples of
/// `2^-60`.
pub open spec fn coarse_nodes(x: Seq<i64>) -> Seq<u64> {
    Seq::new(x.len(), |j: int| (x[j] / 16) as u64)
}

/// What the weights `w` of the half of a rule of `n` points lack of the sum of
/// two over the whole interval, as the share of the first of them.
pub open spec fn shortfall(n: nat, w: Seq<u64>) -> int {
    if n % 2 == 1 {
        0x200_0000_0000_0000 - (2 * weight_sum(w, w.len()) - w[0])
    } else {
        0x100_0000_0000_0000 - weight_sum(w, w.len())
    }
}

/// The weights with the first of them mended so that they sum to two over the
/// whole interval; none where the first would leave the range of a weight.
pub open spec fn mended(n: nat, w: Seq<u64>) -> Option<Seq<u64>> {
    let first = w[0] + shortfall(n, w);
    if 0 <= first <= u64::MAX {
        Some(w.update(0, first as u64))
    } else {
        None
    }
}

/// The largest value that the `j`-th of `half` abscissae may take so that every
/// later one has a place of its own at or below one.
pub open spec fn ceiling_of(half: int, j: int) -> int {
    0x100_0000_0000_0000 - (half - 1 - j)
}

/// The `j`-th abscissa of the half of a rule of `n` points, brought behind the
/// abscissa `before` it and below the ceiling of its place: rounding must not
/// cost the table its strict ascent. The first abscissa of a rule with an odd
/// number of points is the centre.
pub open spec fn settled_node(n: nat, raw: int, before: int, j: int) -> int {
    let least = if j == 0 {
        0
    } else {
        before + 1
    };
    let most = if j == 0 && n % 2 == 1 {
        0
    } else {
        ceiling_of((n as int + 1) / 2, j)
    };
    if raw < least {
        least
    } else if raw > most {
        most
    } else {
        raw
    }
}

/// The first `k` abscissae, settled one behind the other.
pub open spec fn settled_nodes(n: nat, raw: Seq<u64>, k: nat) -> Seq<u64>
    decreases k,
{
    if k == 0 {
        Seq::empty()
    } else {
        let before = settled_nodes(n, raw, (k - 1) as nat);
        before.push(
            settled_node(
                n,
                raw[k - 1] as int,
                if k == 1 {
                    0
                } else {
                    before[k - 2] as int
                },
                k - 1,
            ) as u64,
        )
    }
}

/// The first `k` weights, each behind the first capped so that those behind
/// the first never exceed the half of the sum of two: rounding must not cost
/// the first weight its place.
pub open spec fn capped_weights(raw: Seq<u64>, k: nat) -> Seq<u64>
    decreases k,
{
    if k == 0 {
        Seq::empty()
    } else {
        let before = capped_weights(raw, (k - 1) as nat);
        if k == 1 {
            before.push(raw[0])
        } else {
            let room = 0x100_0000_0000_0000 - (weight_sum(before, (k - 1) as nat) - before[0]);
            before.push(
                if raw[k - 1] > room {
                    room as u64
                } else {
                    raw[k - 1]
                },
            )
        }
    }
}

/// The weights of the roots `x` as the formula gives them; zero where it gives
/// none.
pub open spec fn raw_weights(n: nat, x: Seq<i64>) -> Seq<u64> {
    Seq::new(
        x.len(),
        |j: int|
            match weight_of(n, x[j] as int) {
                Some(w) => w,
                None => 0u64,
            },
    )
}

/// The rule of `n` points that the recurrence of the Legendre polynomials
/// gives: its roots, settled, and their weights, capped and mended.
pub open spec fn computed_rule(n: nat) -> LegendreRule {
    LegendreRule {
        n,
        nodes: settled_nodes(n, coarse_nodes(roots_of(n)), roots_of(n).len()),
        weights: mended(n, capped_weights(raw_weights(n, roots_of(n)), roots_of(n).len()))->0,
    }
}

/// A sum of weights rests on the weights that it sums.
pub proof fn lemma_weight_sum_prefix(s: Seq<u64>, t: Seq<u64>, k: nat)
    requires
        forall|j: int| 0 <= j < k ==> s[j] == t[j],
    ensures
        weight_sum(s, k) == weight_sum(t, k),
    decreases k,
{
    if k > 0 {
        lemma_weight_sum_prefix(s, t, (k - 1) as nat);
    }
}

/// A sum of weights after the first weight has changed.
pub proof fn lemma_weight_sum_mended(w: Seq<u64>, first: u64, k: nat)
    requires
        1 <= k <= w.len(),
    ensures
        weight_sum(w.update(0, first), k) == weight_sum(w, k) - w[0] + first,
    decreases k,
{
    if k > 1 {
        lemma_weight_sum_mended(w, first, (k - 1) as nat);
    } else {
        reveal_with_fuel(weight_sum, 2);
    }
}

/// Mended weights sum to two over the whole interval.
pub proof fn lemma_mended_total(n: nat, w: Seq<u64>)
    requires
        w.len() >= 1,
        mended(n, w) is Some,
    ensures
        (LegendreRule { n, nodes: Seq::empty(), weights: mended(n, w)->0 }).total()
            == 0x200_0000_0000_0000,
{
    let first = (w[0] + shortfall(n, w)) as u64;
    lemma_weight_sum_mended(w, first, w.len());
}

/// The rule of `n` points of the library: tabulated up to the largest
/// tabulated rule, computed above it.
pub open spec fn rule_of(n: nat) -> Option<LegendreRule> {
    if n == 0 || n > MOST_COMPUTED {
        None
    } else if n <= LARGEST_RULE {
        Some(tabulated_rule(n as int))
    } else {
        Some(computed_rule(n))
    }
}

/// The table of a Gauss-Legendre rule of a fixed number of points on
/// `[-1, 1]`.
pub struct GLFixedTable {
    n: usize,
    nodes: Vec<u64>,
    weights: Vec<u64>,
}

impl View for GLFixedTable {
    type V = LegendreRule;

    closed spec fn view(&self) -> LegendreRule {
        LegendreRule { n: self.n as nat, nodes: self.nodes@, weights: self.weights@ }
    }
}

impl GLFixedTable {
    /// The invariant of a table.
    pub open spec fn wf(&self) -> bool {
        self@.wf() && self@.n <= usize::MAX
    }

    /// The rule of `n` points: from the tables of the library up to the largest
    /// tabulated rule, computed above it. `None` when `n` is zero or exceeds
    /// the largest number of points of a rule.
    pub fn new(n: usize) -> (r: Option<GLFixedTable>)
        ensures
            r is Some <==> 1 <= n <= MOST_COMPUTED,
            r matches Some(t) ==> Some(t@) == rule_of(n as nat) && t.wf(),
    {
        if n == 0 || n > MOST_COMPUTED {
            None
        } else if n <= LARGEST_RULE {
            Some(Self::tabulated(n))
        } else {
            Self::computed(n)
        }
    }

    /// The rule of `n` points from the tables of the library.
    pub fn tabulated(n: usize) -> (t: GLFixedTable)
        requires
            1 <= n <= LARGEST_RULE,
        ensures
            t@ == tabulated_rule(n as int),
            t.wf(),
    {
        let half = (n + 1) / 2;
        let mut nodes: Vec<u64> = Vec::new();
        let mut weights: Vec<u64> = Vec::new();
        let mut k: usize = 0;
        while k < half
            invariant
                1 <= n <= LARGEST_RULE,
                half == rule_length_of(n as int),
                k <= half,
                nodes@.len() == k,
                weights@.len() == k,
                forall|j: int|
                    0 <= j < k ==> #[trigger] nodes@[j] == LEGENDRE_NODES[rule_offset_of(n as int)
                        + j],
                forall|j: int|
                    0 <= j < k ==> #[trigger] weights@[j] == LEGENDRE_WEIGHTS[rule_offset_of(
                        n as int,
                    ) + j],
            decreases half - k,
        {
            nodes.push(legendre_node(n, k));
            weights.push(legendre_weight(n, k));
            k = k + 1;
        }
        let t = GLFixedTable { n, nodes, weights };
        proof {
            assert(t@.nodes =~= tabulated_rule(n as int).nodes);
            assert(t@.weights =~= tabulated_rule(n as int).weights);
            lemma_tabulated_rules(n as int);
        }
        t
    }

    /// The rule of `n` points computed from the recurrence of the Legendre
    /// polynomials, or `None` when `n` is zero or exceeds the largest number
    /// of points of a rule. The abscissae are settled into strict ascent and
    /// the weights capped and mended, so that the table is well formed
    /// whatever the rounding did.
    pub fn computed(n: usize) -> (r: Option<GLFixedTable>)
        ensures
            r is Some <==> 1 <= n <= MOST_COMPUTED,
            r matches Some(t) ==> t@ == computed_rule(n as nat) && t.wf(),
    {
        if n == 0 || n > MOST_COMPUTED {
            return None;
        }
        let found = roots(n);
        let half = found.len();
        let ghost coarse = coarse_nodes(found@);
        let ghost raw = raw_weights(n as nat, found@);
        let mut nodes: Vec<u64> = Vec::new();
        let mut weights: Vec<u64> = Vec::new();
        let mut rest: u64 = 0;
        let mut k: usize = 0;
        while k < half
            invariant
                1 <= n <= MOST_COMPUTED,
                half == found@.len(),
                half == (n + 1) / 2,
                ordered_roots(found@),
                coarse == coarse_nodes(found@),
                raw == raw_weights(n as nat, found@),
                k <= half,
                nodes@ == settled_nodes(n as nat, coarse, k as nat),
                nodes@.len() == k,
                forall|j: int| 0 <= j < k ==> #[trigger] nodes@[j] <= ceiling_of(half as int, j),
                forall|i: int, j: int| 0 <= i < j < k ==> nodes@[i] < nodes@[j],
                n % 2 == 1 && k >= 1 ==> nodes@[0] == 0,
                weights@ == capped_weights(raw, k as nat),
                weights@.len() == k,
                k >= 1 ==> rest == weight_sum(weights@, k as nat) - weights@[0],
                k == 0 ==> rest == 0,
                rest <= 0x100_0000_0000_0000,
            decreases half - k,
        {
            let x = (found[k] / 16) as u64;
            let least: u64 = if k == 0 {
                0
            } else {
                nodes[k - 1] + 1
            };
            let most: u64 = if k == 0 && n % 2 == 1 {
                0
            } else {
                0x100_0000_0000_0000 - ((half - 1 - k) as u64)
            };
            let node = if x < least {
                least
            } else if x > most {
                most
            } else {
                x
            };
            let formula = match weight(n, found[k]) {
                Some(w) => w,
                None => 0,
            };
            let w = if k == 0 {
                formula
            } else {
                let room = 0x100_0000_0000_0000 - rest;
                if formula > room {
                    room
                } else {
                    formula
                }
            };
            proof {
                let before = weights@;
                lemma_weight_sum_prefix(before.push(w), before, k as nat);
                if k == 0 {
                    reveal_with_fuel(weight_sum, 2);
                }
            }
            if k > 0 {
                rest = rest + w;
            }
            nodes.push(node);
            weights.push(w);
            k = k + 1;
        }
        proof {
            assert(mended(n as nat, weights@) is Some);
            lemma_mended_total(n as nat, weights@);
            let m = mended(n as nat, weights@)->0;
            let rule = LegendreRule { n: n as nat, nodes: nodes@, weights: m };
            assert(rule.total() == (LegendreRule {
                n: n as nat,
                nodes: Seq::empty(),
                weights: m,
            }).total());
            assert(ascending_nodes(nodes@));
            assert(rule.wf());
        }
        Self::from_rounded(n, nodes, weights)
    }

    /// The rule of `n` points from a table whose weights were rounded: the
    /// first weight is mended so that the weights sum to two over the whole
    /// interval, exactly. `None` when there is no weight, when the other
    /// weights exceed that sum by themselves, or when the mended table is not
    /// well formed.
    pub fn from_rounded(n: usize, nodes: Vec<u64>, weights: Vec<u64>) -> (r: Option<GLFixedTable>)
        ensures
            r is Some <==> weights@.len() >= 1 && mended(n as nat, weights@) is Some
                && (LegendreRule {
                n: n as nat,
                nodes: nodes@,
                weights: mended(n as nat, weights@)->0,
            }).wf(),
            r matches Some(t) ==> t@ == (LegendreRule {
                n: n as nat,
                nodes: nodes@,
                weights: mended(n as nat, weights@)->0,
            }) && t.wf(),
    {
        let count = weights.len();
        if count == 0 {
            return None;
        }
        let ghost raw = weights@;
        let mut rest: u128 = 0;
        let mut k: usize = 1;
        proof {
            reveal_with_fuel(weight_sum, 2);
        }
        while k < count
            invariant
                1 <= k <= count,
                count == weights@.len(),
                weights@ == raw,
                rest == weight_sum(raw, k as nat) - raw[0],
                rest <= 0x100_0000_0000_0000,
            decreases count - k,
        {
            rest = rest + (weights[k] as u128);
            k = k + 1;
            if rest > 0x100_0000_0000_0000 {
                proof {
                    lemma_weight_sum_grows(raw, k as nat, count as nat);
                }
                return None;
            }
        }
        let first: u128 = if n % 2 == 1 {
            0x200_0000_0000_0000 - 2 * rest
        } else {
            0x100_0000_0000_0000 - rest
        };
        let mut weights = weights;
        weights.set(0, first as u64);
        assert(Some(weights@) == mended(n as nat, raw));
        Self::from_table(n, nodes, weights)
    }

    /// The rule of `n` points with the given table, or `None` when the table is
    /// not well formed: see `LegendreRule::wf`.
    pub fn from_table(n: usize, nodes: Vec<u64>, weights: Vec<u64>) -> (r: Option<GLFixedTable>)
        ensures
            r is Some <==> (LegendreRule { n: n as nat, nodes: nodes@, weights: weights@ }).wf(),
            r matches Some(t) ==> t@ == (LegendreRule {
                n: n as nat,
                nodes: nodes@,
                weights: weights@,
            }) && t.wf(),
    {
        let ghost rule = LegendreRule { n: n as nat, nodes: nodes@, weights: weights@ };
        if n == 0 {
            return None;
        }
        let half = n / 2 + n % 2;
        if nodes.len() != half || weights.len() != half {
            return None;
        }
        if n % 2 == 1 && nodes[0] != 0 {
            return None;
        }
        let mut k: usize = 0;
        let mut sum: u128 = 0;
        while k < half
            invariant
                half == rule.half(),
                half == nodes@.len(),
                half == weights@.len(),
                rule == (LegendreRule { n: n as nat, nodes: nodes@, weights: weights@ }),
                k <= half,
                sum == weight_sum(weights@, k as nat),
                sum <= 0x200_0000_0000_0000,
                forall|j: int| 0 <= j < k ==> #[trigger] nodes@[j] <= 0x100_0000_0000_0000,
                forall|i: int, j: int| 0 <= i < j < k ==> nodes@[i] < nodes@[j],
            decreases half - k,
        {
            if nodes[k] > 0x100_0000_0000_0000 {
                return None;
            }
            if k > 0 && nodes[k - 1] >= nodes[k] {
                proof {
                    assert(!ascending_nodes(nodes@));
                }
                return None;
            }
            sum = sum + (weights[k] as u128);
            k = k + 1;
            if sum > 0x200_0000_0000_0000 {
                proof {
                    lemma_weight_sum_grows(weights@, k as nat, half as nat);
                    lemma_weight_sum_grows(weights@, 1, half as nat);
                    assert(weight_sum(weights@, 1) == weights@[0]) by {
                        assert(weight_sum(weights@, 0) == 0);
                    }
                }
                return None;
            }
        }
        let centre: u128 = if n % 2 == 1 {
            weights[0] as u128
        } else {
            0
        };
        proof {
            lemma_weight_sum_grows(weights@, 1, half as nat);
            assert(weight_sum(weights@, 1) == weights@[0]) by {
                assert(weight_sum(weights@, 0) == 0);
            }
        }
        if 2 * sum - centre != 0x200_0000_0000_0000 {
            return None;
        }
        Some(GLFixedTable { n, nodes, weights })
    }

    /// The number of points of the rule.
    pub fn n(&self) -> (r: usize)
        ensures
            r == self@.n,
    {
        self.n
    }

    /// The table place of the `i`-th point.
    fn place(&self, i: usize) -> (k: usize)
        requires
            self.wf(),
            i < self@.n,
        ensures
            k == self@.place(i as int),
            k < self@.half(),
    {
        let n = self.n;
        if n % 2 == 1 {
            if i < n / 2 {
                n / 2 - i
            } else {
                i - n / 2
            }
        } else if i < n / 2 {
            n / 2 - 1 - i
        } else {
            i - n / 2
        }
    }

    /// The table entry of the `i`-th point of the rule on `[-1, 1]`, the points
    /// counted by ascending abscissa: its distance from the centre and its
    /// weight, both in multiples of `2^-56`, and whether the point lies below
    /// the centre. `None` when the rule has no `i`-th point.
    pub fn entry(&self, i: usize) -> (r: Option<(u64, u64, bool)>)
        requires
            self.wf(),
        ensures
            r is Some <==> i < self@.n,
            r matches Some(e) ==> e.0 == self@.nodes[self@.place(i as int)] && e.1
                == self@.weights[self@.place(i as int)] && e.2 == (i < self@.n / 2),
    {
        if i >= self.n {
            return None;
        }
        let k = self.place(i);
        Some((self.nodes[k], self.weights[k], i < self.n / 2))
    }

    /// The integral from `a` to `b` that the rule gives for an integrand with
    /// the values `values` at its points.
    pub fn apply(&self, a: i64, b: i64, values: &[i64]) -> (r: i64)
        requires
            self.wf(),
            values@.len() == self@.n,
        ensures
            r == self@.integral(a, b, values@),
    {
        let n = self.n;
        let half = self.weights.len();
        let mut total: i128 = 0;
        let mut j: usize = 0;
        while j < half
            invariant
                self.wf(),
                n == self@.n,
                half == self@.half(),
                n == values@.len(),
                j <= half,
                total == self@.sum(values@, j as nat),
                -weight_sum(self@.weights, j as nat) * 0x1_0000_0000_0000_0000 <= total
                    <= weight_sum(self@.weights, j as nat) * 0x1_0000_0000_0000_0000,
            decreases half - j,
        {
            let w = self.weights[j];
            let upper = n / 2 + j;
            let pair: i128 = if n % 2 == 1 && j == 0 {
                values[upper] as i128
            } else {
                let lower = if n % 2 == 1 {
                    n / 2 - j
                } else {
                    n / 2 - 1 - j
                };
                (values[lower] as i128) + (values[upper] as i128)
            };
            proof {
                lemma_weights_bounded(self@, j as nat);
                lemma_weights_bounded(self@, (j + 1) as nat);
                let before = weight_sum(self@.weights, j as nat);
                assert(-(before + w) * 0x1_0000_0000_0000_0000 <= total + (w as int) * (pair as int)
                    <= (before + w) * 0x1_0000_0000_0000_0000) by (nonlinear_arith)
                    requires
                        -before * 0x1_0000_0000_0000_0000 <= total <= before
                            * 0x1_0000_0000_0000_0000,
                        0 <= w,
                        -0x1_0000_0000_0000_0000 <= pair <= 0x1_0000_0000_0000_0000,
                ;
                assert(-0x1_0000_0000_0000_0000 * 0x200_0000_0000_0000 <= (w as int) * (pair as int)
                    <= 0x1_0000_0000_0000_0000 * 0x200_0000_0000_0000) by (nonlinear_arith)
                    requires
                        0 <= w <= 0x200_0000_0000_0000,
                        -0x1_0000_0000_0000_0000 <= pair <= 0x1_0000_0000_0000_0000,
                ;
                assert((before + w) * 0x1_0000_0000_0000_0000 <= 0x200_0000_0000_0000
                    * 0x1_0000_0000_0000_0000) by (nonlinear_arith)
                    requires
                        0 <= before + w <= 0x200_0000_0000_0000,
                ;
            }
            total = total + (w as i128) * pair;
            j = j + 1;
        }
        let lo = if a <= b {
            a
        } else {
            b
        };
        let hi = if a <= b {
            b
        } else {
            a
        };
        let width = width(lo, hi);
        proof {
            lemma_weights_bounded(self@, half as nat);
            assert(weight_sum(self@.weights, half as nat) * 0x1_0000_0000_0000_0000
                <= 0x200_0000_0000_0000 * 0x1_0000_0000_0000_0000) by (nonlinear_arith)
                requires
                    0 <= weight_sum(self@.weights, half as nat) <= 0x200_0000_0000_0000,
            ;
        }
        if a <= b {
            scale(total, width)
        } else {
            scale(-total, width)
        }
    }
}

} // verus!
