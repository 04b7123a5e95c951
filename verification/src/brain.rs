//! The agent controller: a fixed-topology feed-forward network with one
//! hidden layer and tanh activations, mapping eleven sensor readings to
//! three action outputs. Crossover and mutation breed new controllers.

use vstd::prelude::*;

verus! {

use crate::constants::{
    INPUT_COUNT,
    HIDDEN_COUNT,
    OUTPUT_COUNT,
    INPUT_WEIGHTS,
    OUTPUT_WEIGHTS,
    BIAS_COUNT,
    WEIGHT_LIMIT,
    INPUT_LIMIT,
    SCALE,
    MAX_RATE,
};
use crate::fixed::{sdiv, sdiv_spec, lemma_sdiv_bound, tanh_fp, tanh_approx, clamp_i64};
use crate::rng::Rng;

/// Every element of `s` lies in `[-m, m]`.
pub open spec fn all_bounded(s: Seq<i64>, m: i64) -> bool {
    forall|k: int| 0 <= k < s.len() ==> -m <= #[trigger] s[k] <= m
}

/// A copy of a vector of plain values.
pub fn copy_vec(v: &Vec<i64>) -> (r: Vec<i64>)
    ensures
        r@ == v@,
{
    let mut r: Vec<i64> = Vec::new();
    for k in 0..v.len()
        invariant
            r@ == v@.subrange(0, k as int),
    {
        r.push(v[k]);
        assert(r@ =~= v@.subrange(0, k as int + 1));
    }
    assert(r@ =~= v@);
    r
}

/// A vector of `n` zeros.
pub fn zero_vec(n: usize) -> (r: Vec<i64>)
    ensures
        r@.len() == n,
        forall|k: int| 0 <= k < n ==> r@[k] == 0i64,
{
    let mut r: Vec<i64> = Vec::new();
    for k in 0..n
        invariant
            r@.len() == k,
            forall|j: int| 0 <= j < k ==> r@[j] == 0i64,
    {
        r.push(0);
    }
    r
}

pub struct Brain {
    pub weights_input: Vec<i64>,
    pub weights_output: Vec<i64>,
    pub biases: Vec<i64>,
    pub last_inputs: Vec<i64>,
    pub last_hidden: Vec<i64>,
    pub last_outputs: Vec<i64>,
}

/// Scaled dot product of the first `k` terms: the sum over `j < k` of
/// `ws[base + j] * xs[j] / SCALE`.
pub open spec fn dot_spec(ws: Seq<i64>, xs: Seq<i64>, base: int, k: int) -> int
    decreases k,
{
    if k <= 0 {
        0
    } else {
        dot_spec(ws, xs, base, k - 1) + sdiv_spec(ws[base + k - 1] * xs[k - 1], SCALE as int)
    }
}

/// The activation of hidden unit `i` of controller `b` on an input vector.
pub open spec fn hidden_spec(b: Brain, inputs: Seq<i64>, i: int) -> int {
    tanh_approx(dot_spec(b.weights_input@, inputs, i * 11, 11) + b.biases@[i])
}

pub open spec fn hidden_seq_spec(b: Brain, inputs: Seq<i64>) -> Seq<i64> {
    Seq::new(8, |i: int| hidden_spec(b, inputs, i) as i64)
}

/// The value of output unit `k` of controller `b` on an input vector.
pub open spec fn output_spec(b: Brain, inputs: Seq<i64>, k: int) -> int {
    tanh_approx(dot_spec(b.weights_output@, hidden_seq_spec(b, inputs), k * 8, 8) + b.biases@[
        8 + k
    ])
}

impl Brain {
    /// Well-formed: the three parameter arrays have the lengths the
    /// topology fixes, and every entry is within the weight limit.
    pub open spec fn wf(&self) -> bool {
        &&& self.weights_input@.len() == INPUT_WEIGHTS
        &&& self.weights_output@.len() == OUTPUT_WEIGHTS
        &&& self.biases@.len() == BIAS_COUNT
        &&& all_bounded(self.weights_input@, WEIGHT_LIMIT)
        &&& all_bounded(self.weights_output@, WEIGHT_LIMIT)
        &&& all_bounded(self.biases@, WEIGHT_LIMIT)
        &&& self.last_inputs@.len() == INPUT_COUNT
        &&& self.last_hidden@.len() == HIDDEN_COUNT
        &&& self.last_outputs@.len() == OUTPUT_COUNT
    }

    /// A controller with every weight and bias drawn independently and
    /// uniformly from [-1, 1].
    pub fn new(rng: &mut Rng) -> (b: Brain)
        ensures
            b.wf(),
            all_bounded(b.weights_input@, SCALE),
            all_bounded(b.weights_output@, SCALE),
            all_bounded(b.biases@, SCALE),
            forall|k: int| 0 <= k < INPUT_COUNT ==> b.last_inputs@[k] == 0i64,
            forall|k: int| 0 <= k < HIDDEN_COUNT ==> b.last_hidden@[k] == 0i64,
            forall|k: int| 0 <= k < OUTPUT_COUNT ==> b.last_outputs@[k] == 0i64,
    {
        Brain {
            weights_input: random_vec(rng, INPUT_WEIGHTS),
            weights_output: random_vec(rng, OUTPUT_WEIGHTS),
            biases: random_vec(rng, BIAS_COUNT),
            last_inputs: zero_vec(INPUT_COUNT),
            last_hidden: zero_vec(HIDDEN_COUNT),
            last_outputs: zero_vec(OUTPUT_COUNT),
        }
    }

    /// A child whose every weight and bias is copied from `self` or from
    /// `partner`, chosen independently per element.
    pub fn crossover(&self, partner: &Brain, rng: &mut Rng) -> (child: Brain)
        requires
            self.wf(),
            partner.wf(),
        ensures
            child.wf(),
            forall|k: int|
                0 <= k < INPUT_WEIGHTS ==> #[trigger] child.weights_input@[k]
                    == self.weights_input@[k] || child.weights_input@[k]
                    == partner.weights_input@[k],
            forall|k: int|
                0 <= k < OUTPUT_WEIGHTS ==> #[trigger] child.weights_output@[k]
                    == self.weights_output@[k] || child.weights_output@[k]
                    == partner.weights_output@[k],
            forall|k: int|
                0 <= k < BIAS_COUNT ==> #[trigger] child.biases@[k] == self.biases@[k]
                    || child.biases@[k] == partner.biases@[k],
    {
        Brain {
            weights_input: mix_vec(&self.weights_input, &partner.weights_input, rng),
            weights_output: mix_vec(&self.weights_output, &partner.weights_output, rng),
            biases: mix_vec(&self.biases, &partner.biases, rng),
            last_inputs: zero_vec(INPUT_COUNT),
            last_hidden: zero_vec(HIDDEN_COUNT),
            last_outputs: zero_vec(OUTPUT_COUNT),
        }
    }

    /// A child in which each weight and bias independently keeps its value
    /// or, with one-in-five chance, is perturbed by a uniform draw from
    /// [-1, 1] scaled by `rate`; with `rate == 0` the child's parameters
    /// equal the parent's whatever was selected.
    pub fn mutate(&self, rate: i64, rng: &mut Rng) -> (child: Brain)
        requires
            self.wf(),
            0 <= rate <= MAX_RATE,
        ensures
            child.wf(),
            forall|k: int|
                0 <= k < INPUT_WEIGHTS ==> self.weights_input@[k] - rate
                    <= #[trigger] child.weights_input@[k] <= self.weights_input@[k] + rate,
            forall|k: int|
                0 <= k < OUTPUT_WEIGHTS ==> self.weights_output@[k] - rate
                    <= #[trigger] child.weights_output@[k] <= self.weights_output@[k] + rate,
            forall|k: int|
                0 <= k < BIAS_COUNT ==> self.biases@[k] - rate <= #[trigger] child.biases@[k]
                    <= self.biases@[k] + rate,
            rate == 0 ==> child.weights_input@ == self.weights_input@,
            rate == 0 ==> child.weights_output@ == self.weights_output@,
            rate == 0 ==> child.biases@ == self.biases@,
    {
        Brain {
            weights_input: mutate_vec(&self.weights_input, rate, rng),
            weights_output: mutate_vec(&self.weights_output, rate, rng),
            biases: mutate_vec(&self.biases, rate, rng),
            last_inputs: copy_vec(&self.last_inputs),
            last_hidden: copy_vec(&self.last_hidden),
            last_outputs: copy_vec(&self.last_outputs),
        }
    }

    /// One pass of the network: each hidden unit is the tanh of its
    /// weighted inputs plus its bias, each output the tanh of its weighted
    /// hidden activations plus its bias. The three last_* buffers keep the
    /// values of this pass for inspection.
    #[verifier::loop_isolation(false)]
    pub fn process(&mut self, inputs: &Vec<i64>) -> (outputs: Vec<i64>)
        requires
            old(self).wf(),
            inputs@.len() == INPUT_COUNT,
            all_bounded(inputs@, INPUT_LIMIT),
        ensures
            final(self).wf(),
            final(self).weights_input@ == old(self).weights_input@,
            final(self).weights_output@ == old(self).weights_output@,
            final(self).biases@ == old(self).biases@,
            final(self).last_inputs@ == inputs@,
            final(self).last_hidden@ == hidden_seq_spec(*old(self), inputs@),
            final(self).last_outputs@ == outputs@,
            outputs@.len() == OUTPUT_COUNT,
            all_bounded(outputs@, SCALE),
            forall|k: int|
                0 <= k < OUTPUT_COUNT ==> #[trigger] outputs@[k] == output_spec(
                    *old(self),
                    inputs@,
                    k,
                ),
    {
        let ghost me: Brain = *self;
        let mut hidden: Vec<i64> = Vec::new();
        for i in 0..HIDDEN_COUNT
            invariant
                hidden@.len() == i,
                forall|t: int| 0 <= t < i ==> #[trigger] hidden@[t] == hidden_spec(me, inputs@, t),
                forall|t: int| 0 <= t < i ==> -1000 <= #[trigger] hidden@[t] <= 1000,
        {
            let acc = dot_row(&self.weights_input, inputs, i * 11, INPUT_COUNT);
            let h = tanh_fp(acc + self.biases[i]);
            hidden.push(h);
        }
        assert(hidden@ =~= hidden_seq_spec(me, inputs@));

        let mut outputs: Vec<i64> = Vec::new();
        for k in 0..OUTPUT_COUNT
            invariant
                outputs@.len() == k,
                forall|t: int|
                    0 <= t < k ==> #[trigger] outputs@[t] == output_spec(me, inputs@, t),
                forall|t: int| 0 <= t < k ==> -1000 <= #[trigger] outputs@[t] <= 1000,
        {
            let acc = dot_row(&self.weights_output, &hidden, k * 8, HIDDEN_COUNT);
            let o = tanh_fp(acc + self.biases[HIDDEN_COUNT + k]);
            outputs.push(o);
        }

        self.last_inputs = copy_vec(inputs);
        self.last_hidden = hidden;
        self.last_outputs = copy_vec(&outputs);
        outputs
    }
}

/// One row of the scaled weight/input dot product, starting at `base`.
#[verifier::loop_isolation(false)]
fn dot_row(ws: &Vec<i64>, xs: &Vec<i64>, base: usize, width: usize) -> (acc: i64)
    requires
        all_bounded(ws@, WEIGHT_LIMIT),
        all_bounded(xs@, INPUT_LIMIT),
        width == xs@.len(),
        width <= 16,
        base + width <= ws@.len(),
    ensures
        acc == dot_spec(ws@, xs@, base as int, width as int),
        -160_000_000_000 <= acc <= 160_000_000_000,
{
    let total = ws.len();
    assert(base + width <= total);
    let mut acc: i64 = 0;
    for j in 0..width
        invariant
            acc == dot_spec(ws@, xs@, base as int, j as int),
            -(j as int) * 10_000_000_000 <= acc <= (j as int) * 10_000_000_000,
    {
        let w = ws[base + j];
        let x = xs[j];
        proof {
            assert(-10_000_000_000_000int <= (w as int) * (x as int) <= 10_000_000_000_000int)
                by (nonlinear_arith)
                requires
                    -1_000_000_000 <= w as int <= 1_000_000_000,
                    -10_000 <= x as int <= 10_000,
            ;
            lemma_sdiv_bound((w as int) * (x as int), 1000, 10_000_000_000int);
        }
        let term = sdiv(w * x, SCALE);
        acc = acc + term;
    }
    proof {
        assert((width as int) * 10_000_000_000int <= 160_000_000_000int) by (nonlinear_arith)
            requires
                0 <= width as int <= 16,
        ;
    }
    acc
}

/// Each element copied from `a` or from `b`, chosen by a fresh draw.
fn mix_vec(a: &Vec<i64>, b: &Vec<i64>, rng: &mut Rng) -> (r: Vec<i64>)
    requires
        a@.len() == b@.len(),
    ensures
        r@.len() == a@.len(),
        forall|k: int| 0 <= k < r@.len() ==> #[trigger] r@[k] == a@[k] || r@[k] == b@[k],
{
    let mut r: Vec<i64> = Vec::new();
    for k in 0..a.len()
        invariant
            r@.len() == k,
            a@.len() == b@.len(),
            forall|j: int| 0 <= j < k ==> #[trigger] r@[j] == a@[j] || r@[j] == b@[j],
    {
        let coin = rng.below(2);
        if coin == 1 {
            r.push(a[k]);
        } else {
            r.push(b[k]);
        }
    }
    r
}

/// Each element kept, or with one-in-five chance perturbed by a uniform
/// draw scaled by `rate` and clamped into the weight limit.
fn mutate_vec(vals: &Vec<i64>, rate: i64, rng: &mut Rng) -> (r: Vec<i64>)
    requires
        all_bounded(vals@, WEIGHT_LIMIT),
        0 <= rate <= MAX_RATE,
    ensures
        r@.len() == vals@.len(),
        all_bounded(r@, WEIGHT_LIMIT),
        forall|k: int|
            0 <= k < r@.len() ==> vals@[k] - rate <= #[trigger] r@[k] <= vals@[k] + rate,
        rate == 0 ==> r@ == vals@,
{
    let mut r: Vec<i64> = Vec::new();
    for k in 0..vals.len()
        invariant
            r@.len() == k,
            all_bounded(vals@, WEIGHT_LIMIT),
            all_bounded(r@, WEIGHT_LIMIT),
            0 <= rate <= MAX_RATE,
            forall|j: int| 0 <= j < k ==> vals@[j] - rate <= #[trigger] r@[j] <= vals@[j] + rate,
            rate == 0 ==> forall|j: int| 0 <= j < k ==> r@[j] == vals@[j],
    {
        let selected = rng.below(5);
        if selected == 0 {
            let d = rng.symmetric(SCALE);
            proof {
                assert(-1000 * (rate as int) <= (d as int) * (rate as int) <= 1000 * (rate as int))
                    by (nonlinear_arith)
                    requires
                        -1000 <= d as int <= 1000,
                        0 <= rate as int,
                ;
                lemma_sdiv_bound((d as int) * (rate as int), 1000, rate as int);
            }
            let delta = sdiv(d * rate, SCALE);
            r.push(clamp_i64(vals[k] + delta, -WEIGHT_LIMIT, WEIGHT_LIMIT));
        } else {
            r.push(vals[k]);
        }
    }
    proof {
        if rate == 0 {
            assert(r@ =~= vals@);
        }
    }
    r
}

/// A vector of `n` independent uniform draws from [-1, 1].
fn random_vec(rng: &mut Rng, n: usize) -> (r: Vec<i64>)
    ensures
        r@.len() == n,
        all_bounded(r@, SCALE),
{
    let mut r: Vec<i64> = Vec::new();
    for k in 0..n
        invariant
            r@.len() == k,
            all_bounded(r@, SCALE),
    {
        let d = rng.symmetric(SCALE);
        r.push(d);
    }
    r
}

} // verus!
