use vstd::prelude::*;

use crate::error::LayerError;

verus! {

/// `sums` is a run of a multiply-accumulate step `mac` that starts at `init` and
/// takes, at step `i`, the pair `xs[i]`, `ys[i]`: `sums[i + 1]` is a result of
/// `mac(sums[i], xs[i], ys[i])`, and `sums.last()` is the accumulated value.
pub open spec fn is_accumulation<T, F: Fn(T, T, T) -> T>(
    mac: F,
    init: T,
    xs: Seq<T>,
    ys: Seq<T>,
    sums: Seq<T>,
) -> bool {
    &&& xs.len() == ys.len()
    &&& sums.len() == xs.len() + 1
    &&& sums[0] == init
    &&& forall|i: int|
        #![trigger xs[i]]
        #![trigger sums[i + 1]]
        0 <= i < xs.len() ==> mac.ensures((sums[i], xs[i], ys[i]), sums[i + 1])
}

/// The layer's parts fit together: one bias per neuron (row), and each row holds
/// one weight per input.
pub open spec fn layer_shape_ok<T>(inputs: Seq<T>, weights: Seq<Vec<T>>, biases: Seq<T>) -> bool {
    &&& biases.len() == weights.len()
    &&& forall|j: int| 0 <= j < weights.len() ==> (#[trigger] weights[j])@.len() == inputs.len()
}

/// `out` is an output of neuron `row`: the activation applied to the bias plus the
/// weighted sum of the inputs, accumulated from the first input to the last.
pub open spec fn is_neuron_output<T, A: Fn(T) -> T, F: Fn(T, T, T) -> T>(
    activation: A,
    mac: F,
    inputs: Seq<T>,
    row: Seq<T>,
    bias: T,
    out: T,
) -> bool {
    exists|sums: Seq<T>|
        #[trigger] is_accumulation(mac, bias, inputs, row, sums) && activation.ensures(
            (sums.last(),),
            out,
        )
}

/// `outputs` is a result of the forward pass of the layer.
pub open spec fn is_layer_output<T, A: Fn(T) -> T, F: Fn(T, T, T) -> T>(
    activation: A,
    mac: F,
    inputs: Seq<T>,
    weights: Seq<Vec<T>>,
    biases: Seq<T>,
    outputs: Seq<T>,
) -> bool {
    &&& outputs.len() == weights.len()
    &&& forall|j: int|
        0 <= j < weights.len() ==> is_neuron_output(
            activation,
            mac,
            inputs,
            weights[j]@,
            biases[j],
            #[trigger] outputs[j],
        )
}

/// The steps a caller of the forward pass hands in may be taken on any values.
pub open spec fn total_steps<T, A: Fn(T) -> T, F: Fn(T, T, T) -> T>(activation: A, mac: F) -> bool {
    &&& forall|x: T| #[trigger] activation.requires((x,))
    &&& forall|acc: T, x: T, w: T| #[trigger] mac.requires((acc, x, w))
}

/// Folds `step` over the pairs `xs[i]`, `ys[i]`, from `init` and from the first pair
/// to the last.
pub(crate) fn accumulate<T: Copy, F: Fn(T, T, T) -> T>(
    init: T,
    xs: &Vec<T>,
    ys: &Vec<T>,
    step: &F,
) -> (r: T)
    requires
        xs@.len() == ys@.len(),
        forall|acc: T, x: T, y: T| #[trigger] step.requires((acc, x, y)),
    ensures
        exists|sums: Seq<T>| #[trigger] is_accumulation(*step, init, xs@, ys@, sums) && sums.last() == r,
{
    let mut acc = init;
    let ghost mut sums: Seq<T> = seq![init];
    let mut i: usize = 0;
    while i < xs.len()
        invariant
            xs@.len() == ys@.len(),
            forall|a: T, x: T, y: T| #[trigger] step.requires((a, x, y)),
            0 <= i <= xs@.len(),
            sums.len() == i + 1,
            sums[0] == init,
            sums.last() == acc,
            forall|k: int|
                0 <= k < i ==> #[trigger] step.ensures((sums[k], xs@[k], ys@[k]), sums[k + 1]),
        decreases xs@.len() - i,
    {
        let next = step(acc, xs[i], ys[i]);
        proof {
            sums = sums.push(next);
        }
        acc = next;
        i = i + 1;
    }
    assert(is_accumulation(*step, init, xs@, ys@, sums));
    acc
}

/// Runs one dense layer forward: for each neuron `j`, the bias `biases[j]` plus the
/// products of the inputs with the row `weights[j]`, folded in by `mac` from the first
/// input to the last, then passed through `activation`.
///
/// Fails with `ShapeMismatch` unless there is one bias per row and each row holds
/// one weight per input.
pub fn forward_propagate<T: Copy, A: Fn(T) -> T, F: Fn(T, T, T) -> T>(
    inputs: &Vec<T>,
    weights: &Vec<Vec<T>>,
    biases: &Vec<T>,
    activation: A,
    mac: F,
) -> (r: Result<Vec<T>, LayerError>)
    requires
        total_steps(activation, mac),
    ensures
        r is Err <==> !layer_shape_ok(inputs@, weights@, biases@),
        r is Err ==> r->Err_0 == LayerError::ShapeMismatch,
        r is Ok ==> is_layer_output(activation, mac, inputs@, weights@, biases@, r->Ok_0@),
{
    if biases.len() != weights.len() {
        return Err(LayerError::ShapeMismatch);
    }
    let mut j: usize = 0;
    while j < weights.len()
        invariant
            biases@.len() == weights@.len(),
            0 <= j <= weights@.len(),
            forall|k: int| 0 <= k < j ==> (#[trigger] weights@[k])@.len() == inputs@.len(),
        decreases weights@.len() - j,
    {
        if weights[j].len() != inputs.len() {
            return Err(LayerError::ShapeMismatch);
        }
        j = j + 1;
    }
    let mut outputs: Vec<T> = Vec::new();
    let mut j: usize = 0;
    while j < weights.len()
        invariant
            total_steps(activation, mac),
            layer_shape_ok(inputs@, weights@, biases@),
            0 <= j <= weights@.len(),
            outputs@.len() == j,
            forall|k: int|
                0 <= k < j ==> is_neuron_output(
                    activation,
                    mac,
                    inputs@,
                    weights@[k]@,
                    biases@[k],
                    #[trigger] outputs@[k],
                ),
        decreases weights@.len() - j,
    {
        assert(weights@[j as int]@.len() == inputs@.len());
        let sum = accumulate(biases[j], inputs, &weights[j], &mac);
        let out = activation(sum);
        outputs.push(out);
        j = j + 1;
    }
    Ok(outputs)
}

/// `f` gives at most one result for each argument.
pub open spec fn is_function1<T, A: Fn(T) -> T>(f: A) -> bool {
    forall|x: T, r1: T, r2: T|
        #![trigger f.ensures((x,), r1), f.ensures((x,), r2)]
        f.ensures((x,), r1) && f.ensures((x,), r2) ==> r1 == r2
}

/// `f` gives at most one result for each triple of arguments.
pub open spec fn is_function3<T, F: Fn(T, T, T) -> T>(f: F) -> bool {
    forall|a: T, b: T, c: T, r1: T, r2: T|
        #![trigger f.ensures((a, b, c), r1), f.ensures((a, b, c), r2)]
        f.ensures((a, b, c), r1) && f.ensures((a, b, c), r2) ==> r1 == r2
}

proof fn lemma_accumulation_prefix_unique<T, F: Fn(T, T, T) -> T>(
    mac: F,
    init: T,
    xs: Seq<T>,
    ys: Seq<T>,
    s1: Seq<T>,
    s2: Seq<T>,
    k: int,
)
    requires
        is_function3(mac),
        is_accumulation(mac, init, xs, ys, s1),
        is_accumulation(mac, init, xs, ys, s2),
        0 <= k <= xs.len(),
    ensures
        s1[k] == s2[k],
    decreases k,
{
    if k > 0 {
        lemma_accumulation_prefix_unique(mac, init, xs, ys, s1, s2, k - 1);
        assert(mac.ensures((s1[k - 1], xs[k - 1], ys[k - 1]), s1[(k - 1) + 1]));
        assert(mac.ensures((s2[k - 1], xs[k - 1], ys[k - 1]), s2[(k - 1) + 1]));
    }
}

/// The forward pass is a function of what it is given: where `activation` and `mac`
/// each give one result for each argument, two outputs of the layer on the same
/// inputs, weights and biases are equal.
pub proof fn lemma_forward_deterministic<T, A: Fn(T) -> T, F: Fn(T, T, T) -> T>(
    activation: A,
    mac: F,
    inputs: Seq<T>,
    weights: Seq<Vec<T>>,
    biases: Seq<T>,
    outputs1: Seq<T>,
    outputs2: Seq<T>,
)
    requires
        is_function1(activation),
        is_function3(mac),
        is_layer_output(activation, mac, inputs, weights, biases, outputs1),
        is_layer_output(activation, mac, inputs, weights, biases, outputs2),
    ensures
        outputs1 == outputs2,
{
    assert forall|j: int| 0 <= j < weights.len() implies outputs1[j] == outputs2[j] by {
        let s1 = choose|sums: Seq<T>|
            #[trigger] is_accumulation(mac, biases[j], inputs, weights[j]@, sums)
                && activation.ensures((sums.last(),), outputs1[j]);
        let s2 = choose|sums: Seq<T>|
            #[trigger] is_accumulation(mac, biases[j], inputs, weights[j]@, sums)
                && activation.ensures((sums.last(),), outputs2[j]);
        assert forall|k: int| 0 <= k < s1.len() implies s1[k] == s2[k] by {
            lemma_accumulation_prefix_unique(mac, biases[j], inputs, weights[j]@, s1, s2, k);
        }
        assert(s1 =~= s2);
    }
    assert(outputs1 =~= outputs2);
}

} // verus!
