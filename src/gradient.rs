use vstd::prelude::*;

use crate::error::LayerError;
use crate::layer::{is_function1, is_function3, is_layer_output, lemma_forward_deterministic};

verus! {

/// The rows of a matrix, each as the sequence it holds.
pub open spec fn rows<T>(m: Seq<Vec<T>>) -> Seq<Seq<T>> {
    m.map_values(|row: Vec<T>| row@)
}

/// `r` is a result of `multiply(multiply(a, b), c)`.
pub open spec fn is_product3<T, M: Fn(T, T) -> T>(multiply: M, a: T, b: T, c: T, r: T) -> bool {
    exists|ab: T| #[trigger] multiply.ensures((a, b), ab) && multiply.ensures((ab, c), r)
}

/// The gradient of one neuron: with `error` a result of `subtract(prediction, target)`,
/// the bias gradient is `error * learning_rate` and the weight gradient of input `i`
/// is `(error * inputs[i]) * learning_rate`.
pub open spec fn is_neuron_gradient<T, S: Fn(T, T) -> T, M: Fn(T, T) -> T>(
    subtract: S,
    multiply: M,
    inputs: Seq<T>,
    prediction: T,
    target: T,
    learning_rate: T,
    weight_gradient: Seq<T>,
    bias_gradient: T,
) -> bool {
    exists|error: T|
        #[trigger] subtract.ensures((prediction, target), error) && multiply.ensures(
            (error, learning_rate),
            bias_gradient,
        ) && weight_gradient.len() == inputs.len() && forall|i: int|
            0 <= i < inputs.len() ==> is_product3(
                multiply,
                error,
                inputs[i],
                learning_rate,
                #[trigger] weight_gradient[i],
            )
}

/// `weight_gradients` and `bias_gradients` are the gradients of a layer with one
/// neuron per prediction.
pub open spec fn is_layer_gradient<T, S: Fn(T, T) -> T, M: Fn(T, T) -> T>(
    subtract: S,
    multiply: M,
    inputs: Seq<T>,
    predictions: Seq<T>,
    targets: Seq<T>,
    learning_rate: T,
    weight_gradients: Seq<Seq<T>>,
    bias_gradients: Seq<T>,
) -> bool {
    &&& weight_gradients.len() == predictions.len()
    &&& bias_gradients.len() == predictions.len()
    &&& forall|j: int|
        0 <= j < predictions.len() ==> is_neuron_gradient(
            subtract,
            multiply,
            inputs,
            predictions[j],
            targets[j],
            learning_rate,
            #[trigger] weight_gradients[j],
            bias_gradients[j],
        )
}

/// `zs` is `xs` and `ys` combined element by element through `f`.
pub open spec fn is_elementwise<T, S: Fn(T, T) -> T>(f: S, xs: Seq<T>, ys: Seq<T>, zs: Seq<T>) -> bool {
    &&& ys.len() == xs.len()
    &&& zs.len() == xs.len()
    &&& forall|i: int| 0 <= i < xs.len() ==> f.ensures((xs[i], ys[i]), #[trigger] zs[i])
}

/// `new_weights` and `new_biases` are `weights` and `biases` with the gradients
/// subtracted element by element.
pub open spec fn is_update<T, S: Fn(T, T) -> T>(
    subtract: S,
    weights: Seq<Seq<T>>,
    biases: Seq<T>,
    weight_gradients: Seq<Seq<T>>,
    bias_gradients: Seq<T>,
    new_weights: Seq<Seq<T>>,
    new_biases: Seq<T>,
) -> bool {
    &&& is_elementwise(subtract, biases, bias_gradients, new_biases)
    &&& weight_gradients.len() == weights.len()
    &&& new_weights.len() == weights.len()
    &&& forall|j: int|
        0 <= j < weights.len() ==> is_elementwise(
            subtract,
            weights[j],
            weight_gradients[j],
            #[trigger] new_weights[j],
        )
}

/// The gradients fit the parameters that they update.
pub open spec fn update_shape_ok<T>(
    weights: Seq<Seq<T>>,
    biases: Seq<T>,
    weight_gradients: Seq<Seq<T>>,
    bias_gradients: Seq<T>,
) -> bool {
    &&& bias_gradients.len() == biases.len()
    &&& weight_gradients.len() == weights.len()
    &&& forall|j: int|
        0 <= j < weights.len() ==> (#[trigger] weight_gradients[j]).len() == weights[j].len()
}

/// `f` gives at most one result for each pair of arguments.
pub open spec fn is_function2<T, S: Fn(T, T) -> T>(f: S) -> bool {
    forall|a: T, b: T, r1: T, r2: T|
        #![trigger f.ensures((a, b), r1), f.ensures((a, b), r2)]
        f.ensures((a, b), r1) && f.ensures((a, b), r2) ==> r1 == r2
}

/// `f` may be called on any pair of values.
pub open spec fn total2<T, S: Fn(T, T) -> T>(f: S) -> bool {
    forall|a: T, b: T| #[trigger] f.requires((a, b))
}

/// The gradient of one neuron whose output was `prediction` and should have been
/// `target`.
fn neuron_gradient<T: Copy, S: Fn(T, T) -> T, M: Fn(T, T) -> T>(
    inputs: &Vec<T>,
    prediction: T,
    target: T,
    learning_rate: T,
    subtract: &S,
    multiply: &M,
) -> (r: (Vec<T>, T))
    requires
        total2(*subtract),
        total2(*multiply),
    ensures
        is_neuron_gradient(*subtract, *multiply, inputs@, prediction, target, learning_rate, r.0@, r.1),
{
    let error = subtract(prediction, target);
    let bias_gradient = multiply(error, learning_rate);
    let mut weight_gradient: Vec<T> = Vec::new();
    let mut i: usize = 0;
    while i < inputs.len()
        invariant
            total2(*multiply),
            0 <= i <= inputs@.len(),
            weight_gradient@.len() == i,
            forall|k: int|
                0 <= k < i ==> is_product3(
                    *multiply,
                    error,
                    inputs@[k],
                    learning_rate,
                    #[trigger] weight_gradient@[k],
                ),
        decreases inputs@.len() - i,
    {
        let scaled = multiply(error, inputs[i]);
        let g = multiply(scaled, learning_rate);
        weight_gradient.push(g);
        i = i + 1;
    }
    (weight_gradient, bias_gradient)
}

/// The gradients of a layer of `weights.len()` neurons: for neuron `j`, with
/// `error = predictions[j] - targets[j]`, the bias gradient is
/// `error * learning_rate` and the weight gradient of input `i` is
/// `error * inputs[i] * learning_rate`.
///
/// Fails with `ShapeMismatch` unless there is one prediction and one target per
/// neuron.
pub fn calculate_gradients<T: Copy, S: Fn(T, T) -> T, M: Fn(T, T) -> T>(
    inputs: &Vec<T>,
    weights: &Vec<Vec<T>>,
    predictions: &Vec<T>,
    targets: &Vec<T>,
    learning_rate: T,
    subtract: S,
    multiply: M,
) -> (r: Result<(Vec<Vec<T>>, Vec<T>), LayerError>)
    requires
        total2(subtract),
        total2(multiply),
    ensures
        r is Err <==> (predictions@.len() != weights@.len() || targets@.len() != weights@.len()),
        r is Err ==> r->Err_0 == LayerError::ShapeMismatch,
        r is Ok ==> is_layer_gradient(
            subtract,
            multiply,
            inputs@,
            predictions@,
            targets@,
            learning_rate,
            rows(r->Ok_0.0@),
            r->Ok_0.1@,
        ),
{
    if predictions.len() != weights.len() || targets.len() != weights.len() {
        return Err(LayerError::ShapeMismatch);
    }
    let mut weight_gradients: Vec<Vec<T>> = Vec::new();
    let mut bias_gradients: Vec<T> = Vec::new();
    let mut j: usize = 0;
    while j < weights.len()
        invariant
            total2(subtract),
            total2(multiply),
            predictions@.len() == weights@.len(),
            targets@.len() == weights@.len(),
            0 <= j <= weights@.len(),
            weight_gradients@.len() == j,
            bias_gradients@.len() == j,
            forall|k: int|
                0 <= k < j ==> is_neuron_gradient(
                    subtract,
                    multiply,
                    inputs@,
                    predictions@[k],
                    targets@[k],
                    learning_rate,
                    #[trigger] weight_gradients@[k]@,
                    bias_gradients@[k],
                ),
        decreases weights@.len() - j,
    {
        let (w, b) = neuron_gradient(inputs, predictions[j], targets[j], learning_rate, &subtract, &multiply);
        weight_gradients.push(w);
        bias_gradients.push(b);
        j = j + 1;
    }
    proof {
        let wg = rows(weight_gradients@);
        assert forall|k: int| 0 <= k < j implies #[trigger] wg[k] == weight_gradients@[k]@ by {}
    }
    Ok((weight_gradients, bias_gradients))
}

/// `xs` and `ys` combined element by element through `f`.
fn elementwise<T: Copy, S: Fn(T, T) -> T>(xs: &Vec<T>, ys: &Vec<T>, f: &S) -> (r: Vec<T>)
    requires
        xs@.len() == ys@.len(),
        total2(*f),
    ensures
        is_elementwise(*f, xs@, ys@, r@),
{
    let mut zs: Vec<T> = Vec::new();
    let mut i: usize = 0;
    while i < xs.len()
        invariant
            xs@.len() == ys@.len(),
            total2(*f),
            0 <= i <= xs@.len(),
            zs@.len() == i,
            forall|k: int| 0 <= k < i ==> #[trigger] f.ensures((xs@[k], ys@[k]), zs@[k]),
        decreases xs@.len() - i,
    {
        let z = f(xs[i], ys[i]);
        zs.push(z);
        i = i + 1;
    }
    zs
}

/// Takes one step: subtracts each weight gradient from its weight and each bias
/// gradient from its bias, through `subtract`.
///
/// Fails with `ShapeMismatch`, and changes nothing, unless the gradients have the
/// shapes of the weights and the biases.
pub fn apply_update<T: Copy, S: Fn(T, T) -> T>(
    weights: &mut Vec<Vec<T>>,
    biases: &mut Vec<T>,
    weight_gradients: &Vec<Vec<T>>,
    bias_gradients: &Vec<T>,
    subtract: S,
) -> (r: Result<(), LayerError>)
    requires
        total2(subtract),
    ensures
        r is Err <==> !update_shape_ok(
            rows(old(weights)@),
            old(biases)@,
            rows(weight_gradients@),
            bias_gradients@,
        ),
        r is Err ==> r->Err_0 == LayerError::ShapeMismatch && *final(weights) == *old(weights)
            && *final(biases) == *old(biases),
        r is Ok ==> is_update(
            subtract,
            rows(old(weights)@),
            old(biases)@,
            rows(weight_gradients@),
            bias_gradients@,
            rows(final(weights)@),
            final(biases)@,
        ),
{
    if bias_gradients.len() != biases.len() || weight_gradients.len() != weights.len() {
        return Err(LayerError::ShapeMismatch);
    }
    let mut j: usize = 0;
    while j < weights.len()
        invariant
            weight_gradients@.len() == weights@.len(),
            0 <= j <= weights@.len(),
            forall|k: int|
                0 <= k < j ==> (#[trigger] weight_gradients@[k])@.len() == weights@[k]@.len(),
        decreases weights@.len() - j,
    {
        if weight_gradients[j].len() != weights[j].len() {
            assert(rows(weight_gradients@)[j as int] == weight_gradients@[j as int]@);
            assert(rows(weights@)[j as int] == weights@[j as int]@);
            return Err(LayerError::ShapeMismatch);
        }
        j = j + 1;
    }
    let new_biases = elementwise(biases, bias_gradients, &subtract);
    let mut new_weights: Vec<Vec<T>> = Vec::new();
    let mut j: usize = 0;
    while j < weights.len()
        invariant
            total2(subtract),
            weight_gradients@.len() == weights@.len(),
            forall|k: int|
                0 <= k < weights@.len() ==> (#[trigger] weight_gradients@[k])@.len()
                    == weights@[k]@.len(),
            0 <= j <= weights@.len(),
            new_weights@.len() == j,
            forall|k: int|
                0 <= k < j ==> is_elementwise(
                    subtract,
                    weights@[k]@,
                    weight_gradients@[k]@,
                    #[trigger] new_weights@[k]@,
                ),
        decreases weights@.len() - j,
    {
        let row = elementwise(&weights[j], &weight_gradients[j], &subtract);
        new_weights.push(row);
        j = j + 1;
    }
    proof {
        let (w, g, n) = (rows(weights@), rows(weight_gradients@), rows(new_weights@));
        assert forall|k: int| 0 <= k < weights@.len() implies #[trigger] n[k] == new_weights@[k]@
            && w[k] == weights@[k]@ && g[k] == weight_gradients@[k]@ by {}
    }
    *weights = new_weights;
    *biases = new_biases;
    Ok(())
}

proof fn lemma_neuron_gradient_unique<T, S: Fn(T, T) -> T, M: Fn(T, T) -> T>(
    subtract: S,
    multiply: M,
    inputs: Seq<T>,
    prediction: T,
    target: T,
    learning_rate: T,
    wg1: Seq<T>,
    bg1: T,
    wg2: Seq<T>,
    bg2: T,
)
    requires
        is_function2(subtract),
        is_function2(multiply),
        is_neuron_gradient(subtract, multiply, inputs, prediction, target, learning_rate, wg1, bg1),
        is_neuron_gradient(subtract, multiply, inputs, prediction, target, learning_rate, wg2, bg2),
    ensures
        wg1 == wg2,
        bg1 == bg2,
{
    let e1 = choose|e: T|
        #[trigger] subtract.ensures((prediction, target), e) && multiply.ensures(
            (e, learning_rate),
            bg1,
        ) && wg1.len() == inputs.len() && forall|i: int|
            0 <= i < inputs.len() ==> is_product3(
                multiply,
                e,
                inputs[i],
                learning_rate,
                #[trigger] wg1[i],
            );
    let e2 = choose|e: T|
        #[trigger] subtract.ensures((prediction, target), e) && multiply.ensures(
            (e, learning_rate),
            bg2,
        ) && wg2.len() == inputs.len() && forall|i: int|
            0 <= i < inputs.len() ==> is_product3(
                multiply,
                e,
                inputs[i],
                learning_rate,
                #[trigger] wg2[i],
            );
    assert(e1 == e2);
    assert forall|i: int| 0 <= i < inputs.len() implies wg1[i] == wg2[i] by {
        assert(is_product3(multiply, e1, inputs[i], learning_rate, wg1[i]));
        assert(is_product3(multiply, e1, inputs[i], learning_rate, wg2[i]));
        let ab1 = choose|ab: T|
            #[trigger] multiply.ensures((e1, inputs[i]), ab) && multiply.ensures(
                (ab, learning_rate),
                wg1[i],
            );
        let ab2 = choose|ab: T|
            #[trigger] multiply.ensures((e1, inputs[i]), ab) && multiply.ensures(
                (ab, learning_rate),
                wg2[i],
            );
        assert(ab1 == ab2);
    }
    assert(wg1 =~= wg2);
}

/// One training step is a function of what it is given: where `activation`, `mac`,
/// `subtract` and `multiply` each give one result for each argument, two runs of the
/// forward pass, the gradient calculation and the update step on the same inputs,
/// weights, biases, targets and learning rate make the same predictions, compute the
/// same gradients and leave the same weights and biases.
pub proof fn lemma_training_step_deterministic<
    T,
    A: Fn(T) -> T,
    F: Fn(T, T, T) -> T,
    S: Fn(T, T) -> T,
    M: Fn(T, T) -> T,
>(
    activation: A,
    mac: F,
    subtract: S,
    multiply: M,
    inputs: Seq<T>,
    weights: Seq<Vec<T>>,
    biases: Seq<T>,
    targets: Seq<T>,
    learning_rate: T,
    predictions1: Seq<T>,
    weight_gradients1: Seq<Seq<T>>,
    bias_gradients1: Seq<T>,
    new_weights1: Seq<Seq<T>>,
    new_biases1: Seq<T>,
    predictions2: Seq<T>,
    weight_gradients2: Seq<Seq<T>>,
    bias_gradients2: Seq<T>,
    new_weights2: Seq<Seq<T>>,
    new_biases2: Seq<T>,
)
    requires
        is_function1(activation),
        is_function3(mac),
        is_function2(subtract),
        is_function2(multiply),
        is_layer_output(activation, mac, inputs, weights, biases, predictions1),
        is_layer_output(activation, mac, inputs, weights, biases, predictions2),
        is_layer_gradient(
            subtract,
            multiply,
            inputs,
            predictions1,
            targets,
            learning_rate,
            weight_gradients1,
            bias_gradients1,
        ),
        is_layer_gradient(
            subtract,
            multiply,
            inputs,
            predictions2,
            targets,
            learning_rate,
            weight_gradients2,
            bias_gradients2,
        ),
        is_update(
            subtract,
            rows(weights),
            biases,
            weight_gradients1,
            bias_gradients1,
            new_weights1,
            new_biases1,
        ),
        is_update(
            subtract,
            rows(weights),
            biases,
            weight_gradients2,
            bias_gradients2,
            new_weights2,
            new_biases2,
        ),
    ensures
        predictions1 == predictions2,
        weight_gradients1 == weight_gradients2,
        bias_gradients1 == bias_gradients2,
        new_weights1 == new_weights2,
        new_biases1 == new_biases2,
{
    lemma_forward_deterministic(activation, mac, inputs, weights, biases, predictions1, predictions2);
    let predictions = predictions1;
    let weights = rows(weights);
    assert forall|j: int| 0 <= j < predictions.len() implies weight_gradients1[j]
        == weight_gradients2[j] && bias_gradients1[j] == bias_gradients2[j] by {
        lemma_neuron_gradient_unique(
            subtract,
            multiply,
            inputs,
            predictions[j],
            targets[j],
            learning_rate,
            weight_gradients1[j],
            bias_gradients1[j],
            weight_gradients2[j],
            bias_gradients2[j],
        );
    }
    assert(weight_gradients1 =~= weight_gradients2);
    assert(bias_gradients1 =~= bias_gradients2);
    assert forall|i: int| 0 <= i < biases.len() implies new_biases1[i] == new_biases2[i] by {
        assert(subtract.ensures((biases[i], bias_gradients1[i]), new_biases1[i]));
        assert(subtract.ensures((biases[i], bias_gradients1[i]), new_biases2[i]));
    }
    assert(new_biases1 =~= new_biases2);
    assert forall|j: int| 0 <= j < weights.len() implies new_weights1[j] == new_weights2[j] by {
        assert(is_elementwise(subtract, weights[j], weight_gradients1[j], new_weights1[j]));
        assert(is_elementwise(subtract, weights[j], weight_gradients1[j], new_weights2[j]));
        assert forall|i: int| 0 <= i < weights[j].len() implies new_weights1[j][i]
            == new_weights2[j][i] by {
            assert(subtract.ensures((weights[j][i], weight_gradients1[j][i]), new_weights1[j][i]));
            assert(subtract.ensures((weights[j][i], weight_gradients1[j][i]), new_weights2[j][i]));
        }
        assert(new_weights1[j] =~= new_weights2[j]);
    }
    assert(new_weights1 =~= new_weights2);
}

} // verus!
