use vstd::prelude::*;

verus! {

pub open spec fn min_int(a: int, b: int) -> int {
    if a < b {
        a
    } else {
        b
    }
}

pub open spec fn max_int(a: int, b: int) -> int {
    if a > b {
        a
    } else {
        b
    }
}

/// The range [lo, hi) the hidden layer size of a crossover of two brains is
/// drawn from: from one below the smaller parent's size (but at least 1) to one
/// above the larger's, cut to a single size past the lower end.
pub open spec fn crossover_hidden_bounds(h1: int, h2: int) -> (int, int) {
    let lo = max_int(min_int(h1, h2) - 1, 1);
    (lo, min_int(max_int(h1, h2) + 1, lo + 1))
}

/// The range [lo, hi) the hidden layer size of a crossover of two brains with
/// hidden layers of `h1` and `h2` cells is drawn from.
pub fn crossover_hidden_range(h1: usize, h2: usize) -> (r: (usize, usize))
    requires
        h1 >= 1,
        h2 >= 1,
        h1 < usize::MAX,
        h2 < usize::MAX,
    ensures
        r.0 == crossover_hidden_bounds(h1 as int, h2 as int).0,
        r.1 == crossover_hidden_bounds(h1 as int, h2 as int).1,
        1 <= r.0 < r.1,
        r.0 == (if h1 <= h2 { if h1 >= 2 { h1 - 1 } else { 1 } } else { if h2 >= 2 { h2 - 1 } else { 1 } }),
        r.1 == r.0 + 1,
{
    proof {
        lemma_crossover_hidden_size(h1 as int, h2 as int);
    }
    let small = if h1 < h2 { h1 } else { h2 };
    let big = if h1 > h2 { h1 } else { h2 };
    let lo = if small - 1 > 1 { small - 1 } else { 1 };
    let hi = if big + 1 < lo + 1 { big + 1 } else { lo + 1 };
    (lo, hi)
}

/// The hidden layer of a crossed brain has exactly one size to be drawn from: one
/// less than the smaller parent's hidden layer, and never less than one cell.
pub proof fn lemma_crossover_hidden_size(h1: int, h2: int)
    requires
        h1 >= 1,
        h2 >= 1,
    ensures
        crossover_hidden_bounds(h1, h2).0 == (if h1 <= h2 {
            if h1 >= 2 { h1 - 1 } else { 1 }
        } else {
            if h2 >= 2 { h2 - 1 } else { 1 }
        }),
        crossover_hidden_bounds(h1, h2).1 == crossover_hidden_bounds(h1, h2).0 + 1,
        crossover_hidden_bounds(h1, h2).0 < h1 || crossover_hidden_bounds(h1, h2).0 == 1,
        crossover_hidden_bounds(h1, h2).0 < h2 || crossover_hidden_bounds(h1, h2).0 == 1,
{
}

/// What a mutation does to the shape of a brain.
pub struct MutationPlan {
    /// The new size of the hidden layer.
    pub hidden: usize,
    /// Whether the input-to-hidden weights are drawn anew (the inputs changed).
    pub new_input_layer: bool,
    /// Whether the hidden-to-output weights are drawn anew (the outputs changed).
    pub new_output_layer: bool,
    /// Whether the shape changed at all; when it did not, a single weight or
    /// bias is changed instead.
    pub reshaped: bool,
}

/// The hidden layer size after a mutation that drew `delta` (in -2..2): the old
/// size moved by `delta` while that leaves at least one cell, else `fallback`
/// (drawn from 1..3).
pub open spec fn mutated_hidden(hidden: int, delta: int, fallback: int) -> int {
    if hidden + delta >= 1 {
        hidden + delta
    } else {
        fallback
    }
}

/// Whether a mutation that drew `delta` leaves the hidden layer without a cell,
/// so that its size is drawn again.
pub fn hidden_needs_redraw(hidden: usize, delta: i32) -> (r: bool)
    requires
        hidden + 2 <= i32::MAX,
        -2 <= delta < 2,
    ensures
        r == (hidden + delta < 1),
{
    (hidden as i32) + delta < 1
}

/// Plans the reshaping of a brain whose inputs, hidden layer and outputs had
/// `old_in`, `old_hidden` and `old_out` cells, for `new_in` inputs and `new_out`
/// outputs, with the draws `delta` and `fallback` for the hidden layer.
pub fn plan_mutation(
    old_in: usize,
    old_hidden: usize,
    old_out: usize,
    new_in: usize,
    new_out: usize,
    delta: i32,
    fallback: usize,
) -> (r: MutationPlan)
    requires
        old_hidden + 2 <= i32::MAX,
        -2 <= delta < 2,
        1 <= fallback < 3,
    ensures
        r.hidden == mutated_hidden(old_hidden as int, delta as int, fallback as int),
        r.hidden >= 1,
        r.new_input_layer == (new_in != old_in),
        r.new_output_layer == (new_out != old_out),
        r.reshaped == (new_in != old_in || new_out != old_out || r.hidden != old_hidden),
{
    let moved: i32 = old_hidden as i32 + delta;
    let hidden: usize = if moved >= 1 {
        moved as usize
    } else {
        fallback
    };
    MutationPlan {
        hidden,
        new_input_layer: new_in != old_in,
        new_output_layer: new_out != old_out,
        reshaped: new_in != old_in || new_out != old_out || hidden != old_hidden,
    }
}

/// Where a weight or bias of a reshaped layer comes from: a value of the first
/// (or only) parent layer at an index, one of the second parent layer, or a
/// fresh random draw.
#[derive(Clone, Copy, Debug, PartialEq, Eq, Structural)]
pub enum WeightSource {
    First(usize),
    Second(usize),
    Drawn,
}

/// Whether weight `k` of a layer with `new_out` outputs, counted input by input,
/// connects an input and an output that the old layer of `old_in` inputs and
/// `old_out` outputs had too.
pub open spec fn in_old_layer(k: int, old_in: int, old_out: int, new_out: int) -> bool {
    k / new_out < old_in && k % new_out < old_out
}

/// How many of the weights before weight `k` the old layer had too.
pub open spec fn old_weights_before(k: int, old_in: int, old_out: int, new_out: int) -> int
    decreases k,
{
    if k <= 0 {
        0
    } else {
        old_weights_before(k - 1, old_in, old_out, new_out) + if in_old_layer(k - 1, old_in, old_out, new_out) {
            1int
        } else {
            0int
        }
    }
}

/// Where weight `k` of a crossed layer comes from: a weight the first parent's
/// layer had too is that parent's next weight, while it has one left; any other
/// weight is the second parent's next weight, while it has one left; the rest
/// are drawn. `len1` and `len2` are the parents' weight counts.
pub open spec fn crossover_weight_source(k: int, old_in: int, old_out: int, new_out: int, len1: int, len2: int) -> WeightSource {
    let a = old_weights_before(k, old_in, old_out, new_out);
    let firsts = if a < len1 { a } else { len1 };
    if in_old_layer(k, old_in, old_out, new_out) && a < len1 {
        WeightSource::First(a as usize)
    } else if k - firsts < len2 {
        WeightSource::Second((k - firsts) as usize)
    } else {
        WeightSource::Drawn
    }
}

/// Where bias `o` of a crossed layer comes from: the first parent's biases, then
/// the second parent's, then drawn ones.
pub open spec fn crossover_bias_source(o: int, biases1: int, biases2: int) -> WeightSource {
    if o < biases1 {
        WeightSource::First(o as usize)
    } else if o - biases1 < biases2 {
        WeightSource::Second((o - biases1) as usize)
    } else {
        WeightSource::Drawn
    }
}

/// Where weight `k` of a resized layer comes from: a weight the old layer had too
/// is the old layer's next weight; the others are drawn.
pub open spec fn resized_weight_source(k: int, old_in: int, old_out: int, new_out: int) -> WeightSource {
    if in_old_layer(k, old_in, old_out, new_out) {
        WeightSource::First(old_weights_before(k, old_in, old_out, new_out) as usize)
    } else {
        WeightSource::Drawn
    }
}

/// How many of the sources draw on the first (or only) parent layer.
pub open spec fn count_first(s: Seq<WeightSource>) -> nat
    decreases s.len(),
{
    if s.len() == 0 {
        0
    } else {
        count_first(s.drop_last()) + if s.last() is First { 1nat } else { 0nat }
    }
}

/// The sources of the first `k` weights of a resized layer.
pub open spec fn resized_prefix(k: int, old_in: int, old_out: int, new_out: int) -> Seq<WeightSource> {
    Seq::new(k as nat, |q: int| resized_weight_source(q, old_in, old_out, new_out))
}

proof fn lemma_resized_prefix_count(k: int, old_in: int, old_out: int, new_out: int)
    requires
        k >= 0,
    ensures
        count_first(resized_prefix(k, old_in, old_out, new_out)) == old_weights_before(k, old_in, old_out, new_out),
    decreases k,
{
    if k > 0 {
        lemma_resized_prefix_count(k - 1, old_in, old_out, new_out);
        let p = resized_prefix(k, old_in, old_out, new_out);
        assert(p.drop_last() =~= resized_prefix(k - 1, old_in, old_out, new_out));
        assert(p.last() == resized_weight_source(k - 1, old_in, old_out, new_out));
    }
}

/// How many weights before weight `k` (in row `k / new_out`, column `k % new_out`)
/// the old layer had too: the full rows before it, and the columns before it in
/// its own row, counting only old rows and old columns.
proof fn lemma_old_weights_before_closed(k: int, old_in: int, old_out: int, new_out: int)
    requires
        k >= 0,
        old_in >= 0,
        old_out >= 0,
        new_out > 0,
    ensures
        old_weights_before(k, old_in, old_out, new_out) == if k / new_out < old_in {
            (k / new_out) * min_int(old_out, new_out) + min_int(k % new_out, old_out)
        } else {
            old_in * min_int(old_out, new_out)
        },
    decreases k,
{
    let w = min_int(old_out, new_out);
    if k == 0 {
        vstd::arithmetic::div_mod::lemma_fundamental_div_mod_converse(0, new_out, 0, 0);
        assert(0 * w == 0) by (nonlinear_arith);
    } else {
        let p = k - 1;
        lemma_old_weights_before_closed(p, old_in, old_out, new_out);
        let i = p / new_out;
        let j = p % new_out;
        vstd::arithmetic::div_mod::lemma_fundamental_div_mod(p, new_out);
        vstd::arithmetic::div_mod::lemma_mod_bound(p, new_out);
        vstd::arithmetic::div_mod::lemma_div_pos_is_pos(p, new_out);
        assert(p == i * new_out + j) by (nonlinear_arith)
            requires p == new_out * i + j;
        let prev = old_weights_before(p, old_in, old_out, new_out);
        let step: int = if in_old_layer(p, old_in, old_out, new_out) { 1 } else { 0 };
        assert(old_weights_before(k, old_in, old_out, new_out) == prev + step);
        if j + 1 < new_out {
            vstd::arithmetic::div_mod::lemma_fundamental_div_mod_converse(k, new_out, i, j + 1);
        } else {
            assert(k == (i + 1) * new_out + 0) by (nonlinear_arith)
                requires k == i * new_out + j + 1, j + 1 == new_out;
            vstd::arithmetic::div_mod::lemma_fundamental_div_mod_converse(k, new_out, i + 1, 0);
            assert((i + 1) * w == i * w + w) by (nonlinear_arith);
            if i < old_in {
                assert(min_int(j, old_out) + step == w);
                if i + 1 >= old_in {
                    assert(i + 1 == old_in);
                }
            }
        }
    }
}

/// The weights a resized layer keeps are the old layer's weights taken in order,
/// without gaps: the source of a kept weight is the number of weights kept before
/// it, and it lies inside the old layer's `old_in * old_out` weights. So every old
/// weight that is kept is kept once, in its place in the order.
pub proof fn lemma_resized_weights_in_order(k: int, old_in: int, old_out: int, new_out: int)
    requires
        0 <= k <= usize::MAX,
        old_in >= 0,
        old_out >= 0,
        new_out > 0,
    ensures
        resized_weight_source(k, old_in, old_out, new_out) is First ==> {
            &&& resized_weight_source(k, old_in, old_out, new_out)->First_0 == count_first(
                resized_prefix(k, old_in, old_out, new_out),
            )
            &&& resized_weight_source(k, old_in, old_out, new_out)->First_0 < old_in * old_out
        },
{
    lemma_resized_prefix_count(k, old_in, old_out, new_out);
    lemma_old_weights_before_closed(k, old_in, old_out, new_out);
    if resized_weight_source(k, old_in, old_out, new_out) is First {
        let i = k / new_out;
        let j = k % new_out;
        let w = min_int(old_out, new_out);
        assert(i >= 0) by {
            vstd::arithmetic::div_mod::lemma_div_pos_is_pos(k, new_out);
        }
        assert(j >= 0) by {
            vstd::arithmetic::div_mod::lemma_mod_bound(k, new_out);
        }
        assert(j < new_out) by {
            vstd::arithmetic::div_mod::lemma_mod_bound(k, new_out);
        }
        assert(i * w + j < old_in * old_out) by (nonlinear_arith)
            requires
                0 <= i < old_in,
                0 <= j < w,
                w <= old_out,
                w >= 0;
        assert(old_weights_before(k, old_in, old_out, new_out) <= k) by {
            lemma_count_first_bound(resized_prefix(k, old_in, old_out, new_out));
        }
    }
}

proof fn lemma_count_first_bound(s: Seq<WeightSource>)
    ensures
        count_first(s) <= s.len(),
    decreases s.len(),
{
    if s.len() > 0 {
        lemma_count_first_bound(s.drop_last());
    }
}

/// The sources of the weights of the layer with `new_in` inputs and `new_out`
/// outputs crossed from a first parent layer of `old_in` inputs, `old_out`
/// outputs and `len1` weights, and a second parent layer of `len2` weights;
/// weights are counted input by input.
pub fn crossover_weight_sources(
    len1: usize,
    len2: usize,
    old_in: usize,
    old_out: usize,
    new_in: usize,
    new_out: usize,
) -> (r: Vec<WeightSource>)
    requires
        new_in * new_out <= usize::MAX,
    ensures
        r@.len() == new_in * new_out,
        forall|k: int|
            0 <= k < r@.len() ==> r@[k] == crossover_weight_source(
                k,
                old_in as int,
                old_out as int,
                new_out as int,
                len1 as int,
                len2 as int,
            ),
{
    let mut r: Vec<WeightSource> = Vec::new();
    if new_out == 0 {
        assert(new_in * new_out == 0) by (nonlinear_arith)
            requires new_out == 0;
        return r;
    }
    let total: usize = new_in * new_out;
    let mut p1: usize = 0;
    let mut p2: usize = 0;
    let mut k: usize = 0;
    while k < total
        invariant
            new_out > 0,
            total == new_in * new_out,
            k <= total,
            r@.len() == k,
            p1 as int == (if old_weights_before(k as int, old_in as int, old_out as int, new_out as int) < len1 {
                old_weights_before(k as int, old_in as int, old_out as int, new_out as int)
            } else {
                len1 as int
            }),
            p2 as int == (if k - p1 < len2 { k - p1 } else { len2 as int }),
            p1 <= k,
            forall|q: int|
                0 <= q < k ==> r@[q] == crossover_weight_source(
                    q,
                    old_in as int,
                    old_out as int,
                    new_out as int,
                    len1 as int,
                    len2 as int,
                ),
        decreases total - k,
    {
        let i = k / new_out;
        let j = k % new_out;
        let ghost a = old_weights_before(k as int, old_in as int, old_out as int, new_out as int);
        assert(old_weights_before(k + 1, old_in as int, old_out as int, new_out as int) == a + if in_old_layer(
            k as int,
            old_in as int,
            old_out as int,
            new_out as int,
        ) {
            1int
        } else {
            0int
        });
        if i < old_in && j < old_out && p1 < len1 {
            r.push(WeightSource::First(p1));
            p1 = p1 + 1;
        } else if p2 < len2 {
            r.push(WeightSource::Second(p2));
            p2 = p2 + 1;
        } else {
            r.push(WeightSource::Drawn);
        }
        k = k + 1;
    }
    r
}

/// The sources of the `new_out` biases of a crossed layer whose parents have
/// `biases1` and `biases2` biases.
pub fn crossover_bias_sources(biases1: usize, biases2: usize, new_out: usize) -> (r: Vec<WeightSource>)
    ensures
        r@.len() == new_out,
        forall|o: int| 0 <= o < new_out ==> r@[o] == crossover_bias_source(o, biases1 as int, biases2 as int),
{
    let mut r: Vec<WeightSource> = Vec::new();
    let mut o: usize = 0;
    while o < new_out
        invariant
            o <= new_out,
            r@.len() == o,
            forall|q: int| 0 <= q < o ==> r@[q] == crossover_bias_source(q, biases1 as int, biases2 as int),
        decreases new_out - o,
    {
        if o < biases1 {
            r.push(WeightSource::First(o));
        } else if o - biases1 < biases2 {
            r.push(WeightSource::Second(o - biases1));
        } else {
            r.push(WeightSource::Drawn);
        }
        o = o + 1;
    }
    r
}

/// The sources of the weights of a layer resized from `old_in` inputs and
/// `old_out` outputs to `new_in` inputs and `new_out` outputs.
pub fn resized_weight_sources(old_in: usize, old_out: usize, new_in: usize, new_out: usize) -> (r: Vec<WeightSource>)
    requires
        new_in * new_out <= usize::MAX,
    ensures
        r@.len() == new_in * new_out,
        forall|k: int|
            0 <= k < r@.len() ==> r@[k] == resized_weight_source(k, old_in as int, old_out as int, new_out as int),
        forall|k: int|
            0 <= k < r@.len() && (#[trigger] r@[k]) is First ==> r@[k]->First_0 == count_first(r@.take(k))
                && r@[k]->First_0 < old_in * old_out,
{
    let mut r: Vec<WeightSource> = Vec::new();
    if new_out == 0 {
        assert(new_in * new_out == 0) by (nonlinear_arith)
            requires new_out == 0;
        return r;
    }
    let total: usize = new_in * new_out;
    let mut taken: usize = 0;
    let mut k: usize = 0;
    while k < total
        invariant
            new_out > 0,
            total == new_in * new_out,
            k <= total,
            r@.len() == k,
            taken as int == old_weights_before(k as int, old_in as int, old_out as int, new_out as int),
            taken <= k,
            forall|q: int|
                0 <= q < k ==> r@[q] == resized_weight_source(q, old_in as int, old_out as int, new_out as int),
        decreases total - k,
    {
        let i = k / new_out;
        let j = k % new_out;
        assert(old_weights_before(k + 1, old_in as int, old_out as int, new_out as int)
            == old_weights_before(k as int, old_in as int, old_out as int, new_out as int) + if in_old_layer(
            k as int,
            old_in as int,
            old_out as int,
            new_out as int,
        ) {
            1int
        } else {
            0int
        });
        if i < old_in && j < old_out {
            r.push(WeightSource::First(taken));
            taken = taken + 1;
        } else {
            r.push(WeightSource::Drawn);
        }
        k = k + 1;
    }
    proof {
        assert forall|q: int| 0 <= q < r@.len() && (#[trigger] r@[q]) is First implies r@[q]->First_0 == count_first(
            r@.take(q),
        ) && r@[q]->First_0 < old_in * old_out by {
            lemma_resized_weights_in_order(q, old_in as int, old_out as int, new_out as int);
            assert(r@.take(q) =~= resized_prefix(q, old_in as int, old_out as int, new_out as int));
        }
    }
    r
}

/// The sources of the biases of a resized layer: all the old layer's `biases`,
/// then drawn ones until there are `new_out`.
pub fn resized_bias_sources(biases: usize, new_out: usize) -> (r: Vec<WeightSource>)
    ensures
        r@.len() == (if biases < new_out { new_out } else { biases }),
        forall|o: int| 0 <= o < r@.len() ==> r@[o] == (if o < biases { WeightSource::First(o as usize) } else { WeightSource::Drawn }),
{
    let mut r: Vec<WeightSource> = Vec::new();
    let mut o: usize = 0;
    while o < biases
        invariant
            o <= biases,
            r@.len() == o,
            forall|q: int| 0 <= q < o ==> r@[q] == WeightSource::First(q as usize),
        decreases biases - o,
    {
        r.push(WeightSource::First(o));
        o = o + 1;
    }
    while r.len() < new_out
        invariant
            biases <= r@.len(),
            r@.len() <= (if biases < new_out { new_out } else { biases }),
            forall|q: int| 0 <= q < r@.len() ==> r@[q] == (if q < biases { WeightSource::First(q as usize) } else { WeightSource::Drawn }),
        decreases new_out - r@.len(),
    {
        r.push(WeightSource::Drawn);
    }
    r
}

} // verus!
