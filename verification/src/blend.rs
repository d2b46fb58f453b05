//! N-ary blending: layer bookkeeping, weight normalisation and the per-joint
//! traversal that feeds a mixing kernel.

use vstd::prelude::*;
use crate::skeleton::Skeleton;
use crate::weight::{lemma_share_bounded, lemma_share_of_whole, lemma_share_scale_invariant, share, spec_share, WEIGHT_ONE};

verus! {

/// One input of a blend: the buffer it reads, the number of joints that
/// the buffer holds, and its weight.
#[derive(Clone, Copy, Debug, PartialEq, Eq, Structural)]
pub struct BlendLayer {
    pub input: usize,
    pub joint_count: usize,
    pub weight: u32,
}

/// Why a blend cannot be done.
#[derive(Clone, Copy, Debug, PartialEq, Eq, Structural)]
pub enum BlendError {
    /// The node has no output.
    NoOutput,
    /// There is no layer to blend.
    NoLayers,
    /// A layer, or the output, does not hold the joints of the skeleton.
    JointCountMismatch,
}

/// What a blend node asks of the host for one frame.
#[derive(Debug)]
pub struct BlendJob {
    /// The buffer read by each layer, in layer order.
    pub inputs: Vec<usize>,
    /// The normalised weight of each layer, in units of 1/65536.
    pub shares: Vec<u32>,
    /// Whether all weights are 0, so that layer 0 is copied as it is.
    pub pass_through: bool,
    /// The buffer written.
    pub output: usize,
}

/// A node that combines the poses of its layers into one pose.
///
/// Weights are relative: only their proportions matter. A new layer starts
/// with the weight 1.
pub struct BlendNode {
    pub joint_count: usize,
    pub layers: Vec<BlendLayer>,
    pub output: Option<usize>,
    pub output_joint_count: usize,
}

/// The sum of `weights`.
pub open spec fn total_weight(weights: Seq<u32>) -> nat
    decreases weights.len(),
{
    if weights.len() == 0 {
        0
    } else {
        total_weight(weights.drop_last()) + weights.last() as nat
    }
}

/// The normalised weight of each layer. Each is the layer's share in the
/// sum of all weights; where that sum is 0, layer 0 counts in full and the
/// others not at all.
pub open spec fn spec_shares(weights: Seq<u32>) -> Seq<u32> {
    Seq::new(
        weights.len(),
        |i: int|
            if total_weight(weights) == 0 {
                if i == 0 {
                    65536u32
                } else {
                    0u32
                }
            } else {
                spec_share(weights[i] as nat, total_weight(weights)) as u32
            },
    )
}

/// The weights of `layers`, in layer order.
pub open spec fn layer_weights(layers: Seq<BlendLayer>) -> Seq<u32> {
    Seq::new(layers.len(), |i: int| layers[i].weight)
}

/// The buffers of `layers`, in layer order.
pub open spec fn layer_inputs(layers: Seq<BlendLayer>) -> Seq<usize> {
    Seq::new(layers.len(), |i: int| layers[i].input)
}

/// `weights` with every weight multiplied by `factor`, as numbers.
pub open spec fn scaled_by(weights: Seq<u32>, scaled: Seq<u32>, factor: nat) -> bool {
    &&& scaled.len() == weights.len()
    &&& forall|i: int| 0 <= i < weights.len() ==> #[trigger] scaled[i] == factor * weights[i]
}

/// No weight exceeds the sum of all weights.
pub proof fn lemma_weight_within_total(weights: Seq<u32>, i: int)
    requires
        0 <= i < weights.len(),
    ensures
        weights[i] <= total_weight(weights),
    decreases weights.len(),
{
    if i < weights.len() - 1 {
        lemma_weight_within_total(weights.drop_last(), i);
    }
}

/// The sum of a prefix grows by the next weight.
pub proof fn lemma_total_weight_step(weights: Seq<u32>, n: int)
    requires
        0 <= n < weights.len(),
    ensures
        total_weight(weights.take(n + 1)) == total_weight(weights.take(n)) + weights[n],
{
    assert(weights.take(n + 1).drop_last() =~= weights.take(n));
}

/// Scaling every weight scales the sum.
pub proof fn lemma_total_weight_scales(weights: Seq<u32>, scaled: Seq<u32>, factor: nat)
    requires
        scaled_by(weights, scaled, factor),
    ensures
        total_weight(scaled) == factor * total_weight(weights),
    decreases weights.len(),
{
    if weights.len() == 0 {
        assert(factor * 0 == 0) by (nonlinear_arith);
    } else {
        lemma_total_weight_scales(weights.drop_last(), scaled.drop_last(), factor);
        let rest = total_weight(weights.drop_last());
        let last = weights.last() as nat;
        assert(factor * (rest + last) == factor * rest + factor * last) by (nonlinear_arith);
    }
}

/// Normalisation is scale invariant: multiplying every weight by the same
/// positive factor leaves every normalised weight as it was.
pub proof fn lemma_shares_scale_invariant(weights: Seq<u32>, scaled: Seq<u32>, factor: nat)
    requires
        factor > 0,
        scaled_by(weights, scaled, factor),
    ensures
        spec_shares(scaled) == spec_shares(weights),
{
    lemma_total_weight_scales(weights, scaled, factor);
    let total = total_weight(weights);
    if total == 0 {
        assert(factor * total == 0) by (nonlinear_arith)
            requires
                total == 0,
        ;
    } else {
        assert(factor * total > 0) by (nonlinear_arith)
            requires
                factor > 0,
                total > 0,
        ;
    }
    assert forall|i: int| 0 <= i < weights.len() implies spec_shares(scaled)[i] == spec_shares(
        weights,
    )[i] by {
        lemma_share_scale_invariant(weights[i] as nat, total, factor);
    }
    assert(spec_shares(scaled) =~= spec_shares(weights));
}

/// A single layer with a positive weight has the normalised weight 1.
pub proof fn lemma_single_layer_share(weight: u32)
    requires
        weight > 0,
    ensures
        spec_shares(seq![weight]) == seq![65536u32],
{
    let w = seq![weight];
    assert(w.drop_last() =~= Seq::<u32>::empty());
    assert(total_weight(w) == weight) by {
        reveal_with_fuel(total_weight, 2);
    }
    lemma_share_of_whole(weight as nat);
    assert(spec_shares(w) =~= seq![65536u32]);
}

/// No normalised weight exceeds 1.
pub proof fn lemma_shares_bounded(weights: Seq<u32>, i: int)
    requires
        0 <= i < weights.len(),
    ensures
        spec_shares(weights)[i] <= 65536,
        total_weight(weights) > 0 ==> spec_shares(weights)[i] == spec_share(
            weights[i] as nat,
            total_weight(weights),
        ),
{
    lemma_weight_within_total(weights, i);
    lemma_share_bounded(weights[i] as nat, total_weight(weights));
}

/// What the remainders of the first `k` shares add up to.
pub open spec fn remainder_sum(weights: Seq<u32>, total: nat, k: nat) -> nat
    decreases k,
{
    if k == 0 {
        0
    } else {
        remainder_sum(weights, total, (k - 1) as nat) + ((weights[k - 1] * 65536) % (
        total as int)) as nat
    }
}

/// Over any number of leading layers, the weights times 1 are the shares
/// times the total plus the remainders, and each remainder is less than the
/// total.
proof fn lemma_shares_prefix(weights: Seq<u32>, k: nat)
    requires
        total_weight(weights) > 0,
        k <= weights.len(),
    ensures
        65536 * total_weight(weights.take(k as int)) == total_weight(weights) * total_weight(
            spec_shares(weights).take(k as int),
        ) + remainder_sum(weights, total_weight(weights), k),
        remainder_sum(weights, total_weight(weights), k) <= k * (total_weight(weights) - 1),
    decreases k,
{
    let total = total_weight(weights);
    let shares = spec_shares(weights);
    if k == 0 {
        assert(weights.take(0) =~= Seq::<u32>::empty());
        assert(shares.take(0) =~= Seq::<u32>::empty());
        assert(total * 0 == 0) by (nonlinear_arith);
        assert(0 * (total - 1) == 0) by (nonlinear_arith);
    } else {
        let j = (k - 1) as nat;
        lemma_shares_prefix(weights, j);
        lemma_total_weight_step(weights, j as int);
        lemma_total_weight_step(shares, j as int);
        lemma_shares_bounded(weights, j as int);
        let w = weights[j as int] as int;
        let s = shares[j as int] as int;
        let r = (w * 65536) % (total as int);
        vstd::arithmetic::div_mod::lemma_fundamental_div_mod(w * 65536, total as int);
        vstd::arithmetic::div_mod::lemma_mod_bound(w * 65536, total as int);
        assert(s == (w * 65536) / (total as int));
        let p = total_weight(weights.take(j as int)) as int;
        let q = total_weight(shares.take(j as int)) as int;
        let rest = remainder_sum(weights, total, j) as int;
        assert(65536 * (p + w) == total * (q + s) + (rest + r)) by (nonlinear_arith)
            requires
                65536 * p == total * q + rest,
                w * 65536 == total * s + r,
        ;
        assert(rest + r <= k * (total - 1)) by (nonlinear_arith)
            requires
                rest <= j * (total - 1),
                r <= total - 1,
                k == j + 1,
        ;
        assert(weights.take(k as int) =~= weights.take(j as int + 1));
        assert(shares.take(k as int) =~= shares.take(j as int + 1));
        assert(total_weight(weights.take(k as int)) == p + w);
        assert(total_weight(shares.take(k as int)) == q + s);
        assert(remainder_sum(weights, total, k) == rest + r);
    }
}

/// With all weights 0, the shares of any leading layers add up to 1.
proof fn lemma_fallback_prefix(weights: Seq<u32>, k: nat)
    requires
        total_weight(weights) == 0,
        1 <= k <= weights.len(),
    ensures
        total_weight(spec_shares(weights).take(k as int)) == 65536,
    decreases k,
{
    let shares = spec_shares(weights);
    lemma_total_weight_step(shares, k - 1);
    if k == 1 {
        assert(shares.take(0) =~= Seq::<u32>::empty());
    } else {
        lemma_fallback_prefix(weights, (k - 1) as nat);
    }
}

/// The normalised weights of at least one layer add up to 1, less what
/// rounding down takes: less than one unit of 1/65536 per layer.
pub proof fn lemma_shares_sum(weights: Seq<u32>)
    requires
        weights.len() > 0,
    ensures
        total_weight(spec_shares(weights)) <= 65536,
        total_weight(spec_shares(weights)) + weights.len() > 65536,
        total_weight(weights) == 0 ==> total_weight(spec_shares(weights)) == 65536,
{
    let total = total_weight(weights) as int;
    let shares = spec_shares(weights);
    let n = weights.len();
    assert(weights.take(n as int) =~= weights);
    assert(shares.take(n as int) =~= shares);
    if total == 0 {
        lemma_fallback_prefix(weights, n);
    } else {
        lemma_shares_prefix(weights, n);
        let sum = total_weight(shares) as int;
        let rest = remainder_sum(weights, total as nat, n) as int;
        assert(sum <= 65536 && sum + n > 65536) by (nonlinear_arith)
            requires
                65536 * total == total * sum + rest,
                0 <= rest <= n * (total - 1),
                total > 0,
                n > 0,
        ;
    }
}

/// Sums `weights`.
pub fn sum_weights(weights: &Vec<u32>) -> (total: u128)
    ensures
        total == total_weight(weights@),
{
    let mut total: u128 = 0;
    let mut i: usize = 0;
    while i < weights.len()
        invariant
            i <= weights.len(),
            total == total_weight(weights@.take(i as int)),
            total <= i * 4294967295,
        decreases weights.len() - i,
    {
        proof {
            lemma_total_weight_step(weights@, i as int);
        }
        total = total + weights[i] as u128;
        i += 1;
    }
    proof {
        assert(weights@.take(i as int) =~= weights@);
    }
    total
}

/// Normalises `weights`.
pub fn shares(weights: &Vec<u32>) -> (r: Vec<u32>)
    ensures
        r@ == spec_shares(weights@),
{
    let total: u128 = sum_weights(weights);
    let mut r: Vec<u32> = Vec::new();
    let mut i: usize = 0;
    while i < weights.len()
        invariant
            i <= weights.len(),
            total == total_weight(weights@),
            r@ == spec_shares(weights@).take(i as int),
        decreases weights.len() - i,
    {
        proof {
            lemma_weight_within_total(weights@, i as int);
            lemma_shares_bounded(weights@, i as int);
        }
        let s: u32 = if total == 0 {
            if i == 0 {
                WEIGHT_ONE
            } else {
                0
            }
        } else {
            share(weights[i], total)
        };
        r.push(s);
        proof {
            assert(r@ =~= spec_shares(weights@).take(i + 1));
        }
        i += 1;
    }
    proof {
        assert(r@ =~= spec_shares(weights@));
    }
    r
}

/// Whether every layer holds `joint_count` joints.
pub open spec fn layers_fit(layers: Seq<BlendLayer>, joint_count: usize) -> bool {
    forall|i: int| 0 <= i < layers.len() ==> (#[trigger] layers[i]).joint_count == joint_count
}

impl BlendNode {
    /// Why the node cannot blend, if it cannot: it has no output, it has
    /// no layer, or a layer or the output does not hold as many joints as
    /// the skeleton has.
    pub open spec fn refusal(self) -> Option<BlendError> {
        if self.output is None {
            Some(BlendError::NoOutput)
        } else if self.layers@.len() == 0 {
            Some(BlendError::NoLayers)
        } else if self.output_joint_count != self.joint_count || !layers_fit(
            self.layers@,
            self.joint_count,
        ) {
            Some(BlendError::JointCountMismatch)
        } else {
            None
        }
    }

    /// Creates a blend node for the joints of `skeleton`, without layers
    /// and without an output.
    pub fn new(skeleton: &Skeleton) -> (node: Self)
        ensures
            node.joint_count == skeleton.spec_joint_count(),
            node.layers@.len() == 0,
            node.output is None,
            node.output_joint_count == 0,
    {
        BlendNode {
            joint_count: skeleton.joint_count(),
            layers: Vec::new(),
            output: None,
            output_joint_count: 0,
        }
    }

    /// Adds a layer that reads the buffer `input` of `joint_count` joints,
    /// with the weight 1, and returns the layer's index.
    pub fn set_input(&mut self, input: usize, joint_count: usize) -> (layer: usize)
        ensures
            layer == old(self).layers@.len(),
            final(self).layers@ == old(self).layers@.push(
                (BlendLayer { input, joint_count, weight: WEIGHT_ONE }),
            ),
            final(self).output == old(self).output,
            final(self).output_joint_count == old(self).output_joint_count,
            final(self).joint_count == old(self).joint_count,
    {
        self.layers.push(BlendLayer { input, joint_count, weight: WEIGHT_ONE });
        self.layers.len() - 1
    }

    /// Sets the buffer that the blend writes, a buffer of `joint_count`
    /// joints.
    pub fn set_output(&mut self, output: usize, joint_count: usize)
        ensures
            final(self).output == Some(output),
            final(self).output_joint_count == joint_count,
            final(self).layers == old(self).layers,
            final(self).joint_count == old(self).joint_count,
    {
        self.output = Some(output);
        self.output_joint_count = joint_count;
    }

    /// Sets the weight of `layer`. Without such a layer nothing changes and
    /// the result is `false`.
    pub fn set_weight(&mut self, layer: usize, weight: u32) -> (done: bool)
        ensures
            done == (layer < old(self).layers@.len()),
            done ==> final(self).layers@ == old(self).layers@.update(
                layer as int,
                (BlendLayer { weight, ..old(self).layers@[layer as int] }),
            ),
            !done ==> final(self).layers@ == old(self).layers@,
            final(self).output == old(self).output,
            final(self).output_joint_count == old(self).output_joint_count,
            final(self).joint_count == old(self).joint_count,
    {
        if layer < self.layers.len() {
            let before: BlendLayer = self.layers[layer];
            self.layers.set(
                layer,
                BlendLayer { input: before.input, joint_count: before.joint_count, weight },
            );
            true
        } else {
            false
        }
    }

    /// Works out this frame's blend: every layer's buffer and normalised
    /// weight. The blend is refused when the node has no output or no
    /// layer, and when a layer or the output holds another number of
    /// joints than the skeleton.
    pub fn update(&self) -> (job: Result<BlendJob, BlendError>)
        ensures
            match self.refusal() {
                Some(why) => job == Err::<BlendJob, BlendError>(why),
                None => job matches Ok(j) && {
                    &&& Some(j.output) == self.output
                    &&& j.inputs@ == layer_inputs(self.layers@)
                    &&& j.shares@ == spec_shares(layer_weights(self.layers@))
                    &&& j.pass_through == (total_weight(layer_weights(self.layers@)) == 0)
                    &&& total_weight(j.shares@) <= 65536
                    &&& total_weight(j.shares@) + j.shares@.len() > 65536
                },
            },
    {
        let output: usize = match self.output {
            Some(o) => o,
            None => {
                return Err(BlendError::NoOutput);
            },
        };
        if self.layers.len() == 0 {
            return Err(BlendError::NoLayers);
        }
        if self.output_joint_count != self.joint_count {
            return Err(BlendError::JointCountMismatch);
        }
        let mut inputs: Vec<usize> = Vec::new();
        let mut weights: Vec<u32> = Vec::new();
        let mut i: usize = 0;
        while i < self.layers.len()
            invariant
                i <= self.layers.len(),
                self.output == Some(output),
                self.output_joint_count == self.joint_count,
                layers_fit(self.layers@.take(i as int), self.joint_count),
                inputs@ == layer_inputs(self.layers@).take(i as int),
                weights@ == layer_weights(self.layers@).take(i as int),
            decreases self.layers.len() - i,
        {
            let layer: BlendLayer = self.layers[i];
            if layer.joint_count != self.joint_count {
                assert(self.layers@[i as int].joint_count != self.joint_count);
                return Err(BlendError::JointCountMismatch);
            }
            inputs.push(layer.input);
            weights.push(layer.weight);
            proof {
                assert(inputs@ =~= layer_inputs(self.layers@).take(i + 1));
                assert(weights@ =~= layer_weights(self.layers@).take(i + 1));
                assert forall|k: int| 0 <= k < i + 1 implies (#[trigger] self.layers@.take(
                    i + 1,
                )[k]).joint_count == self.joint_count by {
                    if k < i {
                        assert(self.layers@.take(i as int)[k] == self.layers@[k]);
                    }
                }
            }
            i += 1;
        }
        proof {
            assert(self.layers@.take(i as int) =~= self.layers@);
            assert(inputs@ =~= layer_inputs(self.layers@));
            assert(weights@ =~= layer_weights(self.layers@));
            lemma_shares_sum(weights@);
        }
        let total: u128 = sum_weights(&weights);
        let normalised: Vec<u32> = shares(&weights);
        Ok(BlendJob { inputs, shares: normalised, pass_through: total == 0, output })
    }
}

/// One input of [`blend`]: a pose, one transform per joint, and its weight.
pub struct PoseLayer<T> {
    pub transforms: Vec<T>,
    pub weight: u32,
}

/// The weights of `layers`, in layer order.
pub open spec fn pose_weights<T>(layers: Seq<PoseLayer<T>>) -> Seq<u32> {
    Seq::new(layers.len(), |i: int| layers[i].weight)
}

/// Whether every layer has `joint_count` transforms.
pub open spec fn poses_fit<T>(layers: Seq<PoseLayer<T>>, joint_count: nat) -> bool {
    forall|i: int| 0 <= i < layers.len() ==> (#[trigger] layers[i]).transforms@.len() == joint_count
}

/// Why `layers` cannot be blended for a skeleton of `joint_count` joints,
/// if they cannot: there is none, or one of them holds another number of
/// transforms.
pub open spec fn blend_refusal<T>(layers: Seq<PoseLayer<T>>, joint_count: nat) -> Option<BlendError> {
    if layers.len() == 0 {
        Some(BlendError::NoLayers)
    } else if !poses_fit(layers, joint_count) {
        Some(BlendError::JointCountMismatch)
    } else {
        None
    }
}

/// What the mixing kernel is given for `joint`: the joint's transform in
/// each layer beside that layer's normalised weight, in layer order.
pub open spec fn joint_column<T>(layers: Seq<PoseLayer<T>>, joint: int) -> Seq<(T, u32)> {
    Seq::new(
        layers.len(),
        |i: int| (layers[i].transforms@[joint], spec_shares(pose_weights(layers))[i]),
    )
}

/// Whether `r` is a transform that `mix` may return for `column`.
pub open spec fn mixed<T, K: Fn(&Vec<(T, u32)>) -> T>(mix: K, column: Seq<(T, u32)>, r: T) -> bool {
    exists|c: Vec<(T, u32)>| c@ == column && mix.ensures((&c,), r)
}

/// Whether `out` is a blend of `layers` under `mix`: with all weights 0 it
/// is the pose of layer 0 as it stands, and otherwise each joint is what
/// `mix` makes of that joint's column.
pub open spec fn blend_of<T, K: Fn(&Vec<(T, u32)>) -> T>(
    layers: Seq<PoseLayer<T>>,
    mix: K,
    out: Seq<T>,
) -> bool {
    &&& out.len() == layers[0].transforms@.len()
    &&& total_weight(pose_weights(layers)) == 0 ==> out == layers[0].transforms@
    &&& total_weight(pose_weights(layers)) > 0 ==> forall|j: int|
        0 <= j < out.len() ==> mixed(mix, joint_column(layers, j), #[trigger] out[j])
}

/// Blends the poses of `layers`, each of `joint_count` joints, joint by
/// joint.
///
/// The weights are normalised by their sum. Each joint of the result is
/// what `mix` returns for the joint's transforms and normalised weights in
/// layer order. When all weights are 0 the pose of layer 0 is returned
/// unchanged and `mix` is not called. Nothing is blended when there is no
/// layer or a layer does not hold `joint_count` transforms.
pub fn blend<T: Copy, K: Fn(&Vec<(T, u32)>) -> T>(
    joint_count: usize,
    layers: &Vec<PoseLayer<T>>,
    mix: K,
) -> (r: Result<Vec<T>, BlendError>)
    requires
        forall|c: &Vec<(T, u32)>| c@.len() == layers@.len() ==> mix.requires((c,)),
    ensures
        match blend_refusal(layers@, joint_count as nat) {
            Some(why) => r == Err::<Vec<T>, BlendError>(why),
            None => r matches Ok(out) && out@.len() == joint_count && blend_of(layers@, mix, out@),
        },
{
    let layer_count: usize = layers.len();
    if layer_count == 0 {
        return Err(BlendError::NoLayers);
    }
    let mut weights: Vec<u32> = Vec::new();
    let mut i: usize = 0;
    while i < layer_count
        invariant
            i <= layer_count,
            layer_count > 0,
            layer_count == layers@.len(),
            poses_fit(layers@.take(i as int), joint_count as nat),
            weights@ == pose_weights(layers@).take(i as int),
        decreases layer_count - i,
    {
        if layers[i].transforms.len() != joint_count {
            assert(layers@[i as int].transforms@.len() != joint_count);
            return Err(BlendError::JointCountMismatch);
        }
        weights.push(layers[i].weight);
        proof {
            assert(weights@ =~= pose_weights(layers@).take(i + 1));
            assert forall|k: int| 0 <= k < i + 1 implies (#[trigger] layers@.take(
                i + 1,
            )[k]).transforms@.len() == joint_count by {
                if k < i {
                    assert(layers@.take(i as int)[k] == layers@[k]);
                }
            }
        }
        i += 1;
    }
    proof {
        assert(layers@.take(i as int) =~= layers@);
        assert(weights@ =~= pose_weights(layers@));
    }
    let total: u128 = sum_weights(&weights);
    let normalised: Vec<u32> = shares(&weights);
    let mut out: Vec<T> = Vec::new();
    let mut j: usize = 0;
    if total == 0 {
        while j < joint_count
            invariant
                j <= joint_count,
                layers@.len() > 0,
                joint_count == layers@[0].transforms@.len(),
                out@ == layers@[0].transforms@.take(j as int),
            decreases joint_count - j,
        {
            out.push(layers[0].transforms[j]);
            proof {
                assert(out@ =~= layers@[0].transforms@.take(j + 1));
            }
            j += 1;
        }
        proof {
            assert(out@ =~= layers@[0].transforms@);
        }
        return Ok(out);
    }
    while j < joint_count
        invariant
            j <= joint_count,
            layer_count == layers@.len(),
            layer_count > 0,
            poses_fit(layers@, joint_count as nat),
            normalised@ == spec_shares(pose_weights(layers@)),
            forall|c: &Vec<(T, u32)>| c@.len() == layers@.len() ==> mix.requires((c,)),
            out@.len() == j,
            forall|k: int| 0 <= k < j ==> mixed(mix, joint_column(layers@, k), #[trigger] out@[k]),
        decreases joint_count - j,
    {
        let mut column: Vec<(T, u32)> = Vec::new();
        let mut l: usize = 0;
        while l < layer_count
            invariant
                l <= layer_count,
                j < joint_count,
                layer_count == layers@.len(),
                poses_fit(layers@, joint_count as nat),
                normalised@ == spec_shares(pose_weights(layers@)),
                column@ == joint_column(layers@, j as int).take(l as int),
            decreases layer_count - l,
        {
            column.push((layers[l].transforms[j], normalised[l]));
            proof {
                assert(column@ =~= joint_column(layers@, j as int).take(l + 1));
            }
            l += 1;
        }
        proof {
            assert(column@ =~= joint_column(layers@, j as int));
        }
        let r: T = mix(&column);
        out.push(r);
        j += 1;
    }
    Ok(out)
}

/// Blending is scale invariant: when two lists of layers hold the same
/// poses and the weights of one are those of the other multiplied by one
/// positive factor, every blend of one is a blend of the other.
pub proof fn lemma_blend_scale_invariant<T, K: Fn(&Vec<(T, u32)>) -> T>(
    layers: Seq<PoseLayer<T>>,
    scaled: Seq<PoseLayer<T>>,
    factor: nat,
    mix: K,
    out: Seq<T>,
)
    requires
        factor > 0,
        layers.len() > 0,
        scaled.len() == layers.len(),
        forall|i: int| 0 <= i < layers.len() ==> scaled[i].transforms == layers[i].transforms,
        scaled_by(pose_weights(layers), pose_weights(scaled), factor),
    ensures
        blend_of(scaled, mix, out) <==> blend_of(layers, mix, out),
{
    lemma_total_weight_scales(pose_weights(layers), pose_weights(scaled), factor);
    lemma_shares_scale_invariant(pose_weights(layers), pose_weights(scaled), factor);
    let total = total_weight(pose_weights(layers));
    if total == 0 {
        assert(factor * total == 0) by (nonlinear_arith)
            requires
                total == 0,
        ;
    } else {
        assert(factor * total > 0) by (nonlinear_arith)
            requires
                factor > 0,
                total > 0,
        ;
    }
    assert forall|j: int| joint_column(scaled, j) == joint_column(layers, j) by {
        assert(joint_column(scaled, j) =~= joint_column(layers, j));
    }
}

/// Blending a single layer of positive weight hands the kernel each joint
/// at the weight 1, so a kernel that keeps a transform of weight 1 as it is
/// reproduces the layer exactly.
pub proof fn lemma_blend_single_layer<T, K: Fn(&Vec<(T, u32)>) -> T>(
    layer: PoseLayer<T>,
    mix: K,
    out: Seq<T>,
)
    requires
        layer.weight > 0,
        blend_of(seq![layer], mix, out),
        forall|c: &Vec<(T, u32)>, r: T|
            c@.len() == 1 && c@[0].1 == 65536 && #[trigger] mix.ensures((c,), r) ==> r == c@[0].0,
    ensures
        out == layer.transforms@,
{
    let layers = seq![layer];
    assert(pose_weights(layers) =~= seq![layer.weight]);
    lemma_single_layer_share(layer.weight);
    lemma_weight_within_total(pose_weights(layers), 0);
    assert forall|j: int| 0 <= j < out.len() implies out[j] == layer.transforms@[j] by {
        assert(mixed(mix, joint_column(layers, j), out[j]));
        let c = choose|c: Vec<(T, u32)>|
            c@ == joint_column(layers, j) && mix.ensures((&c,), out[j]);
        assert(c@[0] == joint_column(layers, j)[0]);
    }
    assert(out =~= layer.transforms@);
}

} // verus!
