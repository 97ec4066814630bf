//! The iterated complex-valued field model: a residual network whose layers
//! are triples of complex weights `(linear, bias, threshold)`.
//!
//! One layer maps the running value `v` to `v + residual`, where
//! `residual = v*linear + bias` is zeroed when its squared magnitude falls
//! strictly below the threshold's (the dead-zone gate), and otherwise has its
//! magnitude replaced by its own square while its phase is rotated by the
//! threshold's phase. In exact arithmetic that nonlinearity is
//! `residual * threshold * sqrt(|residual|^2 / |threshold|^2)`, with the
//! square root taken as a floor square root in the result's denominator grid.
//!
//! Evaluation is a pure function: the contract of `eval` pins the result to
//! the spec-level `eval_model` of the weights and the input alone.

use vstd::prelude::*;

use crate::complex::{
    Cx, CxG, cx_wf, cx_plus, cx_plus_fits, cx_times, cx_times_fits, cx_scale, cx_scale_fits,
    cx_norm_sq, cx_norm_sq_fits,
};
use crate::rational::{
    Rat, rat_lt, rat_le, rat_eqv, rat_zero, rat_one, rat_sqrt, rat_div, rat_fits, rat_wf,
};

verus! {

/// Ghost image of one layer.
pub struct LayerG {
    pub linear: CxG,
    pub bias: CxG,
    pub threshold: CxG,
}

/// One layer of the residual network: a triple of complex weights.
#[derive(Clone, Copy, PartialEq, Eq, Structural, Debug)]
pub struct Layer {
    pub linear: Cx,
    pub bias: Cx,
    pub threshold: Cx,
}

impl View for Layer {
    type V = LayerG;

    open spec fn view(&self) -> LayerG {
        LayerG { linear: self.linear@, bias: self.bias@, threshold: self.threshold@ }
    }
}

/// All three weights are well-formed.
pub open spec fn layer_wf(l: Layer) -> bool {
    cx_wf(l.linear) && cx_wf(l.bias) && cx_wf(l.threshold)
}

/// The affine image of the running value under a layer.
pub open spec fn layer_affine(v: CxG, l: LayerG) -> CxG {
    cx_plus(cx_times(v, l.linear), l.bias)
}

/// The nonlinear residual for an affine image `r` that escaped the dead zone
/// of threshold `t`: magnitude `|r|^2`, phase rotated by the phase of `t`,
/// i.e. `r * t * sqrt(|r|^2 / |t|^2)` (floor square root). A zero threshold
/// rotates by nothing: `r * sqrt(|r|^2)`. `None` when an intermediate
/// fraction leaves the bounded range.
pub open spec fn layer_residual(r: CxG, t: CxG) -> Option<CxG> {
    let nsr = cx_norm_sq(r);
    let nst = cx_norm_sq(t);
    if rat_eqv(nst, rat_zero()) {
        let s = rat_sqrt(nsr);
        if cx_scale_fits(r, s) {
            Some(cx_scale(r, s))
        } else {
            None
        }
    } else {
        if !rat_fits(rat_div(nsr, nst)) {
            None
        } else {
            let s = rat_sqrt(rat_div(nsr, nst));
            if !cx_times_fits(r, t) {
                None
            } else {
                let rt = cx_times(r, t);
                if cx_scale_fits(rt, s) {
                    Some(cx_scale(rt, s))
                } else {
                    None
                }
            }
        }
    }
}

/// One full layer step: affine transform, dead-zone gate, nonlinearity,
/// residual accumulation. `Some(v)` unchanged in the dead zone; `None` when
/// an intermediate fraction leaves the bounded range.
pub open spec fn layer_step(v: CxG, l: LayerG) -> Option<CxG> {
    if !cx_times_fits(v, l.linear) {
        None
    } else {
        let a = cx_times(v, l.linear);
        if !cx_plus_fits(a, l.bias) {
            None
        } else {
            let r = cx_plus(a, l.bias);
            if !cx_norm_sq_fits(r) {
                None
            } else {
                let nsr = cx_norm_sq(r);
                if !cx_norm_sq_fits(l.threshold) {
                    None
                } else {
                    let nst = cx_norm_sq(l.threshold);
                    if rat_lt(nsr, nst) {
                        Some(v)
                    } else {
                        match layer_residual(r, l.threshold) {
                            Some(resid) => if cx_plus_fits(v, resid) {
                                Some(cx_plus(v, resid))
                            } else {
                                None
                            },
                            None => None,
                        }
                    }
                }
            }
        }
    }
}

/// The whole model: layers applied in order, front to back.
pub open spec fn eval_model(layers: Seq<LayerG>, v: CxG) -> Option<CxG>
    decreases layers.len(),
{
    if layers.len() == 0 {
        Some(v)
    } else {
        match layer_step(v, layers[0]) {
            Some(v2) => eval_model(layers.drop_first(), v2),
            None => None,
        }
    }
}

/// Ghost image of a weight vector.
pub open spec fn layers_view(w: Seq<Layer>) -> Seq<LayerG> {
    Seq::new(w.len(), |i: int| w[i]@)
}

/// Dead-zone law: whenever the affine image of `v` under the layer has
/// squared magnitude strictly below the threshold's, the layer contributes a
/// zero residual and leaves the value unchanged, whatever `v` is.
pub proof fn lemma_dead_zone(v: CxG, l: LayerG)
    requires
        cx_times_fits(v, l.linear),
        cx_plus_fits(cx_times(v, l.linear), l.bias),
        cx_norm_sq_fits(layer_affine(v, l)),
        cx_norm_sq_fits(l.threshold),
        rat_lt(cx_norm_sq(layer_affine(v, l)), cx_norm_sq(l.threshold)),
    ensures
        layer_step(v, l) == Some(v),
{
}

/// One exact layer step.
fn layer_apply(value: &Cx, layer: &Layer) -> (r: Option<Cx>)
    requires
        cx_wf(*value),
        layer_wf(*layer),
    ensures
        r is Some <==> layer_step(value@, layer@) is Some,
        r matches Some(c) ==> Some(c@) == layer_step(value@, layer@) && cx_wf(c),
{
    let a = match value.times(&layer.linear) {
        Some(x) => x,
        None => { return None; },
    };
    let base = match a.plus(&layer.bias) {
        Some(x) => x,
        None => { return None; },
    };
    let nsr = match base.norm_sq() {
        Some(x) => x,
        None => { return None; },
    };
    let nst = match layer.threshold.norm_sq() {
        Some(x) => x,
        None => { return None; },
    };
    if nsr.lt(&nst) {
        return Some(*value);
    }
    let resid = if nst.is_zero() {
        let s = nsr.sqrt_approx();
        match base.scale(&s) {
            Some(x) => x,
            None => { return None; },
        }
    } else {
        let q = match nsr.divided(&nst) {
            Some(x) => x,
            None => { return None; },
        };
        proof {
            assert(q@.num >= 0) by (nonlinear_arith)
                requires
                    q@.num == nsr@.num * nst@.den,
                    nsr@.num >= 0,
                    nst@.den > 0,
            ;
        }
        let s = q.sqrt_approx();
        let rt = match base.times(&layer.threshold) {
            Some(x) => x,
            None => { return None; },
        };
        match rt.scale(&s) {
            Some(x) => x,
            None => { return None; },
        }
    };
    value.plus(&resid)
}

/// A residual network: random complex weights defining a scalar field.
pub struct ResNet {
    /// The layers, each a `(linear, bias, threshold)` triple.
    pub weight: Vec<Layer>,
}

/// Every layer's weights are well-formed.
pub open spec fn resnet_wf(m: ResNet) -> bool {
    forall|i: int| 0 <= i < m.weight@.len() ==> layer_wf(#[trigger] m.weight@[i])
}

/// The weight lies on the closed unit disk and its squared magnitude is
/// representable.
pub open spec fn scalar_on_disk(c: Cx) -> bool {
    cx_wf(c) && cx_norm_sq_fits(c@) && rat_le(cx_norm_sq(c@), rat_one())
}

/// All three weights of the layer lie on the closed unit disk.
pub open spec fn layer_on_disk(l: Layer) -> bool {
    scalar_on_disk(l.linear) && scalar_on_disk(l.bias) && scalar_on_disk(l.threshold)
}

/// Relies on `rand::random`, rand's thread-local uniform sampler; nothing is
/// promised of the value drawn.
pub assume_specification<T>[ rand::random::<T> ]() -> (r: T)
    where
        rand::distributions::Standard: rand::distributions::Distribution<T>,
;

/// Draw a random complex scalar on the closed unit disk, by rejection from a
/// square of side two; after too many rejections, fall back to zero (also on
/// the disk). Only disk membership is promised: the draw is random.
pub fn rand_scalar() -> (w: Cx)
    ensures
        scalar_on_disk(w),
{
    let one = Rat::new(1, 1);
    let mut attempts: usize = 0;
    while attempts < 64
        invariant
            one@ == rat_one(),
            rat_wf(one),
        decreases 64 - attempts,
    {
        let bits: u64 = rand::random::<u64>();
        let xb: u64 = bits % 65536;
        let yb: u64 = (bits / 65536) % 65536;
        let x = Rat::new((xb as i64) - 32768, 32768);
        let y = Rat::new((yb as i64) - 32768, 32768);
        let c = Cx::new(x, y);
        match c.norm_sq() {
            Some(n) => {
                if n.le(&one) {
                    return c;
                }
            },
            None => {},
        }
        attempts = attempts + 1;
    }
    Cx::zero()
}

impl ResNet {
    /// Build a model from explicit layers.
    pub fn from_layers(weight: Vec<Layer>) -> (r: ResNet)
        requires
            forall|i: int| 0 <= i < weight@.len() ==> layer_wf(#[trigger] weight@[i]),
        ensures
            r.weight == weight,
            resnet_wf(r),
    {
        ResNet { weight }
    }

    /// Create a residual network with the number of layers provided, each
    /// layer's three weights drawn independently and uniformly from the unit
    /// disk.
    pub fn with_depth(depth: usize) -> (r: ResNet)
        ensures
            r.weight@.len() == depth,
            resnet_wf(r),
            forall|i: int| 0 <= i < depth ==> layer_on_disk(#[trigger] r.weight@[i]),
    {
        let mut weight: Vec<Layer> = Vec::new();
        let mut i: usize = 0;
        while i < depth
            invariant
                i <= depth,
                weight@.len() == i,
                forall|j: int| 0 <= j < i ==> layer_wf(#[trigger] weight@[j]),
                forall|j: int| 0 <= j < i ==> layer_on_disk(#[trigger] weight@[j]),
            decreases depth - i,
        {
            let linear = rand_scalar();
            let bias = rand_scalar();
            let threshold = rand_scalar();
            weight.push(Layer { linear, bias, threshold });
            i = i + 1;
        }
        ResNet { weight }
    }

    /// Evaluate the field at one input. Pure: the result is the spec-level
    /// `eval_model` of the weights and the input, and of nothing else, so two
    /// calls on the same input give the same answer. `None` exactly when an
    /// intermediate fraction leaves the bounded range.
    pub fn eval(&self, value: Cx) -> (r: Option<Cx>)
        requires
            resnet_wf(*self),
            cx_wf(value),
        ensures
            r is Some <==> eval_model(layers_view(self.weight@), value@) is Some,
            r matches Some(c) ==> Some(c@) == eval_model(layers_view(self.weight@), value@)
                && cx_wf(c),
    {
        let ghost full = layers_view(self.weight@);
        let mut cur = value;
        let mut i: usize = 0;
        proof {
            assert(full.skip(0) =~= full);
        }
        while i < self.weight.len()
            invariant
                i <= self.weight@.len(),
                cx_wf(cur),
                resnet_wf(*self),
                full == layers_view(self.weight@),
                eval_model(full, value@) == eval_model(full.skip(i as int), cur@),
            decreases self.weight@.len() - i,
        {
            proof {
                assert(full.skip(i as int)[0] == self.weight@[i as int]@);
                assert(full.skip(i as int).drop_first() =~= full.skip(i as int + 1));
            }
            let stepped = layer_apply(&cur, &self.weight[i]);
            match stepped {
                Some(v2) => {
                    cur = v2;
                    i = i + 1;
                },
                None => {
                    return None;
                },
            }
        }
        proof {
            assert(full.skip(self.weight@.len() as int) =~= Seq::<LayerG>::empty());
        }
        Some(cur)
    }
}

} // verus!
