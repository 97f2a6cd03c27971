use vstd::prelude::*;
use crate::buffer::MatrixBufferHandle;
use crate::context::{BufferedContext, DynamicContext, context_buffers};
use crate::layer::{LayerDesc, LayerKind, LayerSpec};

verus! {

/// A range of a parameter buffer that a kernel reads (and whose gradients it
/// writes at the same place of the gradient buffer).
#[derive(Clone, Copy, PartialEq, Eq, Structural, Debug)]
pub struct ParamView {
    pub start: usize,
    pub len: usize,
}

/// The buffer a layer keeps for its backward pass.
#[derive(Clone, Copy, PartialEq, Eq, Structural, Debug)]
pub enum Saved {
    Input,
    Output,
}

/// What the kernels of one ordinary layer need: the number of output
/// features, the parameter ranges they read, the buffer the layer keeps for
/// its backward pass and whether the layer uses one of the memory slots.
pub struct LayerKernelPlan {
    pub out_features: usize,
    pub views: Vec<ParamView>,
    pub saves: Saved,
    pub memory_slot: bool,
}

/// The mathematical model of a kernel plan.
pub struct KernelPlanSpec {
    pub out_features: usize,
    pub views: Seq<ParamView>,
    pub saves: Saved,
    pub memory_slot: bool,
}

impl View for LayerKernelPlan {
    type V = KernelPlanSpec;

    open spec fn view(&self) -> KernelPlanSpec {
        KernelPlanSpec {
            out_features: self.out_features,
            views: self.views@,
            saves: self.saves,
            memory_slot: self.memory_slot,
        }
    }
}

/// The features a gate or an anchor works on: those of its first input stream.
pub open spec fn layer_features(d: LayerSpec) -> Option<usize> {
    if d.input.len() > 0 {
        Some(d.input[0])
    } else {
        None
    }
}

/// The parameter ranges of a layer whose parameters start at `start`:
/// a linear layer reads its weights (`out * in` values) and then its biases
/// (`out` values); a gate reads one threshold per feature; an anchor reads
/// its minima, its maxima (one per feature) and one blend factor; a
/// dual-slope ReLU and a learnable softplus read two values per feature, as
/// two ranges; the other layers with parameters read them as one range of
/// `kernel_param_len` values.
pub open spec fn kernel_views(kind: LayerKind, features: int, start: int) -> Seq<(int, int)> {
    match kind {
        LayerKind::Linear { in_features, out_features } => seq![
            (start, in_features * out_features),
            (start + in_features * out_features, out_features as int),
        ],
        LayerKind::SoftSparseGate => seq![(start, features)],
        LayerKind::SoftKeepGate => seq![(start, features)],
        LayerKind::DualAnchor => seq![(start, features), (start + features, features), (start + 2 * features, 1)],
        LayerKind::DualSlopeReLU { features: f } => seq![(start, f as int), (start + f, f as int)],
        LayerKind::LearnableSoftplus { features: f } => seq![(start, f as int), (start + f, f as int)],
        _ => if single_view_kind(kind) {
            seq![(start, kernel_param_len(kind, features))]
        } else {
            Seq::empty()
        },
    }
}

/// True for the layers whose kernels read their parameters as one range.
pub open spec fn single_view_kind(kind: LayerKind) -> bool {
    match kind {
        LayerKind::LearnableMish { .. } | LayerKind::AdaptiveActivation { .. } | LayerKind::RmsNorm { .. }
        | LayerKind::AdaptiveDropout { .. } | LayerKind::FeatureFusion { .. }
        | LayerKind::SparseFeatureSelectionGate { .. } | LayerKind::MultiResolutionKAN { .. }
        | LayerKind::AdaptiveNormalization { .. } | LayerKind::BatchRenorm { .. } | LayerKind::ConcreteDropout
        | LayerKind::IndRNN { .. } | LayerKind::Mamba { .. } | LayerKind::SpectralNormLinear { .. }
        | LayerKind::LinearAttention { .. } | LayerKind::RelativePositionAttention { .. } => true,
        _ => false,
    }
}

/// The number of features a layer's forward kernels give back on an input
/// of `in_cols` features.
pub open spec fn planned_out_features(kind: LayerKind, in_cols: usize) -> int {
    match kind {
        LayerKind::Linear { out_features, .. } => out_features as int,
        LayerKind::LearnableMish { features } => features as int,
        LayerKind::LearnableSoftplus { features } => features as int,
        LayerKind::AdaptiveActivation { in_features, .. } => in_features as int,
        LayerKind::RmsNorm { features } => features as int,
        LayerKind::AdaptiveDropout { features } => features as int,
        LayerKind::FeatureFusion { out_features, .. } => out_features as int,
        LayerKind::SparseFeatureSelectionGate { features } => features as int,
        LayerKind::MultiResolutionKAN { out_features, .. } => out_features as int,
        LayerKind::AdaptiveNormalization { features } => features as int,
        LayerKind::BatchRenorm { features } => features as int,
        LayerKind::IndRNN { seq_len, input_dim } => seq_len * input_dim,
        LayerKind::Mamba { seq_len, input_dim, .. } => seq_len * input_dim,
        LayerKind::SpectralNormLinear { out_features, .. } => out_features as int,
        LayerKind::LinearAttention { out_features, .. } => out_features as int,
        LayerKind::RelativePositionAttention { out_features, .. } => out_features as int,
        _ => in_cols as int,
    }
}

/// The number of parameters the kernels of a layer read.
pub open spec fn kernel_param_len(kind: LayerKind, features: int) -> int {
    match kind {
        LayerKind::Linear { in_features, out_features } => in_features * out_features + out_features,
        LayerKind::SoftSparseGate => features,
        LayerKind::SoftKeepGate => features,
        LayerKind::DualAnchor => 2 * features + 1,
        LayerKind::DualSlopeReLU { features: f } => 2 * f,
        LayerKind::LearnableMish { .. } => 1,
        LayerKind::LearnableSoftplus { features: f } => 2 * f,
        LayerKind::AdaptiveActivation { in_features, num_activations } => in_features * num_activations,
        LayerKind::RmsNorm { features: f } => 2 * f,
        LayerKind::AdaptiveDropout { features: f } => 2 * f,
        LayerKind::FeatureFusion { in_features, out_features } => out_features * (in_features + 1),
        LayerKind::SparseFeatureSelectionGate { features: f } => f + 1,
        LayerKind::MultiResolutionKAN { in_features, out_features } => in_features * out_features * 12
            + out_features,
        LayerKind::AdaptiveNormalization { features: f } => 7 * f,
        LayerKind::BatchRenorm { features: f } => 4 * f,
        LayerKind::ConcreteDropout => 1,
        LayerKind::IndRNN { input_dim, .. } => input_dim * input_dim + 2 * input_dim,
        LayerKind::Mamba { input_dim, state_dim, .. } => state_dim * state_dim + state_dim * input_dim
            + input_dim * state_dim + 2,
        LayerKind::SpectralNormLinear { in_features, out_features } => in_features * out_features
            + out_features + 1,
        LayerKind::LinearAttention { param_len, .. } => param_len as int,
        LayerKind::RelativePositionAttention { param_len, .. } => param_len as int,
        _ => 0,
    }
}

/// True for the layers whose kernels need the feature count of their input stream.
pub open spec fn needs_features(kind: LayerKind) -> bool {
    kind is SoftSparseGate || kind is SoftKeepGate || kind is DualAnchor
}

/// The buffer an ordinary layer keeps: the activations that can be inverted
/// from their output keep the output, every other layer keeps its input.
pub open spec fn saved_of(kind: LayerKind) -> Saved {
    match kind {
        LayerKind::Sigmoid | LayerKind::Tanh | LayerKind::Softmax => Saved::Output,
        _ => Saved::Input,
    }
}

/// True for the ordinary layers the kernels know.
pub open spec fn kernel_kind(kind: LayerKind) -> bool {
    match kind {
        LayerKind::Linear { .. } | LayerKind::ReLU | LayerKind::Sigmoid | LayerKind::Tanh
        | LayerKind::LeakyReLU | LayerKind::Identity | LayerKind::Softmax | LayerKind::Memory
        | LayerKind::SoftSparseGate | LayerKind::SoftKeepGate | LayerKind::DualAnchor
        | LayerKind::DualSlopeReLU { .. } | LayerKind::LearnableSoftplus { .. } => true,
        _ => single_view_kind(kind),
    }
}

/// The views of a plan, as pairs of integers.
pub open spec fn views_as_pairs(v: Seq<ParamView>) -> Seq<(int, int)> {
    v.map_values(|p: ParamView| (p.start as int, p.len as int))
}

/// The kernel plan of a layer whose parameters start at `start` and whose
/// input has `in_cols` features; `None` for a layer the kernels do not know,
/// a gate or anchor without an input stream, or ranges past `usize::MAX`.
pub open spec fn kernel_plan_ok(d: LayerSpec, start: usize, in_cols: usize, p: KernelPlanSpec) -> bool {
    let f: int = match layer_features(d) {
        Some(x) => x as int,
        None => 0,
    };
    &&& p.out_features == planned_out_features(d.kind, in_cols)
    &&& views_as_pairs(p.views) == kernel_views(d.kind, f, start as int)
    &&& p.saves == saved_of(d.kind)
    &&& p.memory_slot == (d.kind is Memory)
}

/// The ranges of a plan tile the layer's parameters: they start at `start`,
/// each begins where the one before it ends, and together they hold exactly
/// the parameters the kernels read.
pub open spec fn views_tile(v: Seq<(int, int)>, start: int, total: int) -> bool {
    &&& v.len() == 0 ==> total == 0
    &&& v.len() > 0 ==> v[0].0 == start && v.last().0 + v.last().1 == start + total
    &&& forall|i: int| 0 <= i < v.len() - 1 ==> #[trigger] v[i].0 + v[i].1 == v[i + 1].0
}

/// The parameter ranges of every layer tile exactly the parameters its
/// kernels read, so a slice that holds that many parameters holds them all.
pub proof fn law_kernel_views_tile(kind: LayerKind, features: int, start: int)
    ensures
        views_tile(kernel_views(kind, features, start), start, kernel_param_len(kind, features)),
{
}

/// True when the kernels cannot plan a layer whose parameters start at
/// `start`: a kind they do not know, a layer that needs the features of an
/// input stream it does not have, or parameter ranges past `usize::MAX`.
pub open spec fn plan_refused(d: LayerSpec, start: usize) -> bool {
    ||| !kernel_kind(d.kind)
    ||| (needs_features(d.kind) && layer_features(d) is None)
    ||| start as int + kernel_param_len(
        d.kind,
        match layer_features(d) {
            Some(x) => x as int,
            None => 0,
        },
    ) > usize::MAX
    ||| planned_out_features(d.kind, 0) > usize::MAX
}

/// Whether the kernels of a layer read their parameters as one range.
fn is_single_view_kind(kind: LayerKind) -> (r: bool)
    ensures
        r == single_view_kind(kind),
{
    match kind {
        LayerKind::LearnableMish { .. } | LayerKind::AdaptiveActivation { .. } | LayerKind::RmsNorm { .. }
        | LayerKind::AdaptiveDropout { .. } | LayerKind::FeatureFusion { .. }
        | LayerKind::SparseFeatureSelectionGate { .. } | LayerKind::MultiResolutionKAN { .. }
        | LayerKind::AdaptiveNormalization { .. } | LayerKind::BatchRenorm { .. } | LayerKind::ConcreteDropout
        | LayerKind::IndRNN { .. } | LayerKind::Mamba { .. } | LayerKind::SpectralNormLinear { .. }
        | LayerKind::LinearAttention { .. } | LayerKind::RelativePositionAttention { .. } => true,
        _ => false,
    }
}

/// The number of parameters of a layer whose kernels read one range;
/// `None` when it does not fit in a `usize`.
fn single_param_len(kind: LayerKind) -> (r: Option<usize>)
    requires
        single_view_kind(kind),
    ensures
        r matches Some(x) ==> x == kernel_param_len(kind, 0),
        r is None ==> kernel_param_len(kind, 0) > usize::MAX,
{
    match kind {
        LayerKind::LearnableMish { .. } | LayerKind::ConcreteDropout => Some(1),
        LayerKind::AdaptiveActivation { in_features, num_activations } => in_features.checked_mul(num_activations),
        LayerKind::RmsNorm { features } | LayerKind::AdaptiveDropout { features } => features.checked_mul(2),
        LayerKind::FeatureFusion { in_features, out_features } => {
            proof {
                assert(out_features * (in_features + 1) == out_features * in_features + out_features)
                    by (nonlinear_arith);
            }
            match out_features.checked_mul(in_features) {
                Some(w) => w.checked_add(out_features),
                None => None,
            }
        },
        LayerKind::SparseFeatureSelectionGate { features } => features.checked_add(1),
        LayerKind::MultiResolutionKAN { in_features, out_features } => match in_features.checked_mul(out_features) {
            Some(w) => match w.checked_mul(12) {
                Some(w12) => w12.checked_add(out_features),
                None => None,
            },
            None => None,
        },
        LayerKind::AdaptiveNormalization { features } => features.checked_mul(7),
        LayerKind::BatchRenorm { features } => features.checked_mul(4),
        LayerKind::IndRNN { input_dim, .. } => match input_dim.checked_mul(input_dim) {
            Some(sq) => match input_dim.checked_mul(2) {
                Some(two) => sq.checked_add(two),
                None => None,
            },
            None => None,
        },
        LayerKind::Mamba { input_dim, state_dim, .. } => {
            let a = match state_dim.checked_mul(state_dim) {
                Some(a) => a,
                None => return None,
            };
            let b = match state_dim.checked_mul(input_dim) {
                Some(b) => b,
                None => return None,
            };
            let c = match input_dim.checked_mul(state_dim) {
                Some(c) => c,
                None => return None,
            };
            match a.checked_add(b) {
                Some(ab) => match ab.checked_add(c) {
                    Some(abc) => abc.checked_add(2),
                    None => None,
                },
                None => None,
            }
        },
        LayerKind::SpectralNormLinear { in_features, out_features } => match in_features.checked_mul(out_features) {
            Some(w) => match w.checked_add(out_features) {
                Some(wb) => wb.checked_add(1),
                None => None,
            },
            None => None,
        },
        LayerKind::LinearAttention { param_len, .. } | LayerKind::RelativePositionAttention { param_len, .. } => Some(
            param_len,
        ),
        _ => None,
    }
}

/// The number of features a layer's forward kernels give back on an input
/// of `in_cols` features; `None` when it does not fit in a `usize`.
fn out_features_of(kind: LayerKind, in_cols: usize) -> (r: Option<usize>)
    ensures
        r matches Some(x) ==> x == planned_out_features(kind, in_cols),
        r is None <==> planned_out_features(kind, in_cols) > usize::MAX,
{
    match kind {
        LayerKind::IndRNN { seq_len, input_dim } | LayerKind::Mamba { seq_len, input_dim, .. } => seq_len.checked_mul(
            input_dim,
        ),
        LayerKind::Linear { out_features, .. } | LayerKind::FeatureFusion { out_features, .. }
        | LayerKind::MultiResolutionKAN { out_features, .. } | LayerKind::SpectralNormLinear { out_features, .. }
        | LayerKind::LinearAttention { out_features, .. } | LayerKind::RelativePositionAttention {
            out_features,
            ..
        } => Some(out_features),
        LayerKind::LearnableMish { features } | LayerKind::LearnableSoftplus { features } | LayerKind::RmsNorm {
            features,
        } | LayerKind::AdaptiveDropout { features } | LayerKind::SparseFeatureSelectionGate { features }
        | LayerKind::AdaptiveNormalization { features } | LayerKind::BatchRenorm { features } => Some(features),
        LayerKind::AdaptiveActivation { in_features, .. } => Some(in_features),
        _ => Some(in_cols),
    }
}

/// The kernel plan of an ordinary layer.
pub fn layer_kernel_plan(d: &LayerDesc, start: usize, in_cols: usize) -> (r: Option<LayerKernelPlan>)
    ensures
        r is None <==> plan_refused(d@, start),
        r matches Some(p) ==> kernel_plan_ok(d@, start, in_cols, p@),
{
    let saves = match d.kind {
        LayerKind::Sigmoid | LayerKind::Tanh | LayerKind::Softmax => Saved::Output,
        _ => Saved::Input,
    };
    let memory_slot = match d.kind {
        LayerKind::Memory => true,
        _ => false,
    };
    let mut views: Vec<ParamView> = Vec::new();
    let out_features: usize = match d.kind {
        LayerKind::Linear { in_features, out_features } => {
            let w = match in_features.checked_mul(out_features) {
                Some(w) => w,
                None => {
                    proof {
                        assert(in_features * out_features > usize::MAX);
                        assert(in_features * out_features + out_features >= in_features * out_features);
                    }
                    return None;
                },
            };
            let b_start = match start.checked_add(w) {
                Some(b) => b,
                None => return None,
            };
            if b_start > usize::MAX - out_features {
                return None;
            }
            views.push(ParamView { start, len: w });
            views.push(ParamView { start: b_start, len: out_features });
            out_features
        },
        LayerKind::ReLU | LayerKind::Sigmoid | LayerKind::Tanh | LayerKind::LeakyReLU
        | LayerKind::Identity | LayerKind::Softmax | LayerKind::Memory => in_cols,
        LayerKind::SoftSparseGate | LayerKind::SoftKeepGate => {
            if d.input_shape.streams.len() == 0 {
                return None;
            }
            let f = d.input_shape.streams[0];
            if start > usize::MAX - f {
                return None;
            }
            views.push(ParamView { start, len: f });
            in_cols
        },
        LayerKind::DualAnchor => {
            if d.input_shape.streams.len() == 0 {
                return None;
            }
            let f = d.input_shape.streams[0];
            if f > (usize::MAX - 1) / 2 || start > usize::MAX - (2 * f + 1) {
                return None;
            }
            views.push(ParamView { start, len: f });
            views.push(ParamView { start: start + f, len: f });
            views.push(ParamView { start: start + 2 * f, len: 1 });
            in_cols
        },
        LayerKind::DualSlopeReLU { features: f } => {
            if f > usize::MAX / 2 || start > usize::MAX - 2 * f {
                return None;
            }
            views.push(ParamView { start, len: f });
            views.push(ParamView { start: start + f, len: f });
            in_cols
        },
        LayerKind::LearnableSoftplus { features: f } => {
            if f > usize::MAX / 2 || start > usize::MAX - 2 * f {
                return None;
            }
            views.push(ParamView { start, len: f });
            views.push(ParamView { start: start + f, len: f });
            f
        },
        _ => {
            if !is_single_view_kind(d.kind) {
                return None;
            }
            let len = match single_param_len(d.kind) {
                Some(l) => l,
                None => return None,
            };
            if start > usize::MAX - len {
                return None;
            }
            let out = match out_features_of(d.kind, in_cols) {
                Some(o) => o,
                None => return None,
            };
            views.push(ParamView { start, len });
            out
        },
    };
    let plan = LayerKernelPlan { out_features, views, saves, memory_slot };
    proof {
        let f: int = match layer_features(d@) {
            Some(x) => x as int,
            None => 0,
        };
        assert(views_as_pairs(plan.views@) =~= kernel_views(d@.kind, f, start as int));
    }
    Some(plan)
}

/// The number of scratch buffers the forward kernels of a layer fill for its
/// backward pass, besides the buffer the layer saves.
pub open spec fn scratch_count(kind: LayerKind) -> nat {
    match kind {
        LayerKind::AdaptiveDropout { .. } => 2,
        LayerKind::ConcreteDropout => 1,
        LayerKind::IndRNN { .. } => 1,
        LayerKind::Mamba { .. } => 1,
        LayerKind::LinearAttention { .. } => 7,
        LayerKind::RelativePositionAttention { .. } => 5,
        _ => 0,
    }
}

/// The shapes (rows, columns) of the scratch buffers the forward kernels of a
/// layer fill on an input of `rows` rows and `cols` features, in the order
/// its context keeps them: a dropout's mask and pre-activation, a
/// recurrent layer's hidden states over the sequence, an attention layer's
/// projections, and the running sums or the scores and weights.
pub open spec fn scratch_shapes(kind: LayerKind, rows: usize, cols: usize) -> Seq<(int, int)> {
    match kind {
        LayerKind::AdaptiveDropout { features } => seq![(rows as int, features as int), (rows as int, features as int)],
        LayerKind::ConcreteDropout => seq![(rows * cols, 1)],
        LayerKind::IndRNN { seq_len, input_dim } => seq![(rows * seq_len * input_dim, 1)],
        LayerKind::Mamba { seq_len, state_dim, .. } => seq![(rows * seq_len * state_dim, 1)],
        LayerKind::LinearAttention { seq_len, d_model, .. } => {
            let t = rows * seq_len;
            let d = d_model as int;
            seq![(t, d), (t, d), (t, d), (t, d), (t, d), (d * d, 1), (d, 1)]
        },
        LayerKind::RelativePositionAttention { seq_len, d_model, .. } => {
            let t = rows * seq_len;
            let d = d_model as int;
            seq![(t, d), (t, d), (t, d), (t, seq_len as int), (t, seq_len as int)]
        },
        _ => Seq::empty(),
    }
}

/// True when every scratch shape of a layer, and the token count it is
/// computed from, fits in a `usize`.
pub open spec fn scratch_fits(kind: LayerKind, rows: usize, cols: usize) -> bool {
    &&& forall|i: int|
        0 <= i < scratch_shapes(kind, rows, cols).len() ==> #[trigger] scratch_shapes(kind, rows, cols)[i].0
            <= usize::MAX && scratch_shapes(kind, rows, cols)[i].1 <= usize::MAX
    &&& match kind {
        LayerKind::IndRNN { seq_len, .. } | LayerKind::Mamba { seq_len, .. } | LayerKind::LinearAttention {
            seq_len,
            ..
        } | LayerKind::RelativePositionAttention { seq_len, .. } => rows * seq_len <= usize::MAX,
        _ => true,
    }
}

/// The model of a list of shapes.
pub open spec fn shapes_as_ints(v: Seq<(usize, usize)>) -> Seq<(int, int)> {
    v.map_values(|p: (usize, usize)| (p.0 as int, p.1 as int))
}

/// The shapes of the scratch buffers a layer's forward kernels fill (see
/// `scratch_shapes`); `None` when one of them does not fit in a `usize`.
pub fn scratch_plan(kind: LayerKind, rows: usize, cols: usize) -> (r: Option<Vec<(usize, usize)>>)
    ensures
        r is None <==> !scratch_fits(kind, rows, cols),
        r matches Some(v) ==> shapes_as_ints(v@) == scratch_shapes(kind, rows, cols),
{
    let mut v: Vec<(usize, usize)> = Vec::new();
    match kind {
        LayerKind::AdaptiveDropout { features } => {
            v.push((rows, features));
            v.push((rows, features));
        },
        LayerKind::ConcreteDropout => {
            let n = match rows.checked_mul(cols) {
                Some(n) => n,
                None => {
                    assert(!(scratch_shapes(kind, rows, cols)[0].0 <= usize::MAX));
                    return None;
                },
            };
            v.push((n, 1));
        },
        LayerKind::IndRNN { seq_len, input_dim: x } | LayerKind::Mamba { seq_len, state_dim: x, .. } => {
            let t = match rows.checked_mul(seq_len) {
                Some(t) => t,
                None => return None,
            };
            let n = match t.checked_mul(x) {
                Some(n) => n,
                None => {
                    assert(!(scratch_shapes(kind, rows, cols)[0].0 <= usize::MAX));
                    return None;
                },
            };
            v.push((n, 1));
        },
        LayerKind::LinearAttention { seq_len, d_model, .. } => {
            let t = match rows.checked_mul(seq_len) {
                Some(t) => t,
                None => return None,
            };
            let dd = match d_model.checked_mul(d_model) {
                Some(dd) => dd,
                None => {
                    assert(!(scratch_shapes(kind, rows, cols)[5].0 <= usize::MAX));
                    return None;
                },
            };
            v.push((t, d_model));
            v.push((t, d_model));
            v.push((t, d_model));
            v.push((t, d_model));
            v.push((t, d_model));
            v.push((dd, 1));
            v.push((d_model, 1));
        },
        LayerKind::RelativePositionAttention { seq_len, d_model, .. } => {
            let t = match rows.checked_mul(seq_len) {
                Some(t) => t,
                None => return None,
            };
            v.push((t, d_model));
            v.push((t, d_model));
            v.push((t, d_model));
            v.push((t, seq_len));
            v.push((t, seq_len));
        },
        _ => {},
    }
    proof {
        assert(shapes_as_ints(v@) =~= scratch_shapes(kind, rows, cols));
    }
    Some(v)
}

/// A layer's forward kernels fill exactly as many scratch buffers as its
/// context keeps.
pub proof fn law_scratch_fills_context(kind: LayerKind, rows: usize, cols: usize)
    ensures
        scratch_shapes(kind, rows, cols).len() == scratch_count(kind),
{
}

/// The context a layer keeps after its forward kernels ran from `input` to
/// `output` and filled the scratch buffers `scratch`; `None` for a layer the
/// kernels do not know or scratch buffers of the wrong number.
pub fn layer_context(
    kind: LayerKind,
    input: MatrixBufferHandle,
    output: MatrixBufferHandle,
    scratch: &Vec<MatrixBufferHandle>,
) -> (r: Option<DynamicContext>)
    ensures
        r is Some <==> kernel_kind(kind) && scratch@.len() == scratch_count(kind),
        r matches Some(c) ==> {
            let saved = if saved_of(kind) == Saved::Output {
                output
            } else {
                input
            };
            &&& saved_buffer_spec(kind, c) == Some(saved)
            &&& context_buffers(c) == seq![saved] + scratch@
        },
{
    let n = scratch.len();
    let b = match kind {
        LayerKind::AdaptiveDropout { .. } => {
            if n != 2 {
                return None;
            }
            BufferedContext::AdaptiveDropout { input, mask: scratch[0], arg: scratch[1] }
        },
        LayerKind::ConcreteDropout => {
            if n != 1 {
                return None;
            }
            BufferedContext::ConcreteDropout { input, arg: scratch[0] }
        },
        LayerKind::IndRNN { .. } => {
            if n != 1 {
                return None;
            }
            BufferedContext::IndRNN { input, h_all: scratch[0] }
        },
        LayerKind::Mamba { .. } => {
            if n != 1 {
                return None;
            }
            BufferedContext::Mamba { input, h_all: scratch[0] }
        },
        LayerKind::LinearAttention { .. } => {
            if n != 7 {
                return None;
            }
            BufferedContext::LinearAttention {
                input,
                q_raw: scratch[0],
                k_raw: scratch[1],
                v_raw: scratch[2],
                q_phi: scratch[3],
                k_phi: scratch[4],
                kv: scratch[5],
                z: scratch[6],
            }
        },
        LayerKind::RelativePositionAttention { .. } => {
            if n != 5 {
                return None;
            }
            BufferedContext::RelativePositionAttention {
                input,
                q: scratch[0],
                k: scratch[1],
                v: scratch[2],
                scores: scratch[3],
                weights: scratch[4],
            }
        },
        _ => {
            if n != 0 {
                return None;
            }
            match kind {
                LayerKind::Linear { .. } => BufferedContext::Linear { input },
                LayerKind::ReLU => BufferedContext::ReLU { input },
                LayerKind::Sigmoid => BufferedContext::Sigmoid { output },
                LayerKind::Tanh => BufferedContext::Tanh { output },
                LayerKind::LeakyReLU => BufferedContext::LeakyReLU { input },
                LayerKind::Identity => BufferedContext::Identity { input },
                LayerKind::Softmax => BufferedContext::Softmax { output },
                LayerKind::Memory => BufferedContext::Memory { input },
                LayerKind::SoftSparseGate => BufferedContext::SoftSparseGate { input },
                LayerKind::SoftKeepGate => BufferedContext::SoftKeepGate { input },
                LayerKind::DualAnchor => BufferedContext::DualAnchor1D { input },
                LayerKind::DualSlopeReLU { .. } => BufferedContext::DualSlopeReLU { input },
                LayerKind::LearnableMish { .. } => BufferedContext::LearnableMish { input },
                LayerKind::LearnableSoftplus { .. } => BufferedContext::LearnableSoftplus { input },
                LayerKind::AdaptiveActivation { .. } => BufferedContext::AdaptiveActivation { input },
                LayerKind::RmsNorm { .. } => BufferedContext::RMSNormWithLearnableEpsilon { input },
                LayerKind::FeatureFusion { .. } => BufferedContext::FeatureFusion { input },
                LayerKind::SparseFeatureSelectionGate { .. } => BufferedContext::SparseFeatureSelectionGate { input },
                LayerKind::MultiResolutionKAN { .. } => BufferedContext::MultiResolutionKANLinear { input },
                LayerKind::AdaptiveNormalization { .. } => BufferedContext::AdaptiveNormalization { input },
                LayerKind::BatchRenorm { .. } => BufferedContext::BatchRenorm { input, use_batch_stats: true },
                LayerKind::SpectralNormLinear { .. } => BufferedContext::SpectralNormLinear { input },
                _ => return None,
            }
        },
    };
    let c = DynamicContext::Buffered(b);
    proof {
        let saved = if saved_of(kind) == Saved::Output {
            output
        } else {
            input
        };
        assert(context_buffers(c) =~= seq![saved] + scratch@);
    }
    Some(c)
}

/// The buffer a context of the right variant for the layer holds; `None`
/// when the context belongs to another kind of layer.
pub open spec fn saved_buffer_spec(kind: LayerKind, c: DynamicContext) -> Option<MatrixBufferHandle> {
    match c {
        DynamicContext::Buffered(b) => match (kind, b) {
            (LayerKind::Linear { .. }, BufferedContext::Linear { input }) => Some(input),
            (LayerKind::ReLU, BufferedContext::ReLU { input }) => Some(input),
            (LayerKind::Sigmoid, BufferedContext::Sigmoid { output }) => Some(output),
            (LayerKind::Tanh, BufferedContext::Tanh { output }) => Some(output),
            (LayerKind::LeakyReLU, BufferedContext::LeakyReLU { input }) => Some(input),
            (LayerKind::Identity, BufferedContext::Identity { input }) => Some(input),
            (LayerKind::Softmax, BufferedContext::Softmax { output }) => Some(output),
            (LayerKind::Memory, BufferedContext::Memory { input }) => Some(input),
            (LayerKind::SoftSparseGate, BufferedContext::SoftSparseGate { input }) => Some(input),
            (LayerKind::SoftKeepGate, BufferedContext::SoftKeepGate { input }) => Some(input),
            (LayerKind::DualAnchor, BufferedContext::DualAnchor1D { input }) => Some(input),
            (LayerKind::DualSlopeReLU { .. }, BufferedContext::DualSlopeReLU { input }) => Some(input),
            (LayerKind::LearnableMish { .. }, BufferedContext::LearnableMish { input }) => Some(input),
            (LayerKind::LearnableSoftplus { .. }, BufferedContext::LearnableSoftplus { input }) => Some(input),
            (LayerKind::AdaptiveActivation { .. }, BufferedContext::AdaptiveActivation { input }) => Some(input),
            (LayerKind::RmsNorm { .. }, BufferedContext::RMSNormWithLearnableEpsilon { input }) => Some(input),
            (LayerKind::AdaptiveDropout { .. }, BufferedContext::AdaptiveDropout { input, .. }) => Some(input),
            (LayerKind::FeatureFusion { .. }, BufferedContext::FeatureFusion { input }) => Some(input),
            (LayerKind::SparseFeatureSelectionGate { .. }, BufferedContext::SparseFeatureSelectionGate { input }) => Some(
                input,
            ),
            (LayerKind::MultiResolutionKAN { .. }, BufferedContext::MultiResolutionKANLinear { input }) => Some(input),
            (LayerKind::AdaptiveNormalization { .. }, BufferedContext::AdaptiveNormalization { input }) => Some(input),
            (LayerKind::BatchRenorm { .. }, BufferedContext::BatchRenorm { input, .. }) => Some(input),
            (LayerKind::ConcreteDropout, BufferedContext::ConcreteDropout { input, .. }) => Some(input),
            (LayerKind::IndRNN { .. }, BufferedContext::IndRNN { input, .. }) => Some(input),
            (LayerKind::Mamba { .. }, BufferedContext::Mamba { input, .. }) => Some(input),
            (LayerKind::SpectralNormLinear { .. }, BufferedContext::SpectralNormLinear { input }) => Some(input),
            (LayerKind::LinearAttention { .. }, BufferedContext::LinearAttention { input, .. }) => Some(input),
            (
                LayerKind::RelativePositionAttention { .. },
                BufferedContext::RelativePositionAttention { input, .. },
            ) => Some(input),
            _ => None,
        },
    }
}

/// True for the layers whose backward kernels read the context their
/// forward pass kept; those of an identity or a memory layer read none.
pub open spec fn reads_context(kind: LayerKind) -> bool {
    !(kind is Identity || kind is Memory)
}

/// What the backward kernels of a layer read from a context: `Some(None)`
/// for a layer that reads no context, whatever the context is;
/// `Some(Some(b))` for the buffer `b` of a context of the layer's kind;
/// `None` when the layer reads its context and the context belongs to another
/// kind of layer (the backward pass refuses it).
pub open spec fn backward_saved(kind: LayerKind, c: DynamicContext) -> Option<Option<MatrixBufferHandle>> {
    if !reads_context(kind) {
        Some(None)
    } else {
        match saved_buffer_spec(kind, c) {
            Some(b) => Some(Some(b)),
            None => None,
        }
    }
}

/// What the backward kernels of a layer read from its context (see
/// `backward_saved`).
pub fn saved_buffer(kind: LayerKind, ctx: &DynamicContext) -> (r: Option<Option<MatrixBufferHandle>>)
    ensures
        r == backward_saved(kind, *ctx),
{
    match kind {
        LayerKind::Identity | LayerKind::Memory => return Some(None),
        _ => {},
    }
    let b: Option<MatrixBufferHandle> = match ctx {
        DynamicContext::Buffered(b) => match (kind, b) {
            (LayerKind::Linear { .. }, BufferedContext::Linear { input }) => Some(*input),
            (LayerKind::ReLU, BufferedContext::ReLU { input }) => Some(*input),
            (LayerKind::Sigmoid, BufferedContext::Sigmoid { output }) => Some(*output),
            (LayerKind::Tanh, BufferedContext::Tanh { output }) => Some(*output),
            (LayerKind::LeakyReLU, BufferedContext::LeakyReLU { input }) => Some(*input),
            (LayerKind::Identity, BufferedContext::Identity { input }) => Some(*input),
            (LayerKind::Softmax, BufferedContext::Softmax { output }) => Some(*output),
            (LayerKind::Memory, BufferedContext::Memory { input }) => Some(*input),
            (LayerKind::SoftSparseGate, BufferedContext::SoftSparseGate { input }) => Some(*input),
            (LayerKind::SoftKeepGate, BufferedContext::SoftKeepGate { input }) => Some(*input),
            (LayerKind::DualAnchor, BufferedContext::DualAnchor1D { input }) => Some(*input),
            (LayerKind::DualSlopeReLU { .. }, BufferedContext::DualSlopeReLU { input }) => Some(*input),
            (LayerKind::LearnableMish { .. }, BufferedContext::LearnableMish { input }) => Some(*input),
            (LayerKind::LearnableSoftplus { .. }, BufferedContext::LearnableSoftplus { input }) => Some(*input),
            (LayerKind::AdaptiveActivation { .. }, BufferedContext::AdaptiveActivation { input }) => Some(*input),
            (LayerKind::RmsNorm { .. }, BufferedContext::RMSNormWithLearnableEpsilon { input }) => Some(*input),
            (LayerKind::AdaptiveDropout { .. }, BufferedContext::AdaptiveDropout { input, .. }) => Some(*input),
            (LayerKind::FeatureFusion { .. }, BufferedContext::FeatureFusion { input }) => Some(*input),
            (LayerKind::SparseFeatureSelectionGate { .. }, BufferedContext::SparseFeatureSelectionGate { input }) => Some(
                *input,
            ),
            (LayerKind::MultiResolutionKAN { .. }, BufferedContext::MultiResolutionKANLinear { input }) => Some(*input),
            (LayerKind::AdaptiveNormalization { .. }, BufferedContext::AdaptiveNormalization { input }) => Some(*input),
            (LayerKind::BatchRenorm { .. }, BufferedContext::BatchRenorm { input, .. }) => Some(*input),
            (LayerKind::ConcreteDropout, BufferedContext::ConcreteDropout { input, .. }) => Some(*input),
            (LayerKind::IndRNN { .. }, BufferedContext::IndRNN { input, .. }) => Some(*input),
            (LayerKind::Mamba { .. }, BufferedContext::Mamba { input, .. }) => Some(*input),
            (LayerKind::SpectralNormLinear { .. }, BufferedContext::SpectralNormLinear { input }) => Some(*input),
            (LayerKind::LinearAttention { .. }, BufferedContext::LinearAttention { input, .. }) => Some(*input),
            (
                LayerKind::RelativePositionAttention { .. },
                BufferedContext::RelativePositionAttention { input, .. },
            ) => Some(*input),
            _ => None,
        },
    };
    match b {
        Some(h) => Some(Some(h)),
        None => None,
    }
}

/// The features of the gradient a layer's backward kernels give back on an
/// incoming gradient of `grad_cols` features: the input features of the
/// layers that change the width, else those of the incoming gradient.
pub open spec fn grad_input_cols(kind: LayerKind, grad_cols: usize) -> int {
    match kind {
        LayerKind::Linear { in_features, .. } => in_features as int,
        LayerKind::AdaptiveActivation { in_features, .. } => in_features as int,
        LayerKind::LearnableMish { features } => features as int,
        LayerKind::LearnableSoftplus { features } => features as int,
        LayerKind::RmsNorm { features } => features as int,
        LayerKind::AdaptiveDropout { features } => features as int,
        LayerKind::FeatureFusion { in_features, .. } => in_features as int,
        LayerKind::SparseFeatureSelectionGate { features } => features as int,
        LayerKind::MultiResolutionKAN { in_features, .. } => in_features as int,
        LayerKind::AdaptiveNormalization { features } => features as int,
        LayerKind::BatchRenorm { features } => features as int,
        LayerKind::IndRNN { seq_len, input_dim } => seq_len * input_dim,
        LayerKind::Mamba { seq_len, input_dim, .. } => seq_len * input_dim,
        LayerKind::LinearAttention { in_features, .. } => in_features as int,
        LayerKind::RelativePositionAttention { in_features, .. } => in_features as int,
        LayerKind::SpectralNormLinear { in_features, .. } => in_features as int,
        _ => grad_cols as int,
    }
}

/// The number of features of the gradient a layer's backward kernels give
/// back (see `grad_input_cols`).
pub fn grad_input_features(kind: LayerKind, grad_cols: usize) -> (r: usize)
    requires
        planned_out_features(kind, 0) <= usize::MAX,
    ensures
        r == grad_input_cols(kind, grad_cols),
{
    match kind {
        LayerKind::IndRNN { seq_len, input_dim } | LayerKind::Mamba { seq_len, input_dim, .. } => seq_len * input_dim,
        LayerKind::Linear { in_features, .. } | LayerKind::AdaptiveActivation { in_features, .. }
        | LayerKind::FeatureFusion { in_features, .. } | LayerKind::MultiResolutionKAN { in_features, .. }
        | LayerKind::LinearAttention { in_features, .. } | LayerKind::RelativePositionAttention {
            in_features,
            ..
        } | LayerKind::SpectralNormLinear { in_features, .. } => in_features,
        LayerKind::LearnableMish { features } | LayerKind::LearnableSoftplus { features } | LayerKind::RmsNorm {
            features,
        } | LayerKind::AdaptiveDropout { features } | LayerKind::SparseFeatureSelectionGate { features }
        | LayerKind::AdaptiveNormalization { features } | LayerKind::BatchRenorm { features } => features,
        _ => grad_cols,
    }
}

/// The parameter ranges of a learnable splitter of `input_dim` features into
/// branches of `p` and `q` features: the weights of branch a (`p * input_dim`),
/// those of branch b (`q * input_dim`), then the biases of a (`p`) and of b (`q`).
pub open spec fn splitter_views(input_dim: int, p: int, q: int, start: int) -> Seq<(int, int)> {
    seq![
        (start, p * input_dim),
        (start + p * input_dim, q * input_dim),
        (start + p * input_dim + q * input_dim, p),
        (start + p * input_dim + q * input_dim + p, q),
    ]
}

/// The parameter ranges of a learnable combiner of two streams of
/// `input_dim` features into `output_dim` features: the weights of a and of b
/// (`output_dim * input_dim` each), then the biases (`output_dim`).
pub open spec fn combiner_views(input_dim: int, output_dim: int, start: int) -> Seq<(int, int)> {
    seq![
        (start, output_dim * input_dim),
        (start + output_dim * input_dim, output_dim * input_dim),
        (start + 2 * (output_dim * input_dim), output_dim),
    ]
}

/// The ranges of a splitter and of a combiner tile exactly their parameters.
pub proof fn law_connector_views_tile(input_dim: int, p: int, q: int, output_dim: int, start: int)
    ensures
        views_tile(splitter_views(input_dim, p, q, start), start, p * input_dim + q * input_dim + p + q),
        views_tile(combiner_views(input_dim, output_dim, start), start, 2 * (output_dim * input_dim) + output_dim),
{
}

/// The parameter ranges of a splitter; `None` when they go past `usize::MAX`.
pub fn splitter_param_views(input_dim: usize, p: usize, q: usize, start: usize) -> (r: Option<Vec<ParamView>>)
    ensures
        match r {
            Some(v) => views_as_pairs(v@) == splitter_views(input_dim as int, p as int, q as int, start as int),
            None => start + p * input_dim + q * input_dim + p + q > usize::MAX,
        },
{
    let wa = match p.checked_mul(input_dim) {
        Some(x) => x,
        None => return None,
    };
    let wb = match q.checked_mul(input_dim) {
        Some(x) => x,
        None => {
            proof {
                assert(start + p * input_dim + q * input_dim + p + q >= q * input_dim) by (nonlinear_arith)
                    requires
                        start >= 0,
                        p * input_dim >= 0,
                        p >= 0,
                        q >= 0,
                ;
            }
            return None;
        },
    };
    let s1 = match start.checked_add(wa) {
        Some(x) => x,
        None => return None,
    };
    let s2 = match s1.checked_add(wb) {
        Some(x) => x,
        None => return None,
    };
    let s3 = match s2.checked_add(p) {
        Some(x) => x,
        None => return None,
    };
    if s3 > usize::MAX - q {
        return None;
    }
    let mut v: Vec<ParamView> = Vec::new();
    v.push(ParamView { start, len: wa });
    v.push(ParamView { start: s1, len: wb });
    v.push(ParamView { start: s2, len: p });
    v.push(ParamView { start: s3, len: q });
    proof {
        assert(views_as_pairs(v@) =~= splitter_views(input_dim as int, p as int, q as int, start as int));
    }
    Some(v)
}

/// The parameter ranges of a combiner; `None` when they go past `usize::MAX`.
pub fn combiner_param_views(input_dim: usize, output_dim: usize, start: usize) -> (r: Option<Vec<ParamView>>)
    ensures
        match r {
            Some(v) => views_as_pairs(v@) == combiner_views(input_dim as int, output_dim as int, start as int),
            None => start + 2 * (output_dim * input_dim) + output_dim > usize::MAX,
        },
{
    let w = match output_dim.checked_mul(input_dim) {
        Some(x) => x,
        None => return None,
    };
    let s1 = match start.checked_add(w) {
        Some(x) => x,
        None => return None,
    };
    let s2 = match s1.checked_add(w) {
        Some(x) => x,
        None => return None,
    };
    if s2 > usize::MAX - output_dim {
        return None;
    }
    let mut v: Vec<ParamView> = Vec::new();
    v.push(ParamView { start, len: w });
    v.push(ParamView { start: s1, len: w });
    v.push(ParamView { start: s2, len: output_dim });
    proof {
        assert(views_as_pairs(v@) =~= combiner_views(input_dim as int, output_dim as int, start as int));
    }
    Some(v)
}

/// A layer that declares its output features gives back that many columns,
/// whatever its input width; the per-feature layers give back their feature
/// count; the recurrent layers give back a whole sequence; the others keep
/// the width of their input.
pub proof fn law_output_width_follows_the_layer(
    in_f: usize,
    out_f: usize,
    f: usize,
    n: usize,
    seq_len: usize,
    dim: usize,
    state: usize,
    params: usize,
    in_cols: usize,
)
    ensures
        planned_out_features(LayerKind::Linear { in_features: in_f, out_features: out_f }, in_cols) == out_f,
        planned_out_features(LayerKind::FeatureFusion { in_features: in_f, out_features: out_f }, in_cols) == out_f,
        planned_out_features(LayerKind::MultiResolutionKAN { in_features: in_f, out_features: out_f }, in_cols)
            == out_f,
        planned_out_features(LayerKind::SpectralNormLinear { in_features: in_f, out_features: out_f }, in_cols)
            == out_f,
        planned_out_features(
            LayerKind::LinearAttention {
                seq_len,
                d_model: dim,
                in_features: in_f,
                out_features: out_f,
                param_len: params,
            },
            in_cols,
        ) == out_f,
        planned_out_features(
            LayerKind::RelativePositionAttention {
                seq_len,
                d_model: dim,
                in_features: in_f,
                out_features: out_f,
                param_len: params,
            },
            in_cols,
        ) == out_f,
        planned_out_features(LayerKind::AdaptiveActivation { in_features: in_f, num_activations: n }, in_cols)
            == in_f,
        planned_out_features(LayerKind::LearnableMish { features: f }, in_cols) == f,
        planned_out_features(LayerKind::LearnableSoftplus { features: f }, in_cols) == f,
        planned_out_features(LayerKind::RmsNorm { features: f }, in_cols) == f,
        planned_out_features(LayerKind::AdaptiveDropout { features: f }, in_cols) == f,
        planned_out_features(LayerKind::SparseFeatureSelectionGate { features: f }, in_cols) == f,
        planned_out_features(LayerKind::AdaptiveNormalization { features: f }, in_cols) == f,
        planned_out_features(LayerKind::BatchRenorm { features: f }, in_cols) == f,
        planned_out_features(LayerKind::IndRNN { seq_len, input_dim: dim }, in_cols) == seq_len * dim,
        planned_out_features(LayerKind::Mamba { seq_len, input_dim: dim, state_dim: state }, in_cols) == seq_len
            * dim,
        planned_out_features(LayerKind::ReLU, in_cols) == in_cols,
        planned_out_features(LayerKind::Sigmoid, in_cols) == in_cols,
        planned_out_features(LayerKind::Tanh, in_cols) == in_cols,
        planned_out_features(LayerKind::LeakyReLU, in_cols) == in_cols,
        planned_out_features(LayerKind::Identity, in_cols) == in_cols,
        planned_out_features(LayerKind::Softmax, in_cols) == in_cols,
        planned_out_features(LayerKind::Memory, in_cols) == in_cols,
        planned_out_features(LayerKind::SoftSparseGate, in_cols) == in_cols,
        planned_out_features(LayerKind::SoftKeepGate, in_cols) == in_cols,
        planned_out_features(LayerKind::DualAnchor, in_cols) == in_cols,
        planned_out_features(LayerKind::DualSlopeReLU { features: f }, in_cols) == in_cols,
        planned_out_features(LayerKind::ConcreteDropout, in_cols) == in_cols,
{
}

/// The backward kernels of a layer that declares its input features hand
/// back a gradient of that many columns, whatever the width of the gradient
/// they receive; the per-feature layers hand back their feature count; the
/// recurrent layers a whole sequence; the others keep the width of the
/// gradient they receive.
pub proof fn law_gradient_width_follows_the_layer(
    in_f: usize,
    out_f: usize,
    f: usize,
    n: usize,
    seq_len: usize,
    dim: usize,
    state: usize,
    params: usize,
    g: usize,
)
    ensures
        grad_input_cols(LayerKind::Linear { in_features: in_f, out_features: out_f }, g) == in_f,
        grad_input_cols(LayerKind::FeatureFusion { in_features: in_f, out_features: out_f }, g) == in_f,
        grad_input_cols(LayerKind::MultiResolutionKAN { in_features: in_f, out_features: out_f }, g) == in_f,
        grad_input_cols(LayerKind::SpectralNormLinear { in_features: in_f, out_features: out_f }, g) == in_f,
        grad_input_cols(
            LayerKind::LinearAttention {
                seq_len,
                d_model: dim,
                in_features: in_f,
                out_features: out_f,
                param_len: params,
            },
            g,
        ) == in_f,
        grad_input_cols(
            LayerKind::RelativePositionAttention {
                seq_len,
                d_model: dim,
                in_features: in_f,
                out_features: out_f,
                param_len: params,
            },
            g,
        ) == in_f,
        grad_input_cols(LayerKind::AdaptiveActivation { in_features: in_f, num_activations: n }, g) == in_f,
        grad_input_cols(LayerKind::LearnableMish { features: f }, g) == f,
        grad_input_cols(LayerKind::LearnableSoftplus { features: f }, g) == f,
        grad_input_cols(LayerKind::RmsNorm { features: f }, g) == f,
        grad_input_cols(LayerKind::AdaptiveDropout { features: f }, g) == f,
        grad_input_cols(LayerKind::SparseFeatureSelectionGate { features: f }, g) == f,
        grad_input_cols(LayerKind::AdaptiveNormalization { features: f }, g) == f,
        grad_input_cols(LayerKind::BatchRenorm { features: f }, g) == f,
        grad_input_cols(LayerKind::IndRNN { seq_len, input_dim: dim }, g) == seq_len * dim,
        grad_input_cols(LayerKind::Mamba { seq_len, input_dim: dim, state_dim: state }, g) == seq_len * dim,
        grad_input_cols(LayerKind::ReLU, g) == g,
        grad_input_cols(LayerKind::Sigmoid, g) == g,
        grad_input_cols(LayerKind::Tanh, g) == g,
        grad_input_cols(LayerKind::LeakyReLU, g) == g,
        grad_input_cols(LayerKind::Identity, g) == g,
        grad_input_cols(LayerKind::Softmax, g) == g,
        grad_input_cols(LayerKind::Memory, g) == g,
        grad_input_cols(LayerKind::SoftSparseGate, g) == g,
        grad_input_cols(LayerKind::SoftKeepGate, g) == g,
        grad_input_cols(LayerKind::DualAnchor, g) == g,
        grad_input_cols(LayerKind::DualSlopeReLU { features: f }, g) == g,
        grad_input_cols(LayerKind::ConcreteDropout, g) == g,
{
}

/// The scratch buffers of the layers that keep them, on an input of `rows`
/// rows and `cols` features: a dropout's mask and pre-activation are one
/// value per sample and feature; the recurrent layers keep one hidden value
/// per sample, step and state (or input) dimension; an attention layer keeps
/// its projections as one row per token (`rows * seq_len` tokens) and
/// `d_model` columns, the linear one its running sums (`d_model * d_model`
/// and `d_model` values), the relative-position one its scores and weights
/// with one column per position of the sequence.
pub proof fn law_scratch_buffer_shapes(
    f: usize,
    seq_len: usize,
    dim: usize,
    state: usize,
    d: usize,
    in_f: usize,
    out_f: usize,
    params: usize,
    rows: usize,
    cols: usize,
)
    ensures
        scratch_shapes(LayerKind::AdaptiveDropout { features: f }, rows, cols) == seq![
            (rows as int, f as int),
            (rows as int, f as int),
        ],
        scratch_shapes(LayerKind::ConcreteDropout, rows, cols) == seq![(rows * cols, 1int)],
        scratch_shapes(LayerKind::IndRNN { seq_len, input_dim: dim }, rows, cols) == seq![
            (rows * seq_len * dim, 1int),
        ],
        scratch_shapes(LayerKind::Mamba { seq_len, input_dim: dim, state_dim: state }, rows, cols) == seq![
            (rows * seq_len * state, 1int),
        ],
        ({
            let s = scratch_shapes(
                LayerKind::LinearAttention {
                    seq_len,
                    d_model: d,
                    in_features: in_f,
                    out_features: out_f,
                    param_len: params,
                },
                rows,
                cols,
            );
            &&& s.len() == 7
            &&& forall|i: int| 0 <= i < 5 ==> #[trigger] s[i] == (rows * seq_len, d as int)
            &&& s[5] == (d * d, 1int)
            &&& s[6] == (d as int, 1int)
        }),
        ({
            let s = scratch_shapes(
                LayerKind::RelativePositionAttention {
                    seq_len,
                    d_model: d,
                    in_features: in_f,
                    out_features: out_f,
                    param_len: params,
                },
                rows,
                cols,
            );
            &&& s.len() == 5
            &&& forall|i: int| 0 <= i < 3 ==> #[trigger] s[i] == (rows * seq_len, d as int)
            &&& s[3] == (rows * seq_len, seq_len as int)
            &&& s[4] == (rows * seq_len, seq_len as int)
        }),
{
}

/// The parameter ranges each kernel reads, from the start `s` of its slice:
/// a linear layer's `out * in` weights then its `out` biases; a gate's one
/// threshold per input feature; an anchor's minima, maxima and one blend
/// factor; a dual-slope ReLU's and a learnable softplus's two blocks of one
/// value per feature; and one block for the others: one value for a mish or a
/// concrete dropout, two per feature for an RMS norm or an adaptive dropout,
/// one per feature and one more for a feature-selection gate, seven per
/// feature for an adaptive normalization, four per feature for a batch
/// renormalization, `out * (in + 1)` for a feature fusion, `12 * in * out +
/// out` for a multi-resolution KAN, `in * out + out + 1` for a
/// spectral-normed linear layer, and the declared count for attention.
pub proof fn law_parameter_ranges(in_f: usize, out_f: usize, f: usize, x: usize, n: usize, seq_len: usize, dim: usize, state: usize, params: usize, s: int)
    ensures
        kernel_views(LayerKind::Linear { in_features: in_f, out_features: out_f }, x as int, s) == seq![
            (s, in_f * out_f),
            (s + in_f * out_f, out_f as int),
        ],
        kernel_views(LayerKind::SoftSparseGate, x as int, s) == seq![(s, x as int)],
        kernel_views(LayerKind::SoftKeepGate, x as int, s) == seq![(s, x as int)],
        kernel_views(LayerKind::DualAnchor, x as int, s) == seq![(s, x as int), (s + x, x as int), (s + 2 * x, 1int)],
        kernel_views(LayerKind::DualSlopeReLU { features: f }, x as int, s) == seq![(s, f as int), (s + f, f as int)],
        kernel_views(LayerKind::LearnableSoftplus { features: f }, x as int, s) == seq![
            (s, f as int),
            (s + f, f as int),
        ],
        kernel_views(LayerKind::LearnableMish { features: f }, x as int, s) == seq![(s, 1int)],
        kernel_views(LayerKind::ConcreteDropout, x as int, s) == seq![(s, 1int)],
        kernel_views(LayerKind::RmsNorm { features: f }, x as int, s) == seq![(s, 2 * f)],
        kernel_views(LayerKind::AdaptiveDropout { features: f }, x as int, s) == seq![(s, 2 * f)],
        kernel_views(LayerKind::SparseFeatureSelectionGate { features: f }, x as int, s) == seq![(s, f + 1)],
        kernel_views(LayerKind::AdaptiveNormalization { features: f }, x as int, s) == seq![(s, 7 * f)],
        kernel_views(LayerKind::BatchRenorm { features: f }, x as int, s) == seq![(s, 4 * f)],
        kernel_views(LayerKind::AdaptiveActivation { in_features: in_f, num_activations: n }, x as int, s) == seq![
            (s, in_f * n),
        ],
        kernel_views(LayerKind::FeatureFusion { in_features: in_f, out_features: out_f }, x as int, s) == seq![
            (s, out_f * (in_f + 1)),
        ],
        kernel_views(LayerKind::MultiResolutionKAN { in_features: in_f, out_features: out_f }, x as int, s)
            == seq![(s, in_f * out_f * 12 + out_f)],
        kernel_views(LayerKind::SpectralNormLinear { in_features: in_f, out_features: out_f }, x as int, s)
            == seq![(s, in_f * out_f + out_f + 1)],
        kernel_views(LayerKind::IndRNN { seq_len, input_dim: dim }, x as int, s) == seq![(s, dim * dim + 2 * dim)],
        kernel_views(LayerKind::Mamba { seq_len, input_dim: dim, state_dim: state }, x as int, s) == seq![
            (s, state * state + state * dim + dim * state + 2),
        ],
        kernel_views(
            LayerKind::LinearAttention {
                seq_len,
                d_model: dim,
                in_features: in_f,
                out_features: out_f,
                param_len: params,
            },
            x as int,
            s,
        ) == seq![(s, params as int)],
        kernel_views(
            LayerKind::RelativePositionAttention {
                seq_len,
                d_model: dim,
                in_features: in_f,
                out_features: out_f,
                param_len: params,
            },
            x as int,
            s,
        ) == seq![(s, params as int)],
        kernel_views(LayerKind::ReLU, x as int, s).len() == 0,
        kernel_views(LayerKind::Sigmoid, x as int, s).len() == 0,
        kernel_views(LayerKind::Tanh, x as int, s).len() == 0,
        kernel_views(LayerKind::LeakyReLU, x as int, s).len() == 0,
        kernel_views(LayerKind::Identity, x as int, s).len() == 0,
        kernel_views(LayerKind::Softmax, x as int, s).len() == 0,
        kernel_views(LayerKind::Memory, x as int, s).len() == 0,
{
}

/// The activations whose derivative is read off their output (sigmoid, tanh,
/// softmax) keep their output for the backward pass; every other layer keeps
/// its input. Identity and memory layers read no context at all, whatever it
/// is; every other layer reads the buffer a context of its own kind holds.
pub proof fn law_saved_buffers(kind: LayerKind, c: DynamicContext)
    ensures
        saved_of(kind) == Saved::Output <==> (kind is Sigmoid || kind is Tanh || kind is Softmax),
        (kind is Identity || kind is Memory) ==> backward_saved(kind, c) == Some(None::<MatrixBufferHandle>),
        !(kind is Identity || kind is Memory) ==> backward_saved(kind, c) == match saved_buffer_spec(kind, c) {
            Some(b) => Some(Some(b)),
            None => None,
        },
{
}

} // verus!
