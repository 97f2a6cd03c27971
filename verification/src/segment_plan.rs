use vstd::prelude::*;
use crate::buffer::MatrixBufferHandle;
use crate::context::DynamicContext;
use crate::kernels::{
    KernelPlanSpec, LayerKernelPlan, grad_input_cols, grad_input_features, kernel_plan_ok, layer_kernel_plan, plan_refused, saved_buffer,
    backward_saved,
};
use crate::layer::{LayerDesc, LayerKind, LayerSpec};
use crate::jobs::layers_view;
use crate::param_store::ParamSlice;

verus! {

/// The number of memory layers in a list of layers.
pub open spec fn memory_count(layers: Seq<LayerSpec>) -> nat
    decreases layers.len(),
{
    if layers.len() == 0 {
        0
    } else {
        memory_count(layers.drop_last()) + if layers.last().kind is Memory {
            1nat
        } else {
            0nat
        }
    }
}

/// One layer of a segment's forward pass: the width of its input, its kernel
/// plan and, for a memory layer, the memory slot it uses.
pub struct ForwardStep {
    pub in_cols: usize,
    pub plan: LayerKernelPlan,
    pub memory_slot: Option<usize>,
}

/// One layer of a segment's backward pass: which layer, the buffer its
/// context saved (none for a layer whose kernels read no context), its kernel
/// plan, and the widths of the gradient it reads
/// and of the gradient it gives back.
pub struct BackwardStep {
    pub layer: usize,
    pub saved: Option<MatrixBufferHandle>,
    pub plan: LayerKernelPlan,
    pub grad_cols: usize,
    pub grad_input_cols: usize,
}

/// The backward pass of a segment: whether the gradient buffer is cleared
/// before the kernels add into it, and the steps, last layer first.
pub struct BackwardPlan {
    pub clear_grads: bool,
    pub steps: Vec<BackwardStep>,
}

/// What a list of forward steps must be for the layers and slices of a
/// segment whose input has `in_cols` features.
pub open spec fn forward_steps_ok(
    layers: Seq<LayerSpec>,
    slices: Seq<ParamSlice>,
    in_cols: usize,
    steps: Seq<(usize, KernelPlanSpec, Option<usize>)>,
    n: int,
) -> bool {
    &&& steps.len() == n
    &&& n > 0 ==> steps[0].0 == in_cols
    &&& forall|k: int| 0 <= k < n ==> kernel_plan_ok(layers[k], slices[k].start, #[trigger] steps[k].0, steps[k].1)
    &&& forall|k: int| 0 <= k < n - 1 ==> #[trigger] steps[k + 1].0 == steps[k].1.out_features
    &&& forall|k: int|
        0 <= k < n ==> #[trigger] steps[k].2 == if layers[k].kind is Memory {
            Some(memory_count(layers.take(k)) as usize)
        } else {
            None
        }
}

/// The model of a list of forward steps.
pub open spec fn forward_steps_view(v: Seq<ForwardStep>) -> Seq<(usize, KernelPlanSpec, Option<usize>)> {
    v.map_values(|s: ForwardStep| (s.in_cols, s.plan@, s.memory_slot))
}

/// The number of layers a segment runs: its layers paired with its slices.
pub open spec fn paired(layers: Seq<LayerSpec>, slices: Seq<ParamSlice>) -> int {
    if layers.len() < slices.len() {
        layers.len() as int
    } else {
        slices.len() as int
    }
}

proof fn lemma_memory_count_step(layers: Seq<LayerSpec>, k: int)
    requires
        0 <= k < layers.len(),
    ensures
        memory_count(layers.take(k + 1)) == memory_count(layers.take(k)) + if layers[k].kind is Memory {
            1nat
        } else {
            0nat
        },
        memory_count(layers.take(k)) <= k,
    decreases k,
{
    assert(layers.take(k + 1).drop_last() =~= layers.take(k));
    if k > 0 {
        lemma_memory_count_step(layers, k - 1);
    } else {
        assert(layers.take(0) =~= Seq::<LayerSpec>::empty());
    }
}

/// Plans the forward pass of a segment's layers, each with its slice, on an
/// input of `in_cols` features: every layer reads the output of the one
/// before it, and the memory layers use the memory slots in their order.
/// `None` when the kernels cannot plan one of the layers.
pub fn plan_segment_forward(layers: &Vec<LayerDesc>, slices: &Vec<ParamSlice>, in_cols: usize) -> (r: Option<
    Vec<ForwardStep>,
>)
    ensures
        r is None <==> exists|k: int|
            0 <= k < paired(layers_view(layers@), slices@) && #[trigger] plan_refused(
                layers_view(layers@)[k],
                slices@[k].start,
            ),
        r matches Some(steps) ==> forward_steps_ok(
            layers_view(layers@),
            slices@,
            in_cols,
            forward_steps_view(steps@),
            paired(layers_view(layers@), slices@),
        ),
{
    let ghost lv = layers_view(layers@);
    let n = if layers.len() < slices.len() {
        layers.len()
    } else {
        slices.len()
    };
    let mut steps: Vec<ForwardStep> = Vec::new();
    let mut current = in_cols;
    let mut memory_idx: usize = 0;
    let mut k: usize = 0;
    while k < n
        invariant
            n == paired(lv, slices@),
            lv == layers_view(layers@),
            k <= n,
            memory_idx == memory_count(lv.take(k as int)),
            memory_idx <= k,
            forall|j: int| 0 <= j < k ==> !#[trigger] plan_refused(lv[j], slices@[j].start),
            forward_steps_ok(lv, slices@, in_cols, forward_steps_view(steps@), k as int),
            k > 0 ==> current == steps@[k - 1].plan.out_features,
            k == 0 ==> current == in_cols,
        decreases n - k,
    {
        let d = &layers[k];
        proof {
            assert(lv[k as int] == d@);
            lemma_memory_count_step(lv, k as int);
        }
        let plan = match layer_kernel_plan(d, slices[k].start, current) {
            Some(p) => p,
            None => {
                assert(plan_refused(lv[k as int], slices@[k as int].start));
                return None;
            },
        };
        let slot = if plan.memory_slot {
            let s = memory_idx;
            memory_idx = memory_idx + 1;
            Some(s)
        } else {
            None
        };
        let out = plan.out_features;
        let ghost before = forward_steps_view(steps@);
        steps.push(ForwardStep { in_cols: current, plan, memory_slot: slot });
        proof {
            assert(forward_steps_view(steps@) =~= before.push((current, steps@[k as int].plan@, slot)));
        }
        current = out;
        k = k + 1;
    }
    Some(steps)
}

/// What a backward plan must be for the layers, slices and contexts of a
/// segment of `n` layers, whose gradient buffer is `grads` and whose output
/// gradient has `grad_cols` features.
pub open spec fn backward_steps_ok(
    layers: Seq<LayerSpec>,
    slices: Seq<ParamSlice>,
    contexts: Seq<DynamicContext>,
    grad_cols: usize,
    steps: Seq<(usize, Option<MatrixBufferHandle>, KernelPlanSpec, usize, usize)>,
    n: int,
) -> bool {
    &&& steps.len() == n
    &&& n > 0 ==> steps[0].3 == grad_cols
    &&& forall|i: int|
        0 <= i < n ==> {
            let j = n - 1 - i;
            let s = #[trigger] steps[i];
            &&& s.0 == j
            &&& backward_saved(layers[j].kind, contexts[j]) == Some(s.1)
            &&& kernel_plan_ok(layers[j], slices[j].start, s.3, s.2)
            &&& s.4 == grad_input_cols(layers[j].kind, s.3)
        }
    &&& forall|i: int| 0 <= i < n - 1 ==> #[trigger] steps[i + 1].3 == steps[i].4
}

/// The model of a list of backward steps.
pub open spec fn backward_steps_view(v: Seq<BackwardStep>) -> Seq<
    (usize, Option<MatrixBufferHandle>, KernelPlanSpec, usize, usize),
> {
    v.map_values(|s: BackwardStep| (s.layer, s.saved, s.plan@, s.grad_cols, s.grad_input_cols))
}

/// True when the backward pass of layer `j` cannot be planned: its kernels
/// refuse it, or its kernels read a context and its context is not one of
/// its kind.
pub open spec fn backward_refused(layers: Seq<LayerSpec>, slices: Seq<ParamSlice>, contexts: Seq<DynamicContext>, j: int) -> bool {
    plan_refused(layers[j], slices[j].start) || backward_saved(layers[j].kind, contexts[j]) is None
}

/// Plans the backward pass of a segment's layers, last layer first, on an
/// output gradient of `grad_cols` features: each layer reads the gradient the
/// layer after it gave back and the buffer its context saved, if its kernels
/// read one. The gradient
/// buffer `grads` is cleared first when it is a device buffer that holds
/// something. `None` when a layer cannot be planned or reads a context that
/// does not fit it.
pub fn plan_segment_backward(
    layers: &Vec<LayerDesc>,
    slices: &Vec<ParamSlice>,
    contexts: &Vec<DynamicContext>,
    grad_cols: usize,
    grads: &MatrixBufferHandle,
) -> (r: Option<BackwardPlan>)
    requires
        contexts@.len() == layers@.len(),
        slices@.len() == layers@.len(),
    ensures
        r is None <==> exists|j: int|
            0 <= j < layers@.len() && #[trigger] backward_refused(layers_view(layers@), slices@, contexts@, j),
        r matches Some(p) ==> {
            &&& p.clear_grads == (grads.location is DeviceVram && grads.rows > 0 && grads.cols > 0)
            &&& backward_steps_ok(
                layers_view(layers@),
                slices@,
                contexts@,
                grad_cols,
                backward_steps_view(p.steps@),
                layers@.len() as int,
            )
        },
{
    let ghost lv = layers_view(layers@);
    let clear_grads = grads.is_gpu() && grads.rows() > 0 && grads.cols() > 0;
    let n = layers.len();
    let mut steps: Vec<BackwardStep> = Vec::new();
    let mut current = grad_cols;
    let mut i: usize = 0;
    while i < n
        invariant
            n == layers@.len(),
            n == contexts@.len(),
            n == slices@.len(),
            lv == layers_view(layers@),
            i <= n,
            forall|t: int| n - i <= t < n ==> !#[trigger] backward_refused(lv, slices@, contexts@, t),
            steps@.len() == i,
            i > 0 ==> current == steps@[i - 1].grad_input_cols,
            i == 0 ==> current == grad_cols,
            i > 0 ==> steps@[0].grad_cols == grad_cols,
            forall|t: int|
                0 <= t < i ==> {
                    let j = n - 1 - t;
                    let s = #[trigger] backward_steps_view(steps@)[t];
                    &&& s.0 == j
                    &&& backward_saved(lv[j].kind, contexts@[j]) == Some(s.1)
                    &&& kernel_plan_ok(lv[j], slices@[j].start, s.3, s.2)
                    &&& s.4 == grad_input_cols(lv[j].kind, s.3)
                },
            forall|t: int| 0 <= t < i - 1 ==> #[trigger] steps@[t + 1].grad_cols == steps@[t].grad_input_cols,
        decreases n - i,
    {
        let j = n - 1 - i;
        let d = &layers[j];
        proof {
            assert(lv[j as int] == d@);
        }
        let saved = match saved_buffer(d.kind, &contexts[j]) {
            Some(s) => s,
            None => {
                assert(backward_refused(lv, slices@, contexts@, j as int));
                return None;
            },
        };
        let plan = match layer_kernel_plan(d, slices[j].start, current) {
            Some(p) => p,
            None => {
                assert(backward_refused(lv, slices@, contexts@, j as int));
                return None;
            },
        };
        let gi = grad_input_features(d.kind, current);
        let ghost prev = steps@;
        steps.push(BackwardStep { layer: j, saved, plan, grad_cols: current, grad_input_cols: gi });
        proof {
            assert forall|t: int| 0 <= t < i + 1 implies {
                let jj = n - 1 - t;
                let s = #[trigger] backward_steps_view(steps@)[t];
                &&& s.0 == jj
                &&& backward_saved(lv[jj].kind, contexts@[jj]) == Some(s.1)
                &&& kernel_plan_ok(lv[jj], slices@[jj].start, s.3, s.2)
                &&& s.4 == grad_input_cols(lv[jj].kind, s.3)
            } by {
                if t < i {
                    assert(steps@[t] == prev[t]);
                    assert(backward_steps_view(steps@)[t] == backward_steps_view(prev)[t]);
                }
            }
        }
        current = gi;
        i = i + 1;
    }
    proof {
        assert(backward_steps_view(steps@).len() == n);
        assert forall|t: int| 0 <= t < n - 1 implies #[trigger] backward_steps_view(steps@)[t + 1].3
            == backward_steps_view(steps@)[t].4 by {
            assert(steps@[t + 1].grad_cols == steps@[t].grad_input_cols);
        }
    }
    Some(BackwardPlan { clear_grads, steps })
}

} // verus!
