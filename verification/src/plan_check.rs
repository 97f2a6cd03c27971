use vstd::prelude::*;
use crate::buffer::MemoryDeviceKind;
use crate::builder::{BuildModel, build_defined, run_panics};
use crate::builder_laws::{lemma_prefix_push, requested_params};
use crate::jobs::layers_view;
use crate::layer::{LayerDesc, LayerKind, LayerSpec, is_processing_kind};
use crate::mixed_model::buildable;
use crate::model_builder::{group_run_panics, lemma_requested_prefix};
use crate::param_store::{StoreSpec, total_len};

verus! {

/// A layer that reads its first input stream has one, and a combiner has its
/// output stream.
pub open spec fn stream_read_ok(d: LayerSpec) -> bool {
    &&& (is_processing_kind(d.kind) || d.kind is Splitter || d.kind is Combiner) ==> d.input.len() > 0
    &&& d.kind is Combiner ==> d.output.len() > 0
}

/// Every layer of the list has the streams it reads.
pub open spec fn streams_present(layers: Seq<LayerSpec>) -> bool {
    forall|i: int| 0 <= i < layers.len() ==> stream_read_ok(#[trigger] layers[i])
}

proof fn lemma_streams_present_prefix(layers: Seq<LayerSpec>)
    requires
        streams_present(layers),
        layers.len() > 0,
    ensures
        streams_present(layers.drop_last()),
        stream_read_ok(layers.last()),
{
    assert forall|i: int| 0 <= i < layers.drop_last().len() implies stream_read_ok(#[trigger] layers.drop_last()[i]) by {
        assert(layers.drop_last()[i] == layers[i]);
    }
    assert(stream_read_ok(layers[layers.len() - 1]));
}

/// Building segments never panics on layers that have the streams they read.
pub proof fn lemma_streams_present_builds(layers: Seq<LayerSpec>, m0: BuildModel, kind: MemoryDeviceKind)
    requires
        streams_present(layers),
    ensures
        !run_panics(layers, m0, kind),
    decreases layers.len(),
{
    if layers.len() > 0 {
        lemma_streams_present_prefix(layers);
        lemma_streams_present_builds(layers.drop_last(), m0, kind);
    }
}

/// Grouping layers into units never panics on layers that have the streams they read.
pub proof fn lemma_streams_present_groups(layers: Seq<LayerSpec>, store: StoreSpec)
    requires
        streams_present(layers),
    ensures
        !group_run_panics(layers, store),
    decreases layers.len(),
{
    if layers.len() > 0 {
        lemma_streams_present_prefix(layers);
        lemma_streams_present_groups(layers.drop_last(), store);
    }
}

/// Whether every layer has the streams it reads.
pub fn layers_have_streams(layers: &Vec<LayerDesc>) -> (r: bool)
    ensures
        r == streams_present(layers_view(layers@)),
{
    let ghost lv = layers_view(layers@);
    let mut i: usize = 0;
    while i < layers.len()
        invariant
            i <= layers@.len(),
            lv == layers_view(layers@),
            forall|j: int| 0 <= j < i ==> stream_read_ok(#[trigger] lv[j]),
        decreases layers@.len() - i,
    {
        let d = &layers[i];
        proof {
            assert(lv[i as int] == d@);
        }
        let reads_input = match d.kind {
            LayerKind::SplitterConnector | LayerKind::CombinerConnector | LayerKind::Unsqueeze
            | LayerKind::ReduceMean => false,
            _ => true,
        };
        if reads_input && d.input_shape.streams.len() == 0 {
            return false;
        }
        let is_combiner = match d.kind {
            LayerKind::Combiner => true,
            _ => false,
        };
        if is_combiner && d.output_shape.streams.len() == 0 {
            return false;
        }
        i = i + 1;
    }
    true
}

/// The number of parameters the layers ask for, or `None` when it does not
/// fit in a `usize`.
pub fn requested_param_count(layers: &Vec<LayerDesc>) -> (r: Option<usize>)
    ensures
        r == if requested_params(layers_view(layers@)) <= usize::MAX {
            Some(requested_params(layers_view(layers@)) as usize)
        } else {
            None::<usize>
        },
{
    let ghost lv = layers_view(layers@);
    let mut acc: usize = 0;
    let mut i: usize = 0;
    while i < layers.len()
        invariant
            i <= layers@.len(),
            lv == layers_view(layers@),
            acc == requested_params(lv.take(i as int)),
        decreases layers@.len() - i,
    {
        let d = &layers[i];
        proof {
            assert(lv[i as int] == d@);
            assert(lv.take(i + 1) =~= lv.take(i as int).push(lv[i as int]));
            lemma_prefix_push(lv.take(i as int), lv[i as int]);
        }
        let counts = match d.kind {
            LayerKind::SplitterConnector | LayerKind::CombinerConnector | LayerKind::Unsqueeze
            | LayerKind::ReduceMean => false,
            _ => true,
        };
        if counts {
            match acc.checked_add(d.param_count) {
                Some(a) => {
                    acc = a;
                },
                None => {
                    proof {
                        lemma_requested_prefix(lv, i + 1);
                    }
                    return None;
                },
            }
        }
        i = i + 1;
    }
    proof {
        assert(lv.take(i as int) =~= lv);
    }
    Some(acc)
}

/// Whether a mixed model can be built from the layers: there is a layer,
/// every layer has the streams it reads, and the parameters and buffer
/// identifiers the layers need fit.
pub fn mixed_model_buildable(layers: &Vec<LayerDesc>) -> (r: bool)
    ensures
        r == (layers@.len() > 0 && streams_present(layers_view(layers@)) && requested_params(
            layers_view(layers@),
        ) <= usize::MAX && 2 * layers@.len() <= u64::MAX),
        r ==> buildable(layers_view(layers@)),
{
    if layers.len() == 0 {
        return false;
    }
    if !layers_have_streams(layers) {
        return false;
    }
    let fits = match requested_param_count(layers) {
        Some(_) => true,
        None => false,
    };
    if !fits {
        return false;
    }
    if layers.len() as u64 > u64::MAX / 2 {
        return false;
    }
    proof {
        let st = StoreSpec { buffers: Seq::empty(), next_id: 0 };
        lemma_streams_present_groups(layers_view(layers@), st);
        assert(total_len(st.buffers) == 0);
    }
    true
}

/// Whether a graph can be built from the layers without reading a stream a
/// layer does not have.
pub fn graph_buildable(layers: &Vec<LayerDesc>) -> (r: bool)
    ensures
        r == (layers@.len() < usize::MAX && streams_present(layers_view(layers@))),
        r ==> build_defined(
            layers_view(layers@),
            StoreSpec { buffers: Seq::empty(), next_id: 0 },
            MemoryDeviceKind::HostRam,
        ),
{
    if layers.len() == usize::MAX {
        return false;
    }
    let ok = layers_have_streams(layers);
    proof {
        if ok {
            lemma_streams_present_builds(
                layers_view(layers@),
                crate::builder::initial_model(StoreSpec { buffers: Seq::empty(), next_id: 0 }),
                MemoryDeviceKind::HostRam,
            );
        }
    }
    ok
}

} // verus!
