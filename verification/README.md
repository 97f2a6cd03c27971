# neurocore compute manager

The compute manager of neurocore turns a list of layer descriptions into an
execution graph, keeps the learnable parameters of that graph, and drives the
forward and backward passes through a distributor that runs the work on CPU
threads or GPUs.

The library (`src/`) is written in Verus: every function carries a contract
and is proved against it.

- `layer`, `buffer`, `context`, `jobs`: layer descriptions, buffer handles,
  saved contexts, and the jobs and answers exchanged with the distributor.
- `param_store`: the parameter buffers, their allocation, their placement and
  how one flat vector of values is cut over them.
- `builder`, `builder_laws`, `plan_check`: grouping layers into segments
  (universal runs of ordinary layers, dimension changes, learnable
  connectors), with the laws of that grouping, and the checks a layer list
  passes before it is built.
- `forward`, `backward`, `graph`, `graph_v2`: the steps and the passes of the
  segment graph, its forward cache and the graph facade (cache lifecycle,
  adapter targets, placement facts, optimizer and initialisation ranges).
- `model`, `model_builder`, `mixed_model`, `model_passes`: the unit-based
  mixed model, its construction for a device plan, parameter migration, and
  the stream bookkeeping of its passes.
- `kernels`, `segment_plan`: what the kernels of each ordinary layer read,
  produce and keep, and the plan of a segment's forward pass (widths, memory
  slots) and backward pass (reverse order, saved buffers, gradient clearing).
- `unit_route`: how a unit of a mixed model runs a stream (GPU, split over
  the workers, or in order) and the record of the contexts its passes keep.
- `text`: the decimal numbers and segment headers the error messages use.
- `device_plan`, `threads`, `executor`, `gpu`, `observer`, `tensor_layout`,
  `logger`: device plans and thread splitting, the GPU executor, GPU facts,
  the observer's decisions, row/column-major layouts and log buffers.

`app/` holds what runs around the library: Vulkan discovery and context
creation, thread-local logging, the floating-point training observer, and the
drivers that hand jobs to a distributor and layers to device kernels.
