# mllayers

Neural-network layers (Linear, Conv1d, BatchNorm1d, LayerNorm, LoRA, dropout, Sequential and
activations).

- `src/` is the verified library: layer configurations, the shapes of their learnable
  parameters and their element counts, input shape checks, output geometry, the flat index
  routing of the convolution (forward and backward) and of batch normalization, the row
  layout of layer normalization, and the training/evaluation modes of dropout and LoRA.
  Proved laws include: the parameter count is the sum of the parameter element counts;
  the convolution's gradient routing is exactly the adjoint of its forward routing; the
  channels of batch normalization partition the input; the modes of a LoRA layer and its
  dropout stay in step.
- `app/` holds the tensor-level layers on top of `mlautograd`: weight initialization, the
  floating-point forward and backward passes and tape recording, which call into `src/`
  for every shape, index and mode decision.
- `tests/` exercises the library on concrete values.
