//! Neural-network layers — Linear, Conv1d, BatchNorm1d, LayerNorm, LoRA, dropout and
//! activations — as far as their configuration, parameter shapes, input checks, index
//! routing and modes go.
pub mod activations;
pub mod batch_norm;
pub mod conv1d;
pub mod dropout;
pub mod index;
pub mod layer;
pub mod layer_norm;
pub mod linear;
pub mod lora_linear;
pub mod sequential;
pub mod shape;

pub use activations::{GELU, Gelu, ReLU, Relu, SiLUBackward, Silu, Tanh};
pub use batch_norm::BatchNorm1d;
pub use conv1d::{Conv1d, Conv1dBuilder};
pub use dropout::DropoutMode;
pub use layer::Layer;
pub use layer_norm::LayerNorm;
pub use linear::Linear;
pub use lora_linear::LoraLinear;
pub use sequential::Sequential;
pub use shape::ParamShape;
