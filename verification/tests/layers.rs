use mllayers::conv1d::{Conv1d, Conv1dBuilder};
use mllayers::{
    BatchNorm1d, DropoutMode, GELU, Gelu, Layer, LayerNorm, Linear, LoraLinear, ParamShape, ReLU,
    Relu, Sequential, SiLUBackward, Silu, Tanh,
};

// ---- activations -------------------------------------------------------------

#[test]
fn test_gelu_has_no_parameters() {
    let gelu = GELU::new();
    assert!(gelu.parameters().is_empty());
}

#[test]
fn relu_test_parameters_returns_empty_vec() {
    let relu = ReLU::new();
    assert!(relu.parameters().is_empty());
}

#[test]
fn silu_test_parameters_returns_empty_vec() {
    let silu = Silu::new();
    assert!(silu.parameters().is_empty());
}

#[test]
fn test_tanh_has_no_parameters() {
    let t = Tanh::new();
    assert!(t.parameters().is_empty());
}

#[test]
fn activation_defaults_have_no_parameters() {
    assert_eq!(Gelu::default().parameter_count(), 0);
    assert_eq!(Relu::default().parameter_count(), 0);
    assert_eq!(Silu::default().parameter_count(), 0);
    assert_eq!(GELU::default().parameter_count(), 0);
    assert_eq!(ReLU::default().parameter_count(), 0);
    assert_eq!(Tanh::default().parameter_count(), 0);
}

#[test]
fn silu_backward_name() {
    assert_eq!(SiLUBackward.name(), "SiLUBackward");
}

// ---- parameter shapes and counts ---------------------------------------------------

#[test]
fn param_shape_numel_is_product() {
    assert_eq!(ParamShape::new(vec![3, 2]).numel(), 6);
    assert_eq!(ParamShape::new(vec![4, 0, 7]).numel(), 0);
    assert_eq!(ParamShape::new(vec![]).numel(), 1);
    assert_eq!(ParamShape::new(vec![2, 3, 4]).shape(), &[2, 3, 4]);
}

#[test]
fn test_new_creates_correct_parameter_shapes() {
    let layer = Linear::new(4, 3);
    assert_eq!(layer.in_features(), 4);
    assert_eq!(layer.out_features(), 3);
    let params = layer.parameters();
    assert_eq!(params.len(), 2);
    assert_eq!(params[0].shape(), &[3, 4]);
    assert_eq!(params[1].shape(), &[3]);
}

#[test]
fn linear_parameter_count_is_weight_plus_bias() {
    assert_eq!(Linear::new(4, 3).parameter_count(), 4 * 3 + 3);
    assert_eq!(Linear::new(3, 2).parameter_count(), 3 * 2 + 2);
}

#[test]
fn test_parameters_returns_gamma_and_beta() {
    let bn = BatchNorm1d::new(4);
    assert_eq!(bn.parameters().len(), 2);
    assert_eq!(bn.parameters()[0].shape(), &[4]);
    assert_eq!(bn.parameter_count(), 8);
}

#[test]
fn test_parameters_returns_weight_and_bias() {
    let layer = Conv1d::new(3, 8, 5);
    assert_eq!(layer.parameters().len(), 2);
}

#[test]
fn conv1d_parameter_shapes() {
    let layer = Conv1d::new(3, 8, 5);
    let params = layer.parameters();
    assert_eq!(params[0].shape(), &[8, 3, 5]);
    assert_eq!(params[1].shape(), &[8]);
    assert_eq!(layer.parameter_count(), 8 * 3 * 5 + 8);
}

#[test]
fn test_new_creates_correct_lora_matrix_shapes() {
    let layer = LoraLinear::new(8, 4, 2, false);
    let params = layer.parameters();
    assert_eq!(params.len(), 2);
    assert_eq!(params[0].shape(), &[8, 2], "lora_a shape");
    assert_eq!(params[1].shape(), &[2, 4], "lora_b shape");
}

#[test]
fn lora_parameter_count_counts_only_low_rank_factors() {
    let layer = LoraLinear::new(8, 4, 2, false);
    assert_eq!(layer.parameter_count(), 8 * 2 + 2 * 4);
}

#[test]
fn test_layer_norm_new_creates_correct_params() {
    let ln = LayerNorm::new(vec![4]);
    assert_eq!(ln.normalized_shape(), &[4]);
    assert_eq!(ln.parameters().len(), 2);
}

#[test]
fn layer_norm_parameters_span_flattened_block() {
    let ln = LayerNorm::new(vec![2, 3]);
    assert_eq!(ln.normalized_size(), 6);
    assert_eq!(ln.parameters()[0].shape(), &[6]);
    assert_eq!(ln.parameter_count(), 12);
}

// ---- Conv1d ---------------------------------------------------------------------

#[test]
fn test_conv1d_builder_defaults() {
    let layer = Conv1dBuilder::new(3, 8, 5).build();
    assert_eq!(layer.stride(), 1);
    assert_eq!(layer.padding(), 0);
    assert_eq!(layer.dilation(), 1);
}

#[test]
fn test_conv1d_builder_custom_config() {
    let layer = Conv1dBuilder::new(2, 4, 3).stride(2).padding(1).dilation(2).build();
    assert_eq!(layer.stride(), 2);
    assert_eq!(layer.padding(), 1);
    assert_eq!(layer.dilation(), 2);
}

#[test]
fn conv1d_with_setters_keep_channels() {
    let layer = Conv1d::new(2, 4, 3).with_stride(3).with_padding(2).with_dilation(5);
    assert_eq!(layer.in_channels(), 2);
    assert_eq!(layer.out_channels(), 4);
    assert_eq!(layer.kernel_size(), 3);
    assert_eq!(layer.stride(), 3);
    assert_eq!(layer.padding(), 2);
    assert_eq!(layer.dilation(), 5);
}

#[test]
fn conv1d_test_forward_output_shape() {
    let layer = Conv1d::new(2, 4, 3);
    assert_eq!(layer.output_shape(&[1, 2, 10]), vec![1, 4, 8]);
}

#[test]
fn conv1d_output_length_formula() {
    let layer = Conv1dBuilder::new(2, 4, 3).stride(2).padding(1).dilation(2).build();
    // (10 + 2 - 2 * 2 - 1) / 2 + 1
    assert_eq!(layer.output_length(10), 4);
    assert_eq!(Conv1d::new(1, 1, 3).output_length(3), 1);
}

#[test]
fn conv1d_input_and_output_positions_are_inverse() {
    let layer = Conv1dBuilder::new(2, 4, 3).stride(2).padding(1).dilation(2).build();
    assert_eq!(layer.input_position(0, 0, 10), None);
    assert_eq!(layer.input_position(0, 1, 10), Some(1));
    assert_eq!(layer.input_position(3, 2, 10), Some(9));
    assert_eq!(layer.output_position(9, 2, 10), Some(3));
    assert_eq!(layer.output_position(0, 0, 10), None);
    assert_eq!(layer.output_position(1, 0, 10), Some(1));
    assert_eq!(layer.input_position(1, 0, 10), Some(1));
    for o in 0..4 {
        for k in 0..3 {
            if let Some(p) = layer.input_position(o, k, 10) {
                assert_eq!(layer.output_position(p, k, 10), Some(o));
            }
        }
    }
}

#[test]
fn conv1d_forward_taps_skip_nothing_without_padding() {
    let layer = Conv1d::new(2, 4, 3);
    let taps = layer.forward_taps(1, 10, 0, 1, 2);
    assert_eq!(taps, vec![(2, 6), (3, 7), (4, 8), (12, 9), (13, 10), (14, 11)]);
}

#[test]
fn conv1d_backward_taps_route_gradients_back() {
    let layer = Conv1dBuilder::new(2, 4, 3).stride(2).padding(1).dilation(2).build();
    let taps = layer.backward_taps(1, 10, 0, 0, 1);
    assert_eq!(
        taps,
        vec![(1, 0), (0, 1), (5, 6), (4, 7), (9, 12), (8, 13), (13, 18), (12, 19)]
    );
    // every (output, weight) pair routed back to input 1 reads input 1 in the forward pass
    let input_idx = layer.input_flat_index(1, 10, 0, 0, 1);
    for oc in 0..4 {
        for o in 0..4 {
            let fwd = layer.forward_taps(1, 10, 0, oc, o);
            let out_idx = layer.output_flat_index(1, 10, 0, oc, o);
            for &(i, w) in fwd.iter() {
                if i == input_idx {
                    assert!(taps.contains(&(out_idx, w)));
                }
            }
        }
    }
}

// ---- BatchNorm1d ----------------------------------------------------------------

#[test]
fn batch_norm_layout_and_count() {
    let bn = BatchNorm1d::new(3);
    assert_eq!(bn.num_features(), 3);
    assert!(bn.is_training());
    assert_eq!(bn.layout(&[2, 3, 4]), (2, 4));
    assert_eq!(bn.layout(&[4, 3]), (4, 1));
    assert_eq!(bn.count(&[2, 3, 4]), 8);
}

#[test]
fn batch_norm_channel_indices() {
    let bn = BatchNorm1d::new(3);
    assert_eq!(bn.channel_indices(&[2, 3, 4], 1), vec![4, 5, 6, 7, 16, 17, 18, 19]);
    assert_eq!(bn.channel_indices(&[4, 3], 2), vec![2, 5, 8, 11]);
}

#[test]
fn batch_norm_channels_cover_input_once() {
    let bn = BatchNorm1d::new(3);
    let mut seen = vec![0usize; 24];
    for c in 0..3 {
        for i in bn.channel_indices(&[2, 3, 4], c) {
            seen[i] += 1;
        }
    }
    assert!(seen.iter().all(|&n| n == 1));
}

// ---- LayerNorm ------------------------------------------------------------------

#[test]
fn layer_norm_rows() {
    let ln = LayerNorm::new(vec![3]);
    assert_eq!(ln.row_length(&[2, 3]), 3);
    assert_eq!(ln.row_count(&[2, 3]), 2);
    assert_eq!(ln.row_count(&[4, 5, 3]), 20);
}

// ---- modes ----------------------------------------------------------------------

#[test]
fn dropout_mode_switches() {
    let mut d = DropoutMode::new();
    assert!(d.is_training());
    d.eval();
    assert!(!d.is_training());
    d.train();
    assert!(d.is_training());
}

#[test]
fn lora_eval_disables_dropout() {
    let mut layer = LoraLinear::new(8, 4, 2, true);
    assert!(layer.dropout_active());
    layer.eval();
    assert!(!layer.is_training());
    assert!(!layer.dropout_active());
    layer.train();
    assert!(layer.dropout_active());
}

#[test]
fn lora_without_dropout_never_drops() {
    let mut layer = LoraLinear::new(8, 4, 2, false);
    assert!(!layer.dropout_active());
    layer.train();
    assert!(!layer.dropout_active());
}

#[test]
fn lora_from_pretrained_reads_base_shape() {
    let layer = LoraLinear::from_pretrained(&[4, 8], 2, false);
    assert_eq!(layer.out_features(), 4);
    assert_eq!(layer.in_features(), 8);
    assert_eq!(layer.r(), 2);
    assert_eq!(layer.parameters()[0].shape(), &[8, 2]);
}

// ---- Sequential -----------------------------------------------------------------

#[test]
fn test_new_stores_layers() {
    let seq = Sequential::new(vec![Box::new(Linear::new(4, 3)), Box::new(ReLU::new())]);
    assert_eq!(seq.len(), 2);
}

#[test]
fn test_parameters_aggregates_all_sublayer_params() {
    let seq = Sequential::new(vec![Box::new(Linear::new(4, 3)), Box::new(Linear::new(3, 2))]);
    assert_eq!(seq.parameters().len(), 4);
}

#[test]
fn test_is_empty_returns_true_for_empty_container() {
    let seq = Sequential::new(vec![]);
    assert!(seq.is_empty());
}

#[test]
fn sequential_parameters_keep_child_order() {
    let seq = Sequential::new(vec![
        Box::new(Linear::new(4, 3)),
        Box::new(Relu::new()),
        Box::new(Linear::new(3, 2)),
    ]);
    let params = seq.parameters();
    assert_eq!(params[0].shape(), &[3, 4]);
    assert_eq!(params[1].shape(), &[3]);
    assert_eq!(params[2].shape(), &[2, 3]);
    assert_eq!(params[3].shape(), &[2]);
    assert!(!seq.is_empty());
}

#[test]
fn sequential_parameter_count_sums_children() {
    let net = Sequential::new(vec![
        Box::new(Linear::new(4, 3)),
        Box::new(Relu::new()),
        Box::new(Linear::new(3, 2)),
    ]);
    assert_eq!(net.parameter_count(), 4 * 3 + 3 + 3 * 2 + 2);
}
