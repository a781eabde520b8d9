//! Unit checks of the model descriptor arithmetic, the tensor-view algebra,
//! the weight window, the batch assembler, and the compaction scan.

use transformer::batch::{
    packed_tokens, pos, sort_requests, total_token_count, validate_requests, Request,
};
use transformer::compact::{decode_indices, move_decode};
use transformer::config::{aligned_header_len, tensor_name, DataType, LlamaConfig, WeightId};
use transformer::parameters::{LayersParameters, ModelParameters};
use transformer::storage::{BufId, GlobalKind, WeightKind};
use transformer::tensor::Tensor;
use transformer::Error;

fn toy_config() -> LlamaConfig {
    LlamaConfig {
        bos_token_id: 1,
        eos_token_id: 2,
        hidden_size: 8,
        intermediate_size: 16,
        max_position_embeddings: 32,
        num_attention_heads: 2,
        num_hidden_layers: 2,
        num_key_value_heads: 1,
        vocab_size: 16,
        rms_norm_eps_bits: 0x3727c5ac,
        rope_theta_bits: 0x461c4000,
        data_type: DataType::F16,
    }
}

fn req(id: u32, tokens: Vec<u32>, pos: u32, decode: bool) -> Request<u32> {
    Request { id, tokens, pos, decode }
}

#[test]
fn config_derived_sizes() {
    let cfg = toy_config();
    assert!(cfg.validate().is_ok());
    assert_eq!(cfg.head_dim(), 4);
    assert_eq!(cfg.kv_hidden_size(), 4);
    // elements: 128+16+128+64+64+128+16+256+256+256+8+128 = 1448, two bytes each
    assert_eq!(cfg.size(), 2896);
}

#[test]
fn config_rejects_indivisible_heads() {
    let mut cfg = toy_config();
    cfg.hidden_size = 9;
    assert_eq!(cfg.validate().unwrap_err(), Error::ConfigParse);
}

#[test]
fn dtype_sizes() {
    assert_eq!(DataType::F16.size(), 2);
    assert_eq!(DataType::BF16.size(), 2);
    assert_eq!(DataType::F32.size(), 4);
    assert_eq!(DataType::U32.size(), 4);
}

#[test]
fn tensor_views() {
    let t = Tensor::new(DataType::F16, vec![3, 4, 5], BufId::X0);
    assert_eq!(t.strides, vec![20, 5, 1]);
    assert_eq!(t.offset, 0);
    let s = t.slice_axis(1, 2, 2);
    assert_eq!(s.shape, vec![3, 2, 5]);
    assert_eq!(s.strides, vec![20, 5, 1]);
    assert_eq!(s.offset, 10);
    let p = t.transpose_axes(0, 2);
    assert_eq!(p.shape, vec![5, 4, 3]);
    assert_eq!(p.strides, vec![1, 5, 20]);
    let m = Tensor::new(DataType::F16, vec![4, 6], BufId::X1);
    let sp = m.split_last_axis(2, 3);
    assert_eq!(sp.shape, vec![4, 2, 3]);
    assert_eq!(sp.strides, vec![6, 3, 1]);
    let rs = Tensor::new(DataType::F16, vec![4, 6], BufId::X1).reshape(vec![2, 12]);
    assert_eq!(rs.shape, vec![2, 12]);
    assert_eq!(rs.strides, vec![12, 1]);
}

#[test]
fn window_rotates_slots() {
    let cfg = toy_config();
    // W = 1 over L = 2
    let (mut w, stages) = LayersParameters::new(&cfg, 1, 5);
    assert_eq!(stages.len(), 1);
    assert_eq!(w.layers[0].layer, 0);
    // layer 0: preloaded, load is a no-op
    assert!(w.load(&cfg, 0, 100).is_none());
    let p = w.sync(0);
    assert_eq!(p.layer, 0);
    assert_eq!(p.sync_event, 5);
    // layer 1: the slot is stale and gets restaged
    let st = w.load(&cfg, 1, 101).unwrap();
    assert_eq!(st.slot, 0);
    assert_eq!(st.layer, 1);
    assert_eq!(st.event, 101);
    let p = w.sync(1);
    assert_eq!(p.layer, 1);
    assert_eq!(p.sync_event, 101);
}

#[test]
fn sort_is_stable_partition() {
    let rs = vec![
        req(0, vec![1], 0, true),
        req(1, vec![1, 2], 0, true),
        req(2, vec![3], 5, true),
        req(3, vec![4, 5, 6], 0, false),
    ];
    let sorted = sort_requests(rs);
    let ids: Vec<u32> = sorted.iter().map(|r| r.id).collect();
    assert_eq!(ids, vec![1, 3, 0, 2]);
}

#[test]
fn packing_follows_request_order() {
    let rs = vec![req(0, vec![4, 5], 0, true), req(1, vec![9], 7, true)];
    assert_eq!(total_token_count(&rs), 3);
    assert_eq!(packed_tokens(&rs, 3), vec![4, 5, 9]);
    assert_eq!(pos(&rs, 3), vec![0, 1, 7]);
}

#[test]
fn validation_errors() {
    let cfg = toy_config();
    let bad_token = vec![req(0, vec![99], 0, true)];
    assert_eq!(
        validate_requests(&bad_token, &cfg).unwrap_err(),
        Error::TokenOutOfRange
    );
    let too_long = vec![req(0, vec![1, 2], 31, true)];
    assert_eq!(
        validate_requests(&too_long, &cfg).unwrap_err(),
        Error::ShapeMismatch
    );
    let at_limit = vec![req(0, vec![1, 2], 30, true)];
    assert!(validate_requests(&at_limit, &cfg).is_ok());
}

#[test]
fn compaction_scan() {
    // last rows: r0 at 1 (decode), r1 at 3 (no), r2 at 4 (decode), r3 at 6 (decode)
    let rs = vec![
        req(0, vec![1, 2], 0, true),
        req(1, vec![3, 4], 0, false),
        req(2, vec![5], 4, true),
        req(3, vec![6, 7], 0, true),
    ];
    let plan = move_decode(&rs).unwrap();
    assert_eq!(plan.begin, 1);
    assert_eq!(plan.end, 4);
    assert_eq!(plan.copies, vec![(2, 4), (3, 6)]);
    assert_eq!(decode_indices(&rs), vec![0, 2, 3]);
}

#[test]
fn compaction_without_decode() {
    let rs = vec![req(0, vec![1, 2], 0, false)];
    assert!(move_decode(&rs).is_none());
    assert!(decode_indices(&rs).is_empty());
}

#[test]
fn stored_tensor_catalog() {
    let cfg = toy_config();
    let entries = cfg.tensors();
    assert_eq!(entries.len(), 3 + 6 * 2);
    assert_eq!(entries[0].id, WeightId::EmbedTokens);
    assert_eq!(entries[0].shape, vec![16, 8]);
    assert_eq!(entries[0].start, 0);
    assert_eq!(entries[0].end, 16 * 8 * 2);
    // the ranges are back to back and cover exactly the weight bytes
    for w in entries.windows(2) {
        assert_eq!(w[1].start, w[0].end);
    }
    assert_eq!(entries.last().unwrap().end, cfg.size());
    assert_eq!(entries[1].id, WeightId::InputLayernorm(0));
    assert_eq!(entries[2].id, WeightId::WQkv(0));
    assert_eq!(entries[2].shape, vec![8 + 2 * 4, 8]);
    assert_eq!(entries[7].id, WeightId::InputLayernorm(1));
    assert_eq!(entries[13].id, WeightId::ModelNorm);
    assert_eq!(entries[14].id, WeightId::LmHead);
    assert_eq!(entries[14].shape, vec![16, 8]);
}

#[test]
fn stored_tensor_names() {
    assert_eq!(tensor_name(WeightId::EmbedTokens), "model.embed_tokens.weight");
    assert_eq!(
        tensor_name(WeightId::WQkv(0)),
        "model.layers.0.self_attn.qkv_proj.weight"
    );
    assert_eq!(
        tensor_name(WeightId::PostAttentionLayernorm(12)),
        "model.layers.12.post_attention_layernorm.weight"
    );
    assert_eq!(
        tensor_name(WeightId::MlpGateUp(105)),
        "model.layers.105.mlp.gate_up_proj.weight"
    );
    assert_eq!(tensor_name(WeightId::ModelNorm), "model.norm.weight");
    assert_eq!(tensor_name(WeightId::LmHead), "lm_head.weight");
}

#[test]
fn header_alignment() {
    assert_eq!(aligned_header_len(0), 0);
    assert_eq!(aligned_header_len(1), 8);
    assert_eq!(aligned_header_len(8), 8);
    assert_eq!(aligned_header_len(9), 16);
    assert_eq!(aligned_header_len(16), 16);
}

#[test]
fn teardown_returns_every_allocation() {
    let cfg = toy_config();
    let (w, _) = LayersParameters::new(&cfg, 2, 1);
    let freed = w.kill();
    assert_eq!(freed.len(), 12);
    assert_eq!(freed[0], BufId::SlotWeight(0, WeightKind::InputLayernorm));
    assert_eq!(freed[11], BufId::SlotWeight(1, WeightKind::MlpDown));
    let m = ModelParameters::new(&cfg, 0);
    let (ev, norm, head) = m.release();
    assert_eq!(ev, 0);
    assert_eq!(norm.physical, BufId::Global(GlobalKind::ModelNorm));
    assert_eq!(head.physical, BufId::Global(GlobalKind::LmHead));
    // lm_head is uploaded transposed: device shape [D, V], strides [1, D]
    assert_eq!(head.shape, vec![8, 16]);
    assert_eq!(head.strides, vec![1, 8]);
    let freed = m.kill();
    assert_eq!(
        freed,
        vec![
            BufId::Global(GlobalKind::ModelNorm),
            BufId::Global(GlobalKind::LmHead)
        ]
    );
}
