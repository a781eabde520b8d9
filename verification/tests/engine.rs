//! End-to-end plan scenarios on the toy model: V=16, D=8, NH=2, NKVH=1,
//! DH=4, DI=16, L=2, MP=32, F16.

use transformer::batch::Request;
use transformer::config::{DataType, LlamaConfig};
use transformer::driver::NvidiaTransformer;
use transformer::kernel::Step;
use transformer::Error;

fn toy_config() -> LlamaConfig {
    LlamaConfig {
        bos_token_id: 1,
        eos_token_id: 2,
        hidden_size: 8,
        intermediate_size: 16,
        max_position_embeddings: 32,
        num_attention_heads: 2,
        num_hidden_layers: 2,
        num_key_value_heads: 1,
        vocab_size: 16,
        rms_norm_eps_bits: 0x3727c5ac, // 1e-5f32
        rope_theta_bits: 0x461c4000,   // 1e4f32
        data_type: DataType::F16,
    }
}

fn req(id: u32, tokens: Vec<u32>, pos: u32, decode: bool) -> Request<u32> {
    Request { id, tokens, pos, decode }
}

#[test]
fn single_request_window_one() {
    let cfg = toy_config();
    let (mut engine, stages) = NvidiaTransformer::new(cfg, 1, 64).unwrap();
    assert_eq!(stages.len(), 1);
    assert_eq!(stages[0].slot, 0);
    assert_eq!(stages[0].layer, 0);
    assert_eq!(stages[0].event, 1);
    assert_eq!(engine.model.sync_event, 0);
    assert_eq!(engine.next_event, 2);
    let plan = engine
        .decode(vec![req(7, vec![1, 2, 3], 0, true)])
        .unwrap();
    assert_eq!(plan.nt, 3);
    assert_eq!(plan.requests.len(), 1);
    assert_eq!(plan.requests[0].id, 7);
    // one decode-eligible request: one logits row
    assert_eq!(plan.decode_indices, vec![0]);
    let out = plan.output.as_ref().unwrap();
    assert_eq!(out.compaction.begin, 2);
    assert_eq!(out.compaction.end, 3);
    assert!(out.compaction.copies.is_empty());
    assert_eq!(plan.layers.len(), 2);
    for (l, lp) in plan.layers.iter().enumerate() {
        assert_eq!(lp.layer, l);
        assert_eq!(lp.slot, 0); // W == 1: the single slot serves every layer
        assert_eq!(lp.attention.len(), 1);
        let a = &lp.attention[0];
        assert_eq!(a.seq_len, 3);
        assert_eq!(a.pos, 0);
        assert_eq!(a.att_len, 3);
        // the cache append covers positions 0..3: offset pos*DH == 0
        match &a.reform_k {
            Step::Reform { dst, .. } => {
                assert_eq!(dst.offset, 0);
                assert_eq!(dst.shape, vec![1, 3, 4]);
                assert_eq!(dst.strides, vec![32 * 4, 4, 1]);
            }
            _ => panic!("reform_k is not a reform"),
        }
        // causal softmax over [NH, sl, att_len]
        match &a.softmax {
            Step::Softmax { x } => assert_eq!(x.shape, vec![2, 3, 3]),
            _ => panic!("softmax step mismatch"),
        }
    }
}

#[test]
fn two_requests_batched_compaction() {
    let cfg = toy_config();
    let (mut engine, _) = NvidiaTransformer::new(cfg, 2, 64).unwrap();
    // r0 prefill [4,5] pos 0; r1 pure decode [9] pos 7: r1 sorts last
    let plan = engine
        .decode(vec![
            req(11, vec![9], 7, true),
            req(10, vec![4, 5], 0, true),
        ])
        .unwrap();
    assert_eq!(plan.nt, 3);
    assert_eq!(plan.requests.len(), 2);
    assert_eq!(plan.requests[0].id, 10);
    assert_eq!(plan.requests[1].id, 11);
    // decode rows: r0's last row already at 1, r1's row at 2 == dst: no copy
    let out = plan.output.as_ref().unwrap();
    assert_eq!(out.compaction.begin, 1);
    assert_eq!(out.compaction.end, 3);
    assert!(out.compaction.copies.is_empty());
    assert_eq!(plan.decode_indices, vec![0, 1]);
    // r1 attends over history: att_len = 7 + 1
    let a1 = &plan.layers[0].attention[1];
    assert_eq!(a1.att_len, 8);
    match &a1.reform_k {
        Step::Reform { dst, .. } => assert_eq!(dst.offset, 7 * 4),
        _ => panic!("reform_k is not a reform"),
    }
}

#[test]
fn compaction_copies_over_gap() {
    let cfg = toy_config();
    let (mut engine, _) = NvidiaTransformer::new(cfg, 2, 64).unwrap();
    // r1 does not decode: r2's row must be copied down over the gap
    let plan = engine
        .decode(vec![
            req(0, vec![1, 2], 0, true),
            req(1, vec![3, 4], 0, false),
            req(2, vec![5, 6], 0, true),
        ])
        .unwrap();
    let out = plan.output.as_ref().unwrap();
    assert_eq!(out.compaction.begin, 1);
    assert_eq!(out.compaction.end, 3);
    // r2's last row sits at 5, packed down to 2
    assert_eq!(out.compaction.copies, vec![(2, 5)]);
    assert_eq!(plan.decode_indices, vec![0, 2]);
}

#[test]
fn prefill_only_middle_request_is_skipped() {
    let cfg = toy_config();
    let (mut engine, _) = NvidiaTransformer::new(cfg, 2, 64).unwrap();
    let plan = engine
        .decode(vec![
            req(0, vec![1, 2], 0, true),
            req(1, vec![3, 4], 0, false),
            req(2, vec![5], 3, true),
        ])
        .unwrap();
    // returned list misses the prefill-only request
    assert_eq!(plan.decode_indices.len(), 2);
    assert_eq!(plan.decode_indices, vec![0, 2]);
    assert_eq!(plan.requests[2].id, 2); // pure decode sorts last
}

#[test]
fn no_decode_request_yields_no_logits() {
    let cfg = toy_config();
    let (mut engine, _) = NvidiaTransformer::new(cfg, 2, 64).unwrap();
    let plan = engine
        .decode(vec![req(0, vec![1, 2], 0, false)])
        .unwrap();
    assert!(plan.output.is_none());
    assert!(plan.decode_indices.is_empty());
}

#[test]
fn full_window_never_restages() {
    let cfg = toy_config();
    // W == L == 2: after init, load() is a no-op; slot events never advance
    let (mut engine, stages) = NvidiaTransformer::new(cfg, 2, 64).unwrap();
    assert_eq!(stages.len(), 2);
    assert_eq!((stages[0].slot, stages[0].layer, stages[0].event), (0, 0, 1));
    assert_eq!((stages[1].slot, stages[1].layer, stages[1].event), (1, 1, 2));
    let events_before: Vec<u64> = engine.layers.layers.iter().map(|p| p.sync_event).collect();
    for _ in 0..3 {
        let plan = engine
            .decode(vec![req(0, vec![1, 2, 3], 0, true)])
            .unwrap();
        for lp in &plan.layers {
            assert!(lp.stage.is_none());
        }
    }
    let events_after: Vec<u64> = engine.layers.layers.iter().map(|p| p.sync_event).collect();
    assert_eq!(events_before, events_after);
}

#[test]
fn single_slot_window_stages_every_layer() {
    let cfg = toy_config();
    // W == 1: after the preloaded opening, every layer needs a staging copy
    let (mut engine, _) = NvidiaTransformer::new(cfg, 1, 64).unwrap();
    let plan1 = engine
        .decode(vec![req(0, vec![1, 2], 0, true)])
        .unwrap();
    // first pass: layer 0 was preloaded, layer 1 staged
    assert!(plan1.layers[0].stage.is_none());
    let s1 = plan1.layers[1].stage.unwrap();
    assert_eq!(s1.slot, 0);
    assert_eq!(s1.layer, 1);
    // second pass: the slot is stale at every layer
    let plan2 = engine
        .decode(vec![req(0, vec![4], 2, true)])
        .unwrap();
    for (l, lp) in plan2.layers.iter().enumerate() {
        let s = lp.stage.unwrap();
        assert_eq!(s.slot, 0);
        assert_eq!(s.layer, l);
        // the consumed layer is still l, exactly as with W == L, and the
        // compute stream waits on the staging event before using the slot
        assert_eq!(lp.layer, l);
        assert_eq!(lp.slot, 0);
        assert_eq!(lp.wait_event, s.event);
    }
}

#[test]
fn max_position_boundary() {
    let cfg = toy_config();
    let (mut engine, _) = NvidiaTransformer::new(cfg, 2, 64).unwrap();
    // pos + seq_len == MP: accepted
    let ok = engine.decode(vec![req(0, vec![1, 2, 3], 29, true)]);
    assert!(ok.is_ok());
    // pos + seq_len > MP: the fused softmax's precondition fails
    match engine.decode(vec![req(0, vec![1, 2, 3], 30, true)]) {
        Err(e) => assert_eq!(e, Error::ShapeMismatch),
        Ok(_) => panic!("overlong request accepted"),
    }
}

#[test]
fn token_out_of_range_is_rejected() {
    let cfg = toy_config();
    let (mut engine, _) = NvidiaTransformer::new(cfg, 2, 64).unwrap();
    match engine.decode(vec![req(0, vec![16], 0, true)]) {
        Err(e) => assert_eq!(e, Error::TokenOutOfRange),
        Ok(_) => panic!("out-of-range token accepted"),
    }
}

#[test]
fn construction_rejects_bad_config() {
    let mut cfg = toy_config();
    cfg.num_attention_heads = 3; // does not divide into KV groups
    match NvidiaTransformer::new(cfg, 2, 64) {
        Err(e) => assert_eq!(e, Error::ConfigParse),
        Ok(_) => panic!("bad head split accepted"),
    }
    let mut cfg = toy_config();
    cfg.data_type = DataType::F32;
    match NvidiaTransformer::new(cfg, 2, 64) {
        Err(e) => assert_eq!(e, Error::DtypeUnsupported),
        Ok(_) => panic!("unsupported dtype accepted"),
    }
}

#[test]
fn new_cache_extents() {
    let cfg = toy_config();
    let (engine, _) = NvidiaTransformer::new(cfg, 2, 64).unwrap();
    let caches = engine.new_cache();
    assert_eq!(caches.len(), 2);
    for c in &caches {
        assert_eq!(c.dt, DataType::F16);
        assert_eq!(c.k_shape, vec![1, 32, 4]);
        assert_eq!(c.v_shape, vec![1, 32, 4]);
    }
}

#[test]
fn positions_and_tokens_are_packed_in_sorted_order() {
    let cfg = toy_config();
    let (mut engine, _) = NvidiaTransformer::new(cfg, 2, 64).unwrap();
    let plan = engine
        .decode(vec![
            req(1, vec![9], 7, true),
            req(0, vec![4, 5], 0, true),
        ])
        .unwrap();
    match &plan.embed {
        Step::Gather { tokens, .. } => assert_eq!(tokens, &vec![4, 5, 9]),
        _ => panic!("embed step mismatch"),
    }
    match &plan.pos_upload {
        Step::UploadPos { values, event, .. } => {
            assert_eq!(values, &vec![0, 1, 7]);
            match &plan.pos_wait {
                Step::WaitEvent { event: e } => assert_eq!(e, event),
                _ => panic!("pos_wait step mismatch"),
            }
        }
        _ => panic!("pos_upload step mismatch"),
    }
}
