//! The forward driver: turns a validated batch and the engine's window state
//! into the full plan of one pass — embedding gather, per-layer projections,
//! per-request attention with KV-cache append, MLP, decode compaction and
//! logits projection — with every kernel operand and every cross-stream wait
//! spelled out and checked.

use vstd::prelude::*;
use crate::{upos, Error};
use crate::batch::{
    pos, packed_tokens, positions_fit, row_offset, sort_requests, sorted_batch, spec_att_len,
    spec_seq_len, tokens_in_range, total_token_count, total_tokens, validate_requests, Request,
};
use crate::compact::{
    copy_schedule, decode_count, decode_count_range, decode_indices, decode_indices_spec,
    first_decode_from, move_decode, CompactionPlan,
};
use crate::config::{DataType, LlamaConfig};
use crate::kernel::{
    gather, mat_mul, reform, rms_norm, swiglu, FusedSoftmax, RotaryEmbedding, Scale, Step,
};
use crate::parameters::{
    run_steps, EventId, LayerParameter, LayersParameters, ModelParameters, StageOp, WindowModel,
};
use crate::storage::{BufId, GlobalKind, WeightKind};
use crate::tensor::{lemma_product_one, lemma_product_pair, lemma_product_triple, Tensor};

verus! {

/// Exact description of a rank-2 view.
pub open spec fn view2(
    t: Tensor<BufId>,
    dt: DataType,
    s0: int,
    s1: int,
    t0: int,
    t1: int,
    off: int,
    buf: BufId,
) -> bool {
    &&& t.dt == dt
    &&& t.shape@.len() == 2
    &&& t.strides@.len() == 2
    &&& t.shape@[0] == s0
    &&& t.shape@[1] == s1
    &&& t.strides@[0] == t0
    &&& t.strides@[1] == t1
    &&& t.offset == off
    &&& t.physical == buf
}

/// Exact description of a rank-3 view.
pub open spec fn view3(
    t: Tensor<BufId>,
    dt: DataType,
    s0: int,
    s1: int,
    s2: int,
    t0: int,
    t1: int,
    t2: int,
    off: int,
    buf: BufId,
) -> bool {
    &&& t.dt == dt
    &&& t.shape@.len() == 3
    &&& t.strides@.len() == 3
    &&& t.shape@[0] == s0
    &&& t.shape@[1] == s1
    &&& t.shape@[2] == s2
    &&& t.strides@[0] == t0
    &&& t.strides@[1] == t1
    &&& t.strides@[2] == t2
    &&& t.offset == off
    &&& t.physical == buf
}

/// The slice `cache[:, pos .. pos + sl, :]` of one request's per-layer cache
/// of device shape `[NKVH, MP, DH]`.
pub open spec fn cache_slice_view(
    t: Tensor<BufId>,
    cfg: LlamaConfig,
    buf: BufId,
    pos_: int,
    sl: int,
) -> bool {
    let dh = cfg.spec_head_dim() as int;
    let mp = cfg.max_position_embeddings as int;
    view3(
        t,
        cfg.data_type,
        cfg.num_key_value_heads as int,
        sl,
        dh,
        mp * dh,
        dh,
        1,
        pos_ * dh,
        buf,
    )
}

/// The transient device buffers of one pass fit in the address space.
pub open spec fn decode_fits(cfg: LlamaConfig, nt: nat) -> bool {
    let d = cfg.hidden_size as nat;
    let dkv = cfg.spec_kv_hidden_size();
    let di = cfg.intermediate_size as nat;
    let v = cfg.vocab_size as nat;
    let nh = cfg.num_attention_heads as nat;
    let nkvh = cfg.num_key_value_heads as nat;
    let mp = cfg.max_position_embeddings as nat;
    let dh = cfg.spec_head_dim();
    &&& nt >= 1
    &&& nt * d <= usize::MAX
    &&& nt * (d + 2 * dkv) <= usize::MAX
    &&& nt * (2 * di) <= usize::MAX
    &&& nh * (nt * mp) <= usize::MAX
    &&& nt * v <= usize::MAX
    &&& nkvh * (mp * dh) <= usize::MAX
}

/// Per-layer KV-cache extents a caller must allocate for one request.
pub struct LayerCache {
    pub dt: DataType,
    pub k_shape: Vec<usize>,
    pub v_shape: Vec<usize>,
}

/// The attention of one request at one layer; its steps run in field order.
pub struct AttentionPlan {
    pub req: usize,
    pub row_offset: usize,
    pub seq_len: usize,
    pub pos: upos,
    pub att_len: usize,
    /// Repack this request's query rows into a dense `[NH, sl, DH]` buffer.
    pub reform_q: Step,
    /// Append this request's fresh keys into its cache at positions
    /// `pos .. pos + sl`.
    pub reform_k: Step,
    /// Append the fresh values likewise.
    pub reform_v: Step,
    /// Scores: `att <- q · k_cacheᵀ / sqrt(DH)` over the head groups.
    pub score: Step,
    /// Causally masked row-wise softmax on `[NH, sl, att_len]`.
    pub softmax: Step,
    /// Weighted values: `x2 <- att · v_cache`.
    pub weigh: Step,
    /// Repack the attention output into the batch rows of `x1`.
    pub reform_o: Step,
}

/// One layer of the pass. The steps run on the compute stream in field
/// order: wait on the slot's event, norm, QKV projection, rotary embeddings,
/// the per-request attention blocks, then the output projection and the MLP;
/// the staging copies of `stage` run concurrently on the transfer stream.
pub struct LayerPlan {
    pub layer: usize,
    /// The slot whose weights this layer consumes.
    pub slot: usize,
    /// The staging copies `load` issued for a later layer, if any.
    pub stage: Option<StageOp>,
    /// Event the compute stream waits on before touching the slot's weights.
    pub wait_event: EventId,
    pub input_norm: Step,
    pub qkv_proj: Step,
    pub rotary_q: Step,
    pub rotary_k: Step,
    pub attention: Vec<AttentionPlan>,
    pub o_proj: Step,
    pub post_norm: Step,
    pub gate_up_proj: Step,
    pub swiglu: Step,
    pub down_proj: Step,
}

/// The tail of the pass, present only when some request decodes: the
/// compaction copies, then the wait on the global weights' event, the
/// in-place norm, and the head projection.
pub struct OutputPlan {
    /// Row copies packing the decode rows together, and the packed range.
    pub compaction: CompactionPlan,
    /// Event guarding the global weights; waited on before the final norm.
    pub wait_event: EventId,
    /// In-place RMS norm of the packed rows with the model norm weight.
    pub model_norm: Step,
    /// Logits projection with the output head.
    pub lm_head: Step,
    /// The `[ND, V]` logits the sampler reads after a compute-stream sync.
    pub logits: Tensor<BufId>,
}

/// Everything one `decode` call tells the device to do, in order: the
/// prologue, the layers, and the output projection.
pub struct DecodePlan<Id> {
    /// The batch in sorted order; plan steps name requests by index here.
    pub requests: Vec<Request<Id>>,
    pub nt: usize,
    /// Embedding gather of the packed tokens into `x0`.
    pub embed: Step,
    /// Packed position upload on the transfer stream.
    pub pos_upload: Step,
    /// The compute stream waits for the position upload.
    pub pos_wait: Step,
    pub layers: Vec<LayerPlan>,
    pub output: Option<OutputPlan>,
    /// Indices (into `requests`) whose logits row the sampler consumes, in
    /// row order.
    pub decode_indices: Vec<usize>,
}

/// What the attention plan of request `j` at layer `l` must look like. In
/// particular: the fresh K and V rows land exactly in
/// `cache[:, pos .. pos + sl, :]` of request `j`'s layer-`l` cache, and the
/// softmax runs causally masked on `[NH, sl, att_len]` with
/// `att_len == pos + sl`.
pub open spec fn att_plan_wf<Id>(
    p: AttentionPlan,
    cfg: LlamaConfig,
    rs: Seq<Request<Id>>,
    l: int,
    j: int,
) -> bool {
    let dt = cfg.data_type;
    let d = cfg.hidden_size as int;
    let dkv = cfg.spec_kv_hidden_size() as int;
    let qkv_w = d + 2 * dkv;
    let nh = cfg.num_attention_heads as int;
    let nkvh = cfg.num_key_value_heads as int;
    let dh = cfg.spec_head_dim() as int;
    let mp = cfg.max_position_embeddings as int;
    let hg = nh / nkvh;
    let sl = spec_seq_len(rs[j]) as int;
    let pos_ = rs[j].pos as int;
    let al = spec_att_len(rs[j]) as int;
    let req = row_offset(rs, j) as int;
    &&& p.req == j
    &&& p.row_offset == req
    &&& p.seq_len == sl
    &&& p.pos == rs[j].pos
    &&& p.att_len == al
    &&& al == pos_ + sl
    &&& al <= mp
    &&& (p.reform_q matches Step::Reform { dst, src }
        && view3(dst, dt, nh, sl, dh, sl * dh, dh, 1, 0, BufId::QBuf)
        && view3(src, dt, nh, sl, dh, dh, qkv_w, 1, req * qkv_w, BufId::Qkv))
    &&& (p.reform_k matches Step::Reform { dst, src }
        && cache_slice_view(dst, cfg, BufId::KCache(j as usize, l as usize), pos_, sl)
        && view3(src, dt, nkvh, sl, dh, dh, qkv_w, 1, d + req * qkv_w, BufId::Qkv))
    &&& (p.reform_v matches Step::Reform { dst, src }
        && cache_slice_view(dst, cfg, BufId::VCache(j as usize, l as usize), pos_, sl)
        && view3(src, dt, nkvh, sl, dh, dh, qkv_w, 1, d + dkv + req * qkv_w, BufId::Qkv))
    &&& (p.score matches Step::MatMul { c, beta, a, b, alpha }
        && beta == Scale::Zero
        && alpha == Scale::RsqrtHeadDim
        && view3(c, dt, nkvh, hg * sl, al, (hg * sl) * al, al, 1, 0, BufId::AttBuf)
        && view3(a, dt, nkvh, hg * sl, dh, (hg * sl) * dh, dh, 1, 0, BufId::QBuf)
        && view3(b, dt, nkvh, dh, al, mp * dh, 1, dh, 0, BufId::KCache(j as usize, l as usize)))
    &&& (p.softmax matches Step::Softmax { x }
        && view3(x, dt, nh, sl, al, sl * al, al, 1, 0, BufId::AttBuf))
    &&& (p.weigh matches Step::MatMul { c, beta, a, b, alpha }
        && beta == Scale::Zero
        && alpha == Scale::One
        && view3(c, dt, nkvh, hg * sl, dh, (hg * sl) * dh, dh, 1, 0, BufId::QBuf)
        && view3(a, dt, nkvh, hg * sl, al, (hg * sl) * al, al, 1, 0, BufId::AttBuf)
        && view3(b, dt, nkvh, al, dh, mp * dh, dh, 1, 0, BufId::VCache(j as usize, l as usize)))
    &&& (p.reform_o matches Step::Reform { dst, src }
        && view3(dst, dt, nh, sl, dh, dh, d, 1, req * d, BufId::X1)
        && view3(src, dt, nh, sl, dh, sl * dh, dh, 1, 0, BufId::QBuf))
}

/// What one layer's plan must look like: every weight operand comes from the
/// named window slot, the scalars are the model's, and the projections run
/// over the whole packed batch.
pub open spec fn layer_plan_wf<Id>(
    p: LayerPlan,
    cfg: LlamaConfig,
    rs: Seq<Request<Id>>,
    nt: int,
    l: int,
) -> bool {
    let dt = cfg.data_type;
    let d = cfg.hidden_size as int;
    let dkv = cfg.spec_kv_hidden_size() as int;
    let qkv_w = d + 2 * dkv;
    let nh = cfg.num_attention_heads as int;
    let nkvh = cfg.num_key_value_heads as int;
    let dh = cfg.spec_head_dim() as int;
    let di = cfg.intermediate_size as int;
    &&& p.layer == l
    &&& p.attention@.len() == rs.len()
    &&& forall|j: int| 0 <= j < rs.len() ==> att_plan_wf(#[trigger] p.attention@[j], cfg, rs, l, j)
    &&& (p.input_norm matches Step::RmsNorm { out, inp, weight, eps_bits }
        && view2(out, dt, nt, d, d, 1, 0, BufId::X1)
        && view2(inp, dt, nt, d, d, 1, 0, BufId::X0)
        && weight.physical == BufId::SlotWeight(p.slot, WeightKind::InputLayernorm)
        && eps_bits == cfg.rms_norm_eps_bits)
    &&& (p.qkv_proj matches Step::MatMul { c, beta, a, b, alpha }
        && beta == Scale::Zero
        && alpha == Scale::One
        && view2(c, dt, nt, qkv_w, qkv_w, 1, 0, BufId::Qkv)
        && view2(a, dt, nt, d, d, 1, 0, BufId::X1)
        && b.physical == BufId::SlotWeight(p.slot, WeightKind::WQkv))
    &&& (p.rotary_q matches Step::Rotary { x, pos, theta_bits }
        && view3(x, dt, nt, nh, dh, qkv_w, dh, 1, 0, BufId::Qkv)
        && pos_view(pos, nt)
        && theta_bits == cfg.rope_theta_bits)
    &&& (p.rotary_k matches Step::Rotary { x, pos, theta_bits }
        && view3(x, dt, nt, nkvh, dh, qkv_w, dh, 1, d, BufId::Qkv)
        && pos_view(pos, nt)
        && theta_bits == cfg.rope_theta_bits)
    &&& (p.o_proj matches Step::MatMul { c, beta, a, b, alpha }
        && beta == Scale::One
        && alpha == Scale::One
        && view2(c, dt, nt, d, d, 1, 0, BufId::X0)
        && view2(a, dt, nt, d, d, 1, 0, BufId::X1)
        && b.physical == BufId::SlotWeight(p.slot, WeightKind::SelfAttnOProj))
    &&& (p.post_norm matches Step::RmsNorm { out, inp, weight, eps_bits }
        && view2(out, dt, nt, d, d, 1, 0, BufId::X1)
        && view2(inp, dt, nt, d, d, 1, 0, BufId::X0)
        && weight.physical == BufId::SlotWeight(p.slot, WeightKind::PostAttentionLayernorm)
        && eps_bits == cfg.rms_norm_eps_bits)
    &&& (p.gate_up_proj matches Step::MatMul { c, beta, a, b, alpha }
        && beta == Scale::Zero
        && alpha == Scale::One
        && view2(c, dt, nt, 2 * di, 2 * di, 1, 0, BufId::GateUp)
        && view2(a, dt, nt, d, d, 1, 0, BufId::X1)
        && b.physical == BufId::SlotWeight(p.slot, WeightKind::MlpGateUp))
    &&& (p.swiglu matches Step::Swiglu { gate, up }
        && view2(gate, dt, nt, di, 2 * di, 1, 0, BufId::GateUp)
        && view2(up, dt, nt, di, 2 * di, 1, di, BufId::GateUp))
    &&& (p.down_proj matches Step::MatMul { c, beta, a, b, alpha }
        && beta == Scale::One
        && alpha == Scale::One
        && view2(c, dt, nt, d, d, 1, 0, BufId::X0)
        && view2(a, dt, nt, di, 2 * di, 1, 0, BufId::GateUp)
        && b.physical == BufId::SlotWeight(p.slot, WeightKind::MlpDown))
}

/// The packed position vector's device view: `[NT]` position ids, dense,
/// from the start of its own allocation.
pub open spec fn pos_view(t: Tensor<BufId>, nt: int) -> bool {
    &&& t.dt == DataType::U32
    &&& t.shape@.len() == 1
    &&& t.strides@.len() == 1
    &&& t.shape@[0] == nt
    &&& t.strides@[0] == 1
    &&& t.offset == 0
    &&& t.physical == BufId::Pos
}

/// How one layer plan relates to the window schedule, the two-stream
/// discipline of the pass: running the window from its state `m0` at call
/// entry with staging events numbered from `evb`, layer `l` consumes the
/// slot the cursor stands on, that slot holds layer `l`'s weights, the
/// layer's wait is on exactly that slot's recorded event, and the staging
/// copies are exactly what the schedule's `load` issued.
pub open spec fn layer_schedule_wf(p: LayerPlan, m0: WindowModel, evb: int, l: int) -> bool {
    let m = run_steps(m0, l, evb);
    let handed = m.load(l, evb + l);
    &&& p.slot as int == m.current
    &&& p.wait_event as int == handed.slots[m.current].event
    &&& handed.slots[m.current].layer == l
    &&& (m.load_is_noop(l) <==> p.stage is None)
    &&& (!m.load_is_noop(l) ==> (p.stage matches Some(op) && op.slot as int == m.load_slot()
        && op.layer as int == m.load_target(l) && op.event as int == evb + l))
}

/// What the output plan must look like: the compaction range feeds an
/// in-place final norm — the out and in operands are the byte-identical view,
/// the one aliasing the norm kernel admits — and the head projects exactly
/// the packed decode rows.
pub open spec fn output_plan_wf<Id>(
    o: OutputPlan,
    cfg: LlamaConfig,
    rs: Seq<Request<Id>>,
    nt: int,
    model_event: EventId,
) -> bool {
    let dt = cfg.data_type;
    let d = cfg.hidden_size as int;
    let v = cfg.vocab_size as int;
    let nd = o.compaction.end - o.compaction.begin;
    &&& o.wait_event == model_event
    &&& (o.model_norm matches Step::RmsNorm { out, inp, weight, eps_bits }
        && view2(out, dt, nd, d, d, 1, o.compaction.begin * d, BufId::X0)
        && out.same_view(inp)
        && weight.physical == BufId::Global(GlobalKind::ModelNorm)
        && eps_bits == cfg.rms_norm_eps_bits)
    &&& (o.lm_head matches Step::MatMul { c, beta, a, b, alpha }
        && beta == Scale::Zero
        && alpha == Scale::One
        && view2(c, dt, nd, v, v, 1, 0, BufId::Logits)
        && view2(a, dt, nd, d, d, 1, o.compaction.begin * d, BufId::X0)
        && b.physical == BufId::Global(GlobalKind::LmHead))
    &&& view2(o.logits, dt, nd, v, v, 1, 0, BufId::Logits)
}

/// Batching is per-request slicing (law): the attention plan of a request
/// inside a batch and the plan of the same request alone differ only in the
/// packed row offset and in which cache the request's index names — every
/// extent, every cache position, the score scaling and the mask bounds are
/// identical. The batched pass computes, request by request, what the
/// single-request pass computes.
pub proof fn lemma_batched_attention_matches_single<Id>(
    p_b: AttentionPlan,
    p_s: AttentionPlan,
    cfg: LlamaConfig,
    rs: Seq<Request<Id>>,
    single: Seq<Request<Id>>,
    l: int,
    j: int,
)
    requires
        0 <= j < rs.len(),
        single.len() == 1,
        single[0].tokens@ == rs[j].tokens@,
        single[0].pos == rs[j].pos,
        att_plan_wf(p_b, cfg, rs, l, j),
        att_plan_wf(p_s, cfg, single, l, 0),
    ensures
        p_b.seq_len == p_s.seq_len,
        p_b.pos == p_s.pos,
        p_b.att_len == p_s.att_len,
        p_b.row_offset == row_offset(rs, j),
        p_s.row_offset == 0,
        (p_b.reform_k matches Step::Reform { dst: db, .. } ==> p_s.reform_k matches Step::Reform {
            dst: ds,
            ..
        } && db.shape@ == ds.shape@ && db.strides@ == ds.strides@ && db.offset == ds.offset),
        (p_b.softmax matches Step::Softmax { x: xb } ==> p_s.softmax matches Step::Softmax {
            x: xs,
        } && xb.shape@ == xs.shape@),
{
    assert(row_offset(single, 0) == 0);
    assert(spec_seq_len(single[0]) == spec_seq_len(rs[j]));
    match (&p_b.reform_k, &p_s.reform_k) {
        (Step::Reform { dst: db, .. }, Step::Reform { dst: ds, .. }) => {
            assert(db.shape@ =~= ds.shape@);
            assert(db.strides@ =~= ds.strides@);
        },
        _ => {},
    }
    match (&p_b.softmax, &p_s.softmax) {
        (Step::Softmax { x: xb }, Step::Softmax { x: xs }) => {
            assert(xb.shape@ =~= xs.shape@);
        },
        _ => {},
    }
}

/// KV-history append: the reform destination of an attention plan addresses,
/// for head `h`, token `t` of the request, and channel `e`, exactly the
/// element `[h, pos + t, e]` of the request's full `[NKVH, MP, DH]` cache.
/// Once the plan runs, the cache holds the fresh K (or V) projection of token
/// `t` at absolute position `pos + t`.
pub proof fn lemma_cache_append_addresses(
    t: Tensor<BufId>,
    cache: Tensor<BufId>,
    cfg: LlamaConfig,
    buf: BufId,
    pos_: int,
    sl: int,
    h: int,
    tt: int,
    e: int,
)
    requires
        cfg.wf(),
        cache_slice_view(t, cfg, buf, pos_, sl),
        view3(
            cache,
            cfg.data_type,
            cfg.num_key_value_heads as int,
            cfg.max_position_embeddings as int,
            cfg.spec_head_dim() as int,
            cfg.max_position_embeddings as int * cfg.spec_head_dim() as int,
            cfg.spec_head_dim() as int,
            1,
            0,
            buf,
        ),
        0 <= h,
        0 <= tt < sl,
        0 <= e,
        0 <= pos_,
    ensures
        t.addr(seq![h, tt, e]) == cache.addr(seq![h, pos_ + tt, e]),
        t.physical == cache.physical,
{
    let dh = cfg.spec_head_dim() as int;
    let mp = cfg.max_position_embeddings as int;
    let idx = seq![h, tt, e];
    let cdx = seq![h, pos_ + tt, e];
    assert(crate::tensor::dot_from(idx, t.strides@, 3) == 0);
    assert(crate::tensor::dot_from(idx, t.strides@, 2) == e * 1 + 0);
    assert(crate::tensor::dot_from(idx, t.strides@, 1) == tt * dh + crate::tensor::dot_from(
        idx,
        t.strides@,
        2,
    ));
    assert(crate::tensor::dot_from(idx, t.strides@, 0) == h * (mp * dh)
        + crate::tensor::dot_from(idx, t.strides@, 1));
    assert(crate::tensor::dot_from(cdx, cache.strides@, 3) == 0);
    assert(crate::tensor::dot_from(cdx, cache.strides@, 2) == e * 1 + 0);
    assert(crate::tensor::dot_from(cdx, cache.strides@, 1) == (pos_ + tt) * dh
        + crate::tensor::dot_from(cdx, cache.strides@, 2));
    assert(crate::tensor::dot_from(cdx, cache.strides@, 0) == h * (mp * dh)
        + crate::tensor::dot_from(cdx, cache.strides@, 1));
    assert(pos_ * dh + tt * dh == (pos_ + tt) * dh) by (nonlinear_arith);
}

/// The causal mask of every attention plan is exact: the softmax block of
/// request `j` has `sl` query rows at absolute positions `pos .. pos + sl`
/// over `att_len == pos + sl` key positions, so query row `t` gets weight
/// zero exactly on the key positions after its own.
pub proof fn lemma_attention_mask_is_causal<Id>(
    p: AttentionPlan,
    cfg: LlamaConfig,
    rs: Seq<Request<Id>>,
    l: int,
    j: int,
    t: int,
    c: int,
)
    requires
        0 <= j < rs.len(),
        att_plan_wf(p, cfg, rs, l, j),
        0 <= t < spec_seq_len(rs[j]),
    ensures
        crate::kernel::softmax_masked(p.seq_len as int, p.att_len as int, t, c) <==> c
            > rs[j].pos + t,
{
    crate::kernel::lemma_causal_mask(rs[j].pos as int, spec_seq_len(rs[j]) as int, t, c);
}

/// Continuation re-uses the history (law, the scheduling half of the
/// round-trip): a one-token continuation at position `n` appends its fresh
/// K/V at cache position `n` — by `lemma_cache_append_addresses`, slice
/// offset `n·DH` at row 0 and slice offset `0` at row `n` address the same
/// cache element — and its single query row is masked exactly as the last
/// query row of a full pass over `n + 1` tokens: both attend over key
/// positions `0 ..= n`. The numeric agreement of the resulting logits
/// (within a dtype tolerance) is a property of the kernels themselves.
pub proof fn lemma_continuation_masks_match(n: int, c: int)
    requires
        n >= 0,
    ensures
        crate::kernel::softmax_masked(1, n + 1, 0, c) <==> crate::kernel::softmax_masked(
            n + 1,
            n + 1,
            n,
            c,
        ),
{
}

/// A fresh rank-1 view over its own allocation.
fn buf1(dt: DataType, s0: usize, buf: BufId) -> (r: Tensor<BufId>)
    requires
        s0 >= 1,
    ensures
        r.wf(),
        r.is_contiguous(),
        r.dt == dt,
        r.shape@.len() == 1,
        r.strides@.len() == 1,
        r.shape@[0] == s0,
        r.strides@[0] == 1,
        r.offset == 0,
        r.physical == buf,
{
    let mut shape: Vec<usize> = Vec::new();
    shape.push(s0);
    proof {
        lemma_product_one(shape@);
    }
    let t = Tensor::new(dt, shape, buf);
    proof {
        assert(t.strides@[0] == crate::tensor::suffix_product(t.shape@, 1));
        assert(crate::tensor::suffix_product(t.shape@, 1) == 1);
    }
    t
}

/// A fresh contiguous rank-2 view over its own allocation.
fn buf2(dt: DataType, s0: usize, s1: usize, buf: BufId) -> (r: Tensor<BufId>)
    requires
        s0 >= 1,
        s1 >= 1,
        s0 as int * s1 as int <= usize::MAX,
    ensures
        r.wf(),
        r.is_contiguous(),
        view2(r, dt, s0 as int, s1 as int, s1 as int, 1, 0, buf),
        r.elem_count() == s0 as nat * s1 as nat,
    {
    let mut shape: Vec<usize> = Vec::new();
    shape.push(s0);
    shape.push(s1);
    proof {
        lemma_product_pair(shape@);
    }
    let t = Tensor::new(dt, shape, buf);
    proof {
        assert(t.strides@[1] == crate::tensor::suffix_product(t.shape@, 2));
        assert(crate::tensor::suffix_product(t.shape@, 2) == 1);
        assert(t.strides@[0] == crate::tensor::suffix_product(t.shape@, 1));
        assert(crate::tensor::suffix_product(t.shape@, 1) == t.shape@[1] as nat
            * crate::tensor::suffix_product(t.shape@, 2));
    }
    t
}

/// A fresh contiguous rank-3 view over its own allocation.
fn buf3(dt: DataType, s0: usize, s1: usize, s2: usize, buf: BufId) -> (r: Tensor<BufId>)
    requires
        s0 >= 1,
        s1 >= 1,
        s2 >= 1,
        s1 as int * s2 as int <= usize::MAX,
        s0 as int * (s1 as int * s2 as int) <= usize::MAX,
    ensures
        r.wf(),
        r.is_contiguous(),
        view3(
            r,
            dt,
            s0 as int,
            s1 as int,
            s2 as int,
            s1 as int * s2 as int,
            s2 as int,
            1,
            0,
            buf,
        ),
        r.elem_count() == s0 as nat * (s1 as nat * s2 as nat),
{
    let mut shape: Vec<usize> = Vec::new();
    shape.push(s0);
    shape.push(s1);
    shape.push(s2);
    proof {
        lemma_product_triple(shape@);
    }
    let t = Tensor::new(dt, shape, buf);
    proof {
        assert(t.strides@[2] == crate::tensor::suffix_product(t.shape@, 3));
        assert(crate::tensor::suffix_product(t.shape@, 3) == 1);
        assert(t.strides@[1] == crate::tensor::suffix_product(t.shape@, 2));
        assert(crate::tensor::suffix_product(t.shape@, 2) == t.shape@[2] as nat
            * crate::tensor::suffix_product(t.shape@, 3));
        assert(t.strides@[0] == crate::tensor::suffix_product(t.shape@, 1));
        assert(crate::tensor::suffix_product(t.shape@, 1) == t.shape@[1] as nat
            * crate::tensor::suffix_product(t.shape@, 2));
    }
    t
}

/// The engine: the model descriptor, the device-resident weights (global and
/// windowed), the two JIT-specialized kernels whose launch bounds the plans
/// must respect, and the supply of fresh event ids.
pub struct NvidiaTransformer {
    pub host: LlamaConfig,
    pub model: ModelParameters,
    pub layers: LayersParameters,
    pub rotary_embedding: RotaryEmbedding,
    pub fused_softmax: FusedSoftmax,
    pub next_event: EventId,
}

impl NvidiaTransformer {
    pub open spec fn wf(self) -> bool {
        &&& self.host.wf()
        &&& self.host.data_type == DataType::F16
        &&& self.host.spec_size() <= usize::MAX
        &&& self.host.tensor_sizes_fit()
        &&& self.model.wf(self.host)
        &&& self.layers.wf(self.host)
        &&& self.layers.model().pipelined(0)
        &&& self.rotary_embedding.block_size > self.host.spec_head_dim()
        &&& self.fused_softmax.max_seq_len == self.host.max_position_embeddings
    }

    /// The model descriptor the engine was built for.
    pub fn model(&self) -> (r: &LlamaConfig)
        ensures
            r == &self.host,
    {
        &self.host
    }

    /// Builds an engine: validates the configuration, rejects any compute
    /// type but `F16`, and preloads `min(preload_layers, L)` window slots
    /// with the first layers. Returns the engine and the preload staging
    /// copies.
    pub fn new(config: LlamaConfig, preload_layers: usize, block_size: usize) -> (r: Result<
        (NvidiaTransformer, Vec<StageOp>),
        Error,
    >)
        requires
            config.spec_size() <= usize::MAX,
            preload_layers >= 1,
            config.wf() ==> block_size > config.spec_head_dim(),
        ensures
            r is Ok <==> (config.wf() && config.data_type == DataType::F16),
            !config.wf() ==> r == Result::<(NvidiaTransformer, Vec<StageOp>), Error>::Err(
                Error::ConfigParse,
            ),
            config.wf() && config.data_type != DataType::F16 ==> r == Result::<
                (NvidiaTransformer, Vec<StageOp>),
                Error,
            >::Err(Error::DtypeUnsupported),
            r matches Ok(p) ==> {
                let w = p.0.layers.layers@.len() as int;
                &&& p.0.wf()
                &&& p.0.host == config
                &&& w == if preload_layers <= config.num_hidden_layers {
                    preload_layers as int
                } else {
                    config.num_hidden_layers as int
                }
                // the window is preloaded with layers 0..W: slot i holds layer
                // i, guarded by event 1 + i
                &&& p.0.layers.model() == WindowModel::init(
                    w,
                    config.num_hidden_layers as int,
                    1,
                )
                // the returned staging copies are exactly that preload
                &&& p.1@.len() == w
                &&& forall|i: int| 0 <= i < w ==> (#[trigger] p.1@[i]).slot == i
                    && p.1@[i].layer == i && p.1@[i].event == 1 + i
                // the global norm and transposed head are uploaded, guarded by
                // event 0; the next fresh event follows the preload
                &&& p.0.model.sync_event == 0
                &&& p.0.next_event == 1 + w
            },
    {
        match config.validate() {
            Err(e) => {
                return Err(e);
            },
            Ok(()) => {},
        }
        if config.data_type != DataType::F16 {
            return Err(Error::DtypeUnsupported);
        }
        proof {
            config.lemma_tensor_sizes_fit();
            config.lemma_kv_hidden_size();
            let l = config.num_hidden_layers as int;
            let d = config.hidden_size as int;
            let e = config.spec_weight_elems() as int;
            let s = config.data_type.spec_size() as int;
            assert(e <= e * s) by (nonlinear_arith)
                requires s >= 1, e >= 0;
            assert(l * d >= l) by (nonlinear_arith)
                requires d >= 1, l >= 0;
        }
        let model = ModelParameters::new(&config, 0);
        let (layers, stages) = LayersParameters::new(&config, preload_layers, 1);
        let w = layers.layers.len();
        let engine = NvidiaTransformer {
            host: config,
            model,
            layers,
            rotary_embedding: RotaryEmbedding::new(block_size),
            fused_softmax: FusedSoftmax::new(config.max_position_embeddings),
            next_event: 1 + (w as u64),
        };
        Ok((engine, stages))
    }

    /// The per-layer cache extents a caller must allocate, once per request:
    /// `[NKVH, MP, DH]` keys and values in the model's compute type.
    pub fn new_cache(&self) -> (r: Vec<LayerCache>)
        requires
            self.wf(),
        ensures
            r@.len() == self.host.num_hidden_layers,
            forall|l: int| 0 <= l < r@.len() ==> {
                let c = #[trigger] r@[l];
                &&& c.dt == self.host.data_type
                &&& c.k_shape@.len() == 3
                &&& c.k_shape@[0] == self.host.num_key_value_heads
                &&& c.k_shape@[1] == self.host.max_position_embeddings
                &&& c.k_shape@[2] == self.host.spec_head_dim()
                &&& c.v_shape@ == c.k_shape@
            },
    {
        let n = self.host.num_hidden_layers;
        let nkvh = self.host.num_key_value_heads;
        let mp = self.host.max_position_embeddings;
        let dh = self.host.head_dim();
        let mut out: Vec<LayerCache> = Vec::new();
        let mut l: usize = 0;
        while l < n
            invariant
                l <= n,
                out@.len() == l,
                nkvh == self.host.num_key_value_heads,
                mp == self.host.max_position_embeddings,
                dh == self.host.spec_head_dim(),
                forall|k: int| 0 <= k < l ==> {
                    let c = #[trigger] out@[k];
                    &&& c.dt == self.host.data_type
                    &&& c.k_shape@.len() == 3
                    &&& c.k_shape@[0] == self.host.num_key_value_heads
                    &&& c.k_shape@[1] == self.host.max_position_embeddings
                    &&& c.k_shape@[2] == self.host.spec_head_dim()
                    &&& c.v_shape@ == c.k_shape@
                },
            decreases n - l,
        {
            let mut k_shape: Vec<usize> = Vec::new();
            k_shape.push(nkvh);
            k_shape.push(mp);
            k_shape.push(dh);
            let mut v_shape: Vec<usize> = Vec::new();
            v_shape.push(nkvh);
            v_shape.push(mp);
            v_shape.push(dh);
            proof {
                assert(v_shape@ =~= k_shape@);
            }
            out.push(LayerCache { dt: self.host.data_type, k_shape, v_shape });
            l += 1;
        }
        out
    }

    /// The prologue's embedding gather: `x0[NT, D] <- embed_tokens[token]`
    /// for every token of the packed batch.
    pub fn token_embed<Id>(cfg: LlamaConfig, requests: &Vec<Request<Id>>, nt: usize) -> (r: Step)
        requires
            cfg.wf(),
            cfg.tensor_sizes_fit(),
            nt == total_tokens(requests@),
            decode_fits(cfg, nt as nat),
            tokens_in_range(requests@, cfg.vocab_size as int),
        ensures
            r matches Step::Gather { out, table, tokens } && {
                let d = cfg.hidden_size as int;
                &&& view2(out, cfg.data_type, nt as int, d, d, 1, 0, BufId::X0)
                &&& view2(
                    table,
                    cfg.data_type,
                    cfg.vocab_size as int,
                    d,
                    d,
                    1,
                    0,
                    BufId::Global(GlobalKind::EmbedTokens),
                )
                &&& tokens@.len() == nt
                &&& forall|i: int| 0 <= i < requests@.len() ==> tokens@.subrange(
                    row_offset(requests@, i) as int,
                    row_offset(requests@, i + 1) as int,
                ) == (#[trigger] requests@[i]).tokens@
            },
    {
        let d = cfg.hidden_size;
        let v = cfg.vocab_size;
        let x0 = buf2(cfg.data_type, nt, d, BufId::X0);
        let table = buf2(cfg.data_type, v, d, BufId::Global(GlobalKind::EmbedTokens));
        let toks = packed_tokens(requests, nt);
        proof {
            crate::batch::lemma_packed_tokens_in_range(
                requests@,
                toks@,
                cfg.vocab_size as int,
            );
        }
        gather(x0, table, toks)
    }

    /// The packed position upload on the transfer stream, and the compute
    /// stream's wait for it, which precedes the rotary embeddings.
    pub fn upload_positions<Id>(
        cfg: LlamaConfig,
        requests: &Vec<Request<Id>>,
        nt: usize,
        event: EventId,
    ) -> (r: (Step, Step))
        requires
            cfg.wf(),
            nt == total_tokens(requests@),
            nt >= 1,
            positions_fit(requests@, cfg.max_position_embeddings as int),
        ensures
            r.0 matches Step::UploadPos { dst, values, event: e } && {
                &&& dst.dt == DataType::U32
                &&& dst.shape@.len() == 1
                &&& dst.shape@[0] == nt
                &&& dst.strides@.len() == 1
                &&& dst.strides@[0] == 1
                &&& dst.offset == 0
                &&& dst.physical == BufId::Pos
                &&& values@.len() == nt
                &&& forall|i: int| 0 <= i < requests@.len() ==> values@.subrange(
                    row_offset(requests@, i) as int,
                    row_offset(requests@, i + 1) as int,
                ) == crate::batch::request_positions(#[trigger] requests@[i])
                &&& e == event
            },
            r.1 == (Step::WaitEvent { event }),
    {
        proof {
            assert forall|i: int| 0 <= i < requests@.len() implies spec_att_len(
                #[trigger] requests@[i],
            ) <= u32::MAX by {
                assert(spec_att_len(requests@[i]) <= cfg.max_position_embeddings);
            }
        }
        let dst = buf1(DataType::U32, nt, BufId::Pos);
        let values = pos(requests, nt);
        (Step::UploadPos { dst, values, event }, Step::WaitEvent { event })
    }

    /// Pre-attention work of one layer: input norm, fused QKV projection, and
    /// the in-place rotary embeddings of Q and K.
    pub fn before_att(
        cfg: LlamaConfig,
        rot: RotaryEmbedding,
        params: &LayerParameter,
        slot: usize,
        nt: usize,
    ) -> (r: (Step, Step, Step, Step))
        requires
            cfg.wf(),
            cfg.data_type == DataType::F16,
            cfg.tensor_sizes_fit(),
            decode_fits(cfg, nt as nat),
            params.wf_for(cfg, slot as int),
            rot.block_size > cfg.spec_head_dim(),
        ensures
            ({
                let dt = cfg.data_type;
                let d = cfg.hidden_size as int;
                let dkv = cfg.spec_kv_hidden_size() as int;
                let qkv_w = d + 2 * dkv;
                let nh = cfg.num_attention_heads as int;
                let nkvh = cfg.num_key_value_heads as int;
                let dh = cfg.spec_head_dim() as int;
                &&& (r.0 matches Step::RmsNorm { out, inp, weight, eps_bits }
                    && view2(out, dt, nt as int, d, d, 1, 0, BufId::X1)
                    && view2(inp, dt, nt as int, d, d, 1, 0, BufId::X0)
                    && weight.physical == BufId::SlotWeight(slot, WeightKind::InputLayernorm)
                    && eps_bits == cfg.rms_norm_eps_bits)
                &&& (r.1 matches Step::MatMul { c, beta, a, b, alpha }
                    && beta == Scale::Zero
                    && alpha == Scale::One
                    && view2(c, dt, nt as int, qkv_w, qkv_w, 1, 0, BufId::Qkv)
                    && view2(a, dt, nt as int, d, d, 1, 0, BufId::X1)
                    && b.physical == BufId::SlotWeight(slot, WeightKind::WQkv))
                &&& (r.2 matches Step::Rotary { x, pos, theta_bits }
                    && view3(x, dt, nt as int, nh, dh, qkv_w, dh, 1, 0, BufId::Qkv)
                    && pos_view(pos, nt as int)
                    && theta_bits == cfg.rope_theta_bits)
                &&& (r.3 matches Step::Rotary { x, pos, theta_bits }
                    && view3(x, dt, nt as int, nkvh, dh, qkv_w, dh, 1, d, BufId::Qkv)
                    && pos_view(pos, nt as int)
                    && theta_bits == cfg.rope_theta_bits)
            }),
    {
        let dt = cfg.data_type;
        let d = cfg.hidden_size;
        let dkv = cfg.kv_hidden_size();
        let dh = cfg.head_dim();
        let nh = cfg.num_attention_heads;
        let nkvh = cfg.num_key_value_heads;
        proof {
            cfg.lemma_kv_hidden_size();
            assert(d + 2 * dkv <= usize::MAX) by (nonlinear_arith)
                requires
                    nt as int * (d as int + 2 * dkv as int) <= usize::MAX,
                    nt >= 1,
                    d >= 0,
                    dkv >= 0,
            ;
            assert(nh * dh == d) by (nonlinear_arith)
                requires dh as int * nh as int == d as int;
        }
        let qkv_w = d + 2 * dkv;
        let input_norm = rms_norm(
            buf2(dt, nt, d, BufId::X1),
            buf2(dt, nt, d, BufId::X0),
            params.input_layernorm.dup(),
            cfg.rms_norm_eps_bits,
        );
        let qkv_proj = mat_mul(
            buf2(dt, nt, qkv_w, BufId::Qkv),
            Scale::Zero,
            buf2(dt, nt, d, BufId::X1),
            params.w_qkv.dup(),
            Scale::One,
        );
        let qkv_view = buf2(dt, nt, qkv_w, BufId::Qkv);
        let q3 = qkv_view.slice_axis(1, 0, d).split_last_axis(nh, dh);
        let rotary_q = rot.launch(q3, buf1(DataType::U32, nt, BufId::Pos), cfg.rope_theta_bits);
        let k3 = qkv_view.slice_axis(1, d, dkv).split_last_axis(nkvh, dh);
        let rotary_k = rot.launch(k3, buf1(DataType::U32, nt, BufId::Pos), cfg.rope_theta_bits);
        (input_norm, qkv_proj, rotary_q, rotary_k)
    }

    /// Post-attention work of one layer: accumulate the output projection
    /// into the residual, norm, fused gate/up projection, SwiGLU, and the
    /// down projection accumulated into the residual.
    pub fn after_att(cfg: LlamaConfig, params: &LayerParameter, slot: usize, nt: usize) -> (r: (
        Step,
        Step,
        Step,
        Step,
        Step,
    ))
        requires
            cfg.wf(),
            cfg.tensor_sizes_fit(),
            decode_fits(cfg, nt as nat),
            params.wf_for(cfg, slot as int),
        ensures
            ({
                let dt = cfg.data_type;
                let d = cfg.hidden_size as int;
                let di = cfg.intermediate_size as int;
                &&& (r.0 matches Step::MatMul { c, beta, a, b, alpha }
                    && beta == Scale::One
                    && alpha == Scale::One
                    && view2(c, dt, nt as int, d, d, 1, 0, BufId::X0)
                    && view2(a, dt, nt as int, d, d, 1, 0, BufId::X1)
                    && b.physical == BufId::SlotWeight(slot, WeightKind::SelfAttnOProj))
                &&& (r.1 matches Step::RmsNorm { out, inp, weight, eps_bits }
                    && view2(out, dt, nt as int, d, d, 1, 0, BufId::X1)
                    && view2(inp, dt, nt as int, d, d, 1, 0, BufId::X0)
                    && weight.physical == BufId::SlotWeight(
                        slot,
                        WeightKind::PostAttentionLayernorm,
                    )
                    && eps_bits == cfg.rms_norm_eps_bits)
                &&& (r.2 matches Step::MatMul { c, beta, a, b, alpha }
                    && beta == Scale::Zero
                    && alpha == Scale::One
                    && view2(c, dt, nt as int, 2 * di, 2 * di, 1, 0, BufId::GateUp)
                    && view2(a, dt, nt as int, d, d, 1, 0, BufId::X1)
                    && b.physical == BufId::SlotWeight(slot, WeightKind::MlpGateUp))
                &&& (r.3 matches Step::Swiglu { gate, up }
                    && view2(gate, dt, nt as int, di, 2 * di, 1, 0, BufId::GateUp)
                    && view2(up, dt, nt as int, di, 2 * di, 1, di, BufId::GateUp))
                &&& (r.4 matches Step::MatMul { c, beta, a, b, alpha }
                    && beta == Scale::One
                    && alpha == Scale::One
                    && view2(c, dt, nt as int, d, d, 1, 0, BufId::X0)
                    && view2(a, dt, nt as int, di, 2 * di, 1, 0, BufId::GateUp)
                    && b.physical == BufId::SlotWeight(slot, WeightKind::MlpDown))
            }),
    {
        let dt = cfg.data_type;
        let d = cfg.hidden_size;
        let di = cfg.intermediate_size;
        proof {
            assert(2 * di <= usize::MAX) by (nonlinear_arith)
                requires
                    nt as int * (2 * di as int) <= usize::MAX,
                    nt >= 1,
                    di >= 0,
            ;
        }
        let o_proj = mat_mul(
            buf2(dt, nt, d, BufId::X0),
            Scale::One,
            buf2(dt, nt, d, BufId::X1),
            params.self_attn_o_proj.dup(),
            Scale::One,
        );
        let post_norm = rms_norm(
            buf2(dt, nt, d, BufId::X1),
            buf2(dt, nt, d, BufId::X0),
            params.post_attention_layernorm.dup(),
            cfg.rms_norm_eps_bits,
        );
        let gate_up_proj = mat_mul(
            buf2(dt, nt, 2 * di, BufId::GateUp),
            Scale::Zero,
            buf2(dt, nt, d, BufId::X1),
            params.mlp_gate_up.dup(),
            Scale::One,
        );
        let gu = buf2(dt, nt, 2 * di, BufId::GateUp);
        let gate = gu.slice_axis(1, 0, di);
        let up = gu.slice_axis(1, di, di);
        let act = swiglu(gate, up);
        let down_proj = mat_mul(
            buf2(dt, nt, d, BufId::X0),
            Scale::One,
            gu.slice_axis(1, 0, di),
            params.mlp_down.dup(),
            Scale::One,
        );
        (o_proj, post_norm, gate_up_proj, act, down_proj)
    }

    /// The output projection of the packed decode rows: wait on the global
    /// weights' event, norm the rows in place — out and in are the
    /// byte-identical view, the one aliasing the norm kernel admits — and
    /// project to the vocabulary.
    pub fn logits(cfg: LlamaConfig, model: &ModelParameters, begin: usize, nd: usize, nt: usize)
        -> (r: (Step, Step, Tensor<BufId>))
        requires
            cfg.wf(),
            cfg.tensor_sizes_fit(),
            decode_fits(cfg, nt as nat),
            model.wf(cfg),
            nd >= 1,
            begin + nd <= nt,
        ensures
            ({
                let dt = cfg.data_type;
                let d = cfg.hidden_size as int;
                let v = cfg.vocab_size as int;
                &&& (r.0 matches Step::RmsNorm { out, inp, weight, eps_bits }
                    && view2(out, dt, nd as int, d, d, 1, begin as int * d, BufId::X0)
                    && out.same_view(inp)
                    && weight.physical == BufId::Global(GlobalKind::ModelNorm)
                    && eps_bits == cfg.rms_norm_eps_bits)
                &&& (r.1 matches Step::MatMul { c, beta, a, b, alpha }
                    && beta == Scale::Zero
                    && alpha == Scale::One
                    && view2(c, dt, nd as int, v, v, 1, 0, BufId::Logits)
                    && view2(a, dt, nd as int, d, d, 1, begin as int * d, BufId::X0)
                    && b.physical == BufId::Global(GlobalKind::LmHead))
                &&& view2(r.2, dt, nd as int, v, v, 1, 0, BufId::Logits)
            }),
    {
        let dt = cfg.data_type;
        let d = cfg.hidden_size;
        let v = cfg.vocab_size;
        proof {
            assert(begin as int * d as int <= nt as int * d as int
                && nd as int * v as int <= nt as int * v as int) by (nonlinear_arith)
                requires
                    begin as int + nd as int <= nt as int,
                    nd >= 1,
                    d >= 0,
                    v >= 0,
            ;
        }
        let x0 = buf2(dt, nt, d, BufId::X0);
        let x = x0.slice_axis(0, begin, nd);
        let norm = rms_norm(x.dup(), x.dup(), model.model_norm.dup(), cfg.rms_norm_eps_bits);
        let lg = buf2(dt, nd, v, BufId::Logits);
        let head = mat_mul(lg, Scale::Zero, x, model.lm_head.dup(), Scale::One);
        (norm, head, buf2(dt, nd, v, BufId::Logits))
    }

    /// The attention of one layer, request by request: repack the request's
    /// query rows densely, append its fresh K and V into its caches at
    /// positions `pos .. pos + sl`, score the grouped queries against the
    /// whole history scaled by `1/sqrt(DH)`, softmax under the causal mask,
    /// weigh the values, and repack the result into the batch rows of `x1`.
    pub fn attention<Id>(
        cfg: LlamaConfig,
        fs: FusedSoftmax,
        layer: usize,
        requests: &Vec<Request<Id>>,
        nt: usize,
    ) -> (r: Vec<AttentionPlan>)
        requires
            cfg.wf(),
            cfg.data_type == DataType::F16,
            cfg.tensor_sizes_fit(),
            nt == total_tokens(requests@),
            decode_fits(cfg, nt as nat),
            positions_fit(requests@, cfg.max_position_embeddings as int),
            forall|i: int| 0 <= i < requests@.len()
                ==> spec_seq_len(#[trigger] requests@[i]) >= 1,
            fs.max_seq_len == cfg.max_position_embeddings,
        ensures
            r@.len() == requests@.len(),
            forall|j: int| 0 <= j < requests@.len()
                ==> att_plan_wf(#[trigger] r@[j], cfg, requests@, layer as int, j),
    {
        let ghost rs = requests@;
        let dt = cfg.data_type;
        let d = cfg.hidden_size;
        let dkv = cfg.kv_hidden_size();
        let dh = cfg.head_dim();
        let nh = cfg.num_attention_heads;
        let nkvh = cfg.num_key_value_heads;
        let mp = cfg.max_position_embeddings;
        proof {
            cfg.lemma_kv_hidden_size();
            assert(d + 2 * dkv <= usize::MAX) by (nonlinear_arith)
                requires
                    nt as int * (d as int + 2 * dkv as int) <= usize::MAX,
                    nt >= 1,
                    d >= 0,
                    dkv >= 0,
            ;
            assert(nh * dh == d) by (nonlinear_arith)
                requires dh as int * nh as int == d as int;
        }
        let qkv_w = d + 2 * dkv;
        let hg = nh / nkvh;
        proof {
            vstd::arithmetic::div_mod::lemma_fundamental_div_mod(nh as int, nkvh as int);
            assert(nh as int == nkvh as int * hg as int);
            assert(hg >= 1) by (nonlinear_arith)
                requires
                    nh as int == nkvh as int * hg as int,
                    nh >= 1,
                    nkvh >= 1,
                    hg >= 0,
            ;
        }
        let n = requests.len();
        let mut out: Vec<AttentionPlan> = Vec::new();
        let mut req: usize = 0;
        let mut j: usize = 0;
        while j < n
            invariant
                rs == requests@,
                j <= n,
                n == rs.len(),
                req == row_offset(rs, j as int),
                out@.len() == j,
                forall|k: int| 0 <= k < j
                    ==> att_plan_wf(#[trigger] out@[k], cfg, rs, layer as int, k),
                cfg.wf(),
                cfg.data_type == DataType::F16,
                cfg.tensor_sizes_fit(),
                dt == cfg.data_type,
                d == cfg.hidden_size,
                dkv == cfg.spec_kv_hidden_size(),
                dh == cfg.spec_head_dim(),
                nh == cfg.num_attention_heads,
                nkvh == cfg.num_key_value_heads,
                mp == cfg.max_position_embeddings,
                qkv_w == d + 2 * dkv,
                nh as int == nkvh as int * hg as int,
                hg as int == nh as int / nkvh as int,
                hg >= 1,
                dh as int * nh as int == d as int,
                nh as int * dh as int == d as int,
                dh >= 1,
                dkv >= 1,
                dkv as int == nkvh as int * dh as int,
                nt == total_tokens(rs),
                decode_fits(cfg, nt as nat),
                positions_fit(rs, mp as int),
                forall|i: int| 0 <= i < rs.len() ==> spec_seq_len(#[trigger] rs[i]) >= 1,
                fs.max_seq_len == mp,
            decreases n - j,
        {
            let r_ = &requests[j];
            let sl = r_.tokens.len();
            let pos_u = r_.pos;
            let pos_us = pos_u as usize;
            proof {
                crate::batch::lemma_row_offset_mono(rs, j as int + 1, n as int);
                assert(spec_att_len(rs[j as int]) <= mp);
            }
            let al = pos_us + sl;
            proof {
                let sli = sl as int;
                let ali = al as int;
                let nti = nt as int;
                let di_ = d as int;
                let dhi = dh as int;
                let nhi = nh as int;
                let nkvhi = nkvh as int;
                let mpi = mp as int;
                let qw = qkv_w as int;
                let reqi = req as int;
                let hgi = hg as int;
                assert(reqi + sli <= nti);
                assert(nkvhi * (mpi * dhi) <= usize::MAX);
                assert(mpi * dhi <= usize::MAX) by (nonlinear_arith)
                    requires nkvhi * (mpi * dhi) <= usize::MAX, nkvhi >= 1, mpi * dhi >= 0;
                assert(pos_us as int * dhi <= mpi * dhi) by (nonlinear_arith)
                    requires pos_us as int <= mpi, dhi >= 0;
                assert(reqi * qw + qw <= nti * qw) by (nonlinear_arith)
                    requires reqi + 1 <= nti, qw >= 0;
                assert(nti * qw <= usize::MAX);
                assert(di_ + 2 * (nkvhi * dhi) == qw);
                assert(reqi * di_ + di_ <= nti * di_) by (nonlinear_arith)
                    requires reqi + 1 <= nti, di_ >= 0;
                assert(nti * di_ <= usize::MAX);
                // dense per-request buffers fit
                assert(sli * dhi <= usize::MAX && nhi * (sli * dhi) <= usize::MAX
                    && nhi * (sli * dhi) == sli * di_) by (nonlinear_arith)
                    requires
                        sli >= 1,
                        dhi >= 1,
                        nhi >= 1,
                        sli <= nti,
                        nhi * dhi == di_,
                        nti * di_ <= usize::MAX,
                ;
                assert(hgi * sli <= usize::MAX && (hgi * sli) * ali <= usize::MAX
                    && nkvhi * ((hgi * sli) * ali) <= usize::MAX
                    && nkvhi * ((hgi * sli) * ali) == nhi * (sli * ali)
                    && nkvhi * ((hgi * sli) * dhi) == nhi * (sli * dhi)
                    && sli * ali <= usize::MAX) by (nonlinear_arith)
                    requires
                        sli >= 1,
                        ali >= 1,
                        hgi >= 1,
                        nkvhi >= 1,
                        dhi >= 1,
                        sli <= nti,
                        ali <= mpi,
                        nhi == nkvhi * hgi,
                        nhi * (nti * mpi) <= usize::MAX,
                        nti >= 1,
                        mpi >= 1,
                        nhi >= 1,
                ;
            }
            // this request's rows of Q, K, V, head-major
            let qkv_view = buf2(dt, nt, qkv_w, BufId::Qkv);
            let q3 = qkv_view.slice_axis(1, 0, d).split_last_axis(nh, dh).transpose_axes(
                0,
                1,
            ).slice_axis(1, req, sl);
            let k3 = qkv_view.slice_axis(1, d, dkv).split_last_axis(nkvh, dh).transpose_axes(
                0,
                1,
            ).slice_axis(1, req, sl);
            let v3 = qkv_view.slice_axis(1, d + dkv, dkv).split_last_axis(
                nkvh,
                dh,
            ).transpose_axes(0, 1).slice_axis(1, req, sl);
            proof {
                let qw = qkv_w as int;
                assert(view3(q3, dt, nh as int, sl as int, dh as int, dh as int, qw, 1,
                    req as int * qw, BufId::Qkv));
                assert(view3(k3, dt, nkvh as int, sl as int, dh as int, dh as int, qw, 1,
                    d as int + req as int * qw, BufId::Qkv));
                assert(view3(v3, dt, nkvh as int, sl as int, dh as int, dh as int, qw, 1,
                    d as int + dkv as int + req as int * qw, BufId::Qkv));
            }
            // this request's output rows in x1
            let mut oshape: Vec<usize> = Vec::new();
            oshape.push(nt);
            oshape.push(nh);
            oshape.push(dh);
            proof {
                lemma_product_triple(oshape@);
                assert(nt as nat * (nh as nat * dh as nat) == nt as nat * d as nat)
                    by (nonlinear_arith)
                    requires nh as int * dh as int == d as int;
            }
            let o_r = buf2(dt, nt, d, BufId::X1).reshape(oshape);
            proof {
                assert(o_r.strides@[2] == crate::tensor::suffix_product(o_r.shape@, 3));
                assert(crate::tensor::suffix_product(o_r.shape@, 3) == 1);
                assert(o_r.strides@[1] == crate::tensor::suffix_product(o_r.shape@, 2));
                assert(crate::tensor::suffix_product(o_r.shape@, 2) == o_r.shape@[2] as nat
                    * crate::tensor::suffix_product(o_r.shape@, 3));
                assert(o_r.strides@[0] == crate::tensor::suffix_product(o_r.shape@, 1));
                assert(crate::tensor::suffix_product(o_r.shape@, 1) == o_r.shape@[1] as nat
                    * crate::tensor::suffix_product(o_r.shape@, 2));
                assert(o_r.strides@[0] == nh as nat * dh as nat);
                assert(nh as nat * dh as nat == d as nat);
            }
            let o3 = o_r.transpose_axes(0, 1).slice_axis(1, req, sl);
            proof {
                assert(view3(o3, dt, nh as int, sl as int, dh as int, dh as int, d as int, 1,
                    req as int * d as int, BufId::X1));
            }
            // dense query buffer, caches, history views
            let q_att = buf3(dt, nh, sl, dh, BufId::QBuf);
            let k_cache = buf3(dt, nkvh, mp, dh, BufId::KCache(j, layer));
            let v_cache = buf3(dt, nkvh, mp, dh, BufId::VCache(j, layer));
            let k_cat = k_cache.slice_axis(1, pos_us, sl);
            let v_cat = v_cache.slice_axis(1, pos_us, sl);
            let reform_q = reform(q_att.dup(), q3);
            let reform_k = reform(k_cat, k3);
            let reform_v = reform(v_cat, v3);
            let hg_sl = hg * sl;
            proof {
                assert(hg_sl >= 1) by (nonlinear_arith)
                    requires hg >= 1, sl >= 1, hg_sl as int == hg as int * sl as int;
            }
            let mut gshape: Vec<usize> = Vec::new();
            gshape.push(nkvh);
            gshape.push(hg_sl);
            gshape.push(dh);
            proof {
                lemma_product_triple(gshape@);
                assert(nkvh as nat * (hg_sl as nat * dh as nat) == nh as nat * (sl as nat
                    * dh as nat)) by (nonlinear_arith)
                    requires
                        nh as int == nkvh as int * hg as int,
                        hg_sl as int == hg as int * sl as int,
                ;
            }
            let q_g = q_att.reshape(gshape);
            proof {
                assert(q_g.strides@[2] == crate::tensor::suffix_product(q_g.shape@, 3));
                assert(crate::tensor::suffix_product(q_g.shape@, 3) == 1);
                assert(q_g.strides@[1] == crate::tensor::suffix_product(q_g.shape@, 2));
                assert(crate::tensor::suffix_product(q_g.shape@, 2) == q_g.shape@[2] as nat
                    * crate::tensor::suffix_product(q_g.shape@, 3));
                assert(q_g.strides@[0] == crate::tensor::suffix_product(q_g.shape@, 1));
                assert(crate::tensor::suffix_product(q_g.shape@, 1) == q_g.shape@[1] as nat
                    * crate::tensor::suffix_product(q_g.shape@, 2));
                assert(view3(q_g, dt, nkvh as int, hg_sl as int, dh as int,
                    hg_sl as int * dh as int, dh as int, 1, 0, BufId::QBuf));
            }
            let k_att = k_cache.slice_axis(1, 0, al).transpose_axes(1, 2);
            let v_att = v_cache.slice_axis(1, 0, al);
            let att = buf3(dt, nkvh, hg_sl, al, BufId::AttBuf);
            let score = mat_mul(att.dup(), Scale::Zero, q_g.dup(), k_att, Scale::RsqrtHeadDim);
            let mut sshape: Vec<usize> = Vec::new();
            sshape.push(nh);
            sshape.push(sl);
            sshape.push(al);
            proof {
                lemma_product_triple(sshape@);
                assert(nkvh as nat * (hg_sl as nat * al as nat) == nh as nat * (sl as nat
                    * al as nat)) by (nonlinear_arith)
                    requires
                        nh as int == nkvh as int * hg as int,
                        hg_sl as int == hg as int * sl as int,
                ;
            }
            let att_sm = att.dup().reshape(sshape);
            proof {
                assert(att_sm.strides@[2] == crate::tensor::suffix_product(att_sm.shape@, 3));
                assert(crate::tensor::suffix_product(att_sm.shape@, 3) == 1);
                assert(att_sm.strides@[1] == crate::tensor::suffix_product(att_sm.shape@, 2));
                assert(crate::tensor::suffix_product(att_sm.shape@, 2) == att_sm.shape@[2] as nat
                    * crate::tensor::suffix_product(att_sm.shape@, 3));
                assert(att_sm.strides@[0] == crate::tensor::suffix_product(att_sm.shape@, 1));
                assert(crate::tensor::suffix_product(att_sm.shape@, 1) == att_sm.shape@[1] as nat
                    * crate::tensor::suffix_product(att_sm.shape@, 3 - 1));
                assert(view3(att_sm, dt, nh as int, sl as int, al as int,
                    sl as int * al as int, al as int, 1, 0, BufId::AttBuf));
            }
            let softmax_step = fs.launch(att_sm);
            let weigh = mat_mul(q_g, Scale::Zero, att, v_att, Scale::One);
            let x2_rows = buf3(dt, nh, sl, dh, BufId::QBuf);
            let reform_o = reform(o3, x2_rows);
            out.push(
                AttentionPlan {
                    req: j,
                    row_offset: req,
                    seq_len: sl,
                    pos: pos_u,
                    att_len: al,
                    reform_q,
                    reform_k,
                    reform_v,
                    score,
                    softmax: softmax_step,
                    weigh,
                    reform_o,
                },
            );
            proof {
                assert(att_plan_wf(out@[j as int], cfg, rs, layer as int, j as int));
            }
            req = req + sl;
            j += 1;
        }
        out
    }

    /// One full pass over a batch. Sorts the requests (prefill-bearing first,
    /// purely-decoding last), rejects invalid ones, and builds the complete
    /// plan: embedding gather, position upload and wait, one plan per layer
    /// driven through the weight window (`load`, then `sync`, then use), the
    /// decode compaction, and the logits projection over exactly the packed
    /// decode rows, in sorted order.
    pub fn decode<Id>(&mut self, requests: Vec<Request<Id>>) -> (r: Result<DecodePlan<Id>, Error>)
        requires
            old(self).wf(),
            requests@.len() >= 1,
            forall|i: int| 0 <= i < requests@.len()
                ==> spec_seq_len(#[trigger] requests@[i]) >= 1,
            decode_fits(old(self).host, total_tokens(requests@)),
            old(self).next_event as int + old(self).host.num_hidden_layers as int + 1
                <= u64::MAX,
        ensures
            final(self).wf(),
            final(self).host == old(self).host,
            final(self).model == old(self).model,
            r is Err ==> *final(self) == *old(self),
            ({
                let rs = sorted_batch(requests@);
                let cfg = old(self).host;
                let m0 = old(self).layers.model();
                let evb = old(self).next_event as int + 1;
                &&& (r is Ok <==> tokens_in_range(rs, cfg.vocab_size as int) && positions_fit(
                    rs,
                    cfg.max_position_embeddings as int,
                ))
                &&& (!tokens_in_range(rs, cfg.vocab_size as int) ==> r == Result::<
                    DecodePlan<Id>,
                    Error,
                >::Err(Error::TokenOutOfRange))
                &&& (tokens_in_range(rs, cfg.vocab_size as int) && !positions_fit(
                    rs,
                    cfg.max_position_embeddings as int,
                ) ==> r == Result::<DecodePlan<Id>, Error>::Err(Error::ShapeMismatch))
                &&& (r is Ok ==> final(self).next_event as int == old(self).next_event as int
                    + 1 + cfg.num_hidden_layers as int)
                &&& (r is Ok ==> final(self).layers.model() == run_steps(
                    m0,
                    cfg.num_hidden_layers as int,
                    evb,
                ))
                &&& (r matches Ok(p) ==> {
                    &&& p.requests@ == rs
                    &&& p.nt == total_tokens(rs)
                    &&& (p.embed matches Step::Gather { out, table, tokens } && {
                        let d = cfg.hidden_size as int;
                        &&& view2(out, cfg.data_type, p.nt as int, d, d, 1, 0, BufId::X0)
                        &&& view2(
                            table,
                            cfg.data_type,
                            cfg.vocab_size as int,
                            d,
                            d,
                            1,
                            0,
                            BufId::Global(GlobalKind::EmbedTokens),
                        )
                        &&& tokens@.len() == p.nt
                        &&& forall|i: int| 0 <= i < rs.len() ==> tokens@.subrange(
                            row_offset(rs, i) as int,
                            row_offset(rs, i + 1) as int,
                        ) == (#[trigger] rs[i]).tokens@
                    })
                    &&& (p.pos_upload matches Step::UploadPos { dst, values, event } && {
                        &&& pos_view(dst, p.nt as int)
                        &&& values@.len() == p.nt
                        &&& forall|i: int| 0 <= i < rs.len() ==> values@.subrange(
                            row_offset(rs, i) as int,
                            row_offset(rs, i + 1) as int,
                        ) == crate::batch::request_positions(#[trigger] rs[i])
                        &&& event == old(self).next_event
                        &&& p.pos_wait == (Step::WaitEvent { event })
                    })
                    &&& p.layers@.len() == cfg.num_hidden_layers
                    &&& forall|l: int| 0 <= l < p.layers@.len() ==> layer_plan_wf(
                        #[trigger] p.layers@[l],
                        cfg,
                        rs,
                        p.nt as int,
                        l,
                    )
                    &&& forall|l: int| 0 <= l < p.layers@.len() ==> layer_schedule_wf(
                        #[trigger] p.layers@[l],
                        m0,
                        evb,
                        l,
                    )
                    &&& p.decode_indices@ == decode_indices_spec(rs, rs.len() as int)
                    &&& p.decode_indices@.len() == decode_count(rs)
                    &&& (p.output is None <==> first_decode_from(rs, 0) == rs.len())
                    &&& (p.output matches Some(o) ==> {
                        let fd = first_decode_from(rs, 0);
                        &&& output_plan_wf(o, cfg, rs, p.nt as int, old(self).model.sync_event)
                        &&& o.compaction.end - o.compaction.begin == decode_count(rs)
                        &&& o.compaction.begin == row_offset(rs, fd) + spec_seq_len(rs[fd]) - 1
                        &&& o.compaction.end == o.compaction.begin + 1 + decode_count_range(
                            rs,
                            fd + 1,
                            rs.len() as int,
                        )
                        &&& o.compaction.copies@ == copy_schedule(rs, fd, rs.len() as int)
                    })
                })
            }),
    {
        let ghost orig = requests@;
        let cfg = self.host;
        let rot = self.rotary_embedding;
        let fs = self.fused_softmax;
        let sorted = sort_requests(requests);
        match validate_requests(&sorted, &cfg) {
            Err(e) => {
                return Err(e);
            },
            Ok(()) => {},
        }
        proof {
            crate::batch::lemma_total_tokens_sorted(orig);
            crate::batch::lemma_sorted_min_seq_len(orig);
            assert(total_tokens(orig) <= usize::MAX) by (nonlinear_arith)
                requires
                    total_tokens(orig) * cfg.hidden_size as nat <= usize::MAX,
                    cfg.hidden_size >= 1,
            ;
        }
        let nt = total_token_count(&sorted);
        let embed = Self::token_embed(cfg, &sorted, nt);
        let ev_pos = self.next_event;
        self.next_event = ev_pos + 1;
        let (pos_upload, pos_wait) = Self::upload_positions(cfg, &sorted, nt, ev_pos);
        let ghost m0g = self.layers.model();
        let ghost evb = old(self).next_event as int + 1;
        let nlayers = cfg.num_hidden_layers;
        let mut layer_plans: Vec<LayerPlan> = Vec::new();
        let mut l: usize = 0;
        while l < nlayers
            invariant
                self.host == cfg,
                self.model == old(self).model,
                self.rotary_embedding == rot,
                self.fused_softmax == fs,
                cfg == old(self).host,
                cfg.wf(),
                cfg.data_type == DataType::F16,
                cfg.spec_size() <= usize::MAX,
                cfg.tensor_sizes_fit(),
                old(self).model.wf(cfg),
                rot.block_size > cfg.spec_head_dim(),
                fs.max_seq_len == cfg.max_position_embeddings,
                nlayers == cfg.num_hidden_layers,
                l <= nlayers,
                self.layers.wf(cfg),
                self.layers.model().pipelined(l as int),
                m0g == old(self).layers.model(),
                evb == old(self).next_event as int + 1,
                self.layers.model() == run_steps(m0g, l as int, evb),
                self.next_event as int == old(self).next_event as int + 1 + l as int,
                old(self).next_event as int + nlayers as int + 1 <= u64::MAX,
                sorted@ == sorted_batch(orig),
                nt == total_tokens(sorted@),
                decode_fits(cfg, nt as nat),
                tokens_in_range(sorted@, cfg.vocab_size as int),
                positions_fit(sorted@, cfg.max_position_embeddings as int),
                forall|i: int| 0 <= i < sorted@.len()
                    ==> spec_seq_len(#[trigger] sorted@[i]) >= 1,
                layer_plans@.len() == l,
                forall|k: int| 0 <= k < l ==> layer_plan_wf(
                    #[trigger] layer_plans@[k],
                    cfg,
                    sorted@,
                    nt as int,
                    k,
                ),
                forall|k: int| 0 <= k < l ==> layer_schedule_wf(
                    #[trigger] layer_plans@[k],
                    m0g,
                    evb,
                    k,
                ),
            decreases nlayers - l,
        {
            let ev = self.next_event;
            self.next_event = ev + 1;
            let ghost m_pre = self.layers.model();
            proof {
                assert(m_pre == run_steps(m0g, l as int, evb));
                assert(ev as int == evb + l);
            }
            let stage = self.layers.load(&cfg, l, ev);
            proof {
                crate::parameters::lemma_load_establishes(m_pre, l as int, ev as int);
                let m = self.layers.model();
                assert(m.loaded(l as int));
                vstd::arithmetic::div_mod::lemma_small_mod(m.current as nat, m.w() as nat);
                assert((m.current + 0) % m.w() == m.current);
                assert(m.slots[(m.current + 0) % m.w()].layer == (l as int + 0) % m.nlayers);
                vstd::arithmetic::div_mod::lemma_small_mod(l as nat, m.nlayers as nat);
                assert(self.layers.layers@[self.layers.current as int].layer == l);
            }
            let slot = self.layers.current;
            let ghost m_loaded = self.layers.model();
            proof {
                assert(m_loaded == m_pre.load(l as int, evb + l));
                assert(slot as int == m_pre.current);
                assert(m_loaded.slots[m_pre.current].event == self.layers.layers@[slot as int].sync_event as int);
            }
            let params = self.layers.sync(l);
            proof {
                crate::parameters::lemma_sync_advances(m_loaded, l as int);
                assert(params.wf_for(cfg, slot as int));
            }
            let (input_norm, qkv_proj, rotary_q, rotary_k) = Self::before_att(
                cfg,
                rot,
                params,
                slot,
                nt,
            );
            let att = Self::attention(cfg, fs, l, &sorted, nt);
            let (o_proj, post_norm, gate_up_proj, act, down_proj) = Self::after_att(
                cfg,
                params,
                slot,
                nt,
            );
            let wait_event = params.sync_event;
            layer_plans.push(
                LayerPlan {
                    layer: l,
                    slot,
                    stage,
                    wait_event,
                    input_norm,
                    qkv_proj,
                    rotary_q,
                    rotary_k,
                    attention: att,
                    o_proj,
                    post_norm,
                    gate_up_proj,
                    swiglu: act,
                    down_proj,
                },
            );
            proof {
                assert(self.layers.model() == m_loaded.sync());
                assert(self.layers.model() == run_steps(m0g, l as int + 1, evb));
                assert(layer_plan_wf(layer_plans@[l as int], cfg, sorted@, nt as int, l as int));
                assert(layer_schedule_wf(layer_plans@[l as int], m0g, evb, l as int));
            }
            l += 1;
        }
        proof {
            crate::parameters::lemma_pipelined_mod(self.layers.model(), nlayers as int);
            vstd::arithmetic::div_mod::lemma_mod_self_0(nlayers as int);
        }
        let dec_idx = decode_indices(&sorted);
        let comp = move_decode(&sorted);
        let output = match comp {
            None => None,
            Some(c) => {
                let begin = c.begin;
                let nd = c.end - c.begin;
                let (norm, head, lg) = Self::logits(cfg, &self.model, begin, nd, nt);
                Some(
                    OutputPlan {
                        compaction: c,
                        wait_event: self.model.sync_event,
                        model_norm: norm,
                        lm_head: head,
                        logits: lg,
                    },
                )
            },
        };
        Ok(
            DecodePlan {
                requests: sorted,
                nt,
                embed,
                pos_upload,
                pos_wait,
                layers: layer_plans,
                output,
                decode_indices: dec_idx,
            },
        )
    }
}

} // verus!
