//! Device-resident model weights.
//!
//! `ModelParameters` holds the two lifetime-global tensors (final norm and
//! output head). `LayersParameters` is the streaming window: a ring of `W`
//! slots, each holding one layer's six weight tensors plus the event that
//! marks the end of its staging copies. A cursor walks the ring; `load`
//! refills the slot the cursor will reach `W - 1` steps from now with the
//! layer needed then, and `sync` hands the current slot to compute after
//! waiting on its event.

use vstd::prelude::*;
use vstd::arithmetic::div_mod::{
    lemma_add_mod_noop, lemma_mod_multiples_vanish, lemma_small_mod,
};
use crate::config::LlamaConfig;
use crate::storage::{BufId, GlobalKind, WeightKind};
use crate::tensor::Tensor;

verus! {

/// Identifier of a recorded synchronization event. A larger id is a later
/// recording.
pub type EventId = u64;

/// One asynchronous staging: copy the weights of `layer` from the host into
/// window slot `slot` on the transfer stream, then record `event` there.
#[derive(Clone, Copy, Debug, PartialEq, Eq, Structural)]
pub struct StageOp {
    pub slot: usize,
    pub layer: usize,
    pub event: EventId,
}

/// Ghost image of one window slot: which layer it holds and the event that
/// guards it.
pub struct SlotModel {
    pub layer: int,
    pub event: int,
}

/// Ghost image of the whole window.
pub struct WindowModel {
    pub slots: Seq<SlotModel>,
    pub current: int,
    pub nlayers: int,
}

impl WindowModel {
    /// Number of slots, `W`.
    pub open spec fn w(self) -> int {
        self.slots.len() as int
    }

    pub open spec fn wf(self) -> bool {
        &&& 1 <= self.w() <= self.nlayers
        &&& 0 <= self.current < self.w()
        &&& forall|j: int| 0 <= j < self.w()
            ==> 0 <= #[trigger] self.slots[j].layer < self.nlayers
    }

    /// The freshly constructed window: slot `i` preloaded with layer `i`,
    /// guarded by the `i`-th construction event.
    pub open spec fn init(w: int, nlayers: int, ev0: int) -> WindowModel {
        WindowModel {
            slots: Seq::new(w as nat, |i: int| SlotModel { layer: i, event: ev0 + i }),
            current: 0,
            nlayers,
        }
    }

    /// The slot `load` refills: the one the cursor reaches `W - 1` syncs from
    /// now.
    pub open spec fn load_slot(self) -> int {
        (self.current + self.w() - 1) % self.w()
    }

    /// The layer `load(layer)` stages: the one consumed `W - 1` syncs from
    /// now.
    pub open spec fn load_target(self, layer: int) -> int {
        (layer + self.w() - 1) % self.nlayers
    }

    /// `load` does nothing when the slot already holds its target layer.
    pub open spec fn load_is_noop(self, layer: int) -> bool {
        self.slots[self.load_slot()].layer == self.load_target(layer)
    }

    /// Effect of `load(layer)` with a fresh event `ev`.
    pub open spec fn load(self, layer: int, ev: int) -> WindowModel {
        if self.load_is_noop(layer) {
            self
        } else {
            WindowModel {
                slots: self.slots.update(
                    self.load_slot(),
                    SlotModel { layer: self.load_target(layer), event: ev },
                ),
                ..self
            }
        }
    }

    /// Effect of `sync`: the cursor advances; no slot changes.
    pub open spec fn sync(self) -> WindowModel {
        WindowModel { current: (self.current + 1) % self.w(), ..self }
    }

    /// The pipeline invariant at phase `l` (the number of syncs performed,
    /// modulo wraparound): the next `W - 1` slots the cursor will reach hold
    /// the next `W - 1` layers, and the last slot holds either its future
    /// layer already (fresh, or `W == L`) or the layer consumed one sync ago
    /// (stale, about to be refilled).
    pub open spec fn pipelined(self, l: int) -> bool {
        let w = self.w();
        let n = self.nlayers;
        &&& self.wf()
        &&& forall|j: int| 0 <= j < w - 1
            ==> self.slots[#[trigger] ((self.current + j) % w)].layer == (l + j) % n
        &&& (self.slots[(self.current + w - 1) % w].layer == (l + w - 1) % n
            || self.slots[(self.current + w - 1) % w].layer == (l + n - 1) % n)
    }

    /// After `load(l)`: every slot the cursor will reach in the next `W`
    /// syncs holds the layer consumed then.
    pub open spec fn loaded(self, l: int) -> bool {
        let w = self.w();
        let n = self.nlayers;
        &&& self.wf()
        &&& forall|j: int| 0 <= j < w
            ==> self.slots[#[trigger] ((self.current + j) % w)].layer == (l + j) % n
    }
}

/// `x % w` in closed form for `x` within two periods.
proof fn lemma_mod_in_range(x: int, w: int)
    requires
        0 < w,
        0 <= x < 2 * w,
    ensures
        x % w == if x < w { x } else { x - w },
{
    if x < w {
        lemma_small_mod(x as nat, w as nat);
    } else {
        lemma_mod_multiples_vanish(1, x - w, w);
        lemma_small_mod((x - w) as nat, w as nat);
    }
}

/// The freshly preloaded window satisfies the pipeline invariant at phase 0.
pub proof fn lemma_init_pipelined(w: int, nlayers: int, ev0: int)
    requires
        1 <= w <= nlayers,
    ensures
        WindowModel::init(w, nlayers, ev0).pipelined(0),
{
    let m = WindowModel::init(w, nlayers, ev0);
    assert forall|j: int| 0 <= j < w - 1
        implies m.slots[#[trigger] ((m.current + j) % w)].layer == (0 + j) % nlayers by {
        lemma_mod_in_range(j, w);
        lemma_small_mod(j as nat, nlayers as nat);
    }
    lemma_mod_in_range(w - 1, w);
    lemma_small_mod((w - 1) as nat, nlayers as nat);
    assert forall|j: int| 0 <= j < w
        implies 0 <= #[trigger] m.slots[j].layer < nlayers by {}
}

/// From the pipeline invariant, `load(l)` leaves every slot holding the layer
/// the cursor will consume when it reaches it.
pub proof fn lemma_load_establishes(m: WindowModel, l: int, ev: int)
    requires
        m.pipelined(l),
        0 <= l,
    ensures
        m.load(l, ev).loaded(l),
        m.load(l, ev).current == m.current,
        m.load(l, ev).nlayers == m.nlayers,
        m.load(l, ev).w() == m.w(),
        forall|j: int| 0 <= j < m.w() && j != m.load_slot()
            ==> m.load(l, ev).slots[j] == m.slots[j],
{
    let w = m.w();
    let n = m.nlayers;
    let post = m.load(l, ev);
    let tgt_slot = m.load_slot();
    vstd::arithmetic::div_mod::lemma_mod_bound(m.current + w - 1, w);
    vstd::arithmetic::div_mod::lemma_mod_bound(l + w - 1, n);
    assert forall|j: int| 0 <= j < w
        implies post.slots[#[trigger] ((post.current + j) % w)].layer == (l + j) % n by {
        lemma_mod_in_range(m.current + j, w);
        lemma_mod_in_range(m.current + w - 1, w);
        if j < w - 1 {
            // untouched slots keep their pipelined layer
            assert((m.current + j) % w != tgt_slot);
            assert(post.slots[(m.current + j) % w] == m.slots[(m.current + j) % w]);
        } else {
            // the refilled (or already fresh) slot holds the target layer
            assert((m.current + j) % w == tgt_slot);
            assert(post.slots[tgt_slot].layer == m.load_target(l));
        }
    }
    assert(post.wf());
}

/// From a fully loaded window, `sync` consumes exactly layer `l % L` and
/// re-establishes the pipeline invariant at the next phase.
pub proof fn lemma_sync_advances(m: WindowModel, l: int)
    requires
        m.loaded(l),
        0 <= l,
    ensures
        m.slots[m.current].layer == l % m.nlayers,
        m.sync().pipelined(l + 1),
        m.sync().slots == m.slots,
        m.sync().nlayers == m.nlayers,
        m.sync().current == (m.current + 1) % m.w(),
{
    let w = m.w();
    let n = m.nlayers;
    let post = m.sync();
    lemma_small_mod(m.current as nat, w as nat);
    assert(m.slots[(m.current + 0) % w].layer == (l + 0) % n);
    vstd::arithmetic::div_mod::lemma_mod_bound(m.current + 1, w);
    assert forall|j: int| 0 <= j < w - 1
        implies post.slots[#[trigger] ((post.current + j) % w)].layer == (l + 1 + j) % n by {
        lemma_add_mod_noop(m.current + 1, j, w);
        lemma_small_mod(j as nat, w as nat);
        assert((post.current + j) % w == (m.current + (j + 1)) % w);
        assert(m.slots[(m.current + (j + 1)) % w].layer == (l + (j + 1)) % n);
    }
    // the slot just consumed is now the stale one
    lemma_add_mod_noop(m.current + 1, w - 1, w);
    lemma_small_mod((w - 1) as nat, w as nat);
    lemma_mod_multiples_vanish(1, m.current, w);
    assert((post.current + w - 1) % w == (m.current + w) % w == m.current % w);
    lemma_mod_multiples_vanish(1, l, n);
    assert((l + 1 + n - 1) % n == (l + n) % n == l % n);
    assert(post.slots[(post.current + w - 1) % w].layer == (l + 1 + n - 1) % n);
}

/// The pipeline invariant only depends on the phase modulo `L`: after a full
/// pass over the layers the window is ready for the next pass.
pub proof fn lemma_pipelined_mod(m: WindowModel, l: int)
    requires
        m.pipelined(l),
        0 <= l,
    ensures
        m.pipelined(l % m.nlayers),
{
    let w = m.w();
    let n = m.nlayers;
    assert forall|j: int| 0 <= j < w - 1
        implies m.slots[#[trigger] ((m.current + j) % w)].layer == (l % n + j) % n by {
        lemma_add_mod_noop(l, j, n);
        lemma_small_mod(j as nat, n as nat);
        assert((l % n + j) % n == ((l % n) + (j % n)) % n);
    }
    lemma_add_mod_noop(l, w - 1, n);
    lemma_small_mod((w - 1) as nat, n as nat);
    lemma_add_mod_noop(l, n - 1, n);
    lemma_small_mod((n - 1) as nat, n as nat);
}

/// When the window holds all layers (`W == L`), `load` is a no-op: after
/// construction no staging copy is ever issued and no slot event advances.
pub proof fn lemma_full_window_load_noop(m: WindowModel, l: int, ev: int)
    requires
        m.pipelined(l),
        m.w() == m.nlayers,
        0 <= l,
    ensures
        m.load(l, ev) == m,
{
    let w = m.w();
    let n = m.nlayers;
    assert((l + w - 1) % n == (l + n - 1) % n);
}

/// With a single slot (`W == 1`) and more than one layer, a stale slot is
/// always refilled: each step past the first pass's opening stages a copy.
pub proof fn lemma_single_slot_load_stages(m: WindowModel, l: int, ev: int)
    requires
        m.pipelined(l),
        m.w() == 1,
        m.nlayers > 1,
        0 <= l < m.nlayers,
        m.slots[m.current].layer == (l + m.nlayers - 1) % m.nlayers,
    ensures
        !m.load_is_noop(l),
        m.load(l, ev).slots[m.current].layer == l,
        m.load(l, ev).slots[m.current].event == ev,
    {
    let n = m.nlayers;
    lemma_small_mod(0nat, 1nat);
    assert(m.current == 0);
    assert(m.load_slot() == 0);
    lemma_small_mod(l as nat, n as nat);
    assert(m.load_target(l) == l);
    lemma_mod_in_range(l + n - 1, n);
    assert((l + n - 1) % n == if l + n - 1 < n { l + n - 1 } else { l - 1 });
    assert(m.slots[0].layer != l);
}

/// The state of the window after `k` load/sync steps of one forward pass,
/// step `i` staging with event `evs[i]`.
pub open spec fn run_schedule(m0: WindowModel, k: int, evs: Seq<int>) -> WindowModel
    decreases k,
{
    if k <= 0 {
        m0
    } else {
        run_schedule(m0, k - 1, evs).load(k - 1, evs[k - 1]).sync()
    }
}

/// The state of the window after `k` load/sync steps of one forward pass
/// whose staging events are numbered consecutively from `ev0`. This is the
/// schedule one `decode` call drives; its contract speaks in these terms.
pub open spec fn run_steps(m0: WindowModel, k: int, ev0: int) -> WindowModel
    decreases k,
{
    if k <= 0 {
        m0
    } else {
        run_steps(m0, k - 1, ev0).load(k - 1, ev0 + k - 1).sync()
    }
}

/// The driver's schedule — preload layers `0..W`, then for each layer
/// `load(l); sync(l)` — always hands compute the weights of layer `l` at step
/// `l`, for every window size `W` in `[1, L]`. The sequence of weights
/// consumed is therefore the same for every `W`, in particular the same as
/// with all layers resident (`W == L`), so the pass computes the same
/// function of its inputs whatever the window size.
pub proof fn lemma_schedule_consumes_layers_in_order(
    w: int,
    nlayers: int,
    ev0: int,
    evs: Seq<int>,
    k: int,
)
    requires
        1 <= w <= nlayers,
        0 <= k < nlayers,
    ensures
        ({
            let before = run_schedule(WindowModel::init(w, nlayers, ev0), k, evs);
            let handed = before.load(k, evs[k]);
            handed.slots[handed.current].layer == k
        }),
        run_schedule(WindowModel::init(w, nlayers, ev0), k, evs).pipelined(k),
        run_schedule(WindowModel::init(w, nlayers, ev0), k, evs).nlayers == nlayers,
        run_schedule(WindowModel::init(w, nlayers, ev0), k, evs).w() == w,
    decreases k,
{
    let m0 = WindowModel::init(w, nlayers, ev0);
    if k == 0 {
        lemma_init_pipelined(w, nlayers, ev0);
    } else {
        lemma_schedule_consumes_layers_in_order(w, nlayers, ev0, evs, k - 1);
        let before = run_schedule(m0, k - 1, evs);
        lemma_load_establishes(before, k - 1, evs[k - 1]);
        lemma_sync_advances(before.load(k - 1, evs[k - 1]), k - 1);
    }
    let before = run_schedule(m0, k, evs);
    let handed = before.load(k, evs[k]);
    lemma_load_establishes(before, k, evs[k]);
    assert(handed.loaded(k));
    assert(handed.nlayers == nlayers);
    lemma_small_mod(handed.current as nat, handed.w() as nat);
    assert((handed.current + 0) % handed.w() == handed.current);
    assert(handed.slots[(handed.current + 0) % handed.w()].layer == (k + 0) % handed.nlayers);
    lemma_small_mod(k as nat, nlayers as nat);
}

/// A one-dimensional weight of extent `hidden_size`, resident from offset 0
/// of its own allocation.
pub open spec fn is_vector_weight(t: Tensor<BufId>, cfg: LlamaConfig, buf: BufId) -> bool {
    &&& t.dt == cfg.data_type
    &&& t.shape@.len() == 1
    &&& t.strides@.len() == 1
    &&& t.shape@[0] == cfg.hidden_size
    &&& t.strides@[0] == 1
    &&& t.offset == 0
    &&& t.physical == buf
}

/// A projection matrix of logical shape `[rows, cols]`, uploaded transposed:
/// the device view is `[cols, rows]` with strides `[1, cols]`, as the
/// row-major matmul convention wants.
pub open spec fn is_transposed_weight(
    t: Tensor<BufId>,
    cfg: LlamaConfig,
    rows: int,
    cols: int,
    buf: BufId,
) -> bool {
    &&& t.dt == cfg.data_type
    &&& t.shape@.len() == 2
    &&& t.strides@.len() == 2
    &&& t.shape@[0] == cols
    &&& t.shape@[1] == rows
    &&& t.strides@[0] == 1
    &&& t.strides@[1] == cols
    &&& t.offset == 0
    &&& t.physical == buf
}

/// Builds the device view of one uploaded projection matrix.
fn transposed_weight(cfg: &LlamaConfig, rows: usize, cols: usize, buf: BufId) -> (r: Tensor<
    BufId,
>)
    requires
        rows >= 1,
        cols >= 1,
        rows as int * cols as int <= usize::MAX,
    ensures
        r.wf(),
        is_transposed_weight(r, *cfg, rows as int, cols as int, buf),
{
    let mut shape: Vec<usize> = Vec::new();
    shape.push(rows);
    shape.push(cols);
    proof {
        crate::tensor::lemma_product_pair(shape@);
    }
    let t = Tensor::new(cfg.data_type, shape, buf);
    proof {
        assert(t.strides@[1] == crate::tensor::suffix_product(t.shape@, 2));
        assert(crate::tensor::suffix_product(t.shape@, 2) == 1);
        assert(t.strides@[0] == crate::tensor::suffix_product(t.shape@, 1));
        assert(crate::tensor::suffix_product(t.shape@, 1) == t.shape@[1] as nat
            * crate::tensor::suffix_product(t.shape@, 2));
    }
    let r = t.transpose_axes(0, 1);
    proof {
        assert(r.shape@[0] == cols && r.shape@[1] == rows);
        assert(r.strides@[0] == 1 && r.strides@[1] == cols);
        assert(is_transposed_weight(r, *cfg, rows as int, cols as int, buf));
    }
    r
}

/// Builds the device view of one uploaded norm vector.
fn vector_weight(cfg: &LlamaConfig, buf: BufId) -> (r: Tensor<BufId>)
    requires
        cfg.hidden_size >= 1,
    ensures
        r.wf(),
        is_vector_weight(r, *cfg, buf),
{
    let mut shape: Vec<usize> = Vec::new();
    shape.push(cfg.hidden_size);
    proof {
        crate::tensor::lemma_product_one(shape@);
    }
    let t = Tensor::new(cfg.data_type, shape, buf);
    proof {
        assert(t.strides@[0] == crate::tensor::suffix_product(t.shape@, 1));
        assert(crate::tensor::suffix_product(t.shape@, 1) == 1);
    }
    t
}

/// One window slot: the six device-resident weight tensors of one layer, the
/// layer they belong to, and the event recorded after their staging copies.
pub struct LayerParameter {
    pub input_layernorm: Tensor<BufId>,
    pub w_qkv: Tensor<BufId>,
    pub self_attn_o_proj: Tensor<BufId>,
    pub post_attention_layernorm: Tensor<BufId>,
    pub mlp_gate_up: Tensor<BufId>,
    pub mlp_down: Tensor<BufId>,
    pub layer: usize,
    pub sync_event: EventId,
}

impl LayerParameter {
    /// The slot's tensors describe layer weights of this model living in
    /// window slot `slot`, in the uploaded (transposed) layout.
    pub open spec fn wf_for(self, cfg: LlamaConfig, slot: int) -> bool {
        let d = cfg.hidden_size as int;
        let dkv = cfg.spec_kv_hidden_size() as int;
        let di = cfg.intermediate_size as int;
        let slot_u = slot as usize;
        &&& is_vector_weight(
            self.input_layernorm,
            cfg,
            BufId::SlotWeight(slot_u, WeightKind::InputLayernorm),
        )
        &&& is_transposed_weight(
            self.w_qkv,
            cfg,
            d + 2 * dkv,
            d,
            BufId::SlotWeight(slot_u, WeightKind::WQkv),
        )
        &&& is_transposed_weight(
            self.self_attn_o_proj,
            cfg,
            d,
            d,
            BufId::SlotWeight(slot_u, WeightKind::SelfAttnOProj),
        )
        &&& is_vector_weight(
            self.post_attention_layernorm,
            cfg,
            BufId::SlotWeight(slot_u, WeightKind::PostAttentionLayernorm),
        )
        &&& is_transposed_weight(
            self.mlp_gate_up,
            cfg,
            2 * di,
            d,
            BufId::SlotWeight(slot_u, WeightKind::MlpGateUp),
        )
        &&& is_transposed_weight(
            self.mlp_down,
            cfg,
            d,
            di,
            BufId::SlotWeight(slot_u, WeightKind::MlpDown),
        )
    }

    /// Builds the views for the six upload targets of `layer` into window
    /// slot `slot`; the staging copies are recorded by `event`.
    pub fn new(cfg: &LlamaConfig, layer: usize, slot: usize, event: EventId) -> (r:
        LayerParameter)
        requires
            cfg.wf(),
            cfg.tensor_sizes_fit(),
            layer < cfg.num_hidden_layers,
        ensures
            r.wf_for(*cfg, slot as int),
            r.layer == layer,
            r.sync_event == event,
    {
        let d = cfg.hidden_size;
        let dkv = cfg.kv_hidden_size();
        let di = cfg.intermediate_size;
        proof {
            assert(d + 2 * dkv <= usize::MAX) by (nonlinear_arith)
                requires
                    (d as int + 2 * dkv as int) * d as int <= usize::MAX,
                    d >= 1,
                    dkv >= 0,
            ;
            assert(2 * di <= usize::MAX) by (nonlinear_arith)
                requires
                    (2 * di as int) * d as int <= usize::MAX,
                    d >= 1,
                    di >= 0,
            ;
        }
        let qkv_rows = d + 2 * dkv;
        let gu_rows = 2 * di;
        LayerParameter {
            input_layernorm: vector_weight(
                cfg,
                BufId::SlotWeight(slot, WeightKind::InputLayernorm),
            ),
            w_qkv: transposed_weight(
                cfg,
                qkv_rows,
                d,
                BufId::SlotWeight(slot, WeightKind::WQkv),
            ),
            self_attn_o_proj: transposed_weight(
                cfg,
                d,
                d,
                BufId::SlotWeight(slot, WeightKind::SelfAttnOProj),
            ),
            post_attention_layernorm: vector_weight(
                cfg,
                BufId::SlotWeight(slot, WeightKind::PostAttentionLayernorm),
            ),
            mlp_gate_up: transposed_weight(
                cfg,
                gu_rows,
                d,
                BufId::SlotWeight(slot, WeightKind::MlpGateUp),
            ),
            mlp_down: transposed_weight(
                cfg,
                d,
                di,
                BufId::SlotWeight(slot, WeightKind::MlpDown),
            ),
            layer,
            sync_event: event,
        }
    }
}

/// The six tensor views of two slots are identical (a refill re-uploads into
/// the same allocations; it never moves them).
pub open spec fn same_tensors(a: LayerParameter, b: LayerParameter) -> bool {
    &&& a.input_layernorm.same_view(b.input_layernorm)
    &&& a.w_qkv.same_view(b.w_qkv)
    &&& a.self_attn_o_proj.same_view(b.self_attn_o_proj)
    &&& a.post_attention_layernorm.same_view(b.post_attention_layernorm)
    &&& a.mlp_gate_up.same_view(b.mlp_gate_up)
    &&& a.mlp_down.same_view(b.mlp_down)
}

/// Two slots that both describe this model's weights in the same slot address
/// the same allocations the same way.
pub proof fn lemma_wf_for_same_tensors(
    a: LayerParameter,
    b: LayerParameter,
    cfg: LlamaConfig,
    slot: int,
)
    requires
        a.wf_for(cfg, slot),
        b.wf_for(cfg, slot),
    ensures
        same_tensors(a, b),
{
    assert(a.input_layernorm.shape@ =~= b.input_layernorm.shape@);
    assert(a.input_layernorm.strides@ =~= b.input_layernorm.strides@);
    assert(a.w_qkv.shape@ =~= b.w_qkv.shape@);
    assert(a.w_qkv.strides@ =~= b.w_qkv.strides@);
    assert(a.self_attn_o_proj.shape@ =~= b.self_attn_o_proj.shape@);
    assert(a.self_attn_o_proj.strides@ =~= b.self_attn_o_proj.strides@);
    assert(a.post_attention_layernorm.shape@ =~= b.post_attention_layernorm.shape@);
    assert(a.post_attention_layernorm.strides@ =~= b.post_attention_layernorm.strides@);
    assert(a.mlp_gate_up.shape@ =~= b.mlp_gate_up.shape@);
    assert(a.mlp_gate_up.strides@ =~= b.mlp_gate_up.strides@);
    assert(a.mlp_down.shape@ =~= b.mlp_down.shape@);
    assert(a.mlp_down.strides@ =~= b.mlp_down.strides@);
}

/// The streaming window: a ring of slots and the cursor of the slot consumed
/// next.
pub struct LayersParameters {
    pub layers: Vec<LayerParameter>,
    pub current: usize,
    pub nlayers: usize,
}

impl LayersParameters {
    /// Ghost image of the ring.
    pub open spec fn model(self) -> WindowModel {
        WindowModel {
            slots: self.layers@.map(
                |i: int, p: LayerParameter| SlotModel {
                    layer: p.layer as int,
                    event: p.sync_event as int,
                },
            ),
            current: self.current as int,
            nlayers: self.nlayers as int,
        }
    }

    pub open spec fn wf(self, cfg: LlamaConfig) -> bool {
        &&& self.model().wf()
        &&& self.nlayers == cfg.num_hidden_layers
        &&& forall|i: int| 0 <= i < self.layers@.len()
            ==> (#[trigger] self.layers@[i]).wf_for(cfg, i)
    }

    /// Allocates `W = min(preload_layers, L)` slots and preloads them with
    /// layers `0..W`; returns the window and the staging copies to perform,
    /// one per slot, recorded by consecutive events from `first_event`.
    pub fn new(cfg: &LlamaConfig, preload_layers: usize, first_event: EventId) -> (r: (
        LayersParameters,
        Vec<StageOp>,
    ))
        requires
            cfg.wf(),
            cfg.tensor_sizes_fit(),
            preload_layers >= 1,
            first_event as int + cfg.num_hidden_layers as int <= u64::MAX,
        ensures
            r.0.wf(*cfg),
            r.0.layers@.len() == if preload_layers <= cfg.num_hidden_layers {
                preload_layers as int
            } else {
                cfg.num_hidden_layers as int
            },
            r.0.current == 0,
            r.0.nlayers == cfg.num_hidden_layers,
            r.0.model() == WindowModel::init(
                r.0.layers@.len() as int,
                cfg.num_hidden_layers as int,
                first_event as int,
            ),
            r.0.model().pipelined(0),
            r.1@.len() == r.0.layers@.len(),
            forall|i: int| 0 <= i < r.1@.len()
                ==> (#[trigger] r.1@[i]).slot == i && r.1@[i].layer == i
                    && r.1@[i].event == first_event + i,
    {
        let n = cfg.num_hidden_layers;
        let w = if preload_layers <= n {
            preload_layers
        } else {
            n
        };
        let mut layers: Vec<LayerParameter> = Vec::new();
        let mut stages: Vec<StageOp> = Vec::new();
        let mut i: usize = 0;
        while i < w
            invariant
                i <= w,
                1 <= w <= n,
                n == cfg.num_hidden_layers,
                cfg.wf(),
                cfg.tensor_sizes_fit(),
                first_event as int + n as int <= u64::MAX,
                layers@.len() == i,
                stages@.len() == i,
                forall|j: int| 0 <= j < i
                    ==> (#[trigger] layers@[j]).layer == j
                        && layers@[j].sync_event == first_event + j
                        && layers@[j].wf_for(*cfg, j),
                forall|j: int| 0 <= j < i
                    ==> (#[trigger] stages@[j]).slot == j && stages@[j].layer == j
                        && stages@[j].event == first_event + j,
            decreases w - i,
        {
            let ev = first_event + (i as u64);
            let p = LayerParameter::new(cfg, i, i, ev);
            layers.push(p);
            stages.push(StageOp { slot: i, layer: i, event: ev });
            i += 1;
        }
        let out = LayersParameters { layers, current: 0, nlayers: n };
        proof {
            let init = WindowModel::init(w as int, n as int, first_event as int);
            assert(out.model().slots =~= init.slots);
            assert(out.model() == init);
            lemma_init_pipelined(w as int, n as int, first_event as int);
        }
        (out, stages)
    }

    /// Refills the slot the cursor will reach `W - 1` syncs from now with the
    /// layer consumed then: a no-op when the slot already holds it, otherwise
    /// six staging copies recorded by a fresh `event`.
    pub fn load(&mut self, cfg: &LlamaConfig, layer: usize, fresh: EventId) -> (r: Option<
        StageOp,
    >)
        requires
            old(self).wf(*cfg),
            cfg.wf(),
            cfg.tensor_sizes_fit(),
            layer < old(self).nlayers,
        ensures
            final(self).wf(*cfg),
            final(self).model() == old(self).model().load(layer as int, fresh as int),
            final(self).nlayers == old(self).nlayers,
            final(self).current == old(self).current,
            final(self).layers@.len() == old(self).layers@.len(),
            forall|i: int| 0 <= i < old(self).layers@.len()
                ==> same_tensors(#[trigger] final(self).layers@[i], old(self).layers@[i]),
            old(self).model().load_is_noop(layer as int) ==> r is None,
            !old(self).model().load_is_noop(layer as int) ==> (r matches Some(op)
                && op.slot as int == old(self).model().load_slot()
                && op.layer as int == old(self).model().load_target(layer as int)
                && op.event == fresh),
    {
        let w = self.layers.len();
        let i = if self.current >= 1 {
            self.current - 1
        } else {
            w - 1
        };
        proof {
            lemma_mod_in_range(self.current as int + w as int - 1, w as int);
            assert(i as int == self.model().load_slot());
        }
        let thresh = self.nlayers - (w - 1);
        let tgt = if layer < thresh {
            layer + (w - 1)
        } else {
            layer - thresh
        };
        proof {
            lemma_mod_in_range(layer as int + w as int - 1, self.nlayers as int);
            assert(tgt as int == self.model().load_target(layer as int));
        }
        if self.layers[i].layer == tgt {
            proof {
                assert(self.model().load_is_noop(layer as int));
            }
            None
        } else {
            let p = LayerParameter::new(cfg, tgt, i, fresh);
            self.layers.set(i, p);
            proof {
                let m_old = old(self).model();
                assert(self.model().slots =~= m_old.load(layer as int, fresh as int).slots);
                assert(self.model() == m_old.load(layer as int, fresh as int));
                assert forall|j: int| 0 <= j < old(self).layers@.len()
                    implies same_tensors(
                        #[trigger] self.layers@[j],
                        old(self).layers@[j],
                    ) by {
                    lemma_wf_for_same_tensors(self.layers@[j], old(self).layers@[j], *cfg, j);
                }
            }
            Some(StageOp { slot: i, layer: tgt, event: fresh })
        }
    }

    /// Advances the cursor and hands out the current slot, whose layer the
    /// caller names; the compute stream must wait on the slot's event before
    /// touching its weights.
    pub fn sync(&mut self, layer: usize) -> (r: &LayerParameter)
        requires
            old(self).model().wf(),
            old(self).layers@[old(self).current as int].layer == layer,
        ensures
            final(self).layers@ == old(self).layers@,
            final(self).nlayers == old(self).nlayers,
            final(self).model() == old(self).model().sync(),
            *r == old(self).layers@[old(self).current as int],
            r.layer == layer,
    {
        let i = self.current;
        let w = self.layers.len();
        self.current = (i + 1) % w;
        proof {
            assert(self.model().slots =~= old(self).model().sync().slots);
            assert(self.model() == old(self).model().sync());
        }
        &self.layers[i]
    }

    /// Tears the window down, handing back every device allocation to free.
    /// Consuming the window makes use-after-teardown impossible.
    pub fn kill(self) -> (r: Vec<BufId>)
        ensures
            r@.len() == 6 * self.layers@.len(),
            forall|s: int| 0 <= s < self.layers@.len() ==> {
                &&& #[trigger] r@[6 * s] == BufId::SlotWeight(s as usize, WeightKind::InputLayernorm)
                &&& r@[6 * s + 1] == BufId::SlotWeight(s as usize, WeightKind::WQkv)
                &&& r@[6 * s + 2] == BufId::SlotWeight(s as usize, WeightKind::SelfAttnOProj)
                &&& r@[6 * s + 3] == BufId::SlotWeight(
                    s as usize,
                    WeightKind::PostAttentionLayernorm,
                )
                &&& r@[6 * s + 4] == BufId::SlotWeight(s as usize, WeightKind::MlpGateUp)
                &&& r@[6 * s + 5] == BufId::SlotWeight(s as usize, WeightKind::MlpDown)
            },
    {
        let w = self.layers.len();
        let mut out: Vec<BufId> = Vec::new();
        let mut s: usize = 0;
        while s < w
            invariant
                s <= w,
                out@.len() == 6 * s,
                forall|j: int| 0 <= j < s ==> {
                    &&& #[trigger] out@[6 * j] == BufId::SlotWeight(
                        j as usize,
                        WeightKind::InputLayernorm,
                    )
                    &&& out@[6 * j + 1] == BufId::SlotWeight(j as usize, WeightKind::WQkv)
                    &&& out@[6 * j + 2] == BufId::SlotWeight(j as usize, WeightKind::SelfAttnOProj)
                    &&& out@[6 * j + 3] == BufId::SlotWeight(
                        j as usize,
                        WeightKind::PostAttentionLayernorm,
                    )
                    &&& out@[6 * j + 4] == BufId::SlotWeight(j as usize, WeightKind::MlpGateUp)
                    &&& out@[6 * j + 5] == BufId::SlotWeight(j as usize, WeightKind::MlpDown)
                },
            decreases w - s,
        {
            out.push(BufId::SlotWeight(s, WeightKind::InputLayernorm));
            out.push(BufId::SlotWeight(s, WeightKind::WQkv));
            out.push(BufId::SlotWeight(s, WeightKind::SelfAttnOProj));
            out.push(BufId::SlotWeight(s, WeightKind::PostAttentionLayernorm));
            out.push(BufId::SlotWeight(s, WeightKind::MlpGateUp));
            out.push(BufId::SlotWeight(s, WeightKind::MlpDown));
            s += 1;
        }
        out
    }
}

/// The lifetime-global weights: final norm and output head, staged once at
/// construction and guarded by one event.
pub struct ModelParameters {
    pub model_norm: Tensor<BufId>,
    pub lm_head: Tensor<BufId>,
    pub sync_event: EventId,
}

impl ModelParameters {
    pub open spec fn wf(self, cfg: LlamaConfig) -> bool {
        &&& is_vector_weight(self.model_norm, cfg, BufId::Global(GlobalKind::ModelNorm))
        &&& is_transposed_weight(
            self.lm_head,
            cfg,
            cfg.vocab_size as int,
            cfg.hidden_size as int,
            BufId::Global(GlobalKind::LmHead),
        )
    }

    /// Builds the views for the two global upload targets; the staging copies
    /// are recorded by `event`.
    pub fn new(cfg: &LlamaConfig, event: EventId) -> (r: ModelParameters)
        requires
            cfg.wf(),
            cfg.tensor_sizes_fit(),
        ensures
            r.wf(*cfg),
            r.sync_event == event,
    {
        ModelParameters {
            model_norm: vector_weight(cfg, BufId::Global(GlobalKind::ModelNorm)),
            lm_head: transposed_weight(
                cfg,
                cfg.vocab_size,
                cfg.hidden_size,
                BufId::Global(GlobalKind::LmHead),
            ),
            sync_event: event,
        }
    }

    /// Hands out the global weights; the compute stream must wait on the
    /// returned event before the final norm and the logits projection.
    pub fn release(&self) -> (r: (EventId, &Tensor<BufId>, &Tensor<BufId>))
        ensures
            r.0 == self.sync_event,
            *r.1 == self.model_norm,
            *r.2 == self.lm_head,
    {
        (self.sync_event, &self.model_norm, &self.lm_head)
    }

    /// Tears the globals down, handing back the allocations to free.
    pub fn kill(self) -> (r: Vec<BufId>)
        ensures
            r@.len() == 2,
            r@[0] == BufId::Global(GlobalKind::ModelNorm),
            r@[1] == BufId::Global(GlobalKind::LmHead),
    {
        let mut out: Vec<BufId> = Vec::new();
        out.push(BufId::Global(GlobalKind::ModelNorm));
        out.push(BufId::Global(GlobalKind::LmHead));
        out
    }
}

} // verus!
