//! Model descriptor: the immutable configuration of a LLaMA-family model,
//! its structural invariants, and the derived quantities the engine uses.

use vstd::prelude::*;
use crate::{utok, Error};

verus! {

/// Element type of a tensor. The kernel bank computes in `F16`; `U32` is the
/// type of position ids.
#[derive(Clone, Copy, Debug, PartialEq, Eq, Structural)]
pub enum DataType {
    F16,
    BF16,
    F32,
    U32,
}

impl DataType {
    /// Width of one element in bytes.
    pub open spec fn spec_size(self) -> nat {
        match self {
            DataType::F16 => 2,
            DataType::BF16 => 2,
            DataType::F32 => 4,
            DataType::U32 => 4,
        }
    }

    /// Width of one element in bytes.
    pub fn size(self) -> (r: usize)
        ensures
            r == self.spec_size(),
    {
        match self {
            DataType::F16 => 2,
            DataType::BF16 => 2,
            DataType::F32 => 4,
            DataType::U32 => 4,
        }
    }
}

/// Configuration of a LLaMA-family model, as the external weight provider
/// declares it. Immutable for the engine's lifetime.
///
/// The two kernel scalars `rms_norm_eps` and `rope_theta` are carried as the
/// bit patterns of the `f32` values the kernels receive; the engine never
/// computes with them, it only threads them through to kernel launches.
#[derive(Clone, Copy, Debug, PartialEq, Eq, Structural)]
pub struct LlamaConfig {
    pub bos_token_id: utok,
    pub eos_token_id: utok,
    pub hidden_size: usize,
    pub intermediate_size: usize,
    pub max_position_embeddings: usize,
    pub num_attention_heads: usize,
    pub num_hidden_layers: usize,
    pub num_key_value_heads: usize,
    pub vocab_size: usize,
    pub rms_norm_eps_bits: u32,
    pub rope_theta_bits: u32,
    pub data_type: DataType,
}

impl LlamaConfig {
    /// Structural invariants of a model: every extent is positive, the query
    /// heads divide evenly into key/value groups, and the hidden size divides
    /// evenly into heads.
    pub open spec fn wf(self) -> bool {
        &&& self.hidden_size >= 1
        &&& self.intermediate_size >= 1
        &&& self.max_position_embeddings >= 1
        &&& self.max_position_embeddings
            <= u32::MAX  // position ids are U32

        &&& self.num_attention_heads >= 1
        &&& self.num_hidden_layers >= 1
        &&& self.num_key_value_heads >= 1
        &&& self.vocab_size >= 1
        &&& self.num_attention_heads % self.num_key_value_heads == 0
        &&& self.hidden_size % self.num_attention_heads == 0
    }

    /// Checks the structural invariants, rejecting a malformed configuration.
    pub fn validate(&self) -> (r: Result<(), Error>)
        ensures
            r is Ok <==> self.wf(),
            r is Err ==> r == Result::<(), Error>::Err(Error::ConfigParse),
    {
        if self.hidden_size >= 1
            && self.intermediate_size >= 1
            && self.max_position_embeddings >= 1
            && self.max_position_embeddings <= u32::MAX as usize
            && self.num_attention_heads >= 1
            && self.num_hidden_layers >= 1
            && self.num_key_value_heads >= 1
            && self.vocab_size >= 1
            && self.num_attention_heads % self.num_key_value_heads == 0
            && self.hidden_size % self.num_attention_heads == 0
        {
            Ok(())
        } else {
            Err(Error::ConfigParse)
        }
    }

    /// `DH`: the per-head dimension, `hidden_size / num_attention_heads`.
    pub open spec fn spec_head_dim(self) -> nat {
        self.hidden_size as nat / self.num_attention_heads as nat
    }

    /// `DH`: the per-head dimension.
    pub fn head_dim(&self) -> (r: usize)
        requires
            self.wf(),
        ensures
            r == self.spec_head_dim(),
            r * self.num_attention_heads == self.hidden_size,
    {
        proof {
            let d = self.hidden_size as int;
            let nh = self.num_attention_heads as int;
            vstd::arithmetic::div_mod::lemma_fundamental_div_mod(d, nh);
            assert(d == nh * (d / nh));
            assert((d / nh) * nh == nh * (d / nh)) by (nonlinear_arith);
        }
        self.hidden_size / self.num_attention_heads
    }

    /// `DKV`: total width of one key (or value) projection,
    /// `num_key_value_heads * DH`.
    pub open spec fn spec_kv_hidden_size(self) -> nat {
        self.hidden_size as nat * self.num_key_value_heads as nat
            / self.num_attention_heads as nat
    }

    /// `DKV`: total width of one key (or value) projection.
    pub fn kv_hidden_size(&self) -> (r: usize)
        requires
            self.wf(),
        ensures
            r == self.spec_kv_hidden_size(),
            r == self.num_key_value_heads * self.spec_head_dim(),
            r <= self.hidden_size,
    {
        proof {
            self.lemma_kv_hidden_size();
        }
        let dh = self.head_dim();
        assert(dh * self.num_key_value_heads == self.num_key_value_heads * dh)
            by (nonlinear_arith);
        dh * self.num_key_value_heads
    }

    /// `num_key_value_heads` divides `num_attention_heads`, so `DKV` is an
    /// exact multiple of `DH` and never exceeds the hidden size.
    pub proof fn lemma_kv_hidden_size(self)
        requires
            self.wf(),
        ensures
            self.num_key_value_heads <= self.num_attention_heads,
            self.num_attention_heads <= self.hidden_size,
            self.hidden_size * self.num_key_value_heads <= self.hidden_size * self.hidden_size,
            self.spec_kv_hidden_size()
                == self.num_key_value_heads as nat * self.spec_head_dim(),
            self.spec_kv_hidden_size() <= self.hidden_size,
            self.spec_head_dim() >= 1,
            self.spec_kv_hidden_size() >= 1,
    {
        let d = self.hidden_size as int;
        let nh = self.num_attention_heads as int;
        let nkvh = self.num_key_value_heads as int;
        if nh < nkvh {
            vstd::arithmetic::div_mod::lemma_small_mod(nh as nat, nkvh as nat);
        }
        if d < nh {
            vstd::arithmetic::div_mod::lemma_small_mod(d as nat, nh as nat);
        }
        assert(nkvh <= nh);
        assert(nh <= d);
        let dh = d / nh;
        vstd::arithmetic::div_mod::lemma_fundamental_div_mod(d, nh);
        assert(d == nh * dh);
        assert(d * nkvh == nh * (dh * nkvh)) by (nonlinear_arith)
            requires d == nh * dh;
        vstd::arithmetic::div_mod::lemma_div_multiples_vanish(dh * nkvh, nh);
        assert((nh * (dh * nkvh)) / nh == dh * nkvh);
        assert(d * nkvh / nh == dh * nkvh);
        assert(nkvh * dh == dh * nkvh) by (nonlinear_arith);
        assert(dh * nkvh <= dh * nh) by (nonlinear_arith)
            requires nkvh <= nh, dh >= 0;
        assert(d * nkvh <= d * d) by (nonlinear_arith)
            requires nkvh <= nh, nh <= d, d >= 0;
        assert(dh >= 1) by (nonlinear_arith)
            requires d == nh * dh, d >= 1, nh >= 1;
        assert(dh * nkvh >= 1) by (nonlinear_arith)
            requires dh >= 1, nkvh >= 1;
    }

    /// Total element count of all model weights: the embedding table, six
    /// tensors per layer (with Q, K, V and gate/up projections counted by
    /// their parts), the final norm, and the output head.
    pub open spec fn spec_weight_elems(self) -> nat {
        let d = self.hidden_size as nat;
        let dv = self.vocab_size as nat;
        let dkv = self.spec_kv_hidden_size();
        let di = self.intermediate_size as nat;
        let l = self.num_hidden_layers as nat;
        d * dv          // embed_tokens
            + l * d      // input_layernorm
            + l * (d * d)       // self_attn_q_proj
            + l * (dkv * d)     // self_attn_k_proj
            + l * (dkv * d)     // self_attn_v_proj
            + l * (d * d)       // self_attn_o_proj
            + l * d             // post_attention_layernorm
            + l * (di * d)      // mlp_gate
            + l * (d * di)      // mlp_down
            + l * (di * d)      // mlp_up
            + d                 // model_norm
            + dv * d            // lm_head
    }

    /// Total byte size of all model weights.
    pub open spec fn spec_size(self) -> nat {
        self.spec_weight_elems() * self.data_type.spec_size()
    }

    /// Total byte size of all model weights.
    pub fn size(&self) -> (r: usize)
        requires
            self.wf(),
            self.spec_size() <= usize::MAX,
        ensures
            r == self.spec_size(),
    {
        let d = self.hidden_size;
        let dv = self.vocab_size;
        let dkv = self.kv_hidden_size();
        let di = self.intermediate_size;
        let l = self.num_hidden_layers;
        let s = self.data_type.size();
        proof {
            let elems = (d * dv + l * d + l * (d * d) + l * (dkv * d) + l * (dkv * d)
                + l * (d * d) + l * d + l * (di * d) + l * (d * di) + l * (di * d) + d
                + dv * d) as nat;
            assert(elems <= elems * s as nat) by (nonlinear_arith)
                requires s >= 1;
            assert(d * dv <= self.spec_size());
            assert(l * d >= d) by (nonlinear_arith) requires l >= 1, d >= 0;
            assert(l * (d * d) >= d * d) by (nonlinear_arith) requires l >= 1, d * d >= 0;
            assert(l * (dkv * d) >= dkv * d) by (nonlinear_arith) requires l >= 1, dkv * d >= 0;
            assert(l * (di * d) >= di * d) by (nonlinear_arith) requires l >= 1, di * d >= 0;
            assert(l * (d * di) >= d * di) by (nonlinear_arith) requires l >= 1, d * di >= 0;
        }
        (d * dv
            + l * d
            + l * (d * d)
            + l * (dkv * d)
            + l * (dkv * d)
            + l * (d * d)
            + l * d
            + l * (di * d)
            + l * (d * di)
            + l * (di * d)
            + d
            + dv * d) * s
    }

    /// Element-count bounds for the individual device tensors the engine
    /// allocates; each is implied by the total weight size fitting in
    /// `usize`.
    pub open spec fn tensor_sizes_fit(self) -> bool {
        let d = self.hidden_size as int;
        let dkv = self.spec_kv_hidden_size() as int;
        let di = self.intermediate_size as int;
        let dv = self.vocab_size as int;
        &&& (d + 2 * dkv) * d <= usize::MAX
        &&& d * d <= usize::MAX
        &&& (2 * di) * d <= usize::MAX
        &&& d * di <= usize::MAX
        &&& di * d <= usize::MAX
        &&& dv * d <= usize::MAX
        &&& d * dv <= usize::MAX
    }

    /// A model whose total weight size fits in the address space has every
    /// individual tensor fit as well.
    pub proof fn lemma_tensor_sizes_fit(self)
        requires
            self.wf(),
            self.spec_size() <= usize::MAX,
        ensures
            self.tensor_sizes_fit(),
    {
        let d = self.hidden_size as int;
        let dkv = self.spec_kv_hidden_size() as int;
        let di = self.intermediate_size as int;
        let dv = self.vocab_size as int;
        let l = self.num_hidden_layers as int;
        let e = self.spec_weight_elems() as int;
        let s = self.data_type.spec_size() as int;
        assert(s >= 1);
        assert(e <= e * s) by (nonlinear_arith)
            requires s >= 1, e >= 0;
        assert((d + 2 * dkv) * d == d * d + 2 * (dkv * d)) by (nonlinear_arith);
        assert((2 * di) * d == 2 * (di * d)) by (nonlinear_arith);
        assert(d * d <= l * (d * d)) by (nonlinear_arith)
            requires l >= 1, d * d >= 0;
        assert(dkv * d <= l * (dkv * d)) by (nonlinear_arith)
            requires l >= 1, dkv * d >= 0;
        assert(di * d <= l * (di * d)) by (nonlinear_arith)
            requires l >= 1, di * d >= 0;
        assert(d * di <= l * (d * di)) by (nonlinear_arith)
            requires l >= 1, d * di >= 0;
        assert(dv * d == d * dv) by (nonlinear_arith);
    }

    /// Elements of one layer's stored tensors, in storage order.
    pub open spec fn per_layer_elems(self) -> nat {
        let d = self.hidden_size as nat;
        let dkv = self.spec_kv_hidden_size();
        let di = self.intermediate_size as nat;
        d + (d + 2 * dkv) * d + d * d + d + (2 * di) * d + d * di
    }

    /// The weight elements regrouped by storage order: the embedding table,
    /// then one block per layer, then the final norm and the output head.
    pub proof fn lemma_weight_elems_grouped(self)
        ensures
            self.spec_weight_elems() == self.hidden_size as nat * self.vocab_size as nat
                + self.num_hidden_layers as nat * self.per_layer_elems()
                + self.hidden_size as nat + self.vocab_size as nat * self.hidden_size as nat,
    {
        let d = self.hidden_size as int;
        let dkv = self.spec_kv_hidden_size() as int;
        let di = self.intermediate_size as int;
        let l = self.num_hidden_layers as int;
        let per = self.per_layer_elems() as int;
        assert(per == d + (d + 2 * dkv) * d + d * d + d + (2 * di) * d + d * di);
        assert(per == d + (d * d + 2 * (dkv * d)) + d * d + d + 2 * (di * d) + d * di)
            by (nonlinear_arith)
            requires
                per == d + (d + 2 * dkv) * d + d * d + d + (2 * di) * d + d * di,
        ;
        assert(l * per == l * d + l * (d * d) + l * (dkv * d) + l * (dkv * d) + l * (d * d) + l
            * d + l * (di * d) + l * (d * di) + l * (di * d)) by (nonlinear_arith)
            requires
                per == d + (d * d + 2 * (dkv * d)) + d * d + d + 2 * (di * d) + d * di,
        ;
    }
}

/// Identity of one stored tensor of the weights file.
#[derive(Clone, Copy, Debug, PartialEq, Eq, Structural)]
pub enum WeightId {
    EmbedTokens,
    InputLayernorm(usize),
    WQkv(usize),
    SelfAttnOProj(usize),
    PostAttentionLayernorm(usize),
    MlpGateUp(usize),
    MlpDown(usize),
    ModelNorm,
    LmHead,
}

/// The character of one decimal digit.
pub open spec fn digit_char(d: nat) -> char {
    if d == 0 {
        '0'
    } else if d == 1 {
        '1'
    } else if d == 2 {
        '2'
    } else if d == 3 {
        '3'
    } else if d == 4 {
        '4'
    } else if d == 5 {
        '5'
    } else if d == 6 {
        '6'
    } else if d == 7 {
        '7'
    } else if d == 8 {
        '8'
    } else {
        '9'
    }
}

/// The decimal digits of `n`, most significant first, no leading zeros.
pub open spec fn spec_decimal(n: nat) -> Seq<char>
    decreases n,
{
    if n < 10 {
        seq![digit_char(n)]
    } else {
        spec_decimal(n / 10).push(digit_char(n % 10))
    }
}

/// One decimal digit as text.
fn digit_str(d: usize) -> (r: &'static str)
    requires
        d < 10,
    ensures
        r@ == seq![digit_char(d as nat)],
{
    let r: &'static str = match d {
        0 => "0",
        1 => "1",
        2 => "2",
        3 => "3",
        4 => "4",
        5 => "5",
        6 => "6",
        7 => "7",
        8 => "8",
        _ => "9",
    };
    proof {
        reveal_strlit("0");
        reveal_strlit("1");
        reveal_strlit("2");
        reveal_strlit("3");
        reveal_strlit("4");
        reveal_strlit("5");
        reveal_strlit("6");
        reveal_strlit("7");
        reveal_strlit("8");
        reveal_strlit("9");
        assert(r@ =~= seq![digit_char(d as nat)]);
    }
    r
}

/// `n` in decimal.
fn decimal(n: usize) -> (r: String)
    ensures
        r@ == spec_decimal(n as nat),
    decreases n,
{
    if n < 10 {
        String::from_str(digit_str(n))
    } else {
        proof {
            vstd::arithmetic::div_mod::lemma_div_decreases(n as int, 10);
            vstd::arithmetic::div_mod::lemma_div_pos_is_pos(n as int, 10);
        }
        let mut s = decimal(n / 10);
        s.append(digit_str(n % 10));
        proof {
            assert(s@ =~= spec_decimal(n as nat));
        }
        s
    }
}

/// The name under which a tensor is stored in the weights file.
pub open spec fn spec_tensor_name(id: WeightId) -> Seq<char> {
    match id {
        WeightId::EmbedTokens => "model.embed_tokens.weight"@,
        WeightId::InputLayernorm(l) => "model.layers."@ + spec_decimal(l as nat)
            + ".input_layernorm.weight"@,
        WeightId::WQkv(l) => "model.layers."@ + spec_decimal(l as nat)
            + ".self_attn.qkv_proj.weight"@,
        WeightId::SelfAttnOProj(l) => "model.layers."@ + spec_decimal(l as nat)
            + ".self_attn.o_proj.weight"@,
        WeightId::PostAttentionLayernorm(l) => "model.layers."@ + spec_decimal(l as nat)
            + ".post_attention_layernorm.weight"@,
        WeightId::MlpGateUp(l) => "model.layers."@ + spec_decimal(l as nat)
            + ".mlp.gate_up_proj.weight"@,
        WeightId::MlpDown(l) => "model.layers."@ + spec_decimal(l as nat)
            + ".mlp.down_proj.weight"@,
        WeightId::ModelNorm => "model.norm.weight"@,
        WeightId::LmHead => "lm_head.weight"@,
    }
}

/// Builds the name of one per-layer tensor.
fn layer_tensor_name(l: usize, suffix: &str) -> (r: String)
    ensures
        r@ == "model.layers."@ + spec_decimal(l as nat) + suffix@,
{
    let mut s = String::from_str("model.layers.");
    let digits = decimal(l);
    s.append(digits.as_str());
    s.append(suffix);
    proof {
        assert(s@ =~= "model.layers."@ + spec_decimal(l as nat) + suffix@);
    }
    s
}

/// The name under which a tensor is stored in the weights file.
pub fn tensor_name(id: WeightId) -> (r: String)
    ensures
        r@ == spec_tensor_name(id),
{
    match id {
        WeightId::EmbedTokens => String::from_str("model.embed_tokens.weight"),
        WeightId::InputLayernorm(l) => layer_tensor_name(l, ".input_layernorm.weight"),
        WeightId::WQkv(l) => layer_tensor_name(l, ".self_attn.qkv_proj.weight"),
        WeightId::SelfAttnOProj(l) => layer_tensor_name(l, ".self_attn.o_proj.weight"),
        WeightId::PostAttentionLayernorm(l) => layer_tensor_name(
            l,
            ".post_attention_layernorm.weight",
        ),
        WeightId::MlpGateUp(l) => layer_tensor_name(l, ".mlp.gate_up_proj.weight"),
        WeightId::MlpDown(l) => layer_tensor_name(l, ".mlp.down_proj.weight"),
        WeightId::ModelNorm => String::from_str("model.norm.weight"),
        WeightId::LmHead => String::from_str("lm_head.weight"),
    }
}

/// One stored tensor: its identity, element type, logical shape, and byte
/// range in the weights payload.
pub struct TensorEntry {
    pub id: WeightId,
    pub dt: DataType,
    pub shape: Vec<usize>,
    pub start: usize,
    pub end: usize,
}

/// A byte range that starts within the weights payload fits in the address
/// space.
proof fn lemma_entry_fits(oe: int, cnt: int, e: int, s: int)
    requires
        oe + cnt <= e,
        0 <= oe,
        0 <= cnt,
        1 <= s,
        e * s <= usize::MAX,
    ensures
        (oe + cnt) * s <= usize::MAX,
{
    assert((oe + cnt) * s <= e * s) by (nonlinear_arith)
        requires oe + cnt <= e, s >= 0, oe + cnt >= 0;
}

/// Builds one catalog entry covering `cnt` elements from element offset `oe`.
fn entry(id: WeightId, dt: DataType, shape: Vec<usize>, oe: usize, cnt: usize, s: usize) -> (r:
    TensorEntry)
    requires
        (oe as int + cnt as int) * s as int <= usize::MAX,
        s >= 1,
    ensures
        r.id == id,
        r.dt == dt,
        r.shape@ == shape@,
        r.start == oe as int * s as int,
        r.end == (oe as int + cnt as int) * s as int,
        r.end - r.start == cnt as int * s as int,
{
    proof {
        assert((oe as int + cnt as int) * s as int == oe as int * s as int + cnt as int
            * s as int) by (nonlinear_arith);
        assert(oe as int * s as int <= (oe as int + cnt as int) * s as int) by (nonlinear_arith)
            requires cnt >= 0, s >= 0;
        assert(oe as int + cnt as int <= (oe as int + cnt as int) * s as int)
            by (nonlinear_arith)
            requires s >= 1, oe as int + cnt as int >= 0;
    }
    let start = oe * s;
    let end = (oe + cnt) * s;
    TensorEntry { id, dt, shape, start, end }
}

impl LlamaConfig {
    /// What a stored-tensor catalog of this model must look like: the
    /// canonical order — embedding, six tensors per layer, final norm,
    /// output head — with their logical shapes, back-to-back byte ranges
    /// starting at zero, and a total equal to the model's byte size.
    pub open spec fn catalog_wf(self, r: Seq<TensorEntry>) -> bool {
        let d = self.hidden_size as int;
        let dkv = self.spec_kv_hidden_size() as int;
        let di = self.intermediate_size as int;
        let dv = self.vocab_size as int;
        let l = self.num_hidden_layers as int;
        let s = self.data_type.spec_size() as int;
        &&& r.len() == 3 + 6 * l
        &&& r[0].start == 0
        &&& forall|i: int| 0 < i < r.len() ==> (#[trigger] r[i]).start == r[i - 1].end
        &&& r[r.len() - 1].end == self.spec_size()
        &&& forall|i: int| 0 <= i < r.len() ==> (#[trigger] r[i]).dt == self.data_type
        &&& r[0].id == WeightId::EmbedTokens && r[0].shape@ =~= seq![
            self.vocab_size,
            self.hidden_size,
        ] && r[0].end - r[0].start == dv * d * s
        &&& forall|k: int| 0 <= k < l ==> {
            &&& (#[trigger] r[1 + 6 * k]).id == WeightId::InputLayernorm(k as usize)
            &&& r[1 + 6 * k].shape@ =~= seq![self.hidden_size]
            &&& r[1 + 6 * k].end - r[1 + 6 * k].start == d * s
            &&& r[2 + 6 * k].id == WeightId::WQkv(k as usize)
            &&& r[2 + 6 * k].shape@ =~= seq![(d + 2 * dkv) as usize, self.hidden_size]
            &&& r[2 + 6 * k].end - r[2 + 6 * k].start == (d + 2 * dkv) * d * s
            &&& r[3 + 6 * k].id == WeightId::SelfAttnOProj(k as usize)
            &&& r[3 + 6 * k].shape@ =~= seq![self.hidden_size, self.hidden_size]
            &&& r[3 + 6 * k].end - r[3 + 6 * k].start == d * d * s
            &&& r[4 + 6 * k].id == WeightId::PostAttentionLayernorm(k as usize)
            &&& r[4 + 6 * k].shape@ =~= seq![self.hidden_size]
            &&& r[4 + 6 * k].end - r[4 + 6 * k].start == d * s
            &&& r[5 + 6 * k].id == WeightId::MlpGateUp(k as usize)
            &&& r[5 + 6 * k].shape@ =~= seq![(2 * di) as usize, self.hidden_size]
            &&& r[5 + 6 * k].end - r[5 + 6 * k].start == (2 * di) * d * s
            &&& r[6 + 6 * k].id == WeightId::MlpDown(k as usize)
            &&& r[6 + 6 * k].shape@ =~= seq![self.hidden_size, self.intermediate_size]
            &&& r[6 + 6 * k].end - r[6 + 6 * k].start == d * di * s
        }
        &&& r[r.len() - 2].id == WeightId::ModelNorm && r[r.len() - 2].shape@ =~= seq![
            self.hidden_size,
        ] && r[r.len() - 2].end - r[r.len() - 2].start == d * s
        &&& r[r.len() - 1].id == WeightId::LmHead && r[r.len() - 1].shape@ =~= seq![
            self.vocab_size,
            self.hidden_size,
        ] && r[r.len() - 1].end - r[r.len() - 1].start == dv * d * s
    }

    /// The catalog of the model's stored tensors: name set, logical shapes,
    /// and the contiguous byte layout of the weights payload.
    #[verifier::rlimit(80)]
    pub fn tensors(&self) -> (r: Vec<TensorEntry>)
        requires
            self.wf(),
            self.spec_size() <= usize::MAX,
        ensures
            self.catalog_wf(r@),
    {
        let d = self.hidden_size;
        let dv = self.vocab_size;
        let dkv = self.kv_hidden_size();
        let di = self.intermediate_size;
        let l = self.num_hidden_layers;
        let s = self.data_type.size();
        let dt = self.data_type;
        proof {
            self.lemma_kv_hidden_size();
            self.lemma_tensor_sizes_fit();
            self.lemma_weight_elems_grouped();
            let e = self.spec_weight_elems() as int;
            let si = s as int;
            assert(e <= e * si) by (nonlinear_arith)
                requires si >= 1, e >= 0;
        }
        let ghost elems = self.spec_weight_elems() as int;
        let ghost per = self.per_layer_elems() as int;
        let mut out: Vec<TensorEntry> = Vec::new();
        let mut oe: usize = 0;
        proof {
            assert(0 * per <= l as int * per) by (nonlinear_arith)
                requires per >= 0, l >= 0;
        }
        let mut shape: Vec<usize> = Vec::new();
        shape.push(dv);
        shape.push(d);
        proof {
            assert(dv as int * d as int <= elems);
            lemma_entry_fits(0, dv as int * d as int, elems, s as int);
        }
        out.push(entry(WeightId::EmbedTokens, dt, shape, oe, dv * d, s));
        oe = oe + dv * d;
        let mut k: usize = 0;
        while k < l
            invariant
                k <= l,
                d == self.hidden_size,
                dv == self.vocab_size,
                dkv == self.spec_kv_hidden_size(),
                di == self.intermediate_size,
                l == self.num_hidden_layers,
                s == self.data_type.spec_size(),
                dt == self.data_type,
                s >= 1,
                self.wf(),
                self.tensor_sizes_fit(),
                elems == self.spec_weight_elems(),
                per == self.per_layer_elems(),
                elems == dv as int * d as int + l as int * per + d as int + dv as int
                    * d as int,
                elems * s as int <= usize::MAX,
                elems <= elems * s as int,
                per == d as int + (d as int + 2 * dkv as int) * d as int + d as int * d as int
                    + d as int + (2 * di as int) * d as int + d as int * di as int,
                oe as int == dv as int * d as int + k as int * per,
                out@.len() == 1 + 6 * k,
                out@[0].start == 0,
                out@[out@.len() - 1].end == oe as int * s as int,
                forall|i: int| 0 < i < out@.len() ==> (#[trigger] out@[i]).start == out@[i
                    - 1].end,
                forall|i: int| 0 <= i < out@.len() ==> (#[trigger] out@[i]).dt
                    == self.data_type,
                out@[0].id == WeightId::EmbedTokens && out@[0].shape@ =~= seq![
                    self.vocab_size,
                    self.hidden_size,
                ] && out@[0].end - out@[0].start == dv as int * d as int * s as int,
                forall|j: int| 0 <= j < k ==> {
                    &&& (#[trigger] out@[1 + 6 * j]).id == WeightId::InputLayernorm(j as usize)
                    &&& out@[1 + 6 * j].shape@ =~= seq![self.hidden_size]
                    &&& out@[1 + 6 * j].end - out@[1 + 6 * j].start == d as int * s as int
                    &&& out@[2 + 6 * j].id == WeightId::WQkv(j as usize)
                    &&& out@[2 + 6 * j].shape@ =~= seq![
                        (d as int + 2 * dkv as int) as usize,
                        self.hidden_size,
                    ]
                    &&& out@[2 + 6 * j].end - out@[2 + 6 * j].start == (d as int + 2 * dkv as int)
                        * d as int * s as int
                    &&& out@[3 + 6 * j].id == WeightId::SelfAttnOProj(j as usize)
                    &&& out@[3 + 6 * j].shape@ =~= seq![self.hidden_size, self.hidden_size]
                    &&& out@[3 + 6 * j].end - out@[3 + 6 * j].start == d as int * d as int * s as int
                    &&& out@[4 + 6 * j].id == WeightId::PostAttentionLayernorm(j as usize)
                    &&& out@[4 + 6 * j].shape@ =~= seq![self.hidden_size]
                    &&& out@[4 + 6 * j].end - out@[4 + 6 * j].start == d as int * s as int
                    &&& out@[5 + 6 * j].id == WeightId::MlpGateUp(j as usize)
                    &&& out@[5 + 6 * j].shape@ =~= seq![
                        (2 * di as int) as usize,
                        self.hidden_size,
                    ]
                    &&& out@[5 + 6 * j].end - out@[5 + 6 * j].start == (2 * di as int) * d as int
                        * s as int
                    &&& out@[6 + 6 * j].id == WeightId::MlpDown(j as usize)
                    &&& out@[6 + 6 * j].shape@ =~= seq![
                        self.hidden_size,
                        self.intermediate_size,
                    ]
                    &&& out@[6 + 6 * j].end - out@[6 + 6 * j].start == d as int * di as int * s as int
                },
            decreases l - k,
        {
            proof {
                assert(k as int * per + per <= l as int * per) by (nonlinear_arith)
                    requires k as int + 1 <= l as int, per >= 0;
                assert(d as int + 2 * dkv as int <= usize::MAX) by (nonlinear_arith)
                    requires
                        (d as int + 2 * dkv as int) * d as int <= usize::MAX,
                        d >= 1,
                        dkv >= 0,
                ;
                assert(2 * di as int <= usize::MAX) by (nonlinear_arith)
                    requires
                        (2 * di as int) * d as int <= usize::MAX,
                        d >= 1,
                        di >= 0,
                ;
            }
            let ghost oe0 = oe as int;
            let ghost bound = dv as int * d as int + (k as int + 1) * per;
            proof {
                assert((k as int + 1) * per == k as int * per + per) by (nonlinear_arith);
                assert(bound <= elems);
                lemma_entry_fits(oe as int, d as int, elems, s as int);
            }
            let mut sh: Vec<usize> = Vec::new();
            sh.push(d);
            out.push(entry(WeightId::InputLayernorm(k), dt, sh, oe, d, s));
            oe = oe + d;
            proof {
                lemma_entry_fits(oe as int, (d as int + 2 * dkv as int) * d as int, elems,
                    s as int);
            }
            let mut sh: Vec<usize> = Vec::new();
            sh.push(d + 2 * dkv);
            sh.push(d);
            out.push(entry(WeightId::WQkv(k), dt, sh, oe, (d + 2 * dkv) * d, s));
            oe = oe + (d + 2 * dkv) * d;
            proof {
                lemma_entry_fits(oe as int, d as int * d as int, elems, s as int);
            }
            let mut sh: Vec<usize> = Vec::new();
            sh.push(d);
            sh.push(d);
            out.push(entry(WeightId::SelfAttnOProj(k), dt, sh, oe, d * d, s));
            oe = oe + d * d;
            proof {
                lemma_entry_fits(oe as int, d as int, elems, s as int);
            }
            let mut sh: Vec<usize> = Vec::new();
            sh.push(d);
            out.push(entry(WeightId::PostAttentionLayernorm(k), dt, sh, oe, d, s));
            oe = oe + d;
            proof {
                lemma_entry_fits(oe as int, (2 * di as int) * d as int, elems, s as int);
            }
            let mut sh: Vec<usize> = Vec::new();
            sh.push(2 * di);
            sh.push(d);
            out.push(entry(WeightId::MlpGateUp(k), dt, sh, oe, (2 * di) * d, s));
            oe = oe + (2 * di) * d;
            proof {
                lemma_entry_fits(oe as int, d as int * di as int, elems, s as int);
            }
            let mut sh: Vec<usize> = Vec::new();
            sh.push(d);
            sh.push(di);
            out.push(entry(WeightId::MlpDown(k), dt, sh, oe, d * di, s));
            oe = oe + d * di;
            proof {
                assert(oe as int == oe0 + per);
                assert(oe as int == dv as int * d as int + (k as int + 1) * per);
            }
            k += 1;
        }
        proof {
            lemma_entry_fits(oe as int, d as int, elems, s as int);
        }
        let mut sh: Vec<usize> = Vec::new();
        sh.push(d);
        out.push(entry(WeightId::ModelNorm, dt, sh, oe, d, s));
        oe = oe + d;
        proof {
            lemma_entry_fits(oe as int, dv as int * d as int, elems, s as int);
        }
        let mut sh: Vec<usize> = Vec::new();
        sh.push(dv);
        sh.push(d);
        out.push(entry(WeightId::LmHead, dt, sh, oe, dv * d, s));
        oe = oe + dv * d;
        proof {
            assert(oe as int == elems);
            assert(out@[out@.len() - 1].end == self.spec_size());
        }
        out
    }
}

/// The byte length of a serialized weights-file header rounded up to the
/// eight-byte alignment the format demands.
pub fn aligned_header_len(n: usize) -> (r: usize)
    requires
        n + 7 <= usize::MAX,
    ensures
        r % 8 == 0,
        n <= r < n + 8,
{
    let a = ((n + 7) / 8) * 8;
    proof {
        let x = n as int + 7;
        vstd::arithmetic::div_mod::lemma_fundamental_div_mod(x, 8);
        assert(a as int == (x / 8) * 8);
        assert((x / 8) * 8 == 8 * (x / 8)) by (nonlinear_arith);
        vstd::arithmetic::div_mod::lemma_mod_multiples_vanish(x / 8, 0, 8);
        assert((8 * (x / 8) + 0) % 8 == 0int % 8);
        vstd::arithmetic::div_mod::lemma_small_mod(0nat, 8nat);
        vstd::arithmetic::div_mod::lemma_mod_bound(x, 8);
    }
    a
}

} // verus!
