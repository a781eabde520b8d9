//! The kernel bank: every operation the engine enqueues on a stream, as a
//! plan step. A step records the exact tensor views and scalars of one
//! launch; the constructors check the preconditions the kernels demand, so a
//! plan is built only out of launches that cannot fail.

use vstd::prelude::*;
use crate::{upos, utok};
use crate::config::DataType;
use crate::parameters::EventId;
use crate::storage::BufId;
use crate::tensor::Tensor;

verus! {

/// A symbolic matmul scaling factor; the engine hands the value itself to the
/// BLAS without computing with it.
#[derive(Clone, Copy, Debug, PartialEq, Eq, Structural)]
pub enum Scale {
    Zero,
    One,
    /// `1 / sqrt(DH)`, the attention score scaling.
    RsqrtHeadDim,
}

/// One operation of the pass. Steps run on the compute stream in plan order,
/// except `UploadPos`, which runs on the transfer stream; `WaitEvent` makes
/// the compute stream wait for a transfer-stream event.
pub enum Step {
    /// `out[i] <- table[tokens[i]]`.
    Gather { out: Tensor<BufId>, table: Tensor<BufId>, tokens: Vec<utok> },
    /// Host-to-device upload of the packed positions on the transfer stream,
    /// recording `event` afterwards.
    UploadPos { dst: Tensor<BufId>, values: Vec<upos>, event: EventId },
    /// The compute stream waits for `event`.
    WaitEvent { event: EventId },
    /// `out <- inp · weight / sqrt(mean(inp²) + eps)` along the last axis;
    /// `eps` is carried as its `f32` bit pattern.
    RmsNorm { out: Tensor<BufId>, inp: Tensor<BufId>, weight: Tensor<BufId>, eps_bits: u32 },
    /// `c <- alpha·a·b + beta·c` over the last two axes.
    MatMul { c: Tensor<BufId>, beta: Scale, a: Tensor<BufId>, b: Tensor<BufId>, alpha: Scale },
    /// In place on `x`: rotate consecutive element pairs of each head by
    /// `pos[t] · theta^(-2k/DH)`; `theta` is carried as its bit pattern.
    Rotary { x: Tensor<BufId>, pos: Tensor<BufId>, theta_bits: u32 },
    /// Element-wise copy between two views of one logical shape.
    Reform { dst: Tensor<BufId>, src: Tensor<BufId> },
    /// Row-wise softmax over the last axis of `x[HEADS, Q, K]`, with weight
    /// zero at the causally masked key positions.
    Softmax { x: Tensor<BufId> },
    /// `gate <- silu(gate) · up`, in place on `gate`.
    Swiglu { gate: Tensor<BufId>, up: Tensor<BufId> },
}

/// The shapes two factors and an accumulator must have for one batched
/// matmul: equal rank two or three, inner extents agreeing, leading extents
/// equal.
pub open spec fn matmul_compat(c: Tensor<BufId>, a: Tensor<BufId>, b: Tensor<BufId>) -> bool {
    let r = c.rank() as int;
    &&& a.rank() == r
    &&& b.rank() == r
    &&& (r == 2 || r == 3)
    &&& c.shape@[r - 2] == a.shape@[r - 2]
    &&& a.shape@[r - 1] == b.shape@[r - 2]
    &&& b.shape@[r - 1] == c.shape@[r - 1]
    &&& (r == 3 ==> a.shape@[0] == c.shape@[0] && b.shape@[0] == c.shape@[0])
}

/// Builds the embedding gather. Every token id must be inside the table, so
/// the launch cannot fail.
pub fn gather(out: Tensor<BufId>, table: Tensor<BufId>, tokens: Vec<utok>) -> (r: Step)
    requires
        out.rank() == 2,
        table.rank() == 2,
        out.shape@[1] == table.shape@[1],
        tokens@.len() == out.shape@[0],
        forall|t: int| 0 <= t < tokens@.len() ==> (#[trigger] tokens@[t]) < table.shape@[0],
    ensures
        r == (Step::Gather { out, table, tokens }),
{
    Step::Gather { out, table, tokens }
}

/// Builds one RMS normalization. `out` and `inp` may share storage only as
/// the byte-identical view: the kernel tolerates exact aliasing and nothing
/// else.
pub fn rms_norm(
    out: Tensor<BufId>,
    inp: Tensor<BufId>,
    weight: Tensor<BufId>,
    eps_bits: u32,
) -> (r: Step)
    requires
        out.shape@ =~= inp.shape@,
        out.rank() >= 1,
        weight.rank() == 1,
        weight.shape@[0] == out.shape@[out.rank() as int - 1],
        out.physical == inp.physical ==> out.same_view(inp),
    ensures
        r == (Step::RmsNorm { out, inp, weight, eps_bits }),
{
    Step::RmsNorm { out, inp, weight, eps_bits }
}

/// Builds one matmul `c <- alpha·a·b + beta·c`.
pub fn mat_mul(
    c: Tensor<BufId>,
    beta: Scale,
    a: Tensor<BufId>,
    b: Tensor<BufId>,
    alpha: Scale,
) -> (r: Step)
    requires
        matmul_compat(c, a, b),
    ensures
        r == (Step::MatMul { c, beta, a, b, alpha }),
{
    Step::MatMul { c, beta, a, b, alpha }
}

/// Builds one reform: an element-wise copy between equal-shaped, equal-typed
/// views with possibly different strides.
pub fn reform(dst: Tensor<BufId>, src: Tensor<BufId>) -> (r: Step)
    requires
        dst.shape@ =~= src.shape@,
        dst.dt == src.dt,
    ensures
        r == (Step::Reform { dst, src }),
{
    Step::Reform { dst, src }
}

/// Builds one SwiGLU activation, in place on `gate`.
pub fn swiglu(gate: Tensor<BufId>, up: Tensor<BufId>) -> (r: Step)
    requires
        gate.shape@ =~= up.shape@,
        gate.rank() == 2,
        gate.dt == up.dt,
    ensures
        r == (Step::Swiglu { gate, up }),
{
    Step::Swiglu { gate, up }
}

/// The rotary-embedding kernel, JIT-specialized at engine construction for a
/// device block size.
#[derive(Clone, Copy, Debug, PartialEq, Eq, Structural)]
pub struct RotaryEmbedding {
    pub block_size: usize,
}

impl RotaryEmbedding {
    pub fn new(block_size: usize) -> (r: RotaryEmbedding)
        ensures
            r.block_size == block_size,
    {
        RotaryEmbedding { block_size }
    }

    /// Builds one in-place rotary embedding launch on `t[N, heads, DH]` with
    /// positions `pos[N]`. The kernel wants the head and channel axes dense
    /// and one block per head: `DH` below the block size.
    pub fn launch(&self, t: Tensor<BufId>, pos: Tensor<BufId>, theta_bits: u32) -> (r: Step)
        requires
            t.rank() == 3,
            t.last_two_contiguous(),
            t.dt == DataType::F16,
            pos.rank() == 1,
            pos.dt == DataType::U32,
            pos.shape@[0] == t.shape@[0],
            t.shape@[2] < self.block_size,
        ensures
            r == (Step::Rotary { x: t, pos, theta_bits }),
    {
        Step::Rotary { x: t, pos, theta_bits }
    }
}

/// The fused causal softmax kernel, JIT-specialized at engine construction
/// for the model's maximum position count.
#[derive(Clone, Copy, Debug, PartialEq, Eq, Structural)]
pub struct FusedSoftmax {
    pub max_seq_len: usize,
}

impl FusedSoftmax {
    pub fn new(max_seq_len: usize) -> (r: FusedSoftmax)
        ensures
            r.max_seq_len == max_seq_len,
    {
        FusedSoftmax { max_seq_len }
    }

    /// Builds one causal softmax launch on `x[HEADS, Q, K]`. The key extent
    /// must stay within the specialization bound.
    pub fn launch(&self, x: Tensor<BufId>) -> (r: Step)
        requires
            x.rank() == 3,
            x.dt == DataType::F16,
            x.shape@[2] <= self.max_seq_len,
        ensures
            r == (Step::Softmax { x }),
    {
        Step::Softmax { x }
    }
}

/// The causal mask of the fused softmax: in a score block of `q_len` query
/// rows over `k_len` key positions, row `r` puts weight zero on every key
/// position `c` past `k_len - q_len + r`.
pub open spec fn softmax_masked(q_len: int, k_len: int, r: int, c: int) -> bool {
    c > k_len - q_len + r
}

/// The mask is exactly causal for an attention block: when the `q_len` query
/// rows sit at absolute positions `p .. p + q_len` and the keys cover
/// positions `0 .. p + q_len`, row `t` (at position `p + t`) is masked on key
/// position `c` exactly when `c` lies in `t`'s future.
pub proof fn lemma_causal_mask(p: int, q_len: int, t: int, c: int)
    requires
        q_len >= 1,
        0 <= t < q_len,
    ensures
        softmax_masked(q_len, p + q_len, t, c) <==> c > p + t,
{
}

} // verus!
