//! Names for the device allocations the engine works over.
//!
//! The engine never touches device memory itself: every tensor view it builds
//! carries one of these identifiers, and the surrounding runtime maps each to
//! a real allocation. Two views alias only if they carry the same identifier.

use vstd::prelude::*;

verus! {

/// The six per-layer weight tensors held in one window slot.
#[derive(Clone, Copy, Debug, PartialEq, Eq, Structural)]
pub enum WeightKind {
    InputLayernorm,
    WQkv,
    SelfAttnOProj,
    PostAttentionLayernorm,
    MlpGateUp,
    MlpDown,
}

/// Weights that live on the device for the engine's whole lifetime.
#[derive(Clone, Copy, Debug, PartialEq, Eq, Structural)]
pub enum GlobalKind {
    EmbedTokens,
    ModelNorm,
    LmHead,
}

/// Identifier of a device allocation.
#[derive(Clone, Copy, Debug, PartialEq, Eq, Structural)]
pub enum BufId {
    /// Residual stream, `[NT, D]`.
    X0,
    /// Norm output / attention output, `[NT, D]`.
    X1,
    /// Fused Q/K/V projection, `[NT, D + 2·DKV]`.
    Qkv,
    /// Scratch for the reformed queries of one request.
    QBuf,
    /// Scratch for the attention scores of one request.
    AttBuf,
    /// Fused gate/up MLP projection, `[NT, 2·DI]`.
    GateUp,
    /// Packed position ids, `[NT]`.
    Pos,
    /// Output logits, `[ND, V]`.
    Logits,
    /// Key cache of one request at one layer, `[NKVH, MP, DH]`;
    /// the request is named by its index in the sorted batch.
    KCache(usize, usize),
    /// Value cache of one request at one layer, `[NKVH, MP, DH]`.
    VCache(usize, usize),
    /// One weight tensor resident in a window slot.
    SlotWeight(usize, WeightKind),
    /// A lifetime-global weight tensor.
    Global(GlobalKind),
}

} // verus!
