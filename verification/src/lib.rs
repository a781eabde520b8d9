//! Core of a GPU-resident inference engine for decoder-only transformer
//! models of the LLaMA family.
//!
//! The engine accepts a batch of heterogeneous requests (prefill and decode),
//! packs them into a single token sequence, and drives a layer-by-layer
//! forward pass in which only a small window of layer weights is resident on
//! the device at any time. Everything the engine decides — which weights to
//! stage into which slot, which events to wait on, which kernel to launch on
//! which tensor view, which rows to compact for the logits projection — is
//! computed and verified here. The device itself (streams, memory, kernels,
//! the vendor BLAS) executes the resulting plan outside this crate.

use vstd::prelude::*;

pub mod batch;
pub mod compact;
pub mod config;
pub mod driver;
pub mod kernel;
pub mod parameters;
pub mod storage;
pub mod tensor;

verus! {

/// Token id.
#[allow(non_camel_case_types)]
pub type utok = u32;

/// Position id.
#[allow(non_camel_case_types)]
pub type upos = u32;

/// Fatal error kinds at the engine boundary.
#[derive(Clone, Copy, Debug, PartialEq, Eq, Structural)]
pub enum Error {
    /// The configuration document is malformed or violates a model invariant.
    ConfigParse,
    /// The weights file does not cover the required tensor set or mismatches
    /// the configuration.
    WeightFormat,
    /// A tensor view or kernel operand has an impossible shape, including a
    /// request that would attend past `max_position_embeddings`.
    ShapeMismatch,
    /// The kernel bank supports only 16-bit float compute.
    DtypeUnsupported,
    /// A device allocation failed.
    OutOfDeviceMemory,
    /// A kernel launch failed.
    KernelLaunch,
    /// A weight-window slot held the wrong layer.
    SchedulerAssertion,
    /// A token id at or above the vocabulary size was handed to the
    /// embedding gather.
    TokenOutOfRange,
}

} // verus!
