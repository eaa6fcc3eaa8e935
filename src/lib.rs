//! Reading process variables over Channel Access: the decisions that turn
//! channel readings into records and records into lines of text.
use vstd::prelude::*;

pub mod common;
pub mod config;
pub mod text;
pub mod types;

verus! {

/// Everything that can go wrong while reading a batch of process variables.
#[derive(Debug, Clone, PartialEq, Eq)]
pub enum UnifiedError {
    /// The name cannot be handed to the transport (it holds a nul byte).
    NameError(String),
    /// The transport refused to open the channel or to create its context.
    ContextError(String),
    /// The deadline passed before the channel connected.
    ConnectTimeout,
    /// The typed read failed after the channel connected.
    ProtocolError(String),
    /// No array reading exists for this wire type.
    NotSupported(types::WireType),
}

pub type UnifiedResult<T> = Result<T, UnifiedError>;

} // verus!
