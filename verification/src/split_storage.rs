use vstd::prelude::*;

verus! {

/// Request for the node's split-storage view; it carries no parameters.
pub struct RpcSplitStorageRequest {}

/// Errors the split-storage endpoint can answer with.
pub enum RpcSplitStorageError {
    /// The node reached its limits; the message says more.
    InternalError { error_message: String },
}

impl RpcSplitStorageError {
    /// An internal error carrying the given message.
    pub fn internal_error(error_message: String) -> (r: Self)
        ensures
            r matches RpcSplitStorageError::InternalError { error_message: m } && m@
                == error_message@,
    {
        RpcSplitStorageError::InternalError { error_message }
    }

    /// The error's message.
    pub fn message(&self) -> (r: &String)
        ensures
            self matches RpcSplitStorageError::InternalError { error_message: m } && r@ == m@,
    {
        match self {
            RpcSplitStorageError::InternalError { error_message } => error_message,
        }
    }
}

} // verus!
