use vstd::prelude::*;

verus! {

/// Every failure the coordinator can surface to a caller.
///
/// A failed operation aborts the whole enclosing transaction: the host keeps
/// none of its writes, so an error value always describes an unchanged state.
#[derive(Clone, Debug, PartialEq, Eq)]
pub enum ContractError {
    /// The caller is not the identity that the operation is gated on.
    Unauthorized {},
    /// A completion arrived under a correlation token that is not the one
    /// currently expected, or that matches no outstanding request.
    InvalidReplyID {},
    /// The registry service reported that creating the child registry failed.
    InstantiateCw721Error {},
    /// A token URI was rejected.
    InvalidTokenURI {},
    /// A required string parameter was empty.
    InvalidInput {},
    /// No pending request is stored under the given correlation token.
    PendingCollectionNotFound {},
    /// No collection is stored under the given creator and name.
    CollectionNotFound {},
    /// The attached payment does not match the collection's required currency
    /// and mint fee exactly.
    IncorrectFunds {},
}

} // verus!
