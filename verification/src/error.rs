use vstd::prelude::*;

verus! {

/// The error kinds a mutating or query operation can report. Every error is
/// terminal for the current call: on an error the store is left unchanged.
#[derive(Debug, PartialEq, Eq)]
pub enum ContractError {
    /// Reserved for future access control; no operation reports it yet.
    Unauthorized,
    /// `create_hub` was called by a creator that already owns a hub.
    CreatorAlreadyHasHub,
    /// The addressed hub does not exist.
    HubNotFound,
    /// The caller is already subscribed to the addressed hub.
    AlreadySubscribed,
    /// The hub's price is non-zero and the attached payment in the price
    /// denomination is strictly below it.
    InsufficientFunds,
    /// No like counter exists for the addressed post identifier.
    PostNotFound,
    /// A post with this identifier already has a like counter.
    PostAlreadyExists { id: String },
    /// The caller has already liked this post.
    PostAlreadyLiked { id: String },
}

} // verus!
