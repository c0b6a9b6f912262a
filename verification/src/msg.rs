use vstd::prelude::*;
use crate::state::{Coin, Hub, Post};

verus! {

/// The instantiation payload; the engine needs nothing to start from.
#[derive(Debug, PartialEq, Eq)]
pub struct InstantiateMsg {}

/// The mutating commands, one per operation of the engine.
#[derive(Debug, PartialEq, Eq)]
pub enum ExecuteMsg {
    CreateHub { hub_name: String, need_pay: Coin },
    SubscribeToHub { hub_addr: String },
    CreatePost { post_id: String, title: String, content: String },
    LikePost { post_id: String },
}

/// The read-only queries, one per projection of the engine.
#[derive(Debug, PartialEq, Eq)]
pub enum QueryMsg {
    Hub { creator: String },
    UserHasHub { creator: String },
    UserSubscriptions { user: String, page: u64, size: u64 },
    HubAddresses { page: u64, size: u64 },
    HubPosts { user_addr: String, hub_addr: String, page: u64, size: u64 },
    PostLikes { post_id: String },
    UserPostLiked { user: String, post_id: String },
}

/// The value a query returns, one variant per query.
#[derive(Debug, PartialEq, Eq)]
pub enum QueryAnswer {
    Hub(Hub),
    UserHasHub(bool),
    UserSubscriptions(Vec<String>),
    HubAddresses(Vec<String>),
    HubPosts(Vec<Post>),
    PostLikes(u64),
    UserPostLiked(bool),
}

} // verus!
