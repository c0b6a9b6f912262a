//! A deterministic state-transition engine for a content-hub platform:
//! creators register paid or free hubs, users subscribe by paying a one-time
//! fee, creators publish posts, and users record a single like per post.
//! Every operation is a function from the persisted store, the caller's
//! identity and the input to a new store and a result or error; the hosting
//! environment supplies identity, payment values, the logical timestamp and
//! payload encoding. Each operation carries a contract that states exactly
//! what it returns and how it changes the store, and the store's invariants
//! are proved to hold after every call.

pub mod contract;
pub mod error;
pub mod keyorder;
pub mod model;
pub mod msg;
pub mod pagination;
pub mod props;
pub mod state;

use vstd::prelude::*;
use crate::error::ContractError;
use crate::keyorder::str_views;
use crate::model::{
    create_hub_rel, create_post_rel, hub_posts_page, like_rel, subscribe_rel,
    user_subscriptions_page, StoreView,
};
use crate::msg::{ExecuteMsg, InstantiateMsg, QueryAnswer, QueryMsg};
use crate::pagination::page_slice;
use crate::state::{coin_views, post_views, Coin, HubStore};

verus! {

/// Sets up the empty store; the payload carries nothing.
pub fn instantiate(msg: InstantiateMsg) -> (s: HubStore)
    ensures
        s@ == StoreView::empty(),
        s@.wf(),
{
    let InstantiateMsg {} = msg;
    HubStore::new()
}

/// Resolves one command to its mutating operation against the store.
/// `sender` is the authenticated caller, `funds` the payment attached to the
/// call, and `timestamp` the logical time the host supplies.
pub fn execute(
    store: &mut HubStore,
    sender: String,
    funds: Vec<Coin>,
    timestamp: u64,
    msg: ExecuteMsg,
) -> (r: Result<(), ContractError>)
    requires
        old(store)@.wf(),
        msg matches ExecuteMsg::LikePost { post_id } ==> (old(store)@.has_counter(post_id@)
            ==> old(store)@.likes_of(post_id@) < u64::MAX),
    ensures
        final(store)@.wf(),
        match msg {
            ExecuteMsg::CreateHub { hub_name, need_pay } => create_hub_rel(
                old(store)@,
                final(store)@,
                sender@,
                hub_name@,
                need_pay@,
                r,
            ),
            ExecuteMsg::SubscribeToHub { hub_addr } => subscribe_rel(
                old(store)@,
                final(store)@,
                sender@,
                coin_views(funds@),
                hub_addr@,
                r,
            ),
            ExecuteMsg::CreatePost { post_id, title, content } => create_post_rel(
                old(store)@,
                final(store)@,
                sender@,
                post_id@,
                title@,
                content@,
                timestamp,
                r,
            ),
            ExecuteMsg::LikePost { post_id } => like_rel(
                old(store)@,
                final(store)@,
                sender@,
                post_id@,
                r,
            ),
        },
{
    match msg {
        ExecuteMsg::CreateHub { hub_name, need_pay } => {
            store.create_hub(sender, hub_name, need_pay)
        },
        ExecuteMsg::SubscribeToHub { hub_addr } => store.subscribe_to_hub(sender, funds, hub_addr),
        ExecuteMsg::CreatePost { post_id, title, content } => {
            store.create_post(sender, post_id, title, content, timestamp)
        },
        ExecuteMsg::LikePost { post_id } => store.like_post(sender, post_id),
    }
}

/// Resolves one query to its read-only projection over the store.
pub fn query(store: &HubStore, msg: QueryMsg) -> (r: Result<QueryAnswer, ContractError>)
    requires
        store@.wf(),
    ensures
        match msg {
            QueryMsg::Hub { creator } => match r {
                Ok(a) => a matches QueryAnswer::Hub(h) && store@.has_hub(creator@)
                    && h@ == store@.hub_of(creator@),
                Err(e) => e == ContractError::HubNotFound && !store@.has_hub(creator@),
            },
            QueryMsg::UserHasHub { creator } => r matches Ok(QueryAnswer::UserHasHub(b))
                && b == store@.has_hub(creator@),
            QueryMsg::UserSubscriptions { user, page, size } => r matches Ok(
                QueryAnswer::UserSubscriptions(v),
            ) && str_views(v@) == user_subscriptions_page(store@, user@, page, size),
            QueryMsg::HubAddresses { page, size } => r matches Ok(QueryAnswer::HubAddresses(v))
                && str_views(v@) == page_slice(store@.hub_index, page, size),
            QueryMsg::HubPosts { user_addr, hub_addr, page, size } => r matches Ok(
                QueryAnswer::HubPosts(v),
            ) && post_views(v@) == hub_posts_page(store@, user_addr@, hub_addr@, page, size),
            QueryMsg::PostLikes { post_id } => match r {
                Ok(a) => a matches QueryAnswer::PostLikes(n) && store@.has_counter(post_id@)
                    && n == store@.likes_of(post_id@),
                Err(e) => e == ContractError::PostNotFound && !store@.has_counter(post_id@),
            },
            QueryMsg::UserPostLiked { user, post_id } => r matches Ok(
                QueryAnswer::UserPostLiked(b),
            ) && b == store@.has_liked(user@, post_id@),
        },
{
    match msg {
        QueryMsg::Hub { creator } => match store.query_hub(&creator) {
            Ok(h) => Ok(QueryAnswer::Hub(h)),
            Err(e) => Err(e),
        },
        QueryMsg::UserHasHub { creator } => {
            Ok(QueryAnswer::UserHasHub(store.query_user_has_hub(&creator)))
        },
        QueryMsg::UserSubscriptions { user, page, size } => {
            Ok(QueryAnswer::UserSubscriptions(store.query_user_subscriptions(&user, page, size)))
        },
        QueryMsg::HubAddresses { page, size } => {
            Ok(QueryAnswer::HubAddresses(store.query_hub_addresses(page, size)))
        },
        QueryMsg::HubPosts { user_addr, hub_addr, page, size } => {
            Ok(QueryAnswer::HubPosts(store.query_hub_posts(&user_addr, &hub_addr, page, size)))
        },
        QueryMsg::PostLikes { post_id } => match store.query_post_likes(&post_id) {
            Ok(n) => Ok(QueryAnswer::PostLikes(n)),
            Err(e) => Err(e),
        },
        QueryMsg::UserPostLiked { user, post_id } => {
            Ok(QueryAnswer::UserPostLiked(store.query_user_post_liked(&user, &post_id)))
        },
    }
}

} // verus!
