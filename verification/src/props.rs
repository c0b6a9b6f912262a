use vstd::prelude::*;
use crate::error::ContractError;
use crate::model::{
    create_hub_rel, hub_posts_page, lemma_like_at, like_rel, sent_amount, subscribe_rel, CoinView,
    PostView, StoreView,
};
use crate::pagination::page_slice;

verus! {

/// Once a creator has registered a hub, every further registration attempt
/// by the same creator fails with `CreatorAlreadyHasHub` and leaves the
/// store, the registered hub included, exactly as it was.
pub proof fn lemma_create_hub_exclusive(
    pre: StoreView,
    mid: StoreView,
    post: StoreView,
    creator: Seq<char>,
    name1: Seq<char>,
    pay1: CoinView,
    name2: Seq<char>,
    pay2: CoinView,
    r2: Result<(), ContractError>,
)
    requires
        pre.wf(),
        create_hub_rel(pre, mid, creator, name1, pay1, Ok(())),
        create_hub_rel(mid, post, creator, name2, pay2, r2),
    ensures
        r2 == Result::<(), ContractError>::Err(ContractError::CreatorAlreadyHasHub),
        post == mid,
        post.hub_of(creator) == mid.hub_of(creator),
{
    assert(mid.hubs[pre.hubs.len() as int].creator == creator);
    assert(mid.has_hub(creator));
    match r2 {
        Ok(()) => {
            assert(false);
        },
        Err(_) => {},
    }
}

/// A (user, hub) pair subscribes at most once: after one success, every
/// further attempt whose payment would cover the price fails with
/// `AlreadySubscribed`, and the hub's subscriber list is left unchanged.
pub proof fn lemma_subscribe_once(
    pre: StoreView,
    mid: StoreView,
    post: StoreView,
    user: Seq<char>,
    funds1: Seq<CoinView>,
    funds2: Seq<CoinView>,
    hub: Seq<char>,
    r2: Result<(), ContractError>,
)
    requires
        pre.wf(),
        mid.wf(),
        subscribe_rel(pre, mid, user, funds1, hub, Ok(())),
        subscribe_rel(mid, post, user, funds2, hub, r2),
        mid.hub_of(hub).payment.amount == 0 || sent_amount(funds2, mid.hub_of(hub).payment.denom)
            >= mid.hub_of(hub).payment.amount,
    ensures
        r2 == Result::<(), ContractError>::Err(ContractError::AlreadySubscribed),
        post == mid,
        post.hub_of(hub).subscribers.len() == mid.hub_of(hub).subscribers.len(),
{
    let i = pre.hub_idx(hub);
    assert(pre.hubs[i].creator == hub);
    assert(mid.hubs[i].creator == hub);
    assert(mid.has_hub(hub));
    assert(mid.subs[pre.subs.len() as int] == (user, hub));
    assert(mid.is_subscribed(user, hub));
    match r2 {
        Ok(()) => {
            assert(false);
        },
        Err(e) => {
            match e {
                ContractError::HubNotFound => {
                    assert(false);
                },
                ContractError::InsufficientFunds => {
                    assert(false);
                },
                ContractError::AlreadySubscribed => {},
                _ => {
                    assert(false);
                },
            }
        },
    }
}

/// The fee gate of `subscribe_to_hub`: against an existing hub and a fresh
/// (user, hub) pair, the call fails with `InsufficientFunds` exactly when
/// the hub's price is non-zero and the attached payment in the price
/// denomination falls short of it, and succeeds otherwise.
pub proof fn lemma_subscribe_fee_gate(
    pre: StoreView,
    post: StoreView,
    user: Seq<char>,
    funds: Seq<CoinView>,
    hub: Seq<char>,
    r: Result<(), ContractError>,
)
    requires
        pre.wf(),
        subscribe_rel(pre, post, user, funds, hub, r),
        pre.has_hub(hub),
        !pre.is_subscribed(user, hub),
    ensures
        (pre.hub_of(hub).payment.amount != 0 && sent_amount(funds, pre.hub_of(hub).payment.denom)
            < pre.hub_of(hub).payment.amount) <==> r == Result::<(), ContractError>::Err(
            ContractError::InsufficientFunds,
        ),
        (pre.hub_of(hub).payment.amount == 0 || sent_amount(funds, pre.hub_of(hub).payment.denom)
            >= pre.hub_of(hub).payment.amount) <==> r is Ok,
{
    match r {
        Ok(()) => {
            assert(pre.hub_of(hub).payment.amount == 0 || sent_amount(
                funds,
                pre.hub_of(hub).payment.denom,
            ) >= pre.hub_of(hub).payment.amount);
        },
        Err(e) => {
            match e {
                ContractError::HubNotFound => {
                    assert(false);
                },
                ContractError::InsufficientFunds => {
                    assert(r == Result::<(), ContractError>::Err(
                        ContractError::InsufficientFunds,
                    ));
                },
                ContractError::AlreadySubscribed => {
                    assert(false);
                },
                _ => {
                    assert(false);
                },
            }
        },
    }
}

/// A (user, post) pair produces exactly one increment: the first accepted
/// like raises the counter by one, and every further attempt by the same
/// user fails with `PostAlreadyLiked` and leaves the counter unchanged.
pub proof fn lemma_like_once(
    pre: StoreView,
    mid: StoreView,
    post: StoreView,
    user: Seq<char>,
    post_id: Seq<char>,
    r2: Result<(), ContractError>,
)
    requires
        pre.wf(),
        mid.wf(),
        like_rel(pre, mid, user, post_id, Ok(())),
        like_rel(mid, post, user, post_id, r2),
    ensures
        mid.likes_of(post_id) == pre.likes_of(post_id) + 1,
        r2 matches Result::<(), ContractError>::Err(ContractError::PostAlreadyLiked { id })
            && id@ == post_id,
        post == mid,
        post.likes_of(post_id) == mid.likes_of(post_id),
{
    let i = pre.like_idx(post_id);
    assert(mid.likes[i] == (post_id, (pre.likes_of(post_id) + 1) as u64));
    lemma_like_at(mid, i, post_id);
    assert(mid.liked[pre.liked.len() as int] == (user, post_id));
    assert(mid.has_liked(user, post_id));
    match r2 {
        Ok(()) => {
            assert(false);
        },
        Err(e) => {
            match e {
                ContractError::PostNotFound => {
                    assert(false);
                },
                ContractError::PostAlreadyLiked { id } => {},
                _ => {
                    assert(false);
                },
            }
        },
    }
}

/// The visibility gate of `query_hub_posts`: a user without a subscription
/// sees at most the single most recent post, whatever window was asked for,
/// while a subscriber sees the requested window of the full list.
pub proof fn lemma_hub_posts_gate(
    sv: StoreView,
    user: Seq<char>,
    hub: Seq<char>,
    page: u64,
    size: u64,
)
    requires
        sv.wf(),
        sv.has_hub(hub),
    ensures
        !sv.is_subscribed(user, hub) ==> hub_posts_page(sv, user, hub, page, size) == (
        if sv.hub_of(hub).posts.len() == 0 {
            Seq::<PostView>::empty()
        } else {
            seq![sv.hub_of(hub).posts[0]]
        }),
        sv.is_subscribed(user, hub) ==> hub_posts_page(sv, user, hub, page, size) == page_slice(
            sv.hub_of(hub).posts,
            page,
            size,
        ),
{
}

/// Pagination never errs: a page of zero, a size of zero, or a window that
/// starts at or past the end of the list selects the empty list.
pub proof fn lemma_pagination_empty<T>(s: Seq<T>, page: u64, size: u64)
    requires
        page == 0 || size == 0 || (page as int - 1) * (size as int) >= s.len(),
    ensures
        page_slice(s, page, size) == Seq::<T>::empty(),
{
    assert(s.subrange(0, 0) =~= Seq::<T>::empty());
}

} // verus!
