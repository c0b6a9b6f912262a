use vstd::prelude::*;
use crate::error::ContractError;
use crate::keyorder::{key_lt, sort_keys};
use crate::pagination::page_slice;

verus! {

/// Mathematical image of a coin: a denomination and an amount.
#[verifier::ext_equal]
pub ghost struct CoinView {
    pub denom: Seq<char>,
    pub amount: u128,
}

/// Mathematical image of a post.
#[verifier::ext_equal]
pub ghost struct PostView {
    pub id: Seq<char>,
    pub title: Seq<char>,
    pub content: Seq<char>,
    pub updated: u64,
}

/// Mathematical image of a hub.
#[verifier::ext_equal]
pub ghost struct HubView {
    pub creator: Seq<char>,
    pub name: Seq<char>,
    pub payment: CoinView,
    pub subscribers: Seq<Seq<char>>,
    pub posts: Seq<PostView>,
}

/// Mathematical image of the whole persisted store: the five collections of
/// the engine. `hubs` is in creation order, `hub_index` most-recent-first,
/// `subs` holds (subscriber, hub) pairs, `likes` maps a post identifier to
/// its counter, `liked` holds (user, post identifier) pairs.
#[verifier::ext_equal]
pub ghost struct StoreView {
    pub hubs: Seq<HubView>,
    pub hub_index: Seq<Seq<char>>,
    pub subs: Seq<(Seq<char>, Seq<char>)>,
    pub likes: Seq<(Seq<char>, u64)>,
    pub liked: Seq<(Seq<char>, Seq<char>)>,
}

impl StoreView {
    /// The store with no hubs, subscriptions, posts or likes.
    pub open spec fn empty() -> StoreView {
        StoreView {
            hubs: Seq::empty(),
            hub_index: Seq::empty(),
            subs: Seq::empty(),
            likes: Seq::empty(),
            liked: Seq::empty(),
        }
    }

    /// A hub keyed by `creator` exists.
    pub open spec fn has_hub(self, creator: Seq<char>) -> bool {
        exists|i: int| 0 <= i < self.hubs.len() && self.hubs[i].creator == creator
    }

    /// The index of the hub keyed by `creator`; meaningful when `has_hub`
    /// holds and the creators are distinct.
    pub open spec fn hub_idx(self, creator: Seq<char>) -> int {
        choose|i: int| 0 <= i < self.hubs.len() && self.hubs[i].creator == creator
    }

    /// The hub keyed by `creator`.
    pub open spec fn hub_of(self, creator: Seq<char>) -> HubView {
        self.hubs[self.hub_idx(creator)]
    }

    /// A subscription-ledger entry for (`user`, `hub`) exists.
    pub open spec fn is_subscribed(self, user: Seq<char>, hub: Seq<char>) -> bool {
        exists|i: int| 0 <= i < self.subs.len() && self.subs[i] == (user, hub)
    }

    /// A like counter for `post_id` exists.
    pub open spec fn has_counter(self, post_id: Seq<char>) -> bool {
        exists|i: int| 0 <= i < self.likes.len() && self.likes[i].0 == post_id
    }

    /// The position of the like counter for `post_id`; meaningful when
    /// `has_counter` holds and the counter keys are distinct.
    pub open spec fn like_idx(self, post_id: Seq<char>) -> int {
        choose|i: int| 0 <= i < self.likes.len() && self.likes[i].0 == post_id
    }

    /// The like counter of `post_id`.
    pub open spec fn likes_of(self, post_id: Seq<char>) -> u64 {
        self.likes[self.like_idx(post_id)].1
    }

    /// `user` has already liked `post_id`.
    pub open spec fn has_liked(self, user: Seq<char>, post_id: Seq<char>) -> bool {
        exists|i: int| 0 <= i < self.liked.len() && self.liked[i] == (user, post_id)
    }

    /// `post_id` names a post of some hub.
    pub open spec fn is_post_id(self, post_id: Seq<char>) -> bool {
        exists|i: int, j: int|
            0 <= i < self.hubs.len() && 0 <= j < self.hubs[i].posts.len()
                && self.hubs[i].posts[j].id == post_id
    }

    /// At most one hub per creator identity.
    pub open spec fn creators_distinct(self) -> bool {
        forall|i: int, j: int|
            0 <= i < j < self.hubs.len() ==> self.hubs[i].creator != self.hubs[j].creator
    }

    /// The hub index lists no identity twice.
    pub open spec fn index_distinct(self) -> bool {
        forall|i: int, j: int|
            0 <= i < j < self.hub_index.len() ==> self.hub_index[i] != self.hub_index[j]
    }

    /// The hub index lists exactly the registered creators.
    pub open spec fn index_matches(self) -> bool {
        &&& forall|i: int|
            0 <= i < self.hub_index.len() ==> self.has_hub(#[trigger] self.hub_index[i])
        &&& forall|i: int|
            0 <= i < self.hubs.len() ==> self.hub_index.contains(#[trigger] self.hubs[i].creator)
    }

    /// No hub lists a subscriber twice.
    pub open spec fn subscribers_distinct(self) -> bool {
        forall|i: int, j: int, k: int|
            0 <= i < self.hubs.len() && 0 <= j < k < self.hubs[i].subscribers.len()
                ==> self.hubs[i].subscribers[j] != self.hubs[i].subscribers[k]
    }

    /// The subscription ledger holds no pair twice.
    pub open spec fn subs_distinct(self) -> bool {
        forall|i: int, j: int| 0 <= i < j < self.subs.len() ==> self.subs[i] != self.subs[j]
    }

    /// A ledger entry exists if and only if the identity stands in the
    /// owning hub's subscriber list.
    pub open spec fn subs_consistent(self) -> bool {
        &&& forall|i: int|
            0 <= i < self.subs.len()
                ==> self.has_hub((#[trigger] self.subs[i]).1)
                    && self.hub_of(self.subs[i].1).subscribers.contains(self.subs[i].0)
        &&& forall|i: int, k: int|
            0 <= i < self.hubs.len() && 0 <= k < self.hubs[i].subscribers.len()
                ==> self.subs.contains((#[trigger] self.hubs[i].subscribers[k], self.hubs[i].creator))
    }

    /// Post identifiers are unique across the whole store.
    pub open spec fn post_ids_distinct(self) -> bool {
        forall|i: int, j: int, k: int, l: int|
            0 <= i < self.hubs.len() && 0 <= j < self.hubs[i].posts.len()
                && 0 <= k < self.hubs.len() && 0 <= l < self.hubs[k].posts.len()
                && (i != k || j != l)
                ==> self.hubs[i].posts[j].id != self.hubs[k].posts[l].id
    }

    /// The like ledger holds no counter key twice.
    pub open spec fn likes_distinct(self) -> bool {
        forall|i: int, j: int| 0 <= i < j < self.likes.len() ==> self.likes[i].0 != self.likes[j].0
    }

    /// A like counter exists exactly for the posts of the store.
    pub open spec fn likes_match_posts(self) -> bool {
        &&& forall|i: int|
            0 <= i < self.likes.len() ==> self.is_post_id((#[trigger] self.likes[i]).0)
        &&& forall|i: int, j: int|
            0 <= i < self.hubs.len() && 0 <= j < self.hubs[i].posts.len()
                ==> self.has_counter(#[trigger] self.hubs[i].posts[j].id)
    }

    /// The liked-by set holds no pair twice.
    pub open spec fn liked_distinct(self) -> bool {
        forall|i: int, j: int| 0 <= i < j < self.liked.len() ==> self.liked[i] != self.liked[j]
    }

    /// Every recorded like addresses an existing counter.
    pub open spec fn liked_have_counter(self) -> bool {
        forall|i: int|
            0 <= i < self.liked.len() ==> self.has_counter((#[trigger] self.liked[i]).1)
    }

    /// Well-formedness of the store: the invariants every operation
    /// establishes and preserves.
    pub open spec fn wf(self) -> bool {
        &&& self.creators_distinct()
        &&& self.index_distinct()
        &&& self.index_matches()
        &&& self.subscribers_distinct()
        &&& self.subs_distinct()
        &&& self.subs_consistent()
        &&& self.post_ids_distinct()
        &&& self.likes_distinct()
        &&& self.likes_match_posts()
        &&& self.liked_distinct()
        &&& self.liked_have_counter()
    }
}

/// The amount of the first attached coin whose denomination matches `denom`,
/// or zero when none matches.
pub open spec fn sent_amount(funds: Seq<CoinView>, denom: Seq<char>) -> u128
    decreases funds.len(),
{
    if funds.len() == 0 {
        0u128
    } else if funds.first().denom == denom {
        funds.first().amount
    } else {
        sent_amount(funds.drop_first(), denom)
    }
}

/// The hub identities `user` subscribes to, in ledger order.
pub open spec fn user_hubs(subs: Seq<(Seq<char>, Seq<char>)>, user: Seq<char>) -> Seq<Seq<char>>
    decreases subs.len(),
{
    if subs.len() == 0 {
        Seq::empty()
    } else {
        let rest = user_hubs(subs.drop_last(), user);
        if subs.last().0 == user {
            rest.push(subs.last().1)
        } else {
            rest
        }
    }
}

/// The display names of the hubs named by `ids`, skipping any identity with
/// no registered hub.
pub open spec fn hub_names(sv: StoreView, ids: Seq<Seq<char>>) -> Seq<Seq<char>>
    decreases ids.len(),
{
    if ids.len() == 0 {
        Seq::empty()
    } else {
        let rest = hub_names(sv, ids.drop_last());
        if sv.has_hub(ids.last()) {
            rest.push(sv.hub_of(ids.last()).name)
        } else {
            rest
        }
    }
}

/// What `query_user_subscriptions` returns: the user's subscribed hub
/// identities in ascending key order, windowed, then resolved to names.
pub open spec fn user_subscriptions_page(
    sv: StoreView,
    user: Seq<char>,
    page: u64,
    size: u64,
) -> Seq<Seq<char>> {
    hub_names(sv, page_slice(sort_keys(user_hubs(sv.subs, user)), page, size))
}

/// What `query_hub_posts` returns: nothing for an unknown hub, the windowed
/// post list for a subscriber, and at most the single most recent post for
/// anyone else.
pub open spec fn hub_posts_page(
    sv: StoreView,
    user: Seq<char>,
    hub: Seq<char>,
    page: u64,
    size: u64,
) -> Seq<PostView> {
    if !sv.has_hub(hub) {
        Seq::empty()
    } else if sv.is_subscribed(user, hub) {
        page_slice(sv.hub_of(hub).posts, page, size)
    } else if sv.hub_of(hub).posts.len() == 0 {
        Seq::empty()
    } else {
        seq![sv.hub_of(hub).posts[0]]
    }
}

/// How `create_hub` relates the store before and after the call.
pub open spec fn create_hub_rel(
    pre: StoreView,
    post: StoreView,
    creator: Seq<char>,
    name: Seq<char>,
    payment: CoinView,
    r: Result<(), ContractError>,
) -> bool {
    match r {
        Ok(()) => {
            &&& !pre.has_hub(creator)
            &&& post.hubs == pre.hubs.push(
                HubView {
                    creator,
                    name,
                    payment,
                    subscribers: Seq::empty(),
                    posts: Seq::empty(),
                },
            )
            &&& post.hub_index == seq![creator] + pre.hub_index
            &&& post.subs == pre.subs
            &&& post.likes == pre.likes
            &&& post.liked == pre.liked
        },
        Err(e) => {
            &&& e == ContractError::CreatorAlreadyHasHub
            &&& pre.has_hub(creator)
            &&& post == pre
        },
    }
}

/// How `subscribe_to_hub` relates the store before and after the call.
pub open spec fn subscribe_rel(
    pre: StoreView,
    post: StoreView,
    user: Seq<char>,
    funds: Seq<CoinView>,
    hub: Seq<char>,
    r: Result<(), ContractError>,
) -> bool {
    match r {
        Ok(()) => {
            &&& pre.has_hub(hub)
            &&& (pre.hub_of(hub).payment.amount == 0
                || sent_amount(funds, pre.hub_of(hub).payment.denom) >= pre.hub_of(hub).payment.amount)
            &&& !pre.is_subscribed(user, hub)
            &&& post.hubs == pre.hubs.update(
                pre.hub_idx(hub),
                HubView { subscribers: pre.hub_of(hub).subscribers.push(user), ..pre.hub_of(hub) },
            )
            &&& post.subs == pre.subs.push((user, hub))
            &&& post.hub_index == pre.hub_index
            &&& post.likes == pre.likes
            &&& post.liked == pre.liked
        },
        Err(e) => {
            &&& post == pre
            &&& match e {
                ContractError::HubNotFound => !pre.has_hub(hub),
                ContractError::InsufficientFunds => {
                    &&& pre.has_hub(hub)
                    &&& pre.hub_of(hub).payment.amount != 0
                    &&& sent_amount(funds, pre.hub_of(hub).payment.denom)
                        < pre.hub_of(hub).payment.amount
                },
                ContractError::AlreadySubscribed => {
                    &&& pre.has_hub(hub)
                    &&& (pre.hub_of(hub).payment.amount == 0
                        || sent_amount(funds, pre.hub_of(hub).payment.denom)
                            >= pre.hub_of(hub).payment.amount)
                    &&& pre.is_subscribed(user, hub)
                },
                _ => false,
            }
        },
    }
}

/// How `create_post` relates the store before and after the call.
pub open spec fn create_post_rel(
    pre: StoreView,
    post: StoreView,
    creator: Seq<char>,
    post_id: Seq<char>,
    title: Seq<char>,
    content: Seq<char>,
    timestamp: u64,
    r: Result<(), ContractError>,
) -> bool {
    match r {
        Ok(()) => {
            &&& pre.has_hub(creator)
            &&& !pre.has_counter(post_id)
            &&& post.hubs == pre.hubs.update(
                pre.hub_idx(creator),
                HubView {
                    posts: seq![
                        PostView { id: post_id, title, content, updated: timestamp },
                    ] + pre.hub_of(creator).posts,
                    ..pre.hub_of(creator)
                },
            )
            &&& post.likes == pre.likes.push((post_id, 0u64))
            &&& post.hub_index == pre.hub_index
            &&& post.subs == pre.subs
            &&& post.liked == pre.liked
        },
        Err(e) => {
            &&& post == pre
            &&& match e {
                ContractError::HubNotFound => !pre.has_hub(creator),
                ContractError::PostAlreadyExists { id } => {
                    &&& pre.has_hub(creator)
                    &&& pre.has_counter(post_id)
                    &&& id@ == post_id
                },
                _ => false,
            }
        },
    }
}

/// How `like_post` relates the store before and after the call.
pub open spec fn like_rel(
    pre: StoreView,
    post: StoreView,
    user: Seq<char>,
    post_id: Seq<char>,
    r: Result<(), ContractError>,
) -> bool {
    match r {
        Ok(()) => {
            &&& pre.has_counter(post_id)
            &&& !pre.has_liked(user, post_id)
            &&& pre.likes_of(post_id) < u64::MAX
            &&& post.likes == pre.likes.update(
                pre.like_idx(post_id),
                (post_id, (pre.likes_of(post_id) + 1) as u64),
            )
            &&& post.liked == pre.liked.push((user, post_id))
            &&& post.hubs == pre.hubs
            &&& post.hub_index == pre.hub_index
            &&& post.subs == pre.subs
        },
        Err(e) => {
            &&& post == pre
            &&& match e {
                ContractError::PostNotFound => !pre.has_counter(post_id),
                ContractError::PostAlreadyLiked { id } => {
                    &&& pre.has_counter(post_id)
                    &&& pre.has_liked(user, post_id)
                    &&& id@ == post_id
                },
                _ => false,
            }
        },
    }
}

/// Looking a creator up in a store with distinct creators is deterministic:
/// any index that matches is the index `hub_idx` picks.
pub proof fn lemma_hub_at(sv: StoreView, i: int, creator: Seq<char>)
    requires
        sv.creators_distinct(),
        0 <= i < sv.hubs.len(),
        sv.hubs[i].creator == creator,
    ensures
        sv.has_hub(creator),
        sv.hub_idx(creator) == i,
        sv.hub_of(creator) == sv.hubs[i],
{
    assert(sv.has_hub(creator));
    let j = sv.hub_idx(creator);
    assert(0 <= j < sv.hubs.len() && sv.hubs[j].creator == creator);
    if i < j {
        assert(sv.hubs[i].creator != sv.hubs[j].creator);
    } else if j < i {
        assert(sv.hubs[j].creator != sv.hubs[i].creator);
    }
}

/// Looking a like counter up with distinct keys is deterministic.
pub proof fn lemma_like_at(sv: StoreView, i: int, post_id: Seq<char>)
    requires
        sv.likes_distinct(),
        0 <= i < sv.likes.len(),
        sv.likes[i].0 == post_id,
    ensures
        sv.has_counter(post_id),
        sv.like_idx(post_id) == i,
        sv.likes_of(post_id) == sv.likes[i].1,
{
    assert(sv.has_counter(post_id));
    let j = sv.like_idx(post_id);
    assert(0 <= j < sv.likes.len() && sv.likes[j].0 == post_id);
    if i < j {
        assert(sv.likes[i].0 != sv.likes[j].0);
    } else if j < i {
        assert(sv.likes[j].0 != sv.likes[i].0);
    }
}

} // verus!
