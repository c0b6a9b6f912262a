use vstd::prelude::*;
use crate::keyorder::str_views;
use crate::model::{CoinView, HubView, PostView, StoreView};

verus! {

/// An amount of one currency denomination. An amount of zero on a hub's
/// price means the hub is free.
#[derive(Debug, PartialEq, Eq)]
pub struct Coin {
    pub denom: String,
    pub amount: u128,
}

impl View for Coin {
    type V = CoinView;

    open spec fn view(&self) -> CoinView {
        CoinView { denom: self.denom@, amount: self.amount }
    }
}

impl Coin {
    /// A field-for-field copy.
    pub fn duplicate(&self) -> (r: Coin)
        ensures
            r == *self,
    {
        Coin { denom: self.denom.clone(), amount: self.amount }
    }
}

/// The views of a sequence of coins.
pub open spec fn coin_views(s: Seq<Coin>) -> Seq<CoinView> {
    s.map_values(|c: Coin| c@)
}

/// An immutable content item published by a hub's creator. `updated` is the
/// caller-supplied logical timestamp of its creation.
#[derive(Debug, PartialEq, Eq)]
pub struct Post {
    pub id: String,
    pub title: String,
    pub content: String,
    pub updated: u64,
}

impl View for Post {
    type V = PostView;

    open spec fn view(&self) -> PostView {
        PostView {
            id: self.id@,
            title: self.title@,
            content: self.content@,
            updated: self.updated,
        }
    }
}

impl Post {
    /// A field-for-field copy.
    pub fn duplicate(&self) -> (r: Post)
        ensures
            r == *self,
    {
        Post {
            id: self.id.clone(),
            title: self.title.clone(),
            content: self.content.clone(),
            updated: self.updated,
        }
    }
}

/// A named content channel owned by one creator identity, with its price,
/// its subscribers and its posts (most recent first).
#[derive(Debug, PartialEq, Eq)]
pub struct Hub {
    pub creator: String,
    pub name: String,
    pub payment: Coin,
    pub subscribers: Vec<String>,
    pub posts: Vec<Post>,
}

/// The views of a sequence of posts.
pub open spec fn post_views(s: Seq<Post>) -> Seq<PostView> {
    s.map_values(|p: Post| p@)
}

impl View for Hub {
    type V = HubView;

    open spec fn view(&self) -> HubView {
        HubView {
            creator: self.creator@,
            name: self.name@,
            payment: self.payment@,
            subscribers: str_views(self.subscribers@),
            posts: post_views(self.posts@),
        }
    }
}

/// The views of a sequence of hubs.
pub open spec fn hub_views(s: Seq<Hub>) -> Seq<HubView> {
    s.map_values(|h: Hub| h@)
}

/// The views of a sequence of string pairs.
pub open spec fn pair_views(s: Seq<(String, String)>) -> Seq<(Seq<char>, Seq<char>)> {
    s.map_values(|p: (String, String)| (p.0@, p.1@))
}

/// The views of a sequence of like-counter entries.
pub open spec fn like_views(s: Seq<(String, u64)>) -> Seq<(Seq<char>, u64)> {
    s.map_values(|p: (String, u64)| (p.0@, p.1))
}

/// Copies each string of `v`.
pub fn clone_strings(v: &Vec<String>) -> (r: Vec<String>)
    ensures
        r@ == v@,
{
    let mut r: Vec<String> = Vec::new();
    let mut i: usize = 0;
    while i < v.len()
        invariant
            i <= v.len(),
            r@ == v@.take(i as int),
        decreases v.len() - i,
    {
        r.push(v[i].clone());
        proof {
            assert(v@.take(i as int).push(v@[i as int]) =~= v@.take(i as int + 1));
        }
        i = i + 1;
    }
    proof {
        assert(v@.take(v@.len() as int) =~= v@);
    }
    r
}

/// Copies each post of `v`.
pub fn clone_posts(v: &Vec<Post>) -> (r: Vec<Post>)
    ensures
        r@ == v@,
{
    let mut r: Vec<Post> = Vec::new();
    let mut i: usize = 0;
    while i < v.len()
        invariant
            i <= v.len(),
            r@ == v@.take(i as int),
        decreases v.len() - i,
    {
        r.push(v[i].duplicate());
        proof {
            assert(v@.take(i as int).push(v@[i as int]) =~= v@.take(i as int + 1));
        }
        i = i + 1;
    }
    proof {
        assert(v@.take(v@.len() as int) =~= v@);
    }
    r
}

impl Hub {
    /// A copy with the same view.
    pub fn duplicate(&self) -> (r: Hub)
        ensures
            r@ == self@,
    {
        let r = Hub {
            creator: self.creator.clone(),
            name: self.name.clone(),
            payment: self.payment.duplicate(),
            subscribers: clone_strings(&self.subscribers),
            posts: clone_posts(&self.posts),
        };
        proof {
            assert(r@ =~= self@);
        }
        r
    }
}

/// The persisted store of the engine: hubs keyed by creator, the
/// most-recent-first hub index, the subscription ledger, the like counters
/// and the liked-by set.
pub struct HubStore {
    pub hubs: Vec<Hub>,
    pub hub_index: Vec<String>,
    pub subs: Vec<(String, String)>,
    pub likes: Vec<(String, u64)>,
    pub liked: Vec<(String, String)>,
}

impl View for HubStore {
    type V = StoreView;

    open spec fn view(&self) -> StoreView {
        StoreView {
            hubs: hub_views(self.hubs@),
            hub_index: str_views(self.hub_index@),
            subs: pair_views(self.subs@),
            likes: like_views(self.likes@),
            liked: pair_views(self.liked@),
        }
    }
}

impl HubStore {
    /// The empty store.
    pub fn new() -> (s: HubStore)
        ensures
            s@ == StoreView::empty(),
            s@.wf(),
    {
        let s = HubStore {
            hubs: Vec::new(),
            hub_index: Vec::new(),
            subs: Vec::new(),
            likes: Vec::new(),
            liked: Vec::new(),
        };
        proof {
            assert(s@ =~= StoreView::empty());
        }
        s
    }

    /// The position of the hub keyed by `key`, if one exists.
    pub(crate) fn find_hub(&self, key: &String) -> (r: Option<usize>)
        ensures
            match r {
                Some(i) => {
                    &&& i < self.hubs@.len()
                    &&& self@.hubs[i as int].creator == key@
                    &&& self@.has_hub(key@)
                    &&& self@.creators_distinct() ==> i as int == self@.hub_idx(key@)
                        && self@.hub_of(key@) == self@.hubs[i as int]
                },
                None => !self@.has_hub(key@),
            },
    {
        let mut i: usize = 0;
        while i < self.hubs.len()
            invariant
                i <= self.hubs@.len(),
                forall|j: int| 0 <= j < i ==> self@.hubs[j].creator != key@,
            decreases self.hubs@.len() - i,
        {
            if self.hubs[i].creator == *key {
                proof {
                    if self@.creators_distinct() {
                        crate::model::lemma_hub_at(self@, i as int, key@);
                    }
                }
                return Some(i);
            }
            i = i + 1;
        }
        None
    }

    /// The position of the like counter keyed by `key`, if one exists.
    pub(crate) fn find_like(&self, key: &String) -> (r: Option<usize>)
        ensures
            match r {
                Some(i) => {
                    &&& i < self.likes@.len()
                    &&& self@.likes[i as int].0 == key@
                    &&& self@.has_counter(key@)
                    &&& self@.likes_distinct() ==> i as int == self@.like_idx(key@)
                        && self@.likes_of(key@) == self@.likes[i as int].1
                },
                None => !self@.has_counter(key@),
            },
    {
        let mut i: usize = 0;
        while i < self.likes.len()
            invariant
                i <= self.likes@.len(),
                forall|j: int| 0 <= j < i ==> self@.likes[j].0 != key@,
            decreases self.likes@.len() - i,
        {
            if self.likes[i].0 == *key {
                proof {
                    assert(self@.likes[i as int].0 == key@);
                    assert(self@.has_counter(key@));
                    if self@.likes_distinct() {
                        crate::model::lemma_like_at(self@, i as int, key@);
                    }
                }
                return Some(i);
            }
            i = i + 1;
        }
        None
    }

    /// Whether the subscription ledger holds an entry for (`user`, `hub`).
    pub(crate) fn contains_sub(&self, user: &String, hub: &String) -> (r: bool)
        ensures
            r == self@.is_subscribed(user@, hub@),
    {
        let mut i: usize = 0;
        while i < self.subs.len()
            invariant
                i <= self.subs@.len(),
                forall|j: int| 0 <= j < i ==> self@.subs[j] != (user@, hub@),
            decreases self.subs@.len() - i,
        {
            if self.subs[i].0 == *user && self.subs[i].1 == *hub {
                assert(self@.subs[i as int] == (user@, hub@));
                return true;
            }
            i = i + 1;
        }
        false
    }

    /// Whether the liked-by set holds an entry for (`user`, `post_id`).
    pub(crate) fn contains_liked(&self, user: &String, post_id: &String) -> (r: bool)
        ensures
            r == self@.has_liked(user@, post_id@),
    {
        let mut i: usize = 0;
        while i < self.liked.len()
            invariant
                i <= self.liked@.len(),
                forall|j: int| 0 <= j < i ==> self@.liked[j] != (user@, post_id@),
            decreases self.liked@.len() - i,
        {
            if self.liked[i].0 == *user && self.liked[i].1 == *post_id {
                assert(self@.liked[i as int] == (user@, post_id@));
                return true;
            }
            i = i + 1;
        }
        false
    }
}

} // verus!
