use vstd::prelude::*;
use crate::error::ContractError;
use crate::keyorder::{sort_strings, str_views};
use crate::model::{
    create_hub_rel, create_post_rel, hub_names, hub_posts_page, lemma_hub_at, like_rel,
    sent_amount, subscribe_rel, user_hubs, user_subscriptions_page, CoinView, HubView,
};
use crate::pagination::{page_slice, paginate_posts, paginate_strings};
use crate::state::{coin_views, post_views, Coin, Hub, HubStore, Post};

verus! {

/// Skipping coins whose denomination does not match leaves the matched
/// amount unchanged.
proof fn lemma_sent_skip(s: Seq<CoinView>, denom: Seq<char>, i: int)
    requires
        0 <= i <= s.len(),
        forall|j: int| 0 <= j < i ==> s[j].denom != denom,
    ensures
        sent_amount(s, denom) == sent_amount(s.skip(i), denom),
    decreases i,
{
    if i == 0 {
        assert(s.skip(0) =~= s);
    } else {
        assert(s.drop_first().skip(i - 1) =~= s.skip(i));
        lemma_sent_skip(s.drop_first(), denom, i - 1);
    }
}

/// The amount of the first attached coin whose denomination matches `denom`,
/// or zero when none matches.
fn sent_amount_exec(funds: &Vec<Coin>, denom: &String) -> (r: u128)
    ensures
        r == sent_amount(coin_views(funds@), denom@),
{
    let ghost s = coin_views(funds@);
    let mut i: usize = 0;
    while i < funds.len()
        invariant
            i <= funds.len(),
            s == coin_views(funds@),
            forall|j: int| 0 <= j < i ==> s[j].denom != denom@,
        decreases funds.len() - i,
    {
        if funds[i].denom == *denom {
            proof {
                lemma_sent_skip(s, denom@, i as int);
                assert(s.skip(i as int).first() == s[i as int]);
            }
            return funds[i].amount;
        }
        i = i + 1;
    }
    proof {
        lemma_sent_skip(s, denom@, i as int);
        assert(s.skip(i as int).len() == 0);
    }
    0
}

impl HubStore {
    /// Registers a hub for `sender`. Fails with `CreatorAlreadyHasHub` when
    /// `sender` already owns one; otherwise records the hub with empty
    /// subscriber and post lists and prepends `sender` to the hub index.
    pub fn create_hub(
        &mut self,
        sender: String,
        hub_name: String,
        need_pay: Coin,
    ) -> (r: Result<(), ContractError>)
        requires
            old(self)@.wf(),
        ensures
            final(self)@.wf(),
            create_hub_rel(old(self)@, final(self)@, sender@, hub_name@, need_pay@, r),
    {
        if self.find_hub(&sender).is_some() {
            return Err(ContractError::CreatorAlreadyHasHub);
        }
        let ghost pre = self@;
        let hub = Hub {
            creator: sender.clone(),
            name: hub_name,
            payment: need_pay,
            subscribers: Vec::new(),
            posts: Vec::new(),
        };
        let ghost hv = hub@;
        self.hubs.push(hub);
        self.hub_index.insert(0, sender);
        proof {
            let post = self@;
            let c = sender@;
            assert(hv =~= HubView {
                creator: c,
                name: hub_name@,
                payment: need_pay@,
                subscribers: Seq::empty(),
                posts: Seq::empty(),
            });
            assert(post.hubs =~= pre.hubs.push(hv));
            assert(post.hub_index =~= seq![c] + pre.hub_index);
            let n = pre.hubs.len() as int;

            assert forall|i: int, j: int| 0 <= i < j < post.hubs.len()
                implies post.hubs[i].creator != post.hubs[j].creator by {
                if j == n {
                    if pre.hubs[i].creator == c {
                        assert(pre.has_hub(c));
                    }
                }
            }
            assert(post.creators_distinct());

            assert forall|i: int, j: int| 0 <= i < j < post.hub_index.len()
                implies post.hub_index[i] != post.hub_index[j] by {
                if i == 0 {
                    assert(post.hub_index[j] == pre.hub_index[j - 1]);
                    if pre.hub_index[j - 1] == c {
                        assert(pre.has_hub(c));
                    }
                }
            }
            assert(post.index_distinct());

            assert forall|i: int| 0 <= i < post.hub_index.len()
                implies post.has_hub(#[trigger] post.hub_index[i]) by {
                if i == 0 {
                    assert(post.hubs[n].creator == c);
                } else {
                    assert(pre.has_hub(pre.hub_index[i - 1]));
                    let k = choose|k: int|
                        0 <= k < pre.hubs.len() && pre.hubs[k].creator == pre.hub_index[i - 1];
                    assert(post.hubs[k].creator == pre.hub_index[i - 1]);
                }
            }
            assert forall|i: int| 0 <= i < post.hubs.len()
                implies post.hub_index.contains(#[trigger] post.hubs[i].creator) by {
                if i == n {
                    assert(post.hub_index[0] == c);
                } else {
                    let k = choose|k: int|
                        0 <= k < pre.hub_index.len() && pre.hub_index[k] == pre.hubs[i].creator;
                    assert(post.hub_index[k + 1] == pre.hubs[i].creator);
                }
            }
            assert(post.index_matches());

            assert forall|i: int, j: int, k: int|
                0 <= i < post.hubs.len() && 0 <= j < k < post.hubs[i].subscribers.len()
                implies post.hubs[i].subscribers[j] != post.hubs[i].subscribers[k] by {
                assert(i < n);
            }
            assert(post.subscribers_distinct());

            assert(post.subs == pre.subs);
            assert(post.subs_distinct());

            assert forall|i: int| 0 <= i < post.subs.len()
                implies post.has_hub((#[trigger] post.subs[i]).1)
                    && post.hub_of(post.subs[i].1).subscribers.contains(post.subs[i].0) by {
                let h = pre.subs[i].1;
                assert(pre.has_hub(h));
                let k = pre.hub_idx(h);
                lemma_hub_at(pre, k, h);
                assert(post.hubs[k].creator == h);
                lemma_hub_at(post, k, h);
                assert(post.hub_of(h) == pre.hub_of(h));
            }
            assert forall|i: int, k: int|
                0 <= i < post.hubs.len() && 0 <= k < post.hubs[i].subscribers.len()
                implies post.subs.contains(
                    (#[trigger] post.hubs[i].subscribers[k], post.hubs[i].creator),
                ) by {
                assert(i < n);
                assert(pre.subs.contains((pre.hubs[i].subscribers[k], pre.hubs[i].creator)));
            }
            assert(post.subs_consistent());

            assert forall|i: int, j: int, k: int, l: int|
                0 <= i < post.hubs.len() && 0 <= j < post.hubs[i].posts.len()
                    && 0 <= k < post.hubs.len() && 0 <= l < post.hubs[k].posts.len()
                    && (i != k || j != l)
                implies post.hubs[i].posts[j].id != post.hubs[k].posts[l].id by {
                assert(i < n && k < n);
            }
            assert(post.post_ids_distinct());

            assert(post.likes == pre.likes);
            assert(post.likes_distinct());

            assert forall|i: int| 0 <= i < post.likes.len()
                implies post.is_post_id((#[trigger] post.likes[i]).0) by {
                assert(pre.is_post_id(pre.likes[i].0));
                let (k, l) = choose|k: int, l: int|
                    0 <= k < pre.hubs.len() && 0 <= l < pre.hubs[k].posts.len()
                        && pre.hubs[k].posts[l].id == pre.likes[i].0;
                assert(post.hubs[k].posts[l].id == pre.likes[i].0);
            }
            assert forall|i: int, j: int|
                0 <= i < post.hubs.len() && 0 <= j < post.hubs[i].posts.len()
                implies post.has_counter(#[trigger] post.hubs[i].posts[j].id) by {
                assert(i < n);
                assert(pre.has_counter(pre.hubs[i].posts[j].id));
            }
            assert(post.likes_match_posts());

            assert(post.liked == pre.liked);
            assert(post.liked_distinct());
            assert(post.liked_have_counter());

            assert(post.wf());
        }
        Ok(())
    }

    /// Subscribes `sender` to the hub keyed by `hub_addr`, gated on the
    /// attached funds covering a non-zero price. On success the ledger entry
    /// and the hub's subscriber list are written together.
    pub fn subscribe_to_hub(
        &mut self,
        sender: String,
        funds: Vec<Coin>,
        hub_addr: String,
    ) -> (r: Result<(), ContractError>)
        requires
            old(self)@.wf(),
        ensures
            final(self)@.wf(),
            subscribe_rel(old(self)@, final(self)@, sender@, coin_views(funds@), hub_addr@, r),
    {
        let ghost pre = self@;
        let hub_i = match self.find_hub(&hub_addr) {
            None => {
                return Err(ContractError::HubNotFound);
            },
            Some(i) => i,
        };
        let sent = sent_amount_exec(&funds, &self.hubs[hub_i].payment.denom);
        let price = self.hubs[hub_i].payment.amount;
        proof {
            assert(pre.hub_of(hub_addr@) == pre.hubs[hub_i as int]);
            assert(price == pre.hub_of(hub_addr@).payment.amount);
            assert(sent == sent_amount(coin_views(funds@), pre.hub_of(hub_addr@).payment.denom));
        }
        if price != 0 && sent < price {
            return Err(ContractError::InsufficientFunds);
        }
        if self.contains_sub(&sender, &hub_addr) {
            return Err(ContractError::AlreadySubscribed);
        }
        let ghost u = sender@;
        let ghost h = hub_addr@;
        self.subs.push((sender.clone(), hub_addr));
        let ghost hubs_before = self.hubs@;
        let mut hub = self.hubs.remove(hub_i);
        hub.subscribers.push(sender);
        let ghost hv2 = hub@;
        self.hubs.insert(hub_i, hub);
        proof {
            let post = self@;
            let i = hub_i as int;
            let e = pre.hubs[i];
            let e2 = HubView { subscribers: e.subscribers.push(u), ..e };
            assert(hv2.subscribers =~= e.subscribers.push(u));
            assert(hv2 =~= e2);
            assert(self.hubs@ =~= hubs_before.update(i, hub));
            assert(post.hubs =~= pre.hubs.update(i, e2));
            assert(post.subs =~= pre.subs.push((u, h)));
            assert(pre.hub_idx(h) == i && pre.hub_of(h) == e);

            assert forall|k: int| 0 <= k < post.hubs.len()
                implies #[trigger] post.hubs[k].creator == pre.hubs[k].creator
                    && post.hubs[k].posts == pre.hubs[k].posts by {
                if k != i {
                    assert(post.hubs[k] == pre.hubs[k]);
                }
            }

            assert(post.creators_distinct());
            assert(post.index_distinct());

            assert forall|k: int| 0 <= k < post.hub_index.len()
                implies post.has_hub(#[trigger] post.hub_index[k]) by {
                assert(pre.has_hub(pre.hub_index[k]));
                let m = choose|m: int|
                    0 <= m < pre.hubs.len() && pre.hubs[m].creator == pre.hub_index[k];
                assert(post.hubs[m].creator == pre.hub_index[k]);
            }
            assert(post.index_matches());

            assert forall|a: int, b: int, c: int|
                0 <= a < post.hubs.len() && 0 <= b < c < post.hubs[a].subscribers.len()
                implies post.hubs[a].subscribers[b] != post.hubs[a].subscribers[c] by {
                if a == i {
                    if c == e.subscribers.len() as int {
                        if e.subscribers[b] == u {
                            assert(pre.subs.contains((e.subscribers[b], e.creator)));
                            assert(pre.is_subscribed(u, h));
                        }
                    }
                } else {
                    assert(post.hubs[a] == pre.hubs[a]);
                }
            }
            assert(post.subscribers_distinct());

            assert forall|a: int, b: int| 0 <= a < b < post.subs.len()
                implies post.subs[a] != post.subs[b] by {
                if b == pre.subs.len() as int {
                    if pre.subs[a] == (u, h) {
                        assert(pre.is_subscribed(u, h));
                    }
                }
            }
            assert(post.subs_distinct());

            assert forall|k: int| 0 <= k < post.subs.len()
                implies post.has_hub((#[trigger] post.subs[k]).1)
                    && post.hub_of(post.subs[k].1).subscribers.contains(post.subs[k].0) by {
                if k < pre.subs.len() {
                    let hk = pre.subs[k].1;
                    assert(pre.has_hub(hk));
                    let m = pre.hub_idx(hk);
                    lemma_hub_at(pre, m, hk);
                    assert(post.hubs[m].creator == hk);
                    lemma_hub_at(post, m, hk);
                    if m == i {
                        let uk = pre.subs[k].0;
                        let idx = choose|idx: int|
                            0 <= idx < e.subscribers.len() && e.subscribers[idx] == uk;
                        assert(e2.subscribers[idx] == uk);
                    } else {
                        assert(post.hub_of(hk) == pre.hub_of(hk));
                    }
                } else {
                    assert(post.subs[k] == (u, h));
                    assert(post.hubs[i].creator == h);
                    lemma_hub_at(post, i, h);
                    assert(e2.subscribers[e.subscribers.len() as int] == u);
                }
            }
            assert forall|a: int, b: int|
                0 <= a < post.hubs.len() && 0 <= b < post.hubs[a].subscribers.len()
                implies post.subs.contains(
                    (#[trigger] post.hubs[a].subscribers[b], post.hubs[a].creator),
                ) by {
                if a == i && b == e.subscribers.len() as int {
                    assert(post.subs[pre.subs.len() as int] == (u, h));
                } else {
                    let p = (pre.hubs[a].subscribers[b], pre.hubs[a].creator);
                    assert(pre.subs.contains(p));
                    let m = choose|m: int| 0 <= m < pre.subs.len() && pre.subs[m] == p;
                    assert(post.subs[m] == p);
                    if a == i {
                        assert(post.hubs[a].subscribers[b] == e.subscribers[b]);
                    } else {
                        assert(post.hubs[a] == pre.hubs[a]);
                    }
                }
            }
            assert(post.subs_consistent());

            assert forall|a: int, b: int, c: int, d: int|
                0 <= a < post.hubs.len() && 0 <= b < post.hubs[a].posts.len()
                    && 0 <= c < post.hubs.len() && 0 <= d < post.hubs[c].posts.len()
                    && (a != c || b != d)
                implies post.hubs[a].posts[b].id != post.hubs[c].posts[d].id by {
                assert(post.hubs[a].posts == pre.hubs[a].posts);
                assert(post.hubs[c].posts == pre.hubs[c].posts);
            }
            assert(post.post_ids_distinct());

            assert(post.likes == pre.likes);
            assert(post.likes_distinct());

            assert forall|k: int| 0 <= k < post.likes.len()
                implies post.is_post_id((#[trigger] post.likes[k]).0) by {
                assert(pre.is_post_id(pre.likes[k].0));
                let (m, l) = choose|m: int, l: int|
                    0 <= m < pre.hubs.len() && 0 <= l < pre.hubs[m].posts.len()
                        && pre.hubs[m].posts[l].id == pre.likes[k].0;
                assert(post.hubs[m].posts == pre.hubs[m].posts);
                assert(post.hubs[m].posts[l].id == pre.likes[k].0);
            }
            assert forall|a: int, b: int|
                0 <= a < post.hubs.len() && 0 <= b < post.hubs[a].posts.len()
                implies post.has_counter(#[trigger] post.hubs[a].posts[b].id) by {
                assert(post.hubs[a].posts == pre.hubs[a].posts);
                assert(pre.has_counter(pre.hubs[a].posts[b].id));
            }
            assert(post.likes_match_posts());

            assert(post.liked == pre.liked);
            assert(post.liked_distinct());
            assert(post.liked_have_counter());
            assert(post.wf());
        }
        Ok(())
    }

    /// Publishes a post in `sender`'s hub: prepends it to the hub's post
    /// list and initializes its like counter to zero. Fails with
    /// `HubNotFound` when `sender` has no hub and with `PostAlreadyExists`
    /// when a like counter already exists for `post_id`.
    pub fn create_post(
        &mut self,
        sender: String,
        post_id: String,
        title: String,
        content: String,
        timestamp: u64,
    ) -> (r: Result<(), ContractError>)
        requires
            old(self)@.wf(),
        ensures
            final(self)@.wf(),
            create_post_rel(
                old(self)@,
                final(self)@,
                sender@,
                post_id@,
                title@,
                content@,
                timestamp,
                r,
            ),
    {
        let ghost pre = self@;
        let hub_i = match self.find_hub(&sender) {
            None => {
                return Err(ContractError::HubNotFound);
            },
            Some(i) => i,
        };
        if self.find_like(&post_id).is_some() {
            return Err(ContractError::PostAlreadyExists { id: post_id });
        }
        let ghost pid = post_id@;
        let post_rec = Post { id: post_id.clone(), title, content, updated: timestamp };
        let ghost pv = post_rec@;
        let ghost hubs_before = self.hubs@;
        let mut hub = self.hubs.remove(hub_i);
        hub.posts.insert(0, post_rec);
        let ghost hv2 = hub@;
        self.hubs.insert(hub_i, hub);
        self.likes.push((post_id, 0));
        proof {
            let post = self@;
            let i = hub_i as int;
            let e = pre.hubs[i];
            let e2 = HubView { posts: seq![pv] + e.posts, ..e };
            assert(hv2.posts =~= seq![pv] + e.posts);
            assert(hv2 =~= e2);
            assert(self.hubs@ =~= hubs_before.update(i, hub));
            assert(post.hubs =~= pre.hubs.update(i, e2));
            assert(post.likes =~= pre.likes.push((pid, 0u64)));
            assert(pre.hub_idx(sender@) == i && pre.hub_of(sender@) == e);
            let nl = pre.likes.len() as int;

            assert forall|k: int| 0 <= k < post.hubs.len()
                implies #[trigger] post.hubs[k].creator == pre.hubs[k].creator
                    && post.hubs[k].subscribers == pre.hubs[k].subscribers by {
                if k != i {
                    assert(post.hubs[k] == pre.hubs[k]);
                }
            }

            assert(post.creators_distinct());
            assert(post.index_distinct());

            assert forall|k: int| 0 <= k < post.hub_index.len()
                implies post.has_hub(#[trigger] post.hub_index[k]) by {
                assert(pre.has_hub(pre.hub_index[k]));
                let m = choose|m: int|
                    0 <= m < pre.hubs.len() && pre.hubs[m].creator == pre.hub_index[k];
                assert(post.hubs[m].creator == pre.hub_index[k]);
            }
            assert(post.index_matches());
            assert(post.subscribers_distinct());
            assert(post.subs == pre.subs);
            assert(post.subs_distinct());

            assert forall|k: int| 0 <= k < post.subs.len()
                implies post.has_hub((#[trigger] post.subs[k]).1)
                    && post.hub_of(post.subs[k].1).subscribers.contains(post.subs[k].0) by {
                let hk = pre.subs[k].1;
                assert(pre.has_hub(hk));
                let m = pre.hub_idx(hk);
                lemma_hub_at(pre, m, hk);
                assert(post.hubs[m].creator == hk);
                lemma_hub_at(post, m, hk);
                assert(post.hub_of(hk).subscribers == pre.hub_of(hk).subscribers);
            }
            assert forall|a: int, b: int|
                0 <= a < post.hubs.len() && 0 <= b < post.hubs[a].subscribers.len()
                implies post.subs.contains(
                    (#[trigger] post.hubs[a].subscribers[b], post.hubs[a].creator),
                ) by {
                assert(post.hubs[a].subscribers == pre.hubs[a].subscribers);
                assert(pre.subs.contains((pre.hubs[a].subscribers[b], pre.hubs[a].creator)));
            }
            assert(post.subs_consistent());

            // Every post identifier of the old store carries a counter, so
            // none equals the fresh identifier, which had none.
            assert forall|a: int, b: int, c: int, d: int|
                0 <= a < post.hubs.len() && 0 <= b < post.hubs[a].posts.len()
                    && 0 <= c < post.hubs.len() && 0 <= d < post.hubs[c].posts.len()
                    && (a != c || b != d)
                implies post.hubs[a].posts[b].id != post.hubs[c].posts[d].id by {
                let oa = if a == i { b - 1 } else { b };
                let oc = if c == i { d - 1 } else { d };
                if a == i && b == 0 {
                    assert(post.hubs[c].posts[d].id == pre.hubs[c].posts[oc].id);
                    assert(pre.has_counter(pre.hubs[c].posts[oc].id));
                } else if c == i && d == 0 {
                    assert(post.hubs[a].posts[b].id == pre.hubs[a].posts[oa].id);
                    assert(pre.has_counter(pre.hubs[a].posts[oa].id));
                } else {
                    assert(post.hubs[a].posts[b].id == pre.hubs[a].posts[oa].id);
                    assert(post.hubs[c].posts[d].id == pre.hubs[c].posts[oc].id);
                }
            }
            assert(post.post_ids_distinct());

            assert forall|a: int, b: int| 0 <= a < b < post.likes.len()
                implies post.likes[a].0 != post.likes[b].0 by {
                if b == nl {
                    if pre.likes[a].0 == pid {
                        assert(pre.has_counter(pid));
                    }
                }
            }
            assert(post.likes_distinct());

            assert forall|k: int| 0 <= k < post.likes.len()
                implies post.is_post_id((#[trigger] post.likes[k]).0) by {
                if k == nl {
                    assert(post.hubs[i].posts[0].id == pid);
                } else {
                    assert(pre.is_post_id(pre.likes[k].0));
                    let (m, l) = choose|m: int, l: int|
                        0 <= m < pre.hubs.len() && 0 <= l < pre.hubs[m].posts.len()
                            && pre.hubs[m].posts[l].id == pre.likes[k].0;
                    if m == i {
                        assert(post.hubs[m].posts[l + 1].id == pre.likes[k].0);
                    } else {
                        assert(post.hubs[m].posts[l].id == pre.likes[k].0);
                    }
                }
            }
            assert forall|a: int, b: int|
                0 <= a < post.hubs.len() && 0 <= b < post.hubs[a].posts.len()
                implies post.has_counter(#[trigger] post.hubs[a].posts[b].id) by {
                if a == i && b == 0 {
                    assert(post.likes[nl].0 == pid);
                } else {
                    let ob = if a == i { b - 1 } else { b };
                    assert(post.hubs[a].posts[b].id == pre.hubs[a].posts[ob].id);
                    assert(pre.has_counter(pre.hubs[a].posts[ob].id));
                    let m = choose|m: int|
                        0 <= m < pre.likes.len() && pre.likes[m].0 == pre.hubs[a].posts[ob].id;
                    assert(post.likes[m].0 == pre.hubs[a].posts[ob].id);
                }
            }
            assert(post.likes_match_posts());

            assert(post.liked == pre.liked);
            assert(post.liked_distinct());
            assert forall|k: int| 0 <= k < post.liked.len()
                implies post.has_counter((#[trigger] post.liked[k]).1) by {
                assert(pre.has_counter(pre.liked[k].1));
                let m = choose|m: int|
                    0 <= m < pre.likes.len() && pre.likes[m].0 == pre.liked[k].1;
                assert(post.likes[m].0 == pre.liked[k].1);
            }
            assert(post.liked_have_counter());
            assert(post.wf());
        }
        Ok(())
    }

    /// Records one like by `sender` on the post keyed by `post_id`:
    /// increments the post's counter by exactly one and remembers the pair.
    /// Fails with `PostNotFound` when no counter exists and with
    /// `PostAlreadyLiked` when the pair is already recorded. The counter must
    /// not yet have reached the machine limit of its width.
    pub fn like_post(&mut self, sender: String, post_id: String) -> (r: Result<(), ContractError>)
        requires
            old(self)@.wf(),
            old(self)@.has_counter(post_id@) ==> old(self)@.likes_of(post_id@) < u64::MAX,
        ensures
            final(self)@.wf(),
            like_rel(old(self)@, final(self)@, sender@, post_id@, r),
    {
        let ghost pre = self@;
        let like_i = match self.find_like(&post_id) {
            None => {
                return Err(ContractError::PostNotFound);
            },
            Some(i) => i,
        };
        if self.contains_liked(&sender, &post_id) {
            return Err(ContractError::PostAlreadyLiked { id: post_id });
        }
        let ghost pid = post_id@;
        let cur = self.likes[like_i].1;
        proof {
            assert(cur == pre.likes_of(pid));
        }
        let ghost likes_before = self.likes@;
        let entry = self.likes.remove(like_i);
        self.likes.insert(like_i, (entry.0, cur + 1));
        self.liked.push((sender, post_id));
        proof {
            let post = self@;
            let i = like_i as int;
            assert(self.likes@ =~= likes_before.update(i, (entry.0, (cur + 1) as u64)));
            assert(post.likes =~= pre.likes.update(i, (pid, (cur + 1) as u64)));
            assert(post.liked =~= pre.liked.push((sender@, pid)));
            assert(pre.like_idx(pid) == i);
            let nd = pre.liked.len() as int;

            assert forall|k: int| 0 <= k < post.likes.len()
                implies (#[trigger] post.likes[k]).0 == pre.likes[k].0 by {
                if k != i {
                    assert(post.likes[k] == pre.likes[k]);
                }
            }

            assert(post.hubs == pre.hubs);
            assert(post.hub_index == pre.hub_index);
            assert(post.subs == pre.subs);
            assert(post.creators_distinct());
            assert(post.index_distinct());
            assert(post.index_matches());
            assert(post.subscribers_distinct());
            assert(post.subs_distinct());
            assert(post.subs_consistent());
            assert(post.post_ids_distinct());
            assert(post.likes_distinct());

            assert forall|k: int| 0 <= k < post.likes.len()
                implies post.is_post_id((#[trigger] post.likes[k]).0) by {
                assert(pre.is_post_id(pre.likes[k].0));
            }
            assert forall|a: int, b: int|
                0 <= a < post.hubs.len() && 0 <= b < post.hubs[a].posts.len()
                implies post.has_counter(#[trigger] post.hubs[a].posts[b].id) by {
                assert(pre.has_counter(pre.hubs[a].posts[b].id));
                let m = choose|m: int|
                    0 <= m < pre.likes.len() && pre.likes[m].0 == pre.hubs[a].posts[b].id;
                assert(post.likes[m].0 == pre.hubs[a].posts[b].id);
            }
            assert(post.likes_match_posts());

            assert forall|a: int, b: int| 0 <= a < b < post.liked.len()
                implies post.liked[a] != post.liked[b] by {
                if b == nd {
                    if pre.liked[a] == (sender@, pid) {
                        assert(pre.has_liked(sender@, pid));
                    }
                }
            }
            assert(post.liked_distinct());

            assert forall|k: int| 0 <= k < post.liked.len()
                implies post.has_counter((#[trigger] post.liked[k]).1) by {
                if k == nd {
                    assert(post.likes[i].0 == pid);
                } else {
                    assert(pre.has_counter(pre.liked[k].1));
                    let m = choose|m: int|
                        0 <= m < pre.likes.len() && pre.likes[m].0 == pre.liked[k].1;
                    assert(post.likes[m].0 == pre.liked[k].1);
                }
            }
            assert(post.liked_have_counter());
            assert(post.wf());
        }
        Ok(())
    }

    /// Returns a copy of the hub keyed by `creator`, or `HubNotFound`.
    pub fn query_hub(&self, creator: &String) -> (r: Result<Hub, ContractError>)
        requires
            self@.wf(),
        ensures
            match r {
                Ok(h) => self@.has_hub(creator@) && h@ == self@.hub_of(creator@),
                Err(e) => e == ContractError::HubNotFound && !self@.has_hub(creator@),
            },
    {
        match self.find_hub(creator) {
            Some(i) => Ok(self.hubs[i].duplicate()),
            None => Err(ContractError::HubNotFound),
        }
    }

    /// Whether a hub is registered for `creator`; never an error.
    pub fn query_user_has_hub(&self, creator: &String) -> (r: bool)
        ensures
            r == self@.has_hub(creator@),
    {
        self.find_hub(creator).is_some()
    }

    /// Whether `user` holds a subscription to the hub keyed by `hub_addr`;
    /// never an error, also when the hub does not exist.
    pub fn is_subscribed(&self, user: &String, hub_addr: &String) -> (r: bool)
        ensures
            r == self@.is_subscribed(user@, hub_addr@),
    {
        self.contains_sub(user, hub_addr)
    }

    /// The `(page, size)` window of the hub index, most recent hub first.
    pub fn query_hub_addresses(&self, page: u64, size: u64) -> (r: Vec<String>)
        ensures
            str_views(r@) == page_slice(self@.hub_index, page, size),
    {
        let pg = paginate_strings(&self.hub_index, page, size);
        proof {
            assert(str_views(pg@) =~= page_slice(self@.hub_index, page, size));
        }
        pg
    }

    /// The display names of the hubs `user` subscribes to: the subscribed
    /// hub identities in ascending key order, windowed by `(page, size)`,
    /// then resolved to names, skipping any identity with no hub.
    pub fn query_user_subscriptions(&self, user: &String, page: u64, size: u64) -> (r: Vec<String>)
        requires
            self@.wf(),
        ensures
            str_views(r@) == user_subscriptions_page(self@, user@, page, size),
    {
        let mut ids: Vec<String> = Vec::new();
        let mut i: usize = 0;
        proof {
            assert(str_views(ids@) =~= user_hubs(self@.subs.take(0), user@));
        }
        while i < self.subs.len()
            invariant
                i <= self.subs@.len(),
                str_views(ids@) == user_hubs(self@.subs.take(i as int), user@),
            decreases self.subs@.len() - i,
        {
            let ghost pre_ids = ids@;
            if self.subs[i].0 == *user {
                ids.push(self.subs[i].1.clone());
            }
            proof {
                let t1 = self@.subs.take(i as int + 1);
                assert(t1.drop_last() =~= self@.subs.take(i as int));
                assert(t1.last() == self@.subs[i as int]);
                if self@.subs[i as int].0 == user@ {
                    assert(str_views(ids@) =~= str_views(pre_ids).push(self@.subs[i as int].1));
                }
            }
            i = i + 1;
        }
        proof {
            assert(self@.subs.take(self@.subs.len() as int) =~= self@.subs);
        }
        let sorted = sort_strings(&ids);
        let pg = paginate_strings(&sorted, page, size);
        proof {
            assert(str_views(pg@) =~= page_slice(str_views(sorted@), page, size));
        }
        let mut names: Vec<String> = Vec::new();
        let mut j: usize = 0;
        proof {
            assert(str_views(names@) =~= hub_names(self@, str_views(pg@).take(0)));
        }
        while j < pg.len()
            invariant
                j <= pg@.len(),
                self@.wf(),
                str_views(names@) == hub_names(self@, str_views(pg@).take(j as int)),
            decreases pg@.len() - j,
        {
            let ghost pre_names = names@;
            match self.find_hub(&pg[j]) {
                Some(k) => {
                    names.push(self.hubs[k].name.clone());
                },
                None => {},
            }
            proof {
                let t1 = str_views(pg@).take(j as int + 1);
                assert(t1.drop_last() =~= str_views(pg@).take(j as int));
                assert(t1.last() == pg@[j as int]@);
                if self@.has_hub(pg@[j as int]@) {
                    assert(str_views(names@)
                        =~= str_views(pre_names).push(self@.hub_of(pg@[j as int]@).name));
                }
            }
            j = j + 1;
        }
        proof {
            assert(str_views(pg@).take(pg@.len() as int) =~= str_views(pg@));
        }
        names
    }

    /// The posts of the hub keyed by `hub_addr`, most recent first: empty
    /// for an unknown hub; the `(page, size)` window for a subscriber; at
    /// most the single most recent post for anyone else, whatever the
    /// requested window.
    pub fn query_hub_posts(
        &self,
        user: &String,
        hub_addr: &String,
        page: u64,
        size: u64,
    ) -> (r: Vec<Post>)
        requires
            self@.wf(),
        ensures
            post_views(r@) == hub_posts_page(self@, user@, hub_addr@, page, size),
    {
        let hub_i = match self.find_hub(hub_addr) {
            None => {
                let r: Vec<Post> = Vec::new();
                proof {
                    assert(post_views(r@) =~= hub_posts_page(self@, user@, hub_addr@, page, size));
                }
                return r;
            },
            Some(i) => i,
        };
        if self.contains_sub(user, hub_addr) {
            let pg = paginate_posts(&self.hubs[hub_i].posts, page, size);
            proof {
                assert(post_views(pg@)
                    =~= page_slice(self@.hub_of(hub_addr@).posts, page, size));
            }
            pg
        } else {
            let mut r: Vec<Post> = Vec::new();
            if self.hubs[hub_i].posts.len() > 0 {
                r.push(self.hubs[hub_i].posts[0].duplicate());
            }
            proof {
                assert(post_views(r@) =~= hub_posts_page(self@, user@, hub_addr@, page, size));
            }
            r
        }
    }

    /// The like counter of the post keyed by `post_id`, or `PostNotFound`.
    pub fn query_post_likes(&self, post_id: &String) -> (r: Result<u64, ContractError>)
        requires
            self@.wf(),
        ensures
            match r {
                Ok(n) => self@.has_counter(post_id@) && n == self@.likes_of(post_id@),
                Err(e) => e == ContractError::PostNotFound && !self@.has_counter(post_id@),
            },
    {
        match self.find_like(post_id) {
            Some(i) => Ok(self.likes[i].1),
            None => Err(ContractError::PostNotFound),
        }
    }

    /// Whether `user` has already liked the post keyed by `post_id`; never
    /// an error, also when the post does not exist.
    pub fn query_user_post_liked(&self, user: &String, post_id: &String) -> (r: bool)
        ensures
            r == self@.has_liked(user@, post_id@),
    {
        self.contains_liked(user, post_id)
    }
}

} // verus!
