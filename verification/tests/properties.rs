use xionhub::error::ContractError;
use xionhub::msg::{ExecuteMsg, InstantiateMsg, QueryAnswer, QueryMsg};
use xionhub::state::{Coin, HubStore};
use xionhub::{execute, instantiate, query};

const XION: &str = "uxion";

fn coin(amount: u128, denom: &str) -> Coin {
    Coin { denom: denom.to_string(), amount }
}

fn free_hub(store: &mut HubStore, creator: &str, name: &str) {
    store
        .create_hub(creator.to_string(), name.to_string(), coin(0, XION))
        .unwrap();
}

#[test]
fn second_create_hub_fails_and_changes_nothing() {
    let mut store = HubStore::new();
    free_hub(&mut store, "alice", "Chess Club");

    let err = store
        .create_hub("alice".to_string(), "Another Name".to_string(), coin(7, XION))
        .unwrap_err();
    assert_eq!(err, ContractError::CreatorAlreadyHasHub);

    let hub = store.query_hub(&"alice".to_string()).unwrap();
    assert_eq!(hub.name, "Chess Club");
    assert_eq!(hub.payment, coin(0, XION));
    assert_eq!(store.query_hub_addresses(1, 10).len(), 1);
}

#[test]
fn create_hub_scenario_free_price() {
    let mut store = HubStore::new();
    store
        .create_hub("alice".to_string(), "Chess Club".to_string(), coin(0, XION))
        .unwrap();

    let hub = store.query_hub(&"alice".to_string()).unwrap();
    assert_eq!(hub.creator, "alice");
    assert_eq!(hub.name, "Chess Club");
    assert_eq!(hub.payment, coin(0, XION));
    assert_eq!(hub.subscribers.len(), 0);
    assert_eq!(hub.posts.len(), 0);
}

#[test]
fn second_subscribe_fails_and_keeps_subscriber_list() {
    let mut store = HubStore::new();
    free_hub(&mut store, "bob", "Bob Hub");

    store
        .subscribe_to_hub("carol".to_string(), vec![], "bob".to_string())
        .unwrap();
    let err = store
        .subscribe_to_hub("carol".to_string(), vec![], "bob".to_string())
        .unwrap_err();
    assert_eq!(err, ContractError::AlreadySubscribed);

    let hub = store.query_hub(&"bob".to_string()).unwrap();
    assert_eq!(hub.subscribers, vec!["carol".to_string()]);
}

#[test]
fn subscribe_fee_gate() {
    let mut store = HubStore::new();
    store
        .create_hub("bob".to_string(), "VIP".to_string(), coin(100, XION))
        .unwrap();

    // No attached funds.
    let err = store
        .subscribe_to_hub("carol".to_string(), vec![], "bob".to_string())
        .unwrap_err();
    assert_eq!(err, ContractError::InsufficientFunds);

    // A payment in another denomination counts as zero.
    let err = store
        .subscribe_to_hub("carol".to_string(), vec![coin(100, "uatom")], "bob".to_string())
        .unwrap_err();
    assert_eq!(err, ContractError::InsufficientFunds);

    // One coin short.
    let err = store
        .subscribe_to_hub("carol".to_string(), vec![coin(99, XION)], "bob".to_string())
        .unwrap_err();
    assert_eq!(err, ContractError::InsufficientFunds);

    // Only the first coin of the matching denomination counts.
    let err = store
        .subscribe_to_hub(
            "carol".to_string(),
            vec![coin(50, XION), coin(100, XION)],
            "bob".to_string(),
        )
        .unwrap_err();
    assert_eq!(err, ContractError::InsufficientFunds);

    // Coins of other denominations in front are skipped.
    store
        .subscribe_to_hub(
            "erin".to_string(),
            vec![coin(7, "uatom"), coin(100, XION)],
            "bob".to_string(),
        )
        .unwrap();

    // The exact price is enough.
    store
        .subscribe_to_hub("carol".to_string(), vec![coin(100, XION)], "bob".to_string())
        .unwrap();
    let resp = store.query_user_subscriptions(&"carol".to_string(), 1, 10);
    assert_eq!(resp, vec!["VIP".to_string()]);
}

#[test]
fn subscribe_unknown_hub_fails() {
    let mut store = HubStore::new();
    let err = store
        .subscribe_to_hub("carol".to_string(), vec![], "nobody".to_string())
        .unwrap_err();
    assert_eq!(err, ContractError::HubNotFound);
}

#[test]
fn query_hub_unknown_creator_fails() {
    let store = HubStore::new();
    let err = store.query_hub(&"nobody".to_string()).unwrap_err();
    assert_eq!(err, ContractError::HubNotFound);
}

#[test]
fn like_counts_one_per_user() {
    let mut store = HubStore::new();
    free_hub(&mut store, "bob", "Bob Hub");
    store
        .create_post(
            "bob".to_string(),
            "p1".to_string(),
            "t".to_string(),
            "c".to_string(),
            7,
        )
        .unwrap();

    assert_eq!(store.query_post_likes(&"p1".to_string()).unwrap(), 0);
    store.like_post("dave".to_string(), "p1".to_string()).unwrap();
    assert_eq!(store.query_post_likes(&"p1".to_string()).unwrap(), 1);

    let err = store
        .like_post("dave".to_string(), "p1".to_string())
        .unwrap_err();
    assert_eq!(err, ContractError::PostAlreadyLiked { id: "p1".to_string() });
    assert_eq!(store.query_post_likes(&"p1".to_string()).unwrap(), 1);

    // Another user still counts.
    store.like_post("erin".to_string(), "p1".to_string()).unwrap();
    assert_eq!(store.query_post_likes(&"p1".to_string()).unwrap(), 2);
    assert!(store.query_user_post_liked(&"dave".to_string(), &"p1".to_string()));
    assert!(!store.query_user_post_liked(&"frank".to_string(), &"p1".to_string()));
}

#[test]
fn like_unknown_post_fails() {
    let mut store = HubStore::new();
    let err = store
        .like_post("dave".to_string(), "p1".to_string())
        .unwrap_err();
    assert_eq!(err, ContractError::PostNotFound);

    let err = store.query_post_likes(&"p1".to_string()).unwrap_err();
    assert_eq!(err, ContractError::PostNotFound);
}

#[test]
fn duplicate_post_id_rejected() {
    let mut store = HubStore::new();
    free_hub(&mut store, "bob", "Bob Hub");
    free_hub(&mut store, "alice", "Alice Hub");
    store
        .create_post(
            "bob".to_string(),
            "p1".to_string(),
            "t".to_string(),
            "c".to_string(),
            7,
        )
        .unwrap();

    // The same identifier is refused, also from another hub.
    let err = store
        .create_post(
            "alice".to_string(),
            "p1".to_string(),
            "t2".to_string(),
            "c2".to_string(),
            8,
        )
        .unwrap_err();
    assert_eq!(err, ContractError::PostAlreadyExists { id: "p1".to_string() });

    let err = store
        .create_post(
            "nobody".to_string(),
            "p2".to_string(),
            "t".to_string(),
            "c".to_string(),
            9,
        )
        .unwrap_err();
    assert_eq!(err, ContractError::HubNotFound);
}

#[test]
fn hub_posts_gated_on_subscription() {
    let mut store = HubStore::new();
    free_hub(&mut store, "bob", "Bob Hub");
    store
        .create_post("bob".to_string(), "p1".to_string(), "first".to_string(), "c1".to_string(), 1)
        .unwrap();
    store
        .create_post("bob".to_string(), "p2".to_string(), "second".to_string(), "c2".to_string(), 2)
        .unwrap();

    // Not subscribed: only the most recent post, whatever the window.
    let teaser = store.query_hub_posts(&"dave".to_string(), &"bob".to_string(), 1, 10);
    assert_eq!(teaser.len(), 1);
    assert_eq!(teaser[0].id, "p2");
    let teaser = store.query_hub_posts(&"dave".to_string(), &"bob".to_string(), 3, 7);
    assert_eq!(teaser.len(), 1);
    assert_eq!(teaser[0].id, "p2");

    // Subscribed: the full most-recent-first window.
    store
        .subscribe_to_hub("dave".to_string(), vec![], "bob".to_string())
        .unwrap();
    let all = store.query_hub_posts(&"dave".to_string(), &"bob".to_string(), 1, 10);
    assert_eq!(all.len(), 2);
    assert_eq!(all[0].id, "p2");
    assert_eq!(all[1].id, "p1");

    // Unknown hub: empty, never an error.
    let none = store.query_hub_posts(&"dave".to_string(), &"nobody".to_string(), 1, 10);
    assert_eq!(none.len(), 0);
}

#[test]
fn pagination_zero_and_out_of_range_are_empty() {
    let mut store = HubStore::new();
    free_hub(&mut store, "a", "Hub A");
    free_hub(&mut store, "b", "Hub B");
    free_hub(&mut store, "c", "Hub C");

    assert_eq!(store.query_hub_addresses(0, 10).len(), 0);
    assert_eq!(store.query_hub_addresses(1, 0).len(), 0);
    assert_eq!(store.query_hub_addresses(4, 1).len(), 0);
    assert_eq!(store.query_hub_addresses(2, 10).len(), 0);
    // The largest window values stay safe and out of range.
    assert_eq!(store.query_hub_addresses(u64::MAX, u64::MAX).len(), 0);
    assert_eq!(store.query_hub_addresses(1, u64::MAX).len(), 3);

    store
        .subscribe_to_hub("dave".to_string(), vec![], "a".to_string())
        .unwrap();
    assert_eq!(store.query_user_subscriptions(&"dave".to_string(), 0, 10).len(), 0);
    assert_eq!(store.query_user_subscriptions(&"dave".to_string(), 1, 0).len(), 0);
    assert_eq!(store.query_user_subscriptions(&"dave".to_string(), 2, 10).len(), 0);
}

#[test]
fn hub_index_is_most_recent_first() {
    let mut store = HubStore::new();
    free_hub(&mut store, "a", "Hub A");
    free_hub(&mut store, "b", "Hub B");
    free_hub(&mut store, "c", "Hub C");

    assert_eq!(
        store.query_hub_addresses(1, 10),
        vec!["c".to_string(), "b".to_string(), "a".to_string()]
    );
    // Page 2 of size 1 holds exactly the second entry.
    assert_eq!(store.query_hub_addresses(2, 1), vec!["b".to_string()]);
    assert_eq!(store.query_hub_addresses(2, 2), vec!["a".to_string()]);
}

#[test]
fn user_subscriptions_in_ascending_key_order() {
    let mut store = HubStore::new();
    free_hub(&mut store, "zoe", "Zoe Hub");
    free_hub(&mut store, "abe", "Abe Hub");
    free_hub(&mut store, "mia", "Mia Hub");

    // Subscribe out of key order; the projection sorts by hub identity.
    for hub in ["zoe", "abe", "mia"] {
        store
            .subscribe_to_hub("dave".to_string(), vec![], hub.to_string())
            .unwrap();
    }
    assert_eq!(
        store.query_user_subscriptions(&"dave".to_string(), 1, 10),
        vec!["Abe Hub".to_string(), "Mia Hub".to_string(), "Zoe Hub".to_string()]
    );
    // The window applies to the sorted identities.
    assert_eq!(
        store.query_user_subscriptions(&"dave".to_string(), 2, 1),
        vec!["Mia Hub".to_string()]
    );
}

#[test]
fn dispatchers_route_commands_and_queries() {
    let mut store = instantiate(InstantiateMsg {});

    execute(
        &mut store,
        "alice".to_string(),
        vec![],
        11,
        ExecuteMsg::CreateHub { hub_name: "Chess Club".to_string(), need_pay: coin(0, XION) },
    )
    .unwrap();
    execute(
        &mut store,
        "dave".to_string(),
        vec![],
        12,
        ExecuteMsg::SubscribeToHub { hub_addr: "alice".to_string() },
    )
    .unwrap();
    execute(
        &mut store,
        "alice".to_string(),
        vec![],
        13,
        ExecuteMsg::CreatePost {
            post_id: "p1".to_string(),
            title: "Hello".to_string(),
            content: "World".to_string(),
        },
    )
    .unwrap();
    execute(
        &mut store,
        "dave".to_string(),
        vec![],
        14,
        ExecuteMsg::LikePost { post_id: "p1".to_string() },
    )
    .unwrap();

    match query(&store, QueryMsg::Hub { creator: "alice".to_string() }).unwrap() {
        QueryAnswer::Hub(h) => {
            assert_eq!(h.name, "Chess Club");
            assert_eq!(h.subscribers, vec!["dave".to_string()]);
            assert_eq!(h.posts.len(), 1);
            assert_eq!(h.posts[0].updated, 13);
        }
        other => panic!("unexpected answer: {:?}", other),
    }
    match query(&store, QueryMsg::UserHasHub { creator: "dave".to_string() }).unwrap() {
        QueryAnswer::UserHasHub(b) => assert!(!b),
        other => panic!("unexpected answer: {:?}", other),
    }
    match query(
        &store,
        QueryMsg::UserSubscriptions { user: "dave".to_string(), page: 1, size: 10 },
    )
    .unwrap()
    {
        QueryAnswer::UserSubscriptions(v) => assert_eq!(v, vec!["Chess Club".to_string()]),
        other => panic!("unexpected answer: {:?}", other),
    }
    match query(&store, QueryMsg::HubAddresses { page: 1, size: 10 }).unwrap() {
        QueryAnswer::HubAddresses(v) => assert_eq!(v, vec!["alice".to_string()]),
        other => panic!("unexpected answer: {:?}", other),
    }
    match query(
        &store,
        QueryMsg::HubPosts {
            user_addr: "dave".to_string(),
            hub_addr: "alice".to_string(),
            page: 1,
            size: 10,
        },
    )
    .unwrap()
    {
        QueryAnswer::HubPosts(v) => {
            assert_eq!(v.len(), 1);
            assert_eq!(v[0].id, "p1");
        }
        other => panic!("unexpected answer: {:?}", other),
    }
    match query(&store, QueryMsg::PostLikes { post_id: "p1".to_string() }).unwrap() {
        QueryAnswer::PostLikes(n) => assert_eq!(n, 1),
        other => panic!("unexpected answer: {:?}", other),
    }
    match query(
        &store,
        QueryMsg::UserPostLiked { user: "dave".to_string(), post_id: "p1".to_string() },
    )
    .unwrap()
    {
        QueryAnswer::UserPostLiked(b) => assert!(b),
        other => panic!("unexpected answer: {:?}", other),
    }
}
