use xionhub::error::ContractError;
use xionhub::state::{Coin, Hub, HubStore};

const XION: &str = "uxion";

fn coin(amount: u128, denom: &str) -> Coin {
    Coin { denom: denom.to_string(), amount }
}

#[test]
fn test_create_hub() {
    let mut store = HubStore::new();
    let creator = "creator".to_string();

    store
        .create_hub(creator.clone(), "Test Channel".to_string(), coin(0, XION))
        .unwrap();

    let resp = store.query_hub(&creator).unwrap();
    assert_eq!(
        resp,
        Hub {
            creator: creator.clone(),
            name: "Test Channel".to_string(),
            payment: coin(0, XION),
            subscribers: vec![],
            posts: vec![]
        }
    );

    let resp2 = store.query_hub_addresses(1, 10);
    assert_eq!(resp2.len(), 1);
    assert_eq!(resp2, vec![creator.to_string()]);
}

#[test]
fn test_user_subscriptions() {
    let mut store = HubStore::new();
    let creator = "creator".to_string();
    let user = "user".to_string();

    let hub_name = "XionHub Office Channel";
    store
        .create_hub(creator.clone(), hub_name.to_string(), coin(0, XION))
        .unwrap();

    store
        .subscribe_to_hub(user.clone(), vec![], creator.clone())
        .unwrap();

    let page: u64 = 1;
    let size: u64 = 10;
    let resp = store.query_user_subscriptions(&user, page, size);

    assert_eq!(resp.len(), 1);
    assert_eq!(resp[0], hub_name);

    let resp = store.query_hub(&creator).unwrap();
    assert_eq!(
        resp,
        Hub {
            creator: creator.clone(),
            name: "XionHub Office Channel".to_string(),
            payment: coin(0, XION),
            subscribers: vec![user],
            posts: vec![]
        }
    );
}

#[test]
fn test_user_subscriptions_with_token() {
    let mut store = HubStore::new();
    let creator = "creator".to_string();
    let user = "user".to_string(); // user has 100000 XION
    let user2 = "user2".to_string();

    let hub_name = "VIP Channel";
    let funds = vec![coin(100000, XION)];
    store
        .create_hub(creator.clone(), hub_name.to_string(), coin(100000, XION))
        .unwrap();

    assert_eq!(store.query_user_has_hub(&creator), true);
    assert_eq!(store.query_user_has_hub(&user2), false);

    // Subscription fee not met: no funds attached.
    let err = store
        .subscribe_to_hub(user2.clone(), vec![], creator.clone())
        .unwrap_err();
    assert_eq!(ContractError::InsufficientFunds, err);

    let subscription_result = store.subscribe_to_hub(user.clone(), funds, creator.clone());
    assert!(subscription_result.is_ok());
}

#[test]
fn test_create_and_query_post() {
    let mut store = HubStore::new();
    let creator = "creator".to_string();
    let user = "user".to_string();

    let hub_name = "XionHub Office Channel";
    store
        .create_hub(creator.clone(), hub_name.to_string(), coin(0, XION))
        .unwrap();

    store
        .create_post(
            creator.clone(),
            "post-1".to_string(),
            "Hello World".to_string(),
            "This is my first post".to_string(),
            1571797419,
        )
        .unwrap();

    let resp = store.query_hub_posts(&user, &creator, 1, 10);
    assert_eq!(resp.len(), 1);
    assert_eq!(resp[0].title, "Hello World");
    assert_eq!(resp[0].content, "This is my first post");

    store
        .create_post(
            creator.clone(),
            "post-2".to_string(),
            "A NEW ERA FOR BURNT".to_string(),
            "Today, we end the silence with several major announcements.

            THE JOURNEY
            
            I originally started Burnt after the Banksy burning to create a better space for the future of art. Between 2021 and 2022 we focused on creating no-code products and early NFT standards for creators.
            
            In the process, we‘ve seen firsthand how the industry has been trapped in an echo chamber — building for ourselves and not in the interests of the world.
            
            While there are players genuinely trying to change this insular approach, its effects are still seen everywhere:
            
            From expecting users to learn our jargon, click on the ~correct~ links to somehow understand the difference between a legitimate project and a scam, we are still gatekeeping the very real benefits of Web3 behind impossible UX.
            
            And since almost all capital has been directed at the infrastructure level, innovation has been mostly in service of builders, not end users. To make matters worse, the industry has yet to demonstrate a meaningful Web3 use case to the world beyond what basically amounts to gambling.
            
            ANSWERING THE NEED FOR A NEW PARADIGM
            
            The result is we’ve built barriers instead of bridges — keeping real people out, while allowing us to feel superior in ivory towers.
            
            As an industry, we wanted to redefine ownership and distribute power to everyone, yet we became the elites we tried to build against.
            
            There is no redefining of ownership if we aren’t hitting critical needs nor providing adequate access to those who would benefit the most.
            
            I ask you, how can we redefine ownership
            if only the highly technical have access?
            
            It was this question that spawned a new era for Burnt.
            
            THE SECOND COMING OF BURNT
            
            First things first: As our new logo suggests, Burnt Finance has officially rebranded to Burnt. Our new name and visual direction signal our commitment to expanding the impact of Web3 beyond the confines of just DeFi.
            
            Along with these changes, the Burnt company vision has also evolved.
            
            Above all, Burnt exists to rebuild broken systems of ownership by any means necessary (whether it be technology, products, experiences, guerilla campaigns, fearless acts, etc.).
            
            To that end, we believe Web3 is fundamental in this pursuit due to its ability to re-balance the distribution of power, agency, and financial cooperation at scale.
            
            NEW BURNT, NEW BLOCKCHAIN
            
            
            Finally, after a year in the making, we are revealing XION, the first chain purpose-built for consumer adoption.
            
            The first of its kind, XION is intended to remove technical crypto barriers for consumers with a toolkit that includes seamless fiat on/off ramps, direct credit card purchases, familiar Web2 logins, safe account abstraction for mobile support, and zero gas fees.
            
            At its core, XION provides us the ability to shape the economics of our ecosystem from the ground up; aligning incentives across every level: from infrastructure, to developers, from products to creators and end-users.
            
            We believe everyone, regardless of technical knowledge, should be able to have the same access to true ownership. XION is our first step in realizing that future.
            
            WHAT TO EXPECT
            
            Over the next few weeks, we will be rolling out more information about XION, its roadmap to launch, and more soon-to-be revealed projects we have been building in stealth. Follow us on Twitter and Discord for the latest updates on the journey ahead.
            
            Here’s to the ashes we’ll create along the way.
            
            LOVE,
            Burnt Banksy".to_string(),
            1571797420,
        )
        .unwrap();

    let resp2 = store.query_hub_posts(&user, &creator, 1, 1);
    assert_eq!(resp2.len(), 1);
    assert_eq!(resp2[0].title, "A NEW ERA FOR BURNT");

    // A user without a subscription sees only the latest post.
    let resp3 = store.query_hub_posts(&user, &creator, 1, 10);
    assert_eq!(resp3.len(), 1);
    assert_eq!(resp3[0].title, "A NEW ERA FOR BURNT");

    // A subscriber sees all posts.
    store
        .subscribe_to_hub(user.clone(), vec![], creator.clone())
        .unwrap();
    let resp4 = store.query_hub_posts(&user, &creator, 1, 10);
    assert_eq!(resp4.len(), 2);
}

#[test]
fn test_like_post() {
    let mut store = HubStore::new();
    let creator = "creator".to_string();
    let user = "user".to_string();

    let hub_name = "XionHub Office Channel";
    store
        .create_hub(creator.clone(), hub_name.to_string(), coin(0, XION))
        .unwrap();

    let post_id = "post-1".to_string();
    store
        .create_post(
            creator.clone(),
            post_id.clone(),
            "Hello World".to_string(),
            "This is my first post".to_string(),
            1571797419,
        )
        .unwrap();

    store.like_post(user.clone(), post_id.clone()).unwrap();

    let resp = store.query_post_likes(&post_id).unwrap();
    assert_eq!(resp, 1);

    let like_post_error = store.like_post(user.clone(), post_id.clone()).unwrap_err();
    assert_eq!(
        like_post_error,
        ContractError::PostAlreadyLiked {
            id: post_id.to_string()
        }
    );

    assert_eq!(store.query_user_post_liked(&user, &post_id), true);
}

#[test]
fn test_query_zero_hubs() {
    let store = HubStore::new();

    let resp = store.query_hub_addresses(1, 10);
    assert_eq!(resp.len(), 0);
}

#[test]
fn test_query_hub_zero_posts() {
    let mut store = HubStore::new();
    let creator = "creator".to_string();

    store
        .create_hub(creator.clone(), "creator hub".to_string(), coin(0, XION))
        .unwrap();

    let resp = store.query_hub_posts(&creator, &creator, 1, 10);
    assert_eq!(resp.len(), 0);
}

#[test]
fn test_query_user_zero_subscriptions() {
    let store = HubStore::new();
    let user = "user".to_string();

    let resp = store.query_user_subscriptions(&user, 1, 10);
    assert_eq!(resp.len(), 0);
}
