use tiktonick_bot::api::Api;
use tiktonick_bot::api::SubscriptionType;
use tiktonick_bot::database::Storage;

#[test]
fn subscribe_records_both_sides() {
    let mut db = Storage::new();
    db.subscribe(Api::Tiktok, "alice", "100", SubscriptionType::Likes);
    assert!(db.is_subscribed(Api::Tiktok, "alice", "100", SubscriptionType::Likes));
    assert!(!db.is_subscribed(Api::Tiktok, "alice", "100", SubscriptionType::Content));
    assert!(!db.is_subscribed(Api::Twitter, "alice", "100", SubscriptionType::Likes));
    let chat = db.get_chat_info(Api::Tiktok, "100").expect("chat document");
    assert_eq!(chat.subscribed_for_likes_to.as_ref().unwrap(), &vec!["alice".to_string()]);
    assert!(chat.subscribed_for_content_to.is_none());
}

#[test]
fn subscribe_twice_keeps_one_occurrence() {
    let mut db = Storage::new();
    db.subscribe(Api::Instagram, "bob", "7", SubscriptionType::Content);
    db.subscribe(Api::Instagram, "bob", "7", SubscriptionType::Content);
    let users = db.get_subscriptions(Api::Instagram);
    assert_eq!(users.len(), 1);
    let chats = users[0].subscribed_chats_to_content.as_ref().unwrap();
    assert_eq!(chats.iter().filter(|c| c.as_str() == "7").count(), 1);
    let chat = db.get_chat_info(Api::Instagram, "7").expect("chat document");
    let followed = chat.subscribed_for_content_to.as_ref().unwrap();
    assert_eq!(followed.iter().filter(|u| u.as_str() == "bob").count(), 1);
}

#[test]
fn unsubscribe_removes_the_pair() {
    let mut db = Storage::new();
    db.subscribe(Api::Twitter, "u", "1", SubscriptionType::Likes);
    db.subscribe(Api::Twitter, "u", "2", SubscriptionType::Likes);
    db.unsubscribe(Api::Twitter, "u", "1", SubscriptionType::Likes);
    assert!(!db.is_subscribed(Api::Twitter, "u", "1", SubscriptionType::Likes));
    assert!(db.is_subscribed(Api::Twitter, "u", "2", SubscriptionType::Likes));
}

#[test]
fn unsubscribe_unknown_chat_is_a_noop() {
    let mut db = Storage::new();
    db.unsubscribe(Api::Twitter, "ghost", "1", SubscriptionType::Likes);
    assert!(db.get_subscriptions(Api::Twitter).is_empty());
}

#[test]
fn user_exists_means_a_subscriber_chat() {
    let mut db = Storage::new();
    assert!(!db.user_exists(Api::Tiktok, "alice", SubscriptionType::Likes));
    db.subscribe(Api::Tiktok, "alice", "100", SubscriptionType::Likes);
    assert!(db.user_exists(Api::Tiktok, "alice", SubscriptionType::Likes));
    assert!(!db.user_exists(Api::Tiktok, "alice", SubscriptionType::Content));
    db.unsubscribe(Api::Tiktok, "alice", "100", SubscriptionType::Likes);
    assert!(!db.user_exists(Api::Tiktok, "alice", SubscriptionType::Likes));
}

#[test]
fn record_delivered_then_lookup() {
    let mut db = Storage::new();
    assert!(!db.is_delivered(Api::Tiktok, "v1", "alice", SubscriptionType::Likes));
    db.record_delivered(Api::Tiktok, "v1", "alice", SubscriptionType::Likes, 11);
    assert!(db.is_delivered(Api::Tiktok, "v1", "alice", SubscriptionType::Likes));
    assert!(!db.is_delivered(Api::Tiktok, "v1", "alice", SubscriptionType::Content));
    assert!(!db.is_delivered(Api::Tiktok, "v1", "bob", SubscriptionType::Likes));
    assert!(!db.is_delivered(Api::Twitter, "v1", "alice", SubscriptionType::Likes));
}

#[test]
fn record_delivered_twice_keeps_one_record() {
    let mut db = Storage::new();
    db.record_delivered(Api::Twitter, "t9", "u", SubscriptionType::Content, 1);
    db.record_delivered(Api::Twitter, "t9", "u", SubscriptionType::Content, 2);
    assert!(db.is_delivered(Api::Twitter, "t9", "u", SubscriptionType::Content));
    let store = &db.twitter;
    assert_eq!(store.content.len(), 1);
    let records = store.content[0].processed_content.as_ref().unwrap();
    assert_eq!(records.len(), 1);
    assert_eq!(records[0].id, "t9");
    assert_eq!(records[0].delivered_at, 1);
}

#[test]
fn get_chats_by_subscription_type_reads_the_right_list() {
    let user = tiktonick_bot::database::User {
        id: "u".to_string(),
        subscribed_chats_to_likes: Some(vec!["1".to_string()]),
        subscribed_chats_to_content: None,
    };
    assert_eq!(
        user.get_chats_by_subscription_type(SubscriptionType::Likes).as_ref().unwrap(),
        &vec!["1".to_string()]
    );
    assert!(user.get_chats_by_subscription_type(SubscriptionType::Content).is_none());
}

#[test]
fn get_videos_by_subscription_type_reads_the_right_list() {
    let doc = tiktonick_bot::database::DataStorage {
        id: "u".to_string(),
        liked_content: Some(vec![tiktonick_bot::database::ContentRecord {
            id: "v".to_string(),
            delivered_at: 3,
        }]),
        processed_content: None,
    };
    let likes = doc
        .get_videos_by_subscription_type(SubscriptionType::Likes)
        .as_ref()
        .unwrap();
    assert_eq!(likes.len(), 1);
    assert_eq!(likes[0].id, "v");
    assert!(doc.get_videos_by_subscription_type(SubscriptionType::Content).is_none());
}

#[test]
fn storage_field_names() {
    assert_eq!(SubscriptionType::Likes.as_subscription_string(), "subscribed_chats_to_likes");
    assert_eq!(SubscriptionType::Content.as_subscription_string(), "subscribed_chats_to_content");
    assert_eq!(SubscriptionType::Likes.as_chat_string(), "subscribed_for_likes_to");
    assert_eq!(SubscriptionType::Content.as_chat_string(), "subscribed_for_content_to");
    assert_eq!(SubscriptionType::Likes.as_storage_string(), "liked_content");
    assert_eq!(SubscriptionType::Content.as_storage_string(), "processed_content");
}

#[test]
fn subscription_kind_order() {
    let kinds = SubscriptionType::iterator();
    assert_eq!(kinds, vec![SubscriptionType::Content, SubscriptionType::Likes]);
}
