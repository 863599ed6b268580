use tiktonick_bot::api::{Api, ContentItem, SubscriptionType, UserInfo};
use tiktonick_bot::database::{Storage, User};
use tiktonick_bot::processing::updater::{
    apply_dispatch_results, filter_sent_content, keep_undelivered, last_n_data, prepare_user_update,
    process_link, request_succeeded, start_request, subscribe, PlannedSend, RequestData,
};
use tiktonick_bot::processing::{
    retain_failed, LinkInfo, ProcessingError, RequestModel, RequestQueue, UserRequest,
};

fn item(id: &str) -> ContentItem {
    ContentItem {
        id: id.to_string(),
        text: format!("text of {}", id),
        author_username: "author".to_string(),
        author_nickname: "Author".to_string(),
        attachments: Vec::new(),
    }
}

fn profile(name: &str) -> UserInfo {
    UserInfo { id: name.to_string(), username: name.to_string(), nickname: name.to_string() }
}

fn ids(items: &[ContentItem]) -> Vec<String> {
    items.iter().map(|i| i.id.clone()).collect()
}

#[test]
fn dedup_filter_keeps_undelivered_items() {
    let mut db = Storage::new();
    db.record_delivered(Api::Tiktok, "old", "alice", SubscriptionType::Likes, 1);
    let batch = vec![item("new1"), item("old"), item("new2")];
    let kept = filter_sent_content(&db, Api::Tiktok, &batch, "alice", SubscriptionType::Likes);
    assert_eq!(ids(&kept), vec!["new1".to_string(), "new2".to_string()]);
}

#[test]
fn dedup_filter_is_idempotent() {
    let mut db = Storage::new();
    db.record_delivered(Api::Tiktok, "a", "u", SubscriptionType::Content, 1);
    let batch = vec![item("a"), item("b"), item("c")];
    let once = filter_sent_content(&db, Api::Tiktok, &batch, "u", SubscriptionType::Content);
    let twice = filter_sent_content(&db, Api::Tiktok, &once, "u", SubscriptionType::Content);
    assert_eq!(ids(&once), ids(&twice));
}

#[test]
fn dedup_filter_drops_after_acknowledgement() {
    let mut db = Storage::new();
    let batch = vec![item("x"), item("y")];
    let before = filter_sent_content(&db, Api::Twitter, &batch, "u", SubscriptionType::Likes);
    assert_eq!(before.len(), 2);
    db.record_delivered(Api::Twitter, "x", "u", SubscriptionType::Likes, 5);
    let after = filter_sent_content(&db, Api::Twitter, &batch, "u", SubscriptionType::Likes);
    assert_eq!(ids(&after), vec!["y".to_string()]);
}

#[test]
fn failed_lookup_counts_as_delivered() {
    let batch = vec![item("a"), item("b"), item("c")];
    let flags = vec![Some(false), Some(true), None];
    let kept = keep_undelivered(&batch, &flags);
    assert_eq!(ids(&kept), vec!["a".to_string()]);
}

#[test]
fn scheduler_round_two_items_one_chat() {
    // One subscribed user with two new undelivered items and one subscriber
    // chat: exactly two dispatch calls, oldest item first, both recorded
    // delivered on success.
    let mut db = Storage::new();
    db.subscribe(Api::Twitter, "u", "c1", SubscriptionType::Content);
    let user = User {
        id: "u".to_string(),
        subscribed_chats_to_likes: None,
        subscribed_chats_to_content: Some(vec!["c1".to_string()]),
    };
    // Provider order is newest first: "newer" precedes "older".
    let fetched = vec![item("newer"), item("older")];
    let plan = prepare_user_update(&db, Api::Twitter, &user, SubscriptionType::Content, true, &fetched);
    assert_eq!(ids(&plan.to_send), vec!["older".to_string(), "newer".to_string()]);
    assert_eq!(plan.dispatches.len(), 2);
    assert_eq!(plan.dispatches[0].item_id, "older");
    assert_eq!(plan.dispatches[0].chats, vec!["c1".to_string()]);
    assert_eq!(plan.dispatches[1].item_id, "newer");
    let results = vec![vec![true], vec![true]];
    apply_dispatch_results(&mut db, Api::Twitter, "u", SubscriptionType::Content, &plan.to_send, &results, 9);
    assert!(db.is_delivered(Api::Twitter, "older", "u", SubscriptionType::Content));
    assert!(db.is_delivered(Api::Twitter, "newer", "u", SubscriptionType::Content));
}

#[test]
fn partial_delivery_is_still_recorded() {
    // Dispatch to chat A succeeds, dispatch to chat B fails: the item is
    // recorded delivered anyway, so chat B will not receive it later.
    let mut db = Storage::new();
    let sent = vec![item("v")];
    let results = vec![vec![true, false]];
    apply_dispatch_results(&mut db, Api::Tiktok, "u", SubscriptionType::Likes, &sent, &results, 4);
    assert!(db.is_delivered(Api::Tiktok, "v", "u", SubscriptionType::Likes));
}

#[test]
fn failed_delivery_everywhere_is_not_recorded() {
    let mut db = Storage::new();
    let sent = vec![item("v")];
    let results = vec![vec![false, false]];
    apply_dispatch_results(&mut db, Api::Tiktok, "u", SubscriptionType::Likes, &sent, &results, 4);
    assert!(!db.is_delivered(Api::Tiktok, "v", "u", SubscriptionType::Likes));
}

#[test]
fn scheduler_skips_user_without_chats() {
    let db = Storage::new();
    let user = User {
        id: "u".to_string(),
        subscribed_chats_to_likes: None,
        subscribed_chats_to_content: Some(Vec::new()),
    };
    let fetched = vec![item("a")];
    let plan = prepare_user_update(&db, Api::Tiktok, &user, SubscriptionType::Content, true, &fetched);
    assert!(plan.to_send.is_empty());
    assert!(plan.dispatches.is_empty());
}

#[test]
fn scheduler_skips_user_gone_upstream() {
    let db = Storage::new();
    let user = User {
        id: "u".to_string(),
        subscribed_chats_to_likes: Some(vec!["c".to_string()]),
        subscribed_chats_to_content: None,
    };
    let fetched = vec![item("a")];
    let plan = prepare_user_update(&db, Api::Tiktok, &user, SubscriptionType::Likes, false, &fetched);
    assert!(plan.to_send.is_empty());
    assert!(plan.dispatches.is_empty());
}

#[test]
fn first_subscribe_backfills_without_dispatching() {
    // "alice" has never subscribed; processing Subscribe{chat=100, Likes}
    // records the current batch of five as delivered, sends no content, and
    // leaves the subscription in place.
    let mut db = Storage::new();
    let model = RequestModel {
        chat_id: "100".to_string(),
        stype: SubscriptionType::Likes,
        user: "alice".to_string(),
        api: Api::Tiktok,
    };
    let batch = vec![item("v1"), item("v2"), item("v3"), item("v4"), item("v5")];
    let r = subscribe(&mut db, &model, &Ok(Some(profile("alice"))), &Ok(batch), 8);
    let sends = r.expect("subscribe succeeds");
    assert_eq!(sends.len(), 1);
    match &sends[0] {
        PlannedSend::Notice { chat_id, text } => {
            assert_eq!(chat_id, "100");
            assert_eq!(text, "Successfully subscribed to alice aka alice");
        }
        PlannedSend::Content { .. } => panic!("backfill must not dispatch content"),
    }
    for v in ["v1", "v2", "v3", "v4", "v5"] {
        assert!(db.is_delivered(Api::Tiktok, v, "alice", SubscriptionType::Likes));
    }
    assert!(db.is_subscribed(Api::Tiktok, "alice", "100", SubscriptionType::Likes));
}

#[test]
fn second_chat_subscribe_skips_backfill() {
    let mut db = Storage::new();
    db.subscribe(Api::Tiktok, "alice", "100", SubscriptionType::Likes);
    let model = RequestModel {
        chat_id: "200".to_string(),
        stype: SubscriptionType::Likes,
        user: "alice".to_string(),
        api: Api::Tiktok,
    };
    let batch = vec![item("v1")];
    let r = subscribe(&mut db, &model, &Ok(Some(profile("alice"))), &Ok(batch), 8);
    assert!(r.is_ok());
    assert!(!db.is_delivered(Api::Tiktok, "v1", "alice", SubscriptionType::Likes));
    assert!(db.is_subscribed(Api::Tiktok, "alice", "200", SubscriptionType::Likes));
}

#[test]
fn resubscribe_is_a_silent_noop() {
    let mut db = Storage::new();
    db.subscribe(Api::Tiktok, "alice", "100", SubscriptionType::Likes);
    let model = RequestModel {
        chat_id: "100".to_string(),
        stype: SubscriptionType::Likes,
        user: "alice".to_string(),
        api: Api::Tiktok,
    };
    let r = subscribe(&mut db, &model, &Ok(Some(profile("alice"))), &Ok(vec![item("v1")]), 8);
    let sends = r.expect("noop succeeds");
    assert!(sends.is_empty());
    assert!(!db.is_delivered(Api::Tiktok, "v1", "alice", SubscriptionType::Likes));
}

#[test]
fn subscribe_unknown_user_notifies_chat() {
    let mut db = Storage::new();
    let model = RequestModel {
        chat_id: "5".to_string(),
        stype: SubscriptionType::Content,
        user: "nobody".to_string(),
        api: Api::Twitter,
    };
    let r = subscribe(&mut db, &model, &Ok(None), &Ok(Vec::new()), 1);
    let sends = r.expect("not-found is not an error");
    assert_eq!(sends.len(), 1);
    match &sends[0] {
        PlannedSend::Notice { chat_id, text } => {
            assert_eq!(chat_id, "5");
            assert_eq!(text, "Failed to subscribe for user: @nobody. User not found");
        }
        _ => panic!("expected a notice"),
    }
    assert!(!db.is_subscribed(Api::Twitter, "nobody", "5", SubscriptionType::Content));
}

#[test]
fn subscribe_fetch_failure_is_transient() {
    let mut db = Storage::new();
    let model = RequestModel {
        chat_id: "5".to_string(),
        stype: SubscriptionType::Content,
        user: "u".to_string(),
        api: Api::Twitter,
    };
    let r = subscribe(&mut db, &model, &Err(ProcessingError::Transient), &Ok(Vec::new()), 1);
    assert_eq!(r.unwrap_err(), ProcessingError::Transient);
    let r2 = subscribe(
        &mut db,
        &model,
        &Ok(Some(profile("u"))),
        &Err(ProcessingError::Transient),
        1,
    );
    assert_eq!(r2.unwrap_err(), ProcessingError::Transient);
    assert!(!db.is_subscribed(Api::Twitter, "u", "5", SubscriptionType::Content));
}

#[test]
fn last_n_truncates_and_reverses() {
    let model = RequestModel {
        chat_id: "9".to_string(),
        stype: SubscriptionType::Content,
        user: "u".to_string(),
        api: Api::Instagram,
    };
    let batch = vec![item("1"), item("2"), item("3"), item("4")];
    let r = last_n_data(&model, 3, &Ok(Some(profile("u"))), Ok(batch));
    let sends = r.expect("last-n succeeds");
    assert_eq!(sends.len(), 3);
    let sent_ids: Vec<String> = sends
        .iter()
        .map(|s| match s {
            PlannedSend::Content { item, chat_id, .. } => {
                assert_eq!(chat_id, "9");
                item.id.clone()
            }
            _ => panic!("expected content sends"),
        })
        .collect();
    assert_eq!(sent_ids, vec!["3".to_string(), "2".to_string(), "1".to_string()]);
}

#[test]
fn last_n_unknown_user_notifies_chat() {
    let model = RequestModel {
        chat_id: "9".to_string(),
        stype: SubscriptionType::Likes,
        user: "ghost".to_string(),
        api: Api::Tiktok,
    };
    let r = last_n_data(&model, 2, &Ok(None), Ok(Vec::new()));
    let sends = r.expect("not-found is not an error");
    assert_eq!(sends.len(), 1);
    match &sends[0] {
        PlannedSend::Notice { text, .. } => assert_eq!(text, "@ghost user not found."),
        _ => panic!("expected a notice"),
    }
}

#[test]
fn process_link_dispatches_once_with_shared_framing() {
    let link_info = LinkInfo {
        chat_id: "4".to_string(),
        telegram_user: tiktonick_bot::api::TelegramUser { name: "Pat".to_string(), id: 12 },
        api: Api::Twitter,
        link: "https://twitter.com/a/status/1".to_string(),
    };
    let r = process_link(&link_info, Ok(Some(item("1"))), &Ok(Some(profile("a"))));
    let sends = r.expect("link resolves");
    assert_eq!(sends.len(), 1);
    match &sends[0] {
        PlannedSend::Content { chat_id, item, output, .. } => {
            assert_eq!(chat_id, "4");
            assert_eq!(item.id, "1");
            match output {
                tiktonick_bot::api::OutputType::ByLink(tg) => assert_eq!(tg.id, 12),
                _ => panic!("expected shared framing"),
            }
        }
        _ => panic!("expected a content send"),
    }
}

#[test]
fn process_link_unresolved_is_transient() {
    let link_info = LinkInfo {
        chat_id: "4".to_string(),
        telegram_user: tiktonick_bot::api::TelegramUser { name: "Pat".to_string(), id: 12 },
        api: Api::Twitter,
        link: "https://twitter.com/a/status/1".to_string(),
    };
    let r = process_link(&link_info, Ok(None), &Ok(Some(profile("a"))));
    assert_eq!(r.unwrap_err(), ProcessingError::Transient);
    let r2 = process_link(&link_info, Ok(Some(item("1"))), &Ok(None));
    assert_eq!(r2.unwrap_err(), ProcessingError::Transient);
}

#[test]
fn queue_fails_fast_when_full() {
    let mut q = RequestQueue::new(1);
    let model = RequestModel {
        chat_id: "1".to_string(),
        stype: SubscriptionType::Likes,
        user: "u".to_string(),
        api: Api::Tiktok,
    };
    assert!(q.try_enqueue(UserRequest::Subscribe(model)).is_ok());
    let model2 = RequestModel {
        chat_id: "2".to_string(),
        stype: SubscriptionType::Likes,
        user: "u".to_string(),
        api: Api::Tiktok,
    };
    let r = q.try_enqueue(UserRequest::Subscribe(model2));
    assert_eq!(r.unwrap_err(), ProcessingError::QueueFull);
    assert_eq!(q.len(), 1);
}

#[test]
fn failed_request_is_retried_until_it_succeeds() {
    // A request whose handler fails stays enumerable in the queue after the
    // cycle and is attempted again; once it succeeds it disappears.
    let mut q = RequestQueue::new(8);
    let model = RequestModel {
        chat_id: "1".to_string(),
        stype: SubscriptionType::Likes,
        user: "u".to_string(),
        api: Api::Tiktok,
    };
    q.try_enqueue(UserRequest::LastNData(model, 3)).unwrap();
    // First cycle: the handler fails.
    let batch = q.drain();
    assert_eq!(batch.len(), 1);
    let kept = retain_failed(batch, &vec![false]);
    assert_eq!(kept.len(), 1);
    q.requeue(kept);
    assert_eq!(q.len(), 1);
    // Second cycle: the handler succeeds.
    let batch = q.drain();
    assert_eq!(batch.len(), 1);
    let kept = retain_failed(batch, &vec![true]);
    assert!(kept.is_empty());
    q.requeue(kept);
    assert_eq!(q.len(), 0);
}

#[test]
fn retained_requests_precede_new_arrivals() {
    let mut q = RequestQueue::new(8);
    let mk = |chat: &str| {
        UserRequest::Subscribe(RequestModel {
            chat_id: chat.to_string(),
            stype: SubscriptionType::Likes,
            user: "u".to_string(),
            api: Api::Tiktok,
        })
    };
    q.try_enqueue(mk("old")).unwrap();
    let batch = q.drain();
    q.try_enqueue(mk("new")).unwrap();
    let kept = retain_failed(batch, &vec![false]);
    q.requeue(kept);
    let merged = q.drain();
    let chats: Vec<&str> = merged
        .iter()
        .map(|r| match r {
            UserRequest::Subscribe(m) => m.chat_id.as_str(),
            _ => panic!("unexpected request kind"),
        })
        .collect();
    assert_eq!(chats, vec!["old", "new"]);
}

#[test]
fn start_request_dispatches_on_the_request_kind() {
    let mut db = Storage::new();
    let model = RequestModel {
        chat_id: "100".to_string(),
        stype: SubscriptionType::Likes,
        user: "alice".to_string(),
        api: Api::Tiktok,
    };
    let req = UserRequest::Subscribe(model);
    let data = RequestData::ForSubscribe {
        user: Ok(Some(profile("alice"))),
        items: Ok(vec![item("v1")]),
    };
    let r = start_request(&mut db, &req, data, 3);
    assert!(r.is_ok());
    assert!(db.is_subscribed(Api::Tiktok, "alice", "100", SubscriptionType::Likes));
    assert!(db.is_delivered(Api::Tiktok, "v1", "alice", SubscriptionType::Likes));
}

#[test]
fn request_succeeded_needs_every_send() {
    let ok_plan: Result<Vec<PlannedSend>, ProcessingError> = Ok(Vec::new());
    assert!(request_succeeded(&ok_plan, &vec![true, true]));
    assert!(!request_succeeded(&ok_plan, &vec![true, false]));
    let err_plan: Result<Vec<PlannedSend>, ProcessingError> = Err(ProcessingError::Transient);
    assert!(!request_succeeded(&err_plan, &Vec::new()));
}
