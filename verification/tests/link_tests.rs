use tiktonick_bot::api::api_requests::{
    interpret_status, ApiResponseKind, ApiUrlGenerator, Request,
};
use tiktonick_bot::api::instagram::{InstagramUserInfo, Post, Resource};
use tiktonick_bot::api::twitter::{
    clamp_count, process_tweet_data, Media, TweetRespond, TwitterTweetResult,
};
use tiktonick_bot::api::{Api, TelegramUser, UserInfo};
use tiktonick_bot::common::numbers::{i64_to_string, u64_to_string};
use tiktonick_bot::processing::UserRequest;
use tiktonick_bot::regexp::LinkPatterns;

#[test]
fn match_api_classifies_links() {
    let patterns = LinkPatterns::new().expect("fixed patterns compile");
    assert_eq!(
        patterns.match_api("https://www.tiktok.com/@someone/video/12345"),
        Some(Api::Tiktok)
    );
    assert_eq!(patterns.match_api("https://twitter.com/someone/status/678"), Some(Api::Twitter));
    assert_eq!(
        patterns.match_api("https://www.instagram.com/p/Xy12/"),
        Some(Api::Instagram)
    );
    assert_eq!(patterns.match_api("https://example.com/nothing"), None);
}

#[test]
fn short_tiktok_links_are_recognised() {
    let patterns = LinkPatterns::new().expect("fixed patterns compile");
    assert!(patterns.is_tiktok_short_link("https://vm.tiktok.com/AbCd/"));
    assert!(!patterns.is_tiktok_short_link("https://www.tiktok.com/@a/video/1"));
}

#[test]
fn content_ids_come_from_the_right_capture_group() {
    let patterns = LinkPatterns::new().expect("fixed patterns compile");
    let tiktok_id = tiktonick_bot::api::tiktok::get_content_id_from_url(
        &patterns,
        "https://www.tiktok.com/@someone/video/12345",
    );
    assert_eq!(tiktok_id.as_deref(), Some("12345"));
    let twitter_id = tiktonick_bot::api::twitter::get_content_id_from_url(
        &patterns,
        "https://twitter.com/someone/status/678",
    );
    assert_eq!(twitter_id.as_deref(), Some("678"));
    let instagram_id = tiktonick_bot::api::instagram::get_content_id_from_url(
        &patterns,
        "https://www.instagram.com/reel/XYZ9/",
    );
    assert_eq!(instagram_id.as_deref(), Some("XYZ9"));
    let none = tiktonick_bot::api::tiktok::get_content_id_from_url(&patterns, "no link here");
    assert!(none.is_none());
}

#[test]
fn chat_messages_yield_one_request_per_link() {
    let patterns = LinkPatterns::new().expect("fixed patterns compile");
    let tg = TelegramUser { name: "Pat".to_string(), id: 3 };
    let text = "look https://twitter.com/a/status/11 and \
                https://www.tiktok.com/@b/video/22 please";
    let requests = tiktonick_bot::regexp::collect_link_requests(&patterns, text, "77", &tg);
    assert_eq!(requests.len(), 2);
    match &requests[0] {
        UserRequest::ProcessLink(l) => {
            assert_eq!(l.api, Api::Twitter);
            assert_eq!(l.link, "https://twitter.com/a/status/11");
            assert_eq!(l.chat_id, "77");
            assert_eq!(l.telegram_user.id, 3);
        }
        _ => panic!("expected a link request"),
    }
    match &requests[1] {
        UserRequest::ProcessLink(l) => {
            assert_eq!(l.api, Api::Tiktok);
            assert_eq!(l.link, "https://www.tiktok.com/@b/video/22");
        }
        _ => panic!("expected a link request"),
    }
}

#[test]
fn decimal_rendering() {
    assert_eq!(u64_to_string(0), "0");
    assert_eq!(u64_to_string(7), "7");
    assert_eq!(u64_to_string(1234567890), "1234567890");
    assert_eq!(u64_to_string(u64::MAX), "18446744073709551615");
    assert_eq!(i64_to_string(0), "0");
    assert_eq!(i64_to_string(-42), "-42");
    assert_eq!(i64_to_string(i64::MIN), "-9223372036854775808");
}

#[test]
fn telegram_user_links_use_the_numeric_id() {
    let tg = TelegramUser { name: "Pat".to_string(), id: 5 };
    assert_eq!(tg.user_link(), "tg://user?id=5");
}

#[test]
fn request_paths() {
    assert_eq!(Request::UserData("alice").request_string(), "user_info/alice");
    assert_eq!(Request::Content("alice", "likes", 7).request_string(), "likes/alice/7");
    assert_eq!(Request::ContentById("99").request_string(), "content_by_id/99");
}

#[test]
fn api_names() {
    assert_eq!(Api::Twitter.api_to_string(), "twitter");
    assert_eq!(Api::Tiktok.api_to_string(), "tiktok");
    assert_eq!(Api::Instagram.api_to_string(), "instagram");
}

#[test]
fn generated_urls() {
    let gen = ApiUrlGenerator::new(
        "https://api.example".to_string(),
        "SECRET-REDACTED".to_string(),
        "tiktok".to_string(),
    );
    assert_eq!(gen.get_content_by_id("55"), "https://api.example/api/tiktok/content_by_id/55");
    assert_eq!(
        gen.get_user_content_by_type("alice", "likes", 5),
        "https://api.example/api/tiktok/alice/likes/5"
    );
    assert_eq!(gen.get_user_info("alice"), "https://api.example/api/tiktok/user_info/alice");
}

#[test]
fn tiktok_query_string() {
    let api = tiktonick_bot::api::tiktok::TiktokApi::new(
        "SECRET-REDACTED".to_string(),
        "http://host".to_string(),
    );
    assert_eq!(
        api.create_query("user_likes", "alice", 5),
        "http://host/api/user_likes/?username=alice&count=5&key=SECRET-REDACTED"
    );
    assert_eq!(
        tiktonick_bot::api::tiktok::to_query_param(
            tiktonick_bot::api::SubscriptionType::Content
        ),
        "user_videos"
    );
    assert_eq!(
        tiktonick_bot::api::tiktok::subscription_type_to_api_type(
            tiktonick_bot::api::SubscriptionType::Likes
        ),
        "likes"
    );
}

#[test]
fn status_classification() {
    assert_eq!(interpret_status(200), ApiResponseKind::Success);
    assert_eq!(interpret_status(204), ApiResponseKind::Success);
    assert_eq!(interpret_status(404), ApiResponseKind::NotFound);
    assert_eq!(interpret_status(503), ApiResponseKind::ServiceUnavailable);
    assert_eq!(interpret_status(500), ApiResponseKind::Failure);
    assert_eq!(interpret_status(301), ApiResponseKind::Failure);
}

#[test]
fn count_clamping() {
    assert_eq!(clamp_count(0), 5);
    assert_eq!(clamp_count(5), 5);
    assert_eq!(clamp_count(50), 50);
    assert_eq!(clamp_count(100), 100);
    assert_eq!(clamp_count(200), 100);
}

#[test]
fn tweets_join_authors_and_media() {
    let result = TwitterTweetResult {
        data: vec![
            TweetRespond {
                id: "1".to_string(),
                author_id: "a1".to_string(),
                text: "first".to_string(),
                attachments: Some(vec!["k1".to_string(), "unknown".to_string()]),
            },
            TweetRespond {
                id: "2".to_string(),
                author_id: "a2".to_string(),
                text: "second".to_string(),
                attachments: None,
            },
        ],
        users: vec![
            UserInfo {
                id: "a1".to_string(),
                username: "writer1".to_string(),
                nickname: "Writer One".to_string(),
            },
            UserInfo {
                id: "a2".to_string(),
                username: "writer2".to_string(),
                nickname: "Writer Two".to_string(),
            },
        ],
        media: vec![
            Media {
                media_key: "k1".to_string(),
                url: None,
                preview_image_url: Some("http://preview".to_string()),
            },
        ],
    };
    let items = process_tweet_data(&result).expect("authors are present");
    assert_eq!(items.len(), 2);
    assert_eq!(items[0].id, "1");
    assert_eq!(items[0].author_username, "writer1");
    assert_eq!(items[0].attachments.len(), 1);
    assert_eq!(items[0].attachments[0].url, "http://preview");
    assert_eq!(items[0].attachments[0].name, "k1");
    assert_eq!(items[1].id, "2");
    assert_eq!(items[1].author_nickname, "Writer Two");
    assert!(items[1].attachments.is_empty());
}

#[test]
fn tweets_with_a_missing_author_fail_the_batch() {
    let result = TwitterTweetResult {
        data: vec![TweetRespond {
            id: "1".to_string(),
            author_id: "missing".to_string(),
            text: "t".to_string(),
            attachments: None,
        }],
        users: Vec::new(),
        media: Vec::new(),
    };
    let r = process_tweet_data(&result);
    assert_eq!(r.unwrap_err(), tiktonick_bot::processing::ProcessingError::Transient);
}

#[test]
fn post_resources_become_attachments() {
    let post = Post {
        id: "p1".to_string(),
        thumbnail_url: Some("http://thumb".to_string()),
        url_code: "CODE".to_string(),
        caption_text: Some("cap".to_string()),
        product_type: "feed".to_string(),
        user: InstagramUserInfo {
            id: "u1".to_string(),
            username: "gram".to_string(),
            full_name: Some("Gram G".to_string()),
        },
        video_url: None,
        resources: vec![
            Resource {
                id: "r1".to_string(),
                video_url: Some("http://vid".to_string()),
                thumbnail_url: None,
            },
            Resource {
                id: "r2".to_string(),
                video_url: None,
                thumbnail_url: Some("http://pic".to_string()),
            },
        ],
    };
    let data = post.data();
    assert_eq!(data.len(), 2);
    assert_eq!(data[0].url, "http://vid");
    assert_eq!(data[0].name, "r1");
    assert_eq!(data[1].url, "http://pic");
    assert_eq!(data[1].name, "r2");
}

#[test]
fn post_without_resources_uses_its_own_media() {
    let post = Post {
        id: "p1".to_string(),
        thumbnail_url: Some("http://thumb".to_string()),
        url_code: "CODE".to_string(),
        caption_text: None,
        product_type: "feed".to_string(),
        user: InstagramUserInfo {
            id: "u1".to_string(),
            username: "gram".to_string(),
            full_name: None,
        },
        video_url: None,
        resources: Vec::new(),
    };
    let data = post.data();
    assert_eq!(data.len(), 1);
    assert_eq!(data[0].url, "http://thumb");
    assert_eq!(data[0].name, "p1");
}

#[test]
fn instagram_nickname_falls_back_to_username() {
    let with_name = InstagramUserInfo {
        id: "1".to_string(),
        username: "gram".to_string(),
        full_name: Some("Full Name".to_string()),
    };
    assert_eq!(with_name.to_user_info().nickname, "Full Name");
    let empty_name = InstagramUserInfo {
        id: "1".to_string(),
        username: "gram".to_string(),
        full_name: Some(String::new()),
    };
    assert_eq!(empty_name.to_user_info().nickname, "gram");
    let no_name = InstagramUserInfo {
        id: "1".to_string(),
        username: "gram".to_string(),
        full_name: None,
    };
    assert_eq!(no_name.to_user_info().nickname, "gram");
}
