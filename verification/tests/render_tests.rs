use tiktonick_bot::api::{
    clone_item, ContentItem, DataForDownload, DataType, OutputType, SubscriptionType, TelegramUser,
    UserInfo,
};
use tiktonick_bot::common::description_builder::{ActionType, DescriptionBuilder};
use tiktonick_bot::processing::{attachment_filename, collect_attachments, plan_send, SendPlan};

fn profile(name: &str) -> UserInfo {
    UserInfo {
        id: name.to_string(),
        username: name.to_string(),
        nickname: format!("Nick {}", name),
    }
}

#[test]
fn builder_renders_every_part() {
    let text = DescriptionBuilder::new()
        .who("W", "http://w")
        .action(ActionType::Liked)
        .content("video", "http://v")
        .from("F", "http://f")
        .description("D".to_string())
        .build();
    assert_eq!(
        text,
        "<i><a href=\"http://w\">W</a> liked <a href=\"http://v\">video</a> from \
         <a href=\"http://f\">F</a></i>:\n\nD"
    );
}

#[test]
fn builder_without_action_says_processed() {
    let text = DescriptionBuilder::new().who("W", "u").build();
    assert_eq!(text, "<i><a href=\"u\">W</a> processed</i>");
}

#[test]
fn builder_truncates_at_the_size_limit() {
    let long = "x".repeat(100);
    let text = DescriptionBuilder::new().description(long).size_limit(40).build();
    let suffix = "... [Read more in the source]";
    assert_eq!(text.chars().count(), 40);
    assert!(text.ends_with(suffix));
    assert!(text.starts_with("<i>"));
}

#[test]
fn builder_below_the_limit_is_untouched() {
    let text = DescriptionBuilder::new().description("short".to_string()).size_limit(4096).build();
    assert_eq!(text, "<i> processed</i>:\n\nshort");
}

#[test]
fn oversize_banner_precedes_everything() {
    let text = DescriptionBuilder::new().achieved_content_size_limit(true).build();
    assert!(text.starts_with("<i><b>Attached video is too huge for inline display.</b>\n\n"));
}

#[test]
fn tiktok_caption_escapes_html() {
    let item = ContentItem {
        id: "7".to_string(),
        text: "a < b & c > d".to_string(),
        author_username: "auth".to_string(),
        author_nickname: "Auth".to_string(),
        attachments: Vec::new(),
    };
    let builder = tiktonick_bot::api::tiktok::prepare_description(
        &profile("alice"),
        &item,
        &OutputType::BySubscription(SubscriptionType::Content),
    );
    let text = builder.build();
    assert!(text.contains("a &lt; b &amp; c &gt; d"));
    assert!(!text.contains("a < b & c > d"));
    assert!(text.contains("<a href=\"https://tiktok.com/@auth/video/7\">video</a>"));
    assert!(text.contains("Nick alice"));
    assert!(text.contains(" posted"));
}

#[test]
fn tiktok_like_caption_names_the_author() {
    let item = ContentItem {
        id: "7".to_string(),
        text: "t".to_string(),
        author_username: "auth".to_string(),
        author_nickname: "Auth".to_string(),
        attachments: Vec::new(),
    };
    let builder = tiktonick_bot::api::tiktok::prepare_description(
        &profile("alice"),
        &item,
        &OutputType::BySubscription(SubscriptionType::Likes),
    );
    let text = builder.build();
    assert!(text.contains(" liked"));
    assert!(text.contains("from <a href=\"https://tiktok.com/@auth\">Auth</a>"));
}

#[test]
fn twitter_caption_links_the_tweet() {
    let item = ContentItem {
        id: "99".to_string(),
        text: "hello".to_string(),
        author_username: "writer".to_string(),
        author_nickname: "Writer".to_string(),
        attachments: Vec::new(),
    };
    let builder = tiktonick_bot::api::twitter::prepare_description(
        &profile("reader"),
        &item,
        &OutputType::BySubscription(SubscriptionType::Likes),
    );
    let text = builder.build();
    assert!(text.contains("<a href=\"https://twitter.com/writer/status/99\">tweet</a>"));
    assert!(text.contains(" liked"));
    assert!(text.ends_with(":\n\nhello"));
}

#[test]
fn shared_caption_links_the_sharer() {
    let item = ContentItem {
        id: "99".to_string(),
        text: "hello".to_string(),
        author_username: "writer".to_string(),
        author_nickname: "Writer".to_string(),
        attachments: Vec::new(),
    };
    let tg = TelegramUser { name: "Pat".to_string(), id: 42 };
    let builder = tiktonick_bot::api::twitter::prepare_description(
        &profile("reader"),
        &item,
        &OutputType::ByLink(tg),
    );
    let text = builder.build();
    assert!(text.contains("<a href=\"tg://user?id=42\">Pat</a>"));
    assert!(text.contains(" shared"));
}

#[test]
fn instagram_caption_story_and_post_links() {
    let item = ContentItem {
        id: "55".to_string(),
        text: "cap".to_string(),
        author_username: "author".to_string(),
        author_nickname: "Author".to_string(),
        attachments: Vec::new(),
    };
    let story = tiktonick_bot::api::instagram::prepare_description(
        &profile("gram"),
        &item,
        "CODE",
        "feed",
        &OutputType::BySubscription(SubscriptionType::Likes),
    )
    .build();
    assert!(story.contains("<a href=\"https://instagram.com/stories/gram/55\">story</a>"));
    let post = tiktonick_bot::api::instagram::prepare_description(
        &profile("gram"),
        &item,
        "CODE",
        "feed",
        &OutputType::BySubscription(SubscriptionType::Content),
    )
    .build();
    assert!(post.contains("<a href=\"https://instagram.com/p/CODE/\">post</a>"));
    assert!(post.contains(" posted"));
}

#[test]
fn plan_send_without_attachments_is_text() {
    let item = ContentItem {
        id: "1".to_string(),
        text: "t".to_string(),
        author_username: "a".to_string(),
        author_nickname: "A".to_string(),
        attachments: Vec::new(),
    };
    let builder = DescriptionBuilder::new().who("W", "u").description("t".to_string());
    let plan = plan_send(builder, &item, &Vec::new());
    match plan {
        SendPlan::TextMessage(t) => assert_eq!(t, "<i><a href=\"u\">W</a> processed</i>:\n\nt"),
        _ => panic!("expected a text message"),
    }
}

#[test]
fn plan_send_groups_media_with_one_caption() {
    let item = ContentItem {
        id: "1".to_string(),
        text: "t".to_string(),
        author_username: "a".to_string(),
        author_nickname: "A".to_string(),
        attachments: vec![
            DataForDownload {
                url: "u1".to_string(),
                name: "n1".to_string(),
                data_type: DataType::Video,
            },
            DataForDownload {
                url: "u2".to_string(),
                name: "n2".to_string(),
                data_type: DataType::Image,
            },
        ],
    };
    let builder = DescriptionBuilder::new().description("t".to_string());
    let plan = plan_send(builder, &item, &vec![1000, 2000]);
    match plan {
        SendPlan::MediaGroup(media) => {
            assert_eq!(media.len(), 2);
            assert_eq!(media[0].filename, "content/n1.mp4");
            assert_eq!(media[1].filename, "content/n2.jpg");
            assert!(media[0].caption.is_some());
            assert!(media[1].caption.is_none());
            assert_eq!(media[0].caption.as_ref().unwrap(), "<i> processed</i>:\n\nt");
        }
        _ => panic!("expected a media group"),
    }
}

#[test]
fn plan_send_falls_back_to_text_over_the_size_cap() {
    let item = ContentItem {
        id: "1".to_string(),
        text: "t".to_string(),
        author_username: "a".to_string(),
        author_nickname: "A".to_string(),
        attachments: vec![DataForDownload {
            url: "u1".to_string(),
            name: "n1".to_string(),
            data_type: DataType::Video,
        }],
    };
    let builder = DescriptionBuilder::new();
    let plan = plan_send(builder, &item, &vec![51 * 1024 * 1024]);
    match plan {
        SendPlan::TextMessage(t) => {
            assert!(t.contains("<b>Attached video is too huge for inline display.</b>"));
        }
        _ => panic!("expected a text fallback"),
    }
}

#[test]
fn attachment_filenames_follow_the_cache_key() {
    let video = DataForDownload {
        url: "u".to_string(),
        name: "abc".to_string(),
        data_type: DataType::Video,
    };
    assert_eq!(attachment_filename(&video), "content/abc.mp4");
    let image = DataForDownload {
        url: "u".to_string(),
        name: "xyz".to_string(),
        data_type: DataType::Image,
    };
    assert_eq!(attachment_filename(&image), "content/xyz.jpg");
    assert_eq!(DataType::Video.to_extension(), "mp4");
    assert_eq!(DataType::Image.to_extension(), "jpg");
}

#[test]
fn collect_attachments_flattens_in_item_order() {
    let a = ContentItem {
        id: "1".to_string(),
        text: String::new(),
        author_username: "a".to_string(),
        author_nickname: "A".to_string(),
        attachments: vec![DataForDownload {
            url: "u1".to_string(),
            name: "n1".to_string(),
            data_type: DataType::Video,
        }],
    };
    let b = ContentItem {
        id: "2".to_string(),
        text: String::new(),
        author_username: "a".to_string(),
        author_nickname: "A".to_string(),
        attachments: vec![
            DataForDownload {
                url: "u2".to_string(),
                name: "n2".to_string(),
                data_type: DataType::Image,
            },
            DataForDownload {
                url: "u3".to_string(),
                name: "n3".to_string(),
                data_type: DataType::Image,
            },
        ],
    };
    let all = collect_attachments(&vec![a, b]);
    let names: Vec<&str> = all.iter().map(|d| d.name.as_str()).collect();
    assert_eq!(names, vec!["n1", "n2", "n3"]);
}

#[test]
fn clone_item_copies_every_field() {
    let original = ContentItem {
        id: "1".to_string(),
        text: "t".to_string(),
        author_username: "a".to_string(),
        author_nickname: "A".to_string(),
        attachments: vec![DataForDownload {
            url: "u".to_string(),
            name: "n".to_string(),
            data_type: DataType::Image,
        }],
    };
    let copy = clone_item(&original);
    assert_eq!(copy.id, original.id);
    assert_eq!(copy.text, original.text);
    assert_eq!(copy.attachments.len(), 1);
    assert_eq!(copy.attachments[0].url, "u");
}
