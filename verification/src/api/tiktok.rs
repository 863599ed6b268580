//! The short-video provider: its caption rendering, its link handling, and
//! the query strings of its self-hosted scraper endpoint.

use vstd::prelude::*;
use vstd::string::StringExecFns;

use crate::api::{telegram_user_link, Api, ContentItemView, SubscriptionType, UserInfoView};
use crate::api::{ContentItem, UserInfo};
use crate::common::description_builder::{ActionType, BuilderView, DescriptionBuilder, LinkView};
use crate::common::numbers::{dec_str, u64_to_string};
use crate::regexp::{regex_capture, tiktok_full_link_pattern, LinkPatterns};

verus! {

/// How one character is written as regular HTML text.
pub open spec fn escaped_char(c: char) -> Seq<char> {
    if c == '&' {
        "&amp;"@
    } else if c == '<' {
        "&lt;"@
    } else if c == '>' {
        "&gt;"@
    } else {
        seq![c]
    }
}

/// A text with `&`, `<` and `>` written as HTML entities.
pub open spec fn html_escape_text(s: Seq<char>) -> Seq<char>
    decreases s.len(),
{
    if s.len() == 0 {
        Seq::<char>::empty()
    } else {
        escaped_char(s[0]) + html_escape_text(s.drop_first())
    }
}

/// Relies on html_escape::encode_text: escapes exactly `&` as `&amp;`, `<` as
/// `&lt;` and `>` as `&gt;`, leaving every other character in place.
#[verifier::external_body]
fn encode_html_text(s: &str) -> (r: String)
    ensures
        r@ == html_escape_text(s@),
{
    html_escape::encode_text(s).to_string()
}

/// A user's profile page.
pub open spec fn tiktok_user_link(user: Seq<char>) -> Seq<char> {
    "https://tiktok.com/@"@ + user
}

fn build_user_link(user: &str) -> (r: String)
    ensures
        r@ == tiktok_user_link(user@),
{
    let mut s = String::from_str("https://tiktok.com/@");
    s.append(user);
    s
}

/// A single video's page.
pub open spec fn tiktok_video_link(author: Seq<char>, id: Seq<char>) -> Seq<char> {
    "https://tiktok.com/@"@ + author + "/video/"@ + id
}

fn build_video_link(author: &str, id: &str) -> (r: String)
    ensures
        r@ == tiktok_video_link(author@, id@),
{
    let mut s = String::from_str("https://tiktok.com/@");
    s.append(author);
    s.append("/video/");
    s.append(id);
    s
}

/// The caption of one dispatched video: who liked, posted or shared it, a
/// link to the video and its author, and the escaped description text.
pub open spec fn tiktok_description_spec(
    user: UserInfoView,
    item: ContentItemView,
    output: crate::api::OutputType,
) -> BuilderView {
    BuilderView {
        who: match output {
            crate::api::OutputType::BySubscription(_) => Some(
                LinkView { text: user.nickname, url: tiktok_user_link(user.username) },
            ),
            crate::api::OutputType::ByLink(tg) => Some(
                LinkView { text: tg.name@, url: telegram_user_link(tg.id as int) },
            ),
        },
        action: match output {
            crate::api::OutputType::BySubscription(SubscriptionType::Likes) => Some(
                ActionType::Liked,
            ),
            crate::api::OutputType::BySubscription(SubscriptionType::Content) => Some(
                ActionType::Posted,
            ),
            crate::api::OutputType::ByLink(_) => Some(ActionType::Shared),
        },
        content: Some(
            LinkView { text: "video"@, url: tiktok_video_link(item.author_username, item.id) },
        ),
        from: match output {
            crate::api::OutputType::BySubscription(SubscriptionType::Likes) => Some(
                LinkView {
                    text: item.author_nickname,
                    url: tiktok_user_link(item.author_username),
                },
            ),
            crate::api::OutputType::BySubscription(SubscriptionType::Content) => None,
            crate::api::OutputType::ByLink(_) => Some(
                LinkView {
                    text: item.author_nickname,
                    url: tiktok_user_link(item.author_username),
                },
            ),
        },
        description: Some(html_escape_text(item.text)),
        size_limit: None,
        achieved_content_size_limit: None,
    }
}

/// Render the caption builder for one video.
pub fn prepare_description(
    user_info: &UserInfo,
    item: &ContentItem,
    output: &crate::api::OutputType,
) -> (b: DescriptionBuilder)
    ensures
        b@ == tiktok_description_spec(user_info@, item@, *output),
{
    let description = encode_html_text(item.text.as_str());
    let video_link = build_video_link(item.author_username.as_str(), item.id.as_str());
    let builder = DescriptionBuilder::new();
    let builder = match output {
        crate::api::OutputType::BySubscription(stype) => {
            let builder = match stype {
                SubscriptionType::Likes => builder.action(ActionType::Liked).from(
                    item.author_nickname.as_str(),
                    build_user_link(item.author_username.as_str()).as_str(),
                ),
                SubscriptionType::Content => builder.action(ActionType::Posted),
            };
            builder.who(
                user_info.nickname.as_str(),
                build_user_link(user_info.username.as_str()).as_str(),
            )
        },
        crate::api::OutputType::ByLink(tguser) => builder.who(
            tguser.name.as_str(),
            tguser.user_link().as_str(),
        ).action(ActionType::Shared).from(
            item.author_nickname.as_str(),
            build_user_link(item.author_username.as_str()).as_str(),
        ),
    };
    builder.content("video", video_link.as_str()).description(description)
}

/// Which path segment of the internal API serves each subscription kind.
pub fn subscription_type_to_api_type(s: SubscriptionType) -> (r: &'static str)
    ensures
        s == SubscriptionType::Likes ==> r@ == "likes"@,
        s == SubscriptionType::Content ==> r@ == "videos"@,
{
    match s {
        SubscriptionType::Likes => "likes",
        SubscriptionType::Content => "videos",
    }
}

/// The content id of a full video link: its third capture group.  A shortened
/// link has to be resolved to a full one first (`is_tiktok_short_link`).
pub fn get_content_id_from_url(patterns: &LinkPatterns, url: &str) -> (r: Option<String>)
    requires
        patterns.wf(),
    ensures
        match r {
            Some(id) => regex_capture(tiktok_full_link_pattern(), url@, 3) == Some(id@),
            None => regex_capture(tiktok_full_link_pattern(), url@, 3) is None,
        },
{
    patterns.tiktok_full.capture(url, 3)
}

/// The query string of the self-hosted scraper endpoint for this provider.
pub open spec fn tiktok_query_spec(
    domain: Seq<char>,
    api_name: Seq<char>,
    id: Seq<char>,
    count: u8,
    secret: Seq<char>,
) -> Seq<char> {
    domain + "/api/"@ + api_name + "/?username="@ + id + "&count="@ + dec_str(count as nat)
        + "&key="@ + secret
}

/// The self-hosted scraper endpoint for this provider.
#[derive(Debug)]
pub struct TiktokApi {
    pub secret: String,
    pub tiktok_domain: String,
}

impl TiktokApi {
    pub fn new(secret: String, tiktok_domain: String) -> (r: TiktokApi)
        ensures
            r.secret@ == secret@,
            r.tiktok_domain@ == tiktok_domain@,
    {
        TiktokApi { secret, tiktok_domain }
    }

    pub fn create_query(&self, api_name: &str, id: &str, count: u8) -> (r: String)
        ensures
            r@ == tiktok_query_spec(self.tiktok_domain@, api_name@, id@, count, self.secret@),
    {
        let mut s = self.tiktok_domain.clone();
        s.append("/api/");
        s.append(api_name);
        s.append("/?username=");
        s.append(id);
        s.append("&count=");
        let n = u64_to_string(count as u64);
        s.append(n.as_str());
        s.append("&key=");
        s.append(self.secret.as_str());
        s
    }
}

/// The scraper-endpoint query parameter per subscription kind.
pub fn to_query_param(s: SubscriptionType) -> (r: &'static str)
    ensures
        s == SubscriptionType::Content ==> r@ == "user_videos"@,
        s == SubscriptionType::Likes ==> r@ == "user_likes"@,
{
    match s {
        SubscriptionType::Content => "user_videos",
        SubscriptionType::Likes => "user_likes",
    }
}

} // verus!
