//! The microblogging provider: the shape of its API answers, the join of
//! tweets with their authors and media, and its caption rendering.

use vstd::prelude::*;

use crate::api::{
    clone_string_vec, str_eq, telegram_user_link, ContentItem, ContentItemView, DataForDownload,
    DataType, DataView, SubscriptionType, UserInfo, UserInfoView,
};
use crate::common::description_builder::{ActionType, BuilderView, DescriptionBuilder, LinkView};
use crate::processing::ProcessingError;
use crate::regexp::{regex_capture, twitter_link_pattern, LinkPatterns};
use vstd::string::StringExecFns;

verus! {

/// One media object of an API answer.
#[derive(Debug)]
pub struct Media {
    pub media_key: String,
    pub url: Option<String>,
    pub preview_image_url: Option<String>,
}

/// The mathematical value of one media object.
pub ghost struct MediaView {
    pub media_key: Seq<char>,
    pub url: Option<Seq<char>>,
    pub preview_image_url: Option<Seq<char>>,
}

impl View for Media {
    type V = MediaView;

    open spec fn view(&self) -> MediaView {
        MediaView {
            media_key: self.media_key@,
            url: match self.url {
                Some(u) => Some(u@),
                None => None,
            },
            preview_image_url: match self.preview_image_url {
                Some(p) => Some(p@),
                None => None,
            },
        }
    }
}

impl DeepView for Media {
    type V = MediaView;

    open spec fn deep_view(&self) -> MediaView {
        self.view()
    }
}

/// One tweet of an API answer, before its author and media are joined in.
#[derive(Debug)]
pub struct TweetRespond {
    pub id: String,
    pub author_id: String,
    pub text: String,
    pub attachments: Option<Vec<String>>,
}

/// The mathematical value of one tweet answer.
pub ghost struct TweetRespondView {
    pub id: Seq<char>,
    pub author_id: Seq<char>,
    pub text: Seq<char>,
    pub attachments: Option<Seq<Seq<char>>>,
}

impl View for TweetRespond {
    type V = TweetRespondView;

    open spec fn view(&self) -> TweetRespondView {
        TweetRespondView {
            id: self.id@,
            author_id: self.author_id@,
            text: self.text@,
            attachments: match self.attachments {
                Some(keys) => Some(keys.deep_view()),
                None => None,
            },
        }
    }
}

impl DeepView for TweetRespond {
    type V = TweetRespondView;

    open spec fn deep_view(&self) -> TweetRespondView {
        self.view()
    }
}

/// A whole content answer: the tweets, the profiles and media they refer to.
#[derive(Debug)]
pub struct TwitterTweetResult {
    pub data: Vec<TweetRespond>,
    pub users: Vec<UserInfo>,
    pub media: Vec<Media>,
}

/// The first profile carrying `id`, if any.
pub open spec fn find_author(users: Seq<UserInfoView>, id: Seq<char>) -> Option<UserInfoView>
    decreases users.len(),
{
    if users.len() == 0 {
        None
    } else if users[0].id == id {
        Some(users[0])
    } else {
        find_author(users.drop_first(), id)
    }
}

/// The first media object carrying `key`, if any.
pub open spec fn find_media(media: Seq<MediaView>, key: Seq<char>) -> Option<MediaView>
    decreases media.len(),
{
    if media.len() == 0 {
        None
    } else if media[0].media_key == key {
        Some(media[0])
    } else {
        find_media(media.drop_first(), key)
    }
}

/// The address a media object downloads from: its full URL, or its preview.
pub open spec fn media_url(m: MediaView) -> Option<Seq<char>> {
    match m.url {
        Some(u) => Some(u),
        None => m.preview_image_url,
    }
}

/// The attachments named by a key list: one image per key whose media object
/// is known and has an address; unknown keys and address-less media are
/// skipped, as the API supports not all media types.
pub open spec fn attachments_for_keys(keys: Seq<Seq<char>>, media: Seq<MediaView>) -> Seq<DataView>
    decreases keys.len(),
{
    if keys.len() == 0 {
        Seq::<DataView>::empty()
    } else {
        let rest = attachments_for_keys(keys.drop_first(), media);
        match find_media(media, keys[0]) {
            Some(m) => match media_url(m) {
                Some(u) => seq![DataView { url: u, name: keys[0], data_type: DataType::Image }]
                    + rest,
                None => rest,
            },
            None => rest,
        }
    }
}

/// A tweet's attachments: resolved from its media keys, or none when the
/// tweet names no attachments or the answer carried no media.
pub open spec fn tweet_attachments(t: TweetRespondView, media: Seq<MediaView>) -> Seq<DataView> {
    match t.attachments {
        Some(keys) => if media.len() == 0 {
            Seq::<DataView>::empty()
        } else {
            attachments_for_keys(keys, media)
        },
        None => Seq::<DataView>::empty(),
    }
}

/// One tweet joined with its author and media; `None` when the answer does
/// not carry the author's profile, which fails the whole batch.
pub open spec fn tweet_item(
    t: TweetRespondView,
    users: Seq<UserInfoView>,
    media: Seq<MediaView>,
) -> Option<ContentItemView> {
    match find_author(users, t.author_id) {
        Some(author) => Some(
            ContentItemView {
                id: t.id,
                text: t.text,
                author_username: author.username,
                author_nickname: author.nickname,
                attachments: tweet_attachments(t, media),
            },
        ),
        None => None,
    }
}

proof fn lemma_find_author_first(users: Seq<UserInfoView>, id: Seq<char>, i: int)
    requires
        0 <= i < users.len(),
        users[i].id == id,
        forall|j: int| 0 <= j < i ==> (#[trigger] users[j]).id != id,
    ensures
        find_author(users, id) == Some(users[i]),
    decreases i,
{
    if i > 0 {
        assert(forall|j: int|
            0 <= j < users.drop_first().len() ==> #[trigger] users.drop_first()[j] == users[j + 1]);
        lemma_find_author_first(users.drop_first(), id, i - 1);
    }
}

proof fn lemma_find_author_none(users: Seq<UserInfoView>, id: Seq<char>)
    requires
        forall|j: int| 0 <= j < users.len() ==> (#[trigger] users[j]).id != id,
    ensures
        find_author(users, id) is None,
    decreases users.len(),
{
    if users.len() > 0 {
        assert(forall|j: int|
            0 <= j < users.drop_first().len() ==> #[trigger] users.drop_first()[j] == users[j + 1]);
        lemma_find_author_none(users.drop_first(), id);
    }
}

fn exec_find_author(users: &Vec<UserInfo>, id: &str) -> (r: Option<UserInfo>)
    ensures
        match r {
            Some(u) => find_author(users.deep_view(), id@) == Some(u@),
            None => find_author(users.deep_view(), id@) is None,
        },
{
    let n = users.len();
    let mut i: usize = 0;
    while i < n
        invariant
            n == users@.len(),
            0 <= i <= n,
            forall|j: int| 0 <= j < i ==> (#[trigger] users.deep_view()[j]).id != id@,
        decreases n - i,
    {
        if str_eq(users[i].id.as_str(), id) {
            proof {
                lemma_find_author_first(users.deep_view(), id@, i as int);
            }
            return Some(crate::api::clone_user_info(&users[i]));
        }
        i += 1;
    }
    proof {
        lemma_find_author_none(users.deep_view(), id@);
    }
    None
}

proof fn lemma_find_media_first(media: Seq<MediaView>, key: Seq<char>, i: int)
    requires
        0 <= i < media.len(),
        media[i].media_key == key,
        forall|j: int| 0 <= j < i ==> (#[trigger] media[j]).media_key != key,
    ensures
        find_media(media, key) == Some(media[i]),
    decreases i,
{
    if i > 0 {
        assert(forall|j: int|
            0 <= j < media.drop_first().len() ==> #[trigger] media.drop_first()[j] == media[j + 1]);
        lemma_find_media_first(media.drop_first(), key, i - 1);
    }
}

proof fn lemma_find_media_none(media: Seq<MediaView>, key: Seq<char>)
    requires
        forall|j: int| 0 <= j < media.len() ==> (#[trigger] media[j]).media_key != key,
    ensures
        find_media(media, key) is None,
    decreases media.len(),
{
    if media.len() > 0 {
        assert(forall|j: int|
            0 <= j < media.drop_first().len() ==> #[trigger] media.drop_first()[j] == media[j + 1]);
        lemma_find_media_none(media.drop_first(), key);
    }
}

fn exec_find_media<'a>(media: &'a Vec<Media>, key: &str) -> (r: Option<&'a Media>)
    ensures
        match r {
            Some(m) => find_media(media.deep_view(), key@) == Some(m@),
            None => find_media(media.deep_view(), key@) is None,
        },
{
    let n = media.len();
    let mut i: usize = 0;
    while i < n
        invariant
            n == media@.len(),
            0 <= i <= n,
            forall|j: int| 0 <= j < i ==> (#[trigger] media.deep_view()[j]).media_key != key@,
        decreases n - i,
    {
        if str_eq(media[i].media_key.as_str(), key) {
            proof {
                lemma_find_media_first(media.deep_view(), key@, i as int);
            }
            return Some(&media[i]);
        }
        i += 1;
    }
    proof {
        lemma_find_media_none(media.deep_view(), key@);
    }
    None
}

fn resolve_attachments(keys: &Vec<String>, media: &Vec<Media>) -> (out: Vec<DataForDownload>)
    ensures
        out.deep_view() == attachments_for_keys(keys.deep_view(), media.deep_view()),
    decreases keys@.len(),
{
    // Walk the keys back to front so each step prepends conceptually; the
    // recursion in the specification peels the first key, so the loop builds
    // the suffix results first and the head result is pushed at its place.
    let n = keys.len();
    let mut out: Vec<DataForDownload> = Vec::new();
    let mut i: usize = n;
    proof {
        assert(keys.deep_view().skip(n as int) =~= Seq::<Seq<char>>::empty());
        assert(out.deep_view() =~= Seq::<DataView>::empty());
    }
    while i > 0
        invariant
            n == keys@.len(),
            0 <= i <= n,
            out.deep_view() == attachments_for_keys(
                keys.deep_view().skip(i as int),
                media.deep_view(),
            ),
        decreases i,
    {
        i = i - 1;
        let found = exec_find_media(media, keys[i].as_str());
        let ghost rest = out.deep_view();
        let mut added: Option<DataForDownload> = None;
        match found {
            Some(m) => {
                match &m.url {
                    Some(u) => {
                        added = Some(
                            DataForDownload {
                                url: u.clone(),
                                name: keys[i].clone(),
                                data_type: DataType::Image,
                            },
                        );
                    },
                    None => {
                        match &m.preview_image_url {
                            Some(p) => {
                                added = Some(
                                    DataForDownload {
                                        url: p.clone(),
                                        name: keys[i].clone(),
                                        data_type: DataType::Image,
                                    },
                                );
                            },
                            None => {},
                        }
                    },
                }
            },
            None => {},
        }
        match added {
            Some(item) => {
                let mut fresh: Vec<DataForDownload> = Vec::new();
                fresh.push(item);
                let mut tail = out;
                fresh.append(&mut tail);
                out = fresh;
            },
            None => {},
        }
        proof {
            let ks = keys.deep_view().skip(i as int);
            assert(ks[0] == keys.deep_view()[i as int]);
            assert(ks.drop_first() =~= keys.deep_view().skip(i as int + 1));
            match find_media(media.deep_view(), keys.deep_view()[i as int]) {
                Some(m) => {
                    match media_url(m) {
                        Some(u) => {
                            assert(out.deep_view() =~= seq![
                                DataView {
                                    url: u,
                                    name: keys.deep_view()[i as int],
                                    data_type: DataType::Image,
                                },
                            ] + rest);
                        },
                        None => {},
                    }
                },
                None => {},
            }
        }
    }
    proof {
        assert(keys.deep_view().skip(0) =~= keys.deep_view());
    }
    out
}

/// Join a whole content answer: each tweet with its author's profile and its
/// resolved attachments.  The answer must carry every author; a missing one
/// fails the whole batch, which the processor retries.
pub fn process_tweet_data(tweets: &TwitterTweetResult) -> (r: Result<
    Vec<ContentItem>,
    ProcessingError,
>)
    ensures
        match r {
            Ok(items) => {
                &&& items.deep_view().len() == tweets.data.deep_view().len()
                &&& forall|i: int|
                    0 <= i < items.deep_view().len() ==> Some(#[trigger] items.deep_view()[i])
                        == tweet_item(
                        tweets.data.deep_view()[i],
                        tweets.users.deep_view(),
                        tweets.media.deep_view(),
                    )
            },
            Err(e) => {
                &&& e == ProcessingError::Transient
                &&& exists|i: int|
                    0 <= i < tweets.data.deep_view().len() && tweet_item(
                        #[trigger] tweets.data.deep_view()[i],
                        tweets.users.deep_view(),
                        tweets.media.deep_view(),
                    ) is None
            },
        },
{
    let n = tweets.data.len();
    let mut items: Vec<ContentItem> = Vec::new();
    let mut i: usize = 0;
    while i < n
        invariant
            n == tweets.data@.len(),
            0 <= i <= n,
            items.deep_view().len() == i,
            forall|j: int|
                0 <= j < i ==> Some(#[trigger] items.deep_view()[j]) == tweet_item(
                    tweets.data.deep_view()[j],
                    tweets.users.deep_view(),
                    tweets.media.deep_view(),
                ),
        decreases n - i,
    {
        let tweet = &tweets.data[i];
        let author = match exec_find_author(&tweets.users, tweet.author_id.as_str()) {
            Some(author) => author,
            None => {
                proof {
                    assert(tweet_item(
                        tweets.data.deep_view()[i as int],
                        tweets.users.deep_view(),
                        tweets.media.deep_view(),
                    ) is None);
                }
                return Err(ProcessingError::Transient);
            },
        };
        let attachments: Vec<DataForDownload> = match &tweet.attachments {
            Some(keys) => {
                if tweets.media.len() == 0 {
                    Vec::new()
                } else {
                    resolve_attachments(keys, &tweets.media)
                }
            },
            None => Vec::new(),
        };
        proof {
            assert(attachments.deep_view() =~= tweet_attachments(
                tweets.data.deep_view()[i as int],
                tweets.media.deep_view(),
            ));
        }
        let item = ContentItem {
            id: tweet.id.clone(),
            text: tweet.text.clone(),
            author_username: author.username,
            author_nickname: author.nickname,
            attachments,
        };
        let ghost before = items.deep_view();
        items.push(item);
        proof {
            assert(items.deep_view() =~= before.push(items.deep_view()[i as int]));
            assert(Some(items.deep_view()[i as int]) == tweet_item(
                tweets.data.deep_view()[i as int],
                tweets.users.deep_view(),
                tweets.media.deep_view(),
            ));
        }
        i += 1;
    }
    Ok(items)
}

/// A tweet's page.
pub open spec fn tweet_link(username: Seq<char>, id: Seq<char>) -> Seq<char> {
    "https://twitter.com/"@ + username + "/status/"@ + id
}

fn build_tweet_link(username: &str, id: &str) -> (r: String)
    ensures
        r@ == tweet_link(username@, id@),
{
    let mut s = String::from_str("https://twitter.com/");
    s.append(username);
    s.append("/status/");
    s.append(id);
    s
}

/// A user's profile page.
pub open spec fn twitter_user_link(user: Seq<char>) -> Seq<char> {
    "https://twitter.com/"@ + user
}

fn build_user_link(user: &str) -> (r: String)
    ensures
        r@ == twitter_user_link(user@),
{
    let mut s = String::from_str("https://twitter.com/");
    s.append(user);
    s
}

/// The caption of one dispatched tweet.
pub open spec fn twitter_description_spec(
    user: UserInfoView,
    item: ContentItemView,
    output: crate::api::OutputType,
) -> BuilderView {
    BuilderView {
        who: match output {
            crate::api::OutputType::BySubscription(_) => Some(
                LinkView { text: user.nickname, url: twitter_user_link(user.username) },
            ),
            crate::api::OutputType::ByLink(tg) => Some(
                LinkView { text: tg.name@, url: telegram_user_link(tg.id as int) },
            ),
        },
        action: match output {
            crate::api::OutputType::BySubscription(SubscriptionType::Likes) => Some(
                ActionType::Liked,
            ),
            crate::api::OutputType::BySubscription(SubscriptionType::Content) => Some(
                ActionType::Posted,
            ),
            crate::api::OutputType::ByLink(_) => Some(ActionType::Shared),
        },
        content: Some(
            LinkView { text: "tweet"@, url: tweet_link(item.author_username, item.id) },
        ),
        from: match output {
            crate::api::OutputType::BySubscription(SubscriptionType::Likes) => Some(
                LinkView {
                    text: item.author_nickname,
                    url: twitter_user_link(item.author_username),
                },
            ),
            crate::api::OutputType::BySubscription(SubscriptionType::Content) => None,
            crate::api::OutputType::ByLink(_) => Some(
                LinkView {
                    text: item.author_nickname,
                    url: twitter_user_link(item.author_username),
                },
            ),
        },
        description: Some(item.text),
        size_limit: None,
        achieved_content_size_limit: None,
    }
}

/// Render the caption builder for one tweet.
pub fn prepare_description(
    user_info: &UserInfo,
    item: &ContentItem,
    output: &crate::api::OutputType,
) -> (b: DescriptionBuilder)
    ensures
        b@ == twitter_description_spec(user_info@, item@, *output),
{
    let link = build_tweet_link(item.author_username.as_str(), item.id.as_str());
    let builder = DescriptionBuilder::new();
    let builder = match output {
        crate::api::OutputType::BySubscription(stype) => {
            let builder = match stype {
                SubscriptionType::Likes => builder.action(ActionType::Liked).from(
                    item.author_nickname.as_str(),
                    build_user_link(item.author_username.as_str()).as_str(),
                ),
                SubscriptionType::Content => builder.action(ActionType::Posted),
            };
            builder.who(
                user_info.nickname.as_str(),
                build_user_link(user_info.username.as_str()).as_str(),
            )
        },
        crate::api::OutputType::ByLink(tguser) => builder.who(
            tguser.name.as_str(),
            tguser.user_link().as_str(),
        ).action(ActionType::Shared).from(
            item.author_nickname.as_str(),
            build_user_link(item.author_username.as_str()).as_str(),
        ),
    };
    builder.content("tweet", link.as_str()).description(item.text.clone())
}

/// The request count the provider accepts: at least 5, at most 100.
pub fn clamp_count(count: u8) -> (r: u8)
    ensures
        r == (if count < 5 {
            5u8
        } else if count > 100 {
            100u8
        } else {
            count
        }),
{
    if count < 5 {
        5
    } else if count > 100 {
        100
    } else {
        count
    }
}

/// The content id of a tweet link: its third capture group.
pub fn get_content_id_from_url(patterns: &LinkPatterns, url: &str) -> (r: Option<String>)
    requires
        patterns.wf(),
    ensures
        match r {
            Some(id) => regex_capture(twitter_link_pattern(), url@, 3) == Some(id@),
            None => regex_capture(twitter_link_pattern(), url@, 3) is None,
        },
{
    patterns.twitter.capture(url, 3)
}

} // verus!
