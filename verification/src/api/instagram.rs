//! The photo-and-story provider: the shape of its posts, how a post's media
//! resources become attachments, and its caption rendering.

use vstd::prelude::*;
use vstd::string::StringExecFns;

use crate::api::{
    str_eq, telegram_user_link, ContentItem, ContentItemView, DataForDownload, DataType, DataView,
    SubscriptionType, UserInfo, UserInfoView,
};
use crate::common::description_builder::{ActionType, BuilderView, DescriptionBuilder, LinkView};
use crate::regexp::{instagram_link_pattern, regex_capture, LinkPatterns};

verus! {

/// One media resource of a post: a video, or a picture.
#[derive(Debug)]
pub struct Resource {
    pub id: String,
    pub video_url: Option<String>,
    pub thumbnail_url: Option<String>,
}

/// A fetched post as the provider returns it.
#[derive(Debug)]
pub struct Post {
    pub id: String,
    pub thumbnail_url: Option<String>,
    pub url_code: String,
    pub caption_text: Option<String>,
    pub product_type: String,
    pub user: InstagramUserInfo,
    pub video_url: Option<String>,
    pub resources: Vec<Resource>,
}

/// A profile as the provider returns it: the display name is optional.
#[derive(Debug)]
pub struct InstagramUserInfo {
    pub id: String,
    pub username: String,
    pub full_name: Option<String>,
}

/// The display name of a profile: the full name when one is set and
/// non-empty, else the username.
pub open spec fn nickname_spec(username: Seq<char>, full_name: Option<Seq<char>>) -> Seq<char> {
    match full_name {
        Some(f) => if f.len() == 0 {
            username
        } else {
            f
        },
        None => username,
    }
}

impl InstagramUserInfo {
    pub open spec fn full_name_view(&self) -> Option<Seq<char>> {
        match self.full_name {
            Some(f) => Some(f@),
            None => None,
        }
    }

    /// The name shown for this profile.
    pub fn nickname(&self) -> (r: &str)
        ensures
            r@ == nickname_spec(self.username@, self.full_name_view()),
    {
        match &self.full_name {
            Some(full_name) => {
                if full_name.as_str().is_empty() {
                    self.username.as_str()
                } else {
                    full_name.as_str()
                }
            },
            None => self.username.as_str(),
        }
    }

    /// The provider-independent profile of this user.
    pub fn to_user_info(&self) -> (r: UserInfo)
        ensures
            r@ == (UserInfoView {
                id: self.id@,
                username: self.username@,
                nickname: nickname_spec(self.username@, self.full_name_view()),
            }),
    {
        UserInfo {
            id: self.id.clone(),
            username: self.username.clone(),
            nickname: String::from_str(self.nickname()),
        }
    }
}

/// What one resource downloads as: its video if it has one, else its
/// picture.
pub open spec fn resource_data(r: ResourceView) -> DataView {
    match r.video_url {
        Some(u) => DataView { url: u, name: r.id, data_type: DataType::Video },
        None => DataView {
            url: match r.thumbnail_url {
                Some(t) => t,
                None => Seq::<char>::empty(),
            },
            name: r.id,
            data_type: DataType::Image,
        },
    }
}

/// The mathematical value of one resource.
pub ghost struct ResourceView {
    pub id: Seq<char>,
    pub video_url: Option<Seq<char>>,
    pub thumbnail_url: Option<Seq<char>>,
}

impl View for Resource {
    type V = ResourceView;

    open spec fn view(&self) -> ResourceView {
        ResourceView {
            id: self.id@,
            video_url: match self.video_url {
                Some(u) => Some(u@),
                None => None,
            },
            thumbnail_url: match self.thumbnail_url {
                Some(t) => Some(t@),
                None => None,
            },
        }
    }
}

impl DeepView for Resource {
    type V = ResourceView;

    open spec fn deep_view(&self) -> ResourceView {
        self.view()
    }
}

/// A resource that can be downloaded: it has a video or a picture.
pub open spec fn resource_complete(r: ResourceView) -> bool {
    r.video_url is Some || r.thumbnail_url is Some
}

/// The attachments of a post: one per resource when it has resources, else
/// the post's own video or picture.
pub open spec fn post_attachments(p: PostView) -> Seq<DataView> {
    if p.resources.len() > 0 {
        p.resources.map_values(|r: ResourceView| resource_data(r))
    } else {
        seq![
            resource_data(
                ResourceView {
                    id: p.id,
                    video_url: p.video_url,
                    thumbnail_url: p.thumbnail_url,
                },
            ),
        ]
    }
}

/// The mathematical value of one post.
pub ghost struct PostView {
    pub id: Seq<char>,
    pub thumbnail_url: Option<Seq<char>>,
    pub url_code: Seq<char>,
    pub caption_text: Option<Seq<char>>,
    pub product_type: Seq<char>,
    pub user: ResourcelessUserView,
    pub video_url: Option<Seq<char>>,
    pub resources: Seq<ResourceView>,
}

/// The profile fields a post carries.
pub ghost struct ResourcelessUserView {
    pub id: Seq<char>,
    pub username: Seq<char>,
    pub full_name: Option<Seq<char>>,
}

impl View for Post {
    type V = PostView;

    open spec fn view(&self) -> PostView {
        PostView {
            id: self.id@,
            thumbnail_url: match self.thumbnail_url {
                Some(t) => Some(t@),
                None => None,
            },
            url_code: self.url_code@,
            caption_text: match self.caption_text {
                Some(c) => Some(c@),
                None => None,
            },
            product_type: self.product_type@,
            user: ResourcelessUserView {
                id: self.user.id@,
                username: self.user.username@,
                full_name: self.user.full_name_view(),
            },
            video_url: match self.video_url {
                Some(v) => Some(v@),
                None => None,
            },
            resources: self.resources.deep_view(),
        }
    }
}

/// A post whose media can all be downloaded.
pub open spec fn post_complete(p: PostView) -> bool {
    if p.resources.len() > 0 {
        forall|i: int| 0 <= i < p.resources.len() ==> resource_complete(#[trigger] p.resources[i])
    } else {
        p.video_url is Some || p.thumbnail_url is Some
    }
}

impl Post {
    /// The downloadable media of this post.
    pub fn data(&self) -> (r: Vec<DataForDownload>)
        requires
            post_complete(self@),
        ensures
            r.deep_view() == post_attachments(self@),
    {
        if self.resources.len() > 0 {
            let n = self.resources.len();
            let mut out: Vec<DataForDownload> = Vec::new();
            let mut i: usize = 0;
            while i < n
                invariant
                    n == self.resources@.len(),
                    post_complete(self@),
                    self@.resources.len() == n,
                    0 <= i <= n,
                    out.deep_view().len() == i,
                    forall|j: int|
                        0 <= j < i ==> out.deep_view()[j] == resource_data(
                            #[trigger] self.resources.deep_view()[j],
                        ),
                decreases n - i,
            {
                let r = &self.resources[i];
                let item = match &r.video_url {
                    Some(video_url) => DataForDownload {
                        url: video_url.clone(),
                        name: r.id.clone(),
                        data_type: DataType::Video,
                    },
                    None => {
                        match &r.thumbnail_url {
                            Some(thumbnail_url) => DataForDownload {
                                url: thumbnail_url.clone(),
                                name: r.id.clone(),
                                data_type: DataType::Image,
                            },
                            None => {
                                proof {
                                    assert(resource_complete(self@.resources[i as int]));
                                    assert(false);
                                }
                                DataForDownload {
                                    url: String::new(),
                                    name: r.id.clone(),
                                    data_type: DataType::Image,
                                }
                            },
                        }
                    },
                };
                let ghost before = out.deep_view();
                out.push(item);
                proof {
                    assert(out.deep_view() =~= before.push(
                        resource_data(self.resources.deep_view()[i as int]),
                    ));
                }
                i += 1;
            }
            proof {
                assert(out.deep_view() =~= post_attachments(self@));
            }
            out
        } else {
            let item = match &self.video_url {
                Some(video_url) => DataForDownload {
                    url: video_url.clone(),
                    name: self.id.clone(),
                    data_type: DataType::Video,
                },
                None => {
                    match &self.thumbnail_url {
                        Some(thumbnail_url) => DataForDownload {
                            url: thumbnail_url.clone(),
                            name: self.id.clone(),
                            data_type: DataType::Image,
                        },
                        None => {
                            proof {
                                assert(false);
                            }
                            DataForDownload {
                                url: String::new(),
                                name: self.id.clone(),
                                data_type: DataType::Image,
                            }
                        },
                    }
                },
            };
            let mut out: Vec<DataForDownload> = Vec::new();
            out.push(item);
            proof {
                assert(out.deep_view() =~= post_attachments(self@));
            }
            out
        }
    }
}

/// A post's page.
pub open spec fn instagram_post_url(code: Seq<char>) -> Seq<char> {
    "https://instagram.com/p/"@ + code + "/"@
}

fn build_post_url(code: &str) -> (r: String)
    ensures
        r@ == instagram_post_url(code@),
{
    let mut s = String::from_str("https://instagram.com/p/");
    s.append(code);
    s.append("/");
    s
}

/// A story's page.
pub open spec fn instagram_story_url(user: Seq<char>, id: Seq<char>) -> Seq<char> {
    "https://instagram.com/stories/"@ + user + "/"@ + id
}

fn build_story_url(user: &str, id: &str) -> (r: String)
    ensures
        r@ == instagram_story_url(user@, id@),
{
    let mut s = String::from_str("https://instagram.com/stories/");
    s.append(user);
    s.append("/");
    s.append(id);
    s
}

/// A user's profile page.
pub open spec fn instagram_user_link(user: Seq<char>) -> Seq<char> {
    "https://instagram.com/"@ + user + "/"@
}

fn build_user_link(user: &str) -> (r: String)
    ensures
        r@ == instagram_user_link(user@),
{
    let mut s = String::from_str("https://instagram.com/");
    s.append(user);
    s.append("/");
    s
}

/// The caption of one dispatched item.  Stories link to the story page,
/// posts to the post page; a shared link is framed by who shared it.
pub open spec fn instagram_description_spec(
    user: UserInfoView,
    item: ContentItemView,
    url_code: Seq<char>,
    product_type: Seq<char>,
    output: crate::api::OutputType,
) -> BuilderView {
    BuilderView {
        who: match output {
            crate::api::OutputType::BySubscription(_) => Some(
                LinkView { text: user.nickname, url: instagram_user_link(user.username) },
            ),
            crate::api::OutputType::ByLink(tg) => Some(
                LinkView { text: tg.name@, url: telegram_user_link(tg.id as int) },
            ),
        },
        action: match output {
            crate::api::OutputType::BySubscription(_) => Some(ActionType::Posted),
            crate::api::OutputType::ByLink(_) => Some(ActionType::Shared),
        },
        content: match output {
            crate::api::OutputType::BySubscription(SubscriptionType::Likes) => Some(
                LinkView { text: "story"@, url: instagram_story_url(user.username, item.id) },
            ),
            crate::api::OutputType::BySubscription(SubscriptionType::Content) => Some(
                LinkView { text: "post"@, url: instagram_post_url(url_code) },
            ),
            crate::api::OutputType::ByLink(_) => if product_type == "story"@ {
                Some(LinkView { text: "story"@, url: instagram_story_url(user.username, item.id) })
            } else {
                Some(LinkView { text: "post"@, url: instagram_post_url(url_code) })
            },
        },
        from: match output {
            crate::api::OutputType::BySubscription(_) => None,
            crate::api::OutputType::ByLink(_) => Some(
                LinkView { text: user.nickname, url: instagram_user_link(user.username) },
            ),
        },
        description: if item.text.len() == 0 {
            None
        } else {
            Some(item.text)
        },
        size_limit: None,
        achieved_content_size_limit: None,
    }
}

/// Render the caption builder for one item.  The item's text is the post's
/// caption (empty when the post had none); `url_code` and `product_type` are
/// the post fields the links are built from.
pub fn prepare_description(
    user_info: &UserInfo,
    item: &ContentItem,
    url_code: &str,
    product_type: &str,
    output: &crate::api::OutputType,
) -> (b: DescriptionBuilder)
    ensures
        b@ == instagram_description_spec(user_info@, item@, url_code@, product_type@, *output),
{
    let builder = DescriptionBuilder::new();
    let builder = match output {
        crate::api::OutputType::BySubscription(stype) => {
            let builder = match stype {
                SubscriptionType::Likes => builder.content(
                    "story",
                    build_story_url(user_info.username.as_str(), item.id.as_str()).as_str(),
                ),
                SubscriptionType::Content => builder.content(
                    "post",
                    build_post_url(url_code).as_str(),
                ),
            };
            builder.action(ActionType::Posted).who(
                user_info.nickname.as_str(),
                build_user_link(user_info.username.as_str()).as_str(),
            )
        },
        crate::api::OutputType::ByLink(tguser) => {
            let builder = if str_eq(product_type, "story") {
                builder.content(
                    "story",
                    build_story_url(user_info.username.as_str(), item.id.as_str()).as_str(),
                )
            } else {
                builder.content("post", build_post_url(url_code).as_str())
            };
            builder.who(tguser.name.as_str(), tguser.user_link().as_str()).action(
                ActionType::Shared,
            ).from(
                user_info.nickname.as_str(),
                build_user_link(user_info.username.as_str()).as_str(),
            )
        },
    };
    if item.text.as_str().is_empty() {
        builder
    } else {
        builder.description(item.text.clone())
    }
}

/// The content id of a post link: its second capture group.
pub fn get_content_id_from_url(patterns: &LinkPatterns, url: &str) -> (r: Option<String>)
    requires
        patterns.wf(),
    ensures
        match r {
            Some(id) => regex_capture(instagram_link_pattern(), url@, 2) == Some(id@),
            None => regex_capture(instagram_link_pattern(), url@, 2) is None,
        },
{
    patterns.instagram.capture(url, 2)
}

} // verus!
