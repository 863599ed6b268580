//! The data model shared by every feed provider: which providers exist,
//! which kinds of subscription a chat can hold, and the shape of a fetched
//! content item.

pub mod api_requests;
pub mod instagram;
pub mod tiktok;
pub mod twitter;

use vstd::prelude::*;
use vstd::string::StringExecFns;

use crate::common::numbers::{dec_str_signed, i64_to_string};

verus! {

/// A feed source the bot can watch.
#[derive(Debug, Copy, Clone, PartialEq, Eq, Structural)]
pub enum Api {
    Tiktok,
    Twitter,
    Instagram,
}

/// A category of content from a provider a chat can subscribe to.
#[derive(Debug, Copy, Clone, PartialEq, Eq, Structural)]
pub enum SubscriptionType {
    Likes,
    Content,
}

impl SubscriptionType {
    /// Every subscription kind, in the order the scheduler walks them.
    pub fn iterator() -> (kinds: Vec<SubscriptionType>)
        ensures
            kinds@ =~= seq![SubscriptionType::Content, SubscriptionType::Likes],
    {
        let mut kinds: Vec<SubscriptionType> = Vec::new();
        kinds.push(SubscriptionType::Content);
        kinds.push(SubscriptionType::Likes);
        kinds
    }
}

/// The media kind of a downloadable attachment.
#[derive(Debug, Copy, Clone, PartialEq, Eq, Structural)]
pub enum DataType {
    Image,
    Video,
}

impl DataType {
    /// The file extension the local attachment cache keys this kind under.
    pub fn to_extension(&self) -> (ext: &'static str)
        ensures
            *self == DataType::Video ==> ext@ == "mp4"@,
            *self == DataType::Image ==> ext@ == "jpg"@,
    {
        match *self {
            DataType::Video => "mp4",
            DataType::Image => "jpg",
        }
    }
}

/// One downloadable attachment of a content item: where to get it, the
/// stable name it is cached under, and its media kind.
#[derive(Debug)]
pub struct DataForDownload {
    pub url: String,
    pub name: String,
    pub data_type: DataType,
}

/// The mathematical value of one attachment.
pub ghost struct DataView {
    pub url: Seq<char>,
    pub name: Seq<char>,
    pub data_type: DataType,
}

impl View for DataForDownload {
    type V = DataView;

    open spec fn view(&self) -> DataView {
        DataView { url: self.url@, name: self.name@, data_type: self.data_type }
    }
}

impl DeepView for DataForDownload {
    type V = DataView;

    open spec fn deep_view(&self) -> DataView {
        self.view()
    }
}

/// One fetched content item, already reduced to plain values: a stable id,
/// its renderable text, its author, and zero or more attachments.
#[derive(Debug)]
pub struct ContentItem {
    pub id: String,
    pub text: String,
    pub author_username: String,
    pub author_nickname: String,
    pub attachments: Vec<DataForDownload>,
}

/// The mathematical value of one content item.
pub ghost struct ContentItemView {
    pub id: Seq<char>,
    pub text: Seq<char>,
    pub author_username: Seq<char>,
    pub author_nickname: Seq<char>,
    pub attachments: Seq<DataView>,
}

impl View for ContentItem {
    type V = ContentItemView;

    open spec fn view(&self) -> ContentItemView {
        ContentItemView {
            id: self.id@,
            text: self.text@,
            author_username: self.author_username@,
            author_nickname: self.author_nickname@,
            attachments: self.attachments.deep_view(),
        }
    }
}

impl DeepView for ContentItem {
    type V = ContentItemView;

    open spec fn deep_view(&self) -> ContentItemView {
        self.view()
    }
}

impl ContentItem {
    /// Whether dispatching this item sends media rather than plain text.
    pub fn is_data_for_download(&self) -> (r: bool)
        ensures
            r == (self.attachments@.len() > 0),
    {
        self.attachments.len() > 0
    }
}

/// A feed user's profile as the provider returns it.
#[derive(Debug)]
pub struct UserInfo {
    pub id: String,
    pub username: String,
    pub nickname: String,
}

/// The mathematical value of one profile.
pub ghost struct UserInfoView {
    pub id: Seq<char>,
    pub username: Seq<char>,
    pub nickname: Seq<char>,
}

impl View for UserInfo {
    type V = UserInfoView;

    open spec fn view(&self) -> UserInfoView {
        UserInfoView { id: self.id@, username: self.username@, nickname: self.nickname@ }
    }
}

impl DeepView for UserInfo {
    type V = UserInfoView;

    open spec fn deep_view(&self) -> UserInfoView {
        self.view()
    }
}

/// The chat-platform user who asked for a link to be processed.
#[derive(Debug)]
pub struct TelegramUser {
    pub name: String,
    pub id: i64,
}

/// The deep link addressing a chat-platform user by numeric id.
pub open spec fn telegram_user_link(id: int) -> Seq<char> {
    "tg://user?id="@ + dec_str_signed(id)
}

impl TelegramUser {
    pub fn user_link(&self) -> (r: String)
        ensures
            r@ == telegram_user_link(self.id as int),
    {
        let mut s = String::from_str("tg://user?id=");
        let n = i64_to_string(self.id);
        s.append(n.as_str());
        s
    }
}

/// Compares two strings by their character sequences.
pub fn str_eq(a: &str, b: &str) -> (r: bool)
    ensures
        r == (a@ == b@),
{
    let sa = String::from_str(a);
    let sb = String::from_str(b);
    sa == sb
}

/// How a dispatched item is framed: as a subscription update, or as a link
/// shared by a chat member.
#[derive(Debug)]
pub enum OutputType {
    BySubscription(SubscriptionType),
    ByLink(TelegramUser),
}

/// An exact copy of one attachment.
pub fn clone_data(d: &DataForDownload) -> (r: DataForDownload)
    ensures
        r == *d,
{
    DataForDownload { url: d.url.clone(), name: d.name.clone(), data_type: d.data_type }
}

/// An exact copy of an attachment list.
pub fn clone_attachments(v: &Vec<DataForDownload>) -> (r: Vec<DataForDownload>)
    ensures
        r@ == v@,
{
    let mut out: Vec<DataForDownload> = Vec::new();
    let n = v.len();
    let mut i: usize = 0;
    while i < n
        invariant
            n == v.len(),
            0 <= i <= n,
            out@.len() == i,
            forall|j: int| 0 <= j < i ==> out@[j] == v@[j],
        decreases n - i,
    {
        out.push(clone_data(&v[i]));
        i += 1;
    }
    proof {
        assert(out@ =~= v@);
    }
    out
}

/// A copy of one content item, equal to it in value.
pub fn clone_item(it: &ContentItem) -> (r: ContentItem)
    ensures
        r@ == it@,
{
    ContentItem {
        id: it.id.clone(),
        text: it.text.clone(),
        author_username: it.author_username.clone(),
        author_nickname: it.author_nickname.clone(),
        attachments: clone_attachments(&it.attachments),
    }
}

/// A copy of one profile, equal to it in value.
pub fn clone_user_info(u: &UserInfo) -> (r: UserInfo)
    ensures
        r@ == u@,
{
    UserInfo { id: u.id.clone(), username: u.username.clone(), nickname: u.nickname.clone() }
}

/// An exact copy of a list of ids.
pub fn clone_string_vec(v: &Vec<String>) -> (r: Vec<String>)
    ensures
        r@ == v@,
{
    let mut out: Vec<String> = Vec::new();
    let n = v.len();
    let mut i: usize = 0;
    while i < n
        invariant
            n == v.len(),
            0 <= i <= n,
            out@.len() == i,
            forall|j: int| 0 <= j < i ==> out@[j] == v@[j],
        decreases n - i,
    {
        out.push(v[i].clone());
        i += 1;
    }
    proof {
        assert(out@ =~= v@);
    }
    out
}

} // verus!
