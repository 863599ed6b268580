//! Link recognition: which provider a pasted URL belongs to, and the capture
//! groups the providers' content ids are read from.  The matching itself is
//! done by the `regex` crate behind trusted wrappers; everything a match
//! result means is named here and used by verified code.

use vstd::prelude::*;

use crate::api::{Api, TelegramUser};
use crate::processing::{LinkInfo, UserRequest};

verus! {

#[verifier::external_type_specification]
#[verifier::external_body]
pub struct ExRegex(regex::Regex);

/// Whether `pattern` is a valid regular expression (what `Regex::new`
/// accepts).  A function of the pattern alone.
pub uninterp spec fn regex_valid(pattern: Seq<char>) -> bool;

/// Whether `pattern` matches anywhere in `text`.  A function of pattern and
/// text alone.
pub uninterp spec fn regex_is_match(pattern: Seq<char>, text: Seq<char>) -> bool;

/// The text of capture group `group` of the first match of `pattern` in
/// `text`; `None` when there is no match or the group took no part in it.
pub uninterp spec fn regex_capture(pattern: Seq<char>, text: Seq<char>, group: int) -> Option<
    Seq<char>,
>;

/// The successive non-overlapping matches of `pattern` in `text`, in order.
pub uninterp spec fn regex_matches(pattern: Seq<char>, text: Seq<char>) -> Seq<Seq<char>>;

/// A compiled pattern, kept together with its source so that contracts can
/// speak of what it matches.
pub struct LinkPattern {
    source: String,
    regex: regex::Regex,
}

impl LinkPattern {
    /// The pattern this matcher was compiled from.
    pub closed spec fn src(&self) -> Seq<char> {
        self.source@
    }

    /// Relies on regex::Regex::new: compiles `source`, succeeding exactly on
    /// valid patterns.
    #[verifier::external_body]
    pub fn new(source: &str) -> (r: Option<LinkPattern>)
        ensures
            r is Some <==> regex_valid(source@),
            r matches Some(p) ==> p.src() == source@,
    {
        match regex::Regex::new(source) {
            Ok(regex) => Some(LinkPattern { source: source.to_owned(), regex }),
            Err(_) => None,
        }
    }

    /// Relies on regex::Regex::is_match: true if and only if the pattern
    /// matches anywhere in `text`.
    #[verifier::external_body]
    pub fn is_match(&self, text: &str) -> (r: bool)
        ensures
            r == regex_is_match(self.src(), text@),
    {
        self.regex.is_match(text)
    }

    /// Relies on regex::Regex::captures (and Captures::get): the text of one
    /// capture group of the first match.
    #[verifier::external_body]
    pub fn capture(&self, text: &str, group: usize) -> (r: Option<String>)
        ensures
            match r {
                Some(s) => regex_capture(self.src(), text@, group as int) == Some(s@),
                None => regex_capture(self.src(), text@, group as int) is None,
            },
    {
        self.regex.captures(text).and_then(|c| c.get(group)).map(|m| m.as_str().to_owned())
    }

    /// Relies on regex::Regex::find_iter: the successive non-overlapping
    /// matches, in order.
    #[verifier::external_body]
    pub fn find_all(&self, text: &str) -> (r: Vec<String>)
        ensures
            r.deep_view() == regex_matches(self.src(), text@),
    {
        self.regex.find_iter(text).map(|m| m.as_str().to_owned()).collect()
    }
}

pub open spec fn tiktok_full_link_pattern() -> Seq<char> {
    r#"(https://www\.tiktok\.com/(@.+)/video/([0-9]+))"#@
}

pub open spec fn tiktok_short_link_pattern() -> Seq<char> {
    r#"(https://vm\.tiktok\.com/[^[:punct:]\s]+/)"#@
}

pub open spec fn twitter_link_pattern() -> Seq<char> {
    r#"(https://twitter\.com/(.+)/status/([0-9]+))"#@
}

pub open spec fn instagram_link_pattern() -> Seq<char> {
    r#"((?:https://)?www\.instagram\.com/(?:tv|reel|p|stories/[^/]+)/([^/]+))"#@
}

/// The compiled link patterns, built once at startup and passed by reference.
pub struct LinkPatterns {
    pub tiktok_full: LinkPattern,
    pub tiktok_short: LinkPattern,
    pub twitter: LinkPattern,
    pub instagram: LinkPattern,
}

impl LinkPatterns {
    pub open spec fn wf(&self) -> bool {
        &&& self.tiktok_full.src() == tiktok_full_link_pattern()
        &&& self.tiktok_short.src() == tiktok_short_link_pattern()
        &&& self.twitter.src() == twitter_link_pattern()
        &&& self.instagram.src() == instagram_link_pattern()
    }

    /// Compile the four fixed patterns; fails only if one of these literals
    /// were not a valid regular expression.
    pub fn new() -> (r: Option<LinkPatterns>)
        ensures
            r matches Some(p) ==> p.wf(),
    {
        let tiktok_full = LinkPattern::new(r#"(https://www\.tiktok\.com/(@.+)/video/([0-9]+))"#);
        let tiktok_short = LinkPattern::new(r#"(https://vm\.tiktok\.com/[^[:punct:]\s]+/)"#);
        let twitter = LinkPattern::new(r#"(https://twitter\.com/(.+)/status/([0-9]+))"#);
        let instagram = LinkPattern::new(
            r#"((?:https://)?www\.instagram\.com/(?:tv|reel|p|stories/[^/]+)/([^/]+))"#,
        );
        match (tiktok_full, tiktok_short, twitter, instagram) {
            (Some(tf), Some(ts), Some(tw), Some(ig)) => Some(
                LinkPatterns { tiktok_full: tf, tiktok_short: ts, twitter: tw, instagram: ig },
            ),
            _ => None,
        }
    }

    /// Which provider a pasted URL belongs to, trying the full-link patterns
    /// in a fixed order.
    pub fn match_api(&self, url: &str) -> (r: Option<Api>)
        requires
            self.wf(),
        ensures
            r == (if regex_is_match(tiktok_full_link_pattern(), url@) {
                Some(Api::Tiktok)
            } else if regex_is_match(twitter_link_pattern(), url@) {
                Some(Api::Twitter)
            } else if regex_is_match(instagram_link_pattern(), url@) {
                Some(Api::Instagram)
            } else {
                None::<Api>
            }),
    {
        if self.tiktok_full.is_match(url) {
            Some(Api::Tiktok)
        } else if self.twitter.is_match(url) {
            Some(Api::Twitter)
        } else if self.instagram.is_match(url) {
            Some(Api::Instagram)
        } else {
            None
        }
    }

    /// Whether a URL is a shortened link that must be resolved to a full one
    /// before its content id can be read.
    pub fn is_tiktok_short_link(&self, url: &str) -> (r: bool)
        requires
            self.wf(),
        ensures
            r == regex_is_match(tiktok_short_link_pattern(), url@),
    {
        self.tiktok_short.is_match(url)
    }
}

/// Whether `r` is a direct-link request for `api` and `link` from `chat`.
pub open spec fn is_link_request(
    r: UserRequest,
    api: Api,
    chat: Seq<char>,
    tg: TelegramUser,
    link: Seq<char>,
) -> bool {
    &&& r matches UserRequest::ProcessLink(l)
    &&& l.api == api
    &&& l.chat_id@ == chat
    &&& l.telegram_user == tg
    &&& l.link@ == link
}

/// Push one direct-link request per match of `pattern` in `text`.
fn push_link_requests(
    out: &mut Vec<UserRequest>,
    pattern: &LinkPattern,
    api: Api,
    text: &str,
    chat_id: &str,
    tguser: &TelegramUser,
)
    ensures
        final(out)@.len() == old(out)@.len() + regex_matches(pattern.src(), text@).len(),
        forall|j: int|
            0 <= j < old(out)@.len() ==> final(out)@[j] == old(out)@[j],
        forall|j: int|
            0 <= j < regex_matches(pattern.src(), text@).len() ==> is_link_request(
                #[trigger] final(out)@[old(out)@.len() + j],
                api,
                chat_id@,
                *tguser,
                regex_matches(pattern.src(), text@)[j],
            ),
{
    let found = pattern.find_all(text);
    let n = found.len();
    let mut i: usize = 0;
    while i < n
        invariant
            n == found@.len(),
            found.deep_view() == regex_matches(pattern.src(), text@),
            0 <= i <= n,
            out@.len() == old(out)@.len() + i,
            forall|j: int| 0 <= j < old(out)@.len() ==> out@[j] == old(out)@[j],
            forall|j: int|
                0 <= j < i ==> is_link_request(
                    #[trigger] out@[old(out)@.len() + j],
                    api,
                    chat_id@,
                    *tguser,
                    found.deep_view()[j],
                ),
        decreases n - i,
    {
        let link_info = LinkInfo {
            chat_id: String::from_str(chat_id),
            telegram_user: TelegramUser { name: tguser.name.clone(), id: tguser.id },
            api,
            link: found[i].clone(),
        };
        out.push(UserRequest::ProcessLink(link_info));
        proof {
            assert(found.deep_view()[i as int] == found@[i as int]@);
        }
        i += 1;
    }
}

/// Every direct-link request a chat message gives rise to: one per match of
/// each provider's link pattern, pattern by pattern in a fixed order.
pub fn collect_link_requests(
    patterns: &LinkPatterns,
    text: &str,
    chat_id: &str,
    tguser: &TelegramUser,
) -> (out: Vec<UserRequest>)
    requires
        patterns.wf(),
    ensures
        ({
            let m_tw = regex_matches(twitter_link_pattern(), text@);
            let m_tf = regex_matches(tiktok_full_link_pattern(), text@);
            let m_ts = regex_matches(tiktok_short_link_pattern(), text@);
            let m_ig = regex_matches(instagram_link_pattern(), text@);
            &&& out@.len() == m_tw.len() + m_tf.len() + m_ts.len() + m_ig.len()
            &&& forall|j: int|
                0 <= j < m_tw.len() ==> is_link_request(
                    #[trigger] out@[j],
                    Api::Twitter,
                    chat_id@,
                    *tguser,
                    m_tw[j],
                )
            &&& forall|j: int|
                0 <= j < m_tf.len() ==> is_link_request(
                    #[trigger] out@[m_tw.len() + j],
                    Api::Tiktok,
                    chat_id@,
                    *tguser,
                    m_tf[j],
                )
            &&& forall|j: int|
                0 <= j < m_ts.len() ==> is_link_request(
                    #[trigger] out@[m_tw.len() + m_tf.len() + j],
                    Api::Tiktok,
                    chat_id@,
                    *tguser,
                    m_ts[j],
                )
            &&& forall|j: int|
                0 <= j < m_ig.len() ==> is_link_request(
                    #[trigger] out@[m_tw.len() + m_tf.len() + m_ts.len() + j],
                    Api::Instagram,
                    chat_id@,
                    *tguser,
                    m_ig[j],
                )
        }),
{
    let ghost m_tw = regex_matches(twitter_link_pattern(), text@);
    let ghost m_tf = regex_matches(tiktok_full_link_pattern(), text@);
    let ghost m_ts = regex_matches(tiktok_short_link_pattern(), text@);
    let ghost m_ig = regex_matches(instagram_link_pattern(), text@);
    let mut out: Vec<UserRequest> = Vec::new();
    push_link_requests(&mut out, &patterns.twitter, Api::Twitter, text, chat_id, tguser);
    let ghost after_tw = out@;
    push_link_requests(&mut out, &patterns.tiktok_full, Api::Tiktok, text, chat_id, tguser);
    let ghost after_tf = out@;
    push_link_requests(&mut out, &patterns.tiktok_short, Api::Tiktok, text, chat_id, tguser);
    let ghost after_ts = out@;
    push_link_requests(&mut out, &patterns.instagram, Api::Instagram, text, chat_id, tguser);
    proof {
        assert forall|j: int| 0 <= j < m_tw.len() implies is_link_request(
            #[trigger] out@[j],
            Api::Twitter,
            chat_id@,
            *tguser,
            m_tw[j],
        ) by {
            assert(out@[j] == after_ts[j]);
            assert(after_ts[j] == after_tf[j]);
            assert(after_tf[j] == after_tw[j]);
            assert(is_link_request(after_tw[0 + j], Api::Twitter, chat_id@, *tguser, m_tw[j]));
        }
        assert forall|j: int| 0 <= j < m_tf.len() implies is_link_request(
            #[trigger] out@[m_tw.len() + j],
            Api::Tiktok,
            chat_id@,
            *tguser,
            m_tf[j],
        ) by {
            assert(out@[m_tw.len() + j] == after_ts[m_tw.len() + j]);
            assert(after_ts[m_tw.len() + j] == after_tf[m_tw.len() + j]);
            assert(is_link_request(
                after_tf[after_tw.len() + j],
                Api::Tiktok,
                chat_id@,
                *tguser,
                m_tf[j],
            ));
        }
        assert forall|j: int| 0 <= j < m_ts.len() implies is_link_request(
            #[trigger] out@[m_tw.len() + m_tf.len() + j],
            Api::Tiktok,
            chat_id@,
            *tguser,
            m_ts[j],
        ) by {
            assert(out@[m_tw.len() + m_tf.len() + j] == after_ts[m_tw.len() + m_tf.len() + j]);
            assert(is_link_request(
                after_ts[after_tf.len() + j],
                Api::Tiktok,
                chat_id@,
                *tguser,
                m_ts[j],
            ));
        }
        assert forall|j: int| 0 <= j < m_ig.len() implies is_link_request(
            #[trigger] out@[m_tw.len() + m_tf.len() + m_ts.len() + j],
            Api::Instagram,
            chat_id@,
            *tguser,
            m_ig[j],
        ) by {
            assert(is_link_request(
                out@[after_ts.len() + j],
                Api::Instagram,
                chat_id@,
                *tguser,
                m_ig[j],
            ));
        }
    }
    out
}

} // verus!
