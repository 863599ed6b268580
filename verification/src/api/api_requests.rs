//! The request URLs the providers' internal API is called with, and the
//! classification of its HTTP answers.  The network call itself happens
//! outside this crate; everything here is string building and the decision
//! what a status code means.

use vstd::prelude::*;
use vstd::string::StringExecFns;

use crate::api::Api;
use crate::common::numbers::{dec_str, u64_to_string};

verus! {

/// One request against the internal provider API.
#[derive(Debug)]
pub enum Request<'a> {
    UserData(&'a str),
    Content(&'a str, &'a str, u8),
    ContentById(&'a str),
}

/// The path a request is addressed under.
pub open spec fn request_string_spec(r: Request) -> Seq<char> {
    match r {
        Request::UserData(username) => "user_info/"@ + username@,
        Request::Content(username, content_type, count) => content_type@ + "/"@ + username@ + "/"@
            + dec_str(count as nat),
        Request::ContentById(id) => "content_by_id/"@ + id@,
    }
}

impl<'a> Request<'a> {
    pub fn request_string(&self) -> (r: String)
        ensures
            r@ == request_string_spec(*self),
    {
        match self {
            Request::UserData(username) => {
                let mut s = String::from_str("user_info/");
                s.append(username);
                s
            },
            Request::Content(username, content_type, count) => {
                let mut s = String::from_str(content_type);
                s.append("/");
                s.append(username);
                s.append("/");
                let n = u64_to_string(*count as u64);
                s.append(n.as_str());
                proof {
                    assert(s@ =~= request_string_spec(*self));
                }
                s
            },
            Request::ContentById(id) => {
                let mut s = String::from_str("content_by_id/");
                s.append(id);
                s
            },
        }
    }
}

/// The path segment naming a provider in the internal API.
pub open spec fn api_string_spec(api: Api) -> Seq<char> {
    match api {
        Api::Twitter => "twitter"@,
        Api::Tiktok => "tiktok"@,
        Api::Instagram => "instagram"@,
    }
}

impl Api {
    pub fn api_to_string(&self) -> (r: String)
        ensures
            r@ == api_string_spec(*self),
    {
        match self {
            Api::Twitter => "twitter",
            Api::Tiktok => "tiktok",
            Api::Instagram => "instagram",
        }.to_owned()
    }
}

/// Builds the URLs of the internal provider API.  The secret is carried along
/// so the driver can authenticate the call; it never appears in a URL.
#[derive(Debug)]
pub struct ApiUrlGenerator {
    pub internal_api_url: String,
    pub internal_api_secret: String,
    pub api: String,
}

pub open spec fn content_by_id_url(domain: Seq<char>, api: Seq<char>, id: Seq<char>) -> Seq<char> {
    domain + "/api/"@ + api + "/content_by_id/"@ + id
}

pub open spec fn user_content_url(
    domain: Seq<char>,
    api: Seq<char>,
    user_id: Seq<char>,
    content_type: Seq<char>,
    count: u8,
) -> Seq<char> {
    domain + "/api/"@ + api + "/"@ + user_id + "/"@ + content_type + "/"@ + dec_str(count as nat)
}

pub open spec fn user_info_url(domain: Seq<char>, api: Seq<char>, user_id: Seq<char>) -> Seq<char> {
    domain + "/api/"@ + api + "/user_info/"@ + user_id
}

impl ApiUrlGenerator {
    pub fn new(internal_api_url: String, internal_api_secret: String, api: String) -> (r:
        ApiUrlGenerator)
        ensures
            r.internal_api_url@ == internal_api_url@,
            r.internal_api_secret@ == internal_api_secret@,
            r.api@ == api@,
    {
        ApiUrlGenerator { internal_api_url, internal_api_secret, api }
    }

    pub fn get_content_by_id(&self, content_id: &str) -> (r: String)
        ensures
            r@ == content_by_id_url(self.internal_api_url@, self.api@, content_id@),
    {
        let mut s = self.internal_api_url.clone();
        s.append("/api/");
        s.append(self.api.as_str());
        s.append("/content_by_id/");
        s.append(content_id);
        s
    }

    pub fn get_user_content_by_type(&self, user_id: &str, content_type: &str, count: u8) -> (r:
        String)
        ensures
            r@ == user_content_url(
                self.internal_api_url@,
                self.api@,
                user_id@,
                content_type@,
                count,
            ),
    {
        let mut s = self.internal_api_url.clone();
        s.append("/api/");
        s.append(self.api.as_str());
        s.append("/");
        s.append(user_id);
        s.append("/");
        s.append(content_type);
        s.append("/");
        let n = u64_to_string(count as u64);
        s.append(n.as_str());
        s
    }

    pub fn get_user_info(&self, user_id: &str) -> (r: String)
        ensures
            r@ == user_info_url(self.internal_api_url@, self.api@, user_id@),
    {
        let mut s = self.internal_api_url.clone();
        s.append("/api/");
        s.append(self.api.as_str());
        s.append("/user_info/");
        s.append(user_id);
        s
    }
}

/// What an HTTP status of the internal API means to the engine.
#[derive(Debug, PartialEq, Eq, Structural)]
pub enum ApiResponseKind {
    /// The body carries the requested data.
    Success,
    /// The user or content does not exist upstream: not an error.
    NotFound,
    /// The upstream proxy is unavailable; retry later.
    ServiceUnavailable,
    /// Any other failure.
    Failure,
}

/// Classify a response status: 2xx succeeds, 404 means absent upstream, 503
/// is the proxy being unavailable, anything else fails the request.
pub fn interpret_status(status: u16) -> (r: ApiResponseKind)
    ensures
        r == (if 200 <= status < 300 {
            ApiResponseKind::Success
        } else if status == 404 {
            ApiResponseKind::NotFound
        } else if status == 503 {
            ApiResponseKind::ServiceUnavailable
        } else {
            ApiResponseKind::Failure
        }),
{
    if 200 <= status && status < 300 {
        ApiResponseKind::Success
    } else if status == 404 {
        ApiResponseKind::NotFound
    } else if status == 503 {
        ApiResponseKind::ServiceUnavailable
    } else {
        ApiResponseKind::Failure
    }
}

} // verus!
