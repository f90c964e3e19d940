//! The requests that the engine asks its HTTP client to make, and what the
//! client hands back.

use crate::config::{
    target_of, Auth, AuthView, RawOptionsView, RedirectPolicy, TargetConfig, TargetView,
};
use crate::error::TransportFailure;
use vstd::prelude::*;
use vstd::string::*;

verus! {

/// How many seconds a request may take. A request that takes longer has
/// failed with a timeout.
pub const REQUEST_TIMEOUT_SECONDS: u64 = 10;

/// The method of a request.
#[derive(Debug, Clone, Copy, PartialEq, Eq, Structural)]
pub enum Method {
    /// Asks for the status alone: the method of classification probes.
    Head,
    /// Asks for the body too: the method of the baseline check and of the
    /// length follow-up.
    Get,
}

/// One request, complete: the client needs nothing else to make it.
#[derive(Debug, PartialEq, Eq)]
pub struct Request {
    pub method: Method,
    /// The URL, as it is sent: nothing in it is escaped here.
    pub url: String,
    /// The `User-Agent` header, if one is sent.
    pub user_agent: Option<String>,
    /// The `Cookie` header, if one is sent.
    pub cookie: Option<String>,
    /// The `Authorization` header.
    pub auth: Auth,
    /// What to do when the server redirects.
    pub redirect: RedirectPolicy,
}

/// A request as a mathematical value.
pub struct RequestView {
    pub method: Method,
    pub url: Seq<char>,
    pub user_agent: Option<Seq<char>>,
    pub cookie: Option<Seq<char>>,
    pub auth: AuthView,
    pub redirect: RedirectPolicy,
}

impl View for Request {
    type V = RequestView;

    open spec fn view(&self) -> RequestView {
        RequestView {
            method: self.method,
            url: self.url@,
            user_agent: self.user_agent.deep_view(),
            cookie: self.cookie.deep_view(),
            auth: self.auth@,
            redirect: self.redirect,
        }
    }
}

impl Clone for Request {
    fn clone(&self) -> (copy: Request)
        ensures
            copy == *self,
    {
        Request {
            method: self.method,
            url: self.url.clone(),
            user_agent: self.user_agent.clone(),
            cookie: self.cookie.clone(),
            auth: self.auth.clone(),
            redirect: self.redirect,
        }
    }
}

/// The request for `path` under the base URL of `target`. The URL is the base
/// URL followed by the path as it stands; headers, authentication and
/// redirect policy are those of the configuration, whatever the method.
pub open spec fn request_of(target: TargetView, method: Method, path: Seq<char>) -> RequestView {
    RequestView {
        method,
        url: target.base_url + path,
        user_agent: target.user_agent,
        cookie: target.cookie,
        auth: target.auth,
        redirect: target.redirect,
    }
}

/// A user name decides how every request authenticates. Where the options
/// give one, each request of the run, whatever its method and its path,
/// carries basic authentication with that name and its password, and so no
/// bearer token, whether or not the options give one of those too.
pub proof fn lemma_requests_carry_basic_auth(raw: RawOptionsView, method: Method, path: Seq<char>)
    requires
        raw.username.len() > 0,
    ensures
        (target_of(raw) matches Ok(target) ==> request_of(target, method, path).auth == (
        AuthView::Basic { username: raw.username, password: raw.password })),
{
}

impl Request {
    /// Makes the request for `path` under the base URL of `config`.
    pub fn new(config: &TargetConfig, method: Method, path: &str) -> (request: Request)
        ensures
            request@ == request_of(config@, method, path@),
    {
        let mut url = String::from_str(config.base_url());
        url.append(path);
        Request {
            method,
            url,
            user_agent: config.user_agent().clone(),
            cookie: config.cookie().clone(),
            auth: config.auth().clone(),
            redirect: config.redirect(),
        }
    }
}

/// What the client read from a response.
#[derive(Debug, Clone, Copy, PartialEq, Eq, Structural)]
pub struct Response {
    /// The status code.
    pub status: u16,
    /// The length of the body in bytes; zero where no body was read.
    pub body_length: u64,
}

/// How a request ended: with a response, or without one.
pub type Outcome = Result<Response, TransportFailure>;

} // verus!
