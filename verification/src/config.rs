//! The target configuration: what a run is given, and the validated,
//! immutable value that every probe of the run reads.

use crate::error::{ConfigError, ConfigErrorView, Header};
use crate::status::{accepted_codes, codes_of, lemma_collapse, StatusSet};
use crate::text::fields;
use vstd::prelude::*;
use vstd::string::*;
use vstd::utf8::{encode_utf8, is_ascii_chars, is_ascii_chars_encode_utf8};

verus! {

/// How many probes may be in flight at once, unless the configuration says
/// otherwise.
pub const DEFAULT_CONCURRENCY: usize = 100;

/// How many redirects a request follows where following is switched on.
pub const MAX_REDIRECT_HOPS: usize = 5;

/// The run parameters as the user supplied them. A text left empty means
/// that the option was not given.
#[derive(Debug, PartialEq, Eq)]
pub struct RawOptions {
    /// The target URL or domain.
    pub url: String,
    /// The accepted status codes, separated by commas.
    pub status_codes: String,
    /// The user agent to send.
    pub user_agent: String,
    /// The cookies to send.
    pub cookies: String,
    /// The user name for basic authentication.
    pub username: String,
    /// The password for basic authentication.
    pub password: String,
    /// The token for bearer authentication.
    pub bearer: String,
    /// Whether redirects are followed.
    pub redirects: bool,
    /// Whether the length of a matched response is fetched and shown.
    pub length: bool,
    /// Whether the run goes on when the target answers any path with an
    /// accepted status.
    pub wildcard_forced: bool,
}

/// `RawOptions` as a mathematical value.
pub struct RawOptionsView {
    pub url: Seq<char>,
    pub status_codes: Seq<char>,
    pub user_agent: Seq<char>,
    pub cookies: Seq<char>,
    pub username: Seq<char>,
    pub password: Seq<char>,
    pub bearer: Seq<char>,
    pub redirects: bool,
    pub length: bool,
    pub wildcard_forced: bool,
}

impl View for RawOptions {
    type V = RawOptionsView;

    open spec fn view(&self) -> RawOptionsView {
        RawOptionsView {
            url: self.url@,
            status_codes: self.status_codes@,
            user_agent: self.user_agent@,
            cookies: self.cookies@,
            username: self.username@,
            password: self.password@,
            bearer: self.bearer@,
            redirects: self.redirects,
            length: self.length,
            wildcard_forced: self.wildcard_forced,
        }
    }
}

impl Clone for RawOptions {
    fn clone(&self) -> (copy: RawOptions)
        ensures
            copy == *self,
    {
        RawOptions {
            url: self.url.clone(),
            status_codes: self.status_codes.clone(),
            user_agent: self.user_agent.clone(),
            cookies: self.cookies.clone(),
            username: self.username.clone(),
            password: self.password.clone(),
            bearer: self.bearer.clone(),
            redirects: self.redirects,
            length: self.length,
            wildcard_forced: self.wildcard_forced,
        }
    }
}

/// The status-code list that stands for "found" where none is given.
pub fn default_status_codes() -> (list: &'static str)
    ensures
        list@ == "200,204,301,302,307"@,
{
    "200,204,301,302,307"
}

impl RawOptions {
    /// The options of a run against `url` with every option left at its
    /// default: the default status codes, no headers, no authentication, no
    /// redirects, no lengths, no forcing.
    pub fn for_url(url: &str) -> (raw: RawOptions)
        ensures
            raw@ == (RawOptionsView {
                url: url@,
                status_codes: "200,204,301,302,307"@,
                user_agent: Seq::<char>::empty(),
                cookies: Seq::<char>::empty(),
                username: Seq::<char>::empty(),
                password: Seq::<char>::empty(),
                bearer: Seq::<char>::empty(),
                redirects: false,
                length: false,
                wildcard_forced: false,
            }),
    {
        RawOptions {
            url: String::from_str(url),
            status_codes: String::from_str(default_status_codes()),
            user_agent: String::new(),
            cookies: String::new(),
            username: String::new(),
            password: String::new(),
            bearer: String::new(),
            redirects: false,
            length: false,
            wildcard_forced: false,
        }
    }
}

/// How requests authenticate. At most one way is active.
#[derive(Debug, PartialEq, Eq)]
pub enum Auth {
    /// No `Authorization` header.
    Anonymous,
    /// Basic authentication with a user name and a password.
    Basic { username: String, password: String },
    /// Bearer authentication with a token.
    Bearer { token: String },
}

/// `Auth` as a mathematical value.
pub enum AuthView {
    Anonymous,
    Basic { username: Seq<char>, password: Seq<char> },
    Bearer { token: Seq<char> },
}

impl View for Auth {
    type V = AuthView;

    open spec fn view(&self) -> AuthView {
        match self {
            Auth::Anonymous => AuthView::Anonymous,
            Auth::Basic { username, password } => AuthView::Basic {
                username: username@,
                password: password@,
            },
            Auth::Bearer { token } => AuthView::Bearer { token: token@ },
        }
    }
}

impl Clone for Auth {
    fn clone(&self) -> (copy: Auth)
        ensures
            copy == *self,
    {
        match self {
            Auth::Anonymous => Auth::Anonymous,
            Auth::Basic { username, password } => Auth::Basic {
                username: username.clone(),
                password: password.clone(),
            },
            Auth::Bearer { token } => Auth::Bearer { token: token.clone() },
        }
    }
}

/// What a request does when the server answers with a redirect.
#[derive(Debug, Clone, Copy, PartialEq, Eq, Structural)]
pub enum RedirectPolicy {
    /// Redirects are not followed: the redirect is the response.
    NoFollow,
    /// Redirects are followed for at most `max_hops` hops.
    Follow { max_hops: usize },
}

/// What to do with one redirect.
#[derive(Debug, Clone, Copy, PartialEq, Eq, Structural)]
pub enum RedirectDecision {
    /// Take the redirect as the response.
    Stop,
    /// Request the URL that the redirect points to.
    Follow,
    /// Fail the request: it was redirected too often.
    TooManyRedirects,
}

impl RedirectPolicy {
    /// The decision on a redirect met after `previous` URLs of the chain have
    /// been requested, the first URL of the request included. A policy that
    /// follows does so while the hops already taken are fewer than its
    /// maximum, and fails the request at the next redirect.
    pub open spec fn decision(self, previous: usize) -> RedirectDecision {
        match self {
            RedirectPolicy::NoFollow => RedirectDecision::Stop,
            RedirectPolicy::Follow { max_hops } => if previous > max_hops {
                RedirectDecision::TooManyRedirects
            } else {
                RedirectDecision::Follow
            },
        }
    }

    /// Decides on a redirect met after `previous` URLs of the chain have been
    /// requested, the first URL of the request included.
    pub fn decide(&self, previous: usize) -> (decision: RedirectDecision)
        ensures
            decision == self.decision(previous),
    {
        match self {
            RedirectPolicy::NoFollow => RedirectDecision::Stop,
            RedirectPolicy::Follow { max_hops } => if previous > *max_hops {
                RedirectDecision::TooManyRedirects
            } else {
                RedirectDecision::Follow
            },
        }
    }
}

/// `url` without the slashes it ends with.
pub open spec fn trimmed(url: Seq<char>) -> Seq<char>
    decreases url.len(),
{
    if url.len() > 0 && url.last() == '/' {
        trimmed(url.drop_last())
    } else {
        url
    }
}

/// The base URL that stands for `url`: whatever slashes `url` ends with are
/// replaced by a single one.
pub open spec fn normalized(url: Seq<char>) -> Seq<char> {
    trimmed(url).push('/')
}

/// Whether `url` ends with a slash that no other slash precedes.
pub open spec fn ends_with_one_slash(url: Seq<char>) -> bool {
    &&& url.len() >= 1
    &&& url.last() == '/'
    &&& url.len() >= 2 ==> url[url.len() - 2] != '/'
}

/// A trimmed URL is a prefix of the URL and does not end with a slash.
proof fn lemma_trimmed(url: Seq<char>)
    ensures
        trimmed(url).len() <= url.len(),
        trimmed(url) == url.take(trimmed(url).len() as int),
        trimmed(url).len() > 0 ==> trimmed(url).last() != '/',
    decreases url.len(),
{
    if url.len() > 0 && url.last() == '/' {
        lemma_trimmed(url.drop_last());
    }
}

/// A normalized URL ends with exactly one slash, whatever it was made from.
pub proof fn lemma_normalized_ends_with_one_slash(url: Seq<char>)
    ensures
        ends_with_one_slash(normalized(url)),
{
    lemma_trimmed(url);
}

/// Normalizing changes nothing in a URL that ends with exactly one slash,
/// and only adds the slash to a URL that ends with none.
pub proof fn lemma_normalized_keeps_normal(url: Seq<char>)
    ensures
        ends_with_one_slash(url) ==> normalized(url) == url,
        url.len() == 0 || url.last() != '/' ==> normalized(url) == url.push('/'),
{
    if ends_with_one_slash(url) {
        let stem = url.drop_last();
        assert(trimmed(stem) == stem);
    }
}

/// Normalizing twice is normalizing once.
pub proof fn lemma_normalized_idempotent(url: Seq<char>)
    ensures
        normalized(normalized(url)) == normalized(url),
{
    lemma_normalized_ends_with_one_slash(url);
    lemma_normalized_keeps_normal(normalized(url));
}

/// Gives `url` the form of a base URL: it ends with exactly one slash.
pub fn normalize_base_url(url: &str) -> (normal: String)
    ensures
        normal@ == normalized(url@),
{
    let total = url.unicode_len();
    let mut keep: usize = 0;
    let mut pos: usize = 0;
    for c in it: url.chars()
        invariant
            it.seq() == url@,
            total == url@.len(),
            pos == it.index(),
            keep <= pos,
            trimmed(url@.take(pos as int)) == url@.take(keep as int),
    {
        assert(url@.take(pos + 1).drop_last() =~= url@.take(pos as int));
        pos = pos + 1;
        if c != '/' {
            keep = pos;
        }
    }
    assert(url@.take(pos as int) =~= url@);
    let mut normal = String::from_str(url.substring_char(0, keep));
    proof {
        reveal_strlit("/");
    }
    normal.append("/");
    normal
}

/// Whether a byte may stand in the value of a header: a tab, or any byte
/// that is neither a control character nor the delete character.
pub open spec fn is_header_byte(byte: u8) -> bool {
    (byte >= 32 && byte != 127) || byte == 9
}

/// Whether `text` can be sent as the value of a header: every byte of its
/// UTF-8 encoding may stand in one.
pub open spec fn is_header_value(text: Seq<char>) -> bool {
    forall|i: int|
        0 <= i < encode_utf8(text).len() ==> is_header_byte(#[trigger] encode_utf8(text)[i])
}

/// Whether a character of ASCII may stand in the value of a header: a tab,
/// or any character that is neither a control character nor the delete
/// character.
pub open spec fn is_header_char(c: char) -> bool {
    (' ' <= c && c != '\u{7f}') || c == '\t'
}

/// Of a text of ASCII, its characters tell whether it can be sent as the
/// value of a header: it can exactly when each of them may stand in one.
pub proof fn lemma_ascii_header_value(text: Seq<char>)
    requires
        is_ascii_chars(text),
    ensures
        is_header_value(text) <==> forall|i: int|
            0 <= i < text.len() ==> is_header_char(#[trigger] text[i]),
{
    is_ascii_chars_encode_utf8(text);
    let bytes = encode_utf8(text);
    assert forall|i: int| 0 <= i < text.len() implies (is_header_byte(bytes[i]) <==> is_header_char(
        text[i],
    )) by {
        assert(text[i] as u8 == bytes[i]);
    }
    if is_header_value(text) {
        assert forall|i: int| 0 <= i < text.len() implies is_header_char(#[trigger] text[i]) by {
            assert(is_header_byte(bytes[i]));
        }
    }
    if forall|i: int| 0 <= i < text.len() ==> is_header_char(#[trigger] text[i]) {
        assert forall|i: int| 0 <= i < bytes.len() implies is_header_byte(#[trigger] bytes[i]) by {
            assert(is_header_char(text[i]));
        }
    }
}

/// Whether the HTTP client takes `text` as the value of a header, as
/// `reqwest::header::HeaderValue::from_str` decides it. Believed of that
/// function, not proved: it succeeds exactly when every byte of the text is
/// a tab or at least 32 and not 127. That is what its source tests, byte by
/// byte; its documentation speaks of visible ASCII only, but bytes above 127
/// pass the test too.
#[verifier::external_body]
fn header_value_accepted(text: &str) -> (accepted: bool)
    ensures
        accepted == is_header_value(text@),
{
    reqwest::header::HeaderValue::from_str(text).is_ok()
}

/// An option that was given: a text left empty stands for none.
pub open spec fn given(text: Seq<char>) -> Option<Seq<char>> {
    if text.len() == 0 {
        None
    } else {
        Some(text)
    }
}

/// The authentication that the credentials ask for. A user name selects
/// basic authentication, whether or not a bearer token is given too; a
/// bearer token counts only where there is no user name.
pub open spec fn auth_of(username: Seq<char>, password: Seq<char>, bearer: Seq<char>) -> AuthView {
    if username.len() > 0 {
        AuthView::Basic { username, password }
    } else if bearer.len() > 0 {
        AuthView::Bearer { token: bearer }
    } else {
        AuthView::Anonymous
    }
}

/// The redirect policy of a run: none unless following is asked for, and
/// then a fixed number of hops.
pub open spec fn redirect_of(follow: bool) -> RedirectPolicy {
    if follow {
        RedirectPolicy::Follow { max_hops: MAX_REDIRECT_HOPS }
    } else {
        RedirectPolicy::NoFollow
    }
}

/// A target configuration as a mathematical value.
pub struct TargetView {
    pub base_url: Seq<char>,
    pub accepted: Seq<u16>,
    pub user_agent: Option<Seq<char>>,
    pub cookie: Option<Seq<char>>,
    pub auth: AuthView,
    pub redirect: RedirectPolicy,
    pub concurrency: usize,
    pub show_length: bool,
    pub wildcard_forced: bool,
}

impl TargetView {
    /// What holds of every target configuration: the base URL ends with
    /// exactly one slash, no accepted code is listed twice, the headers can
    /// be sent, and at least one probe may be in flight.
    pub open spec fn wf(self) -> bool {
        &&& ends_with_one_slash(self.base_url)
        &&& self.accepted.no_duplicates()
        &&& self.user_agent matches Some(value) ==> is_header_value(value)
        &&& self.cookie matches Some(value) ==> is_header_value(value)
        &&& self.concurrency > 0
    }
}

/// The configuration that the options stand for, or the reason why they stand
/// for none: the first of the status-code list, the user agent and the
/// cookies that is wrong. Nothing else can be wrong.
pub open spec fn target_of(raw: RawOptionsView) -> Result<TargetView, ConfigErrorView> {
    match accepted_codes(raw.status_codes) {
        Err(error) => Err(error),
        Ok(accepted) => if !is_header_value(raw.user_agent) {
            Err(ConfigErrorView::InvalidHeader { header: Header::UserAgent })
        } else if !is_header_value(raw.cookies) {
            Err(ConfigErrorView::InvalidHeader { header: Header::Cookie })
        } else {
            Ok(
                TargetView {
                    base_url: normalized(raw.url),
                    accepted,
                    user_agent: given(raw.user_agent),
                    cookie: given(raw.cookies),
                    auth: auth_of(raw.username, raw.password, raw.bearer),
                    redirect: redirect_of(raw.redirects),
                    concurrency: DEFAULT_CONCURRENCY,
                    show_length: raw.length,
                    wildcard_forced: raw.wildcard_forced,
                },
            )
        },
    }
}

/// Every configuration that options stand for is well formed.
pub proof fn lemma_target_is_well_formed(raw: RawOptionsView)
    ensures
        target_of(raw) matches Ok(target) ==> target.wf(),
{
    lemma_normalized_ends_with_one_slash(raw.url);
    lemma_collapse(codes_of(fields(raw.status_codes, ',')));
}

/// A user name decides the authentication: with one, requests authenticate
/// with it and its password, whatever bearer token is given beside it.
pub proof fn lemma_username_takes_precedence(raw: RawOptionsView)
    requires
        raw.username.len() > 0,
    ensures
        (target_of(raw) matches Ok(target) ==> target.auth == (AuthView::Basic {
            username: raw.username,
            password: raw.password,
        })),
{
}

/// The validated parameters of a run. A configuration is made once and never
/// changes; probes share it and only read it.
#[derive(Debug, PartialEq, Eq)]
pub struct TargetConfig {
    base_url: String,
    accepted: StatusSet,
    user_agent: Option<String>,
    cookie: Option<String>,
    auth: Auth,
    redirect: RedirectPolicy,
    concurrency: usize,
    show_length: bool,
    wildcard_forced: bool,
}

impl View for TargetConfig {
    type V = TargetView;

    closed spec fn view(&self) -> TargetView {
        TargetView {
            base_url: self.base_url@,
            accepted: self.accepted@,
            user_agent: self.user_agent.deep_view(),
            cookie: self.cookie.deep_view(),
            auth: self.auth@,
            redirect: self.redirect,
            concurrency: self.concurrency,
            show_length: self.show_length,
            wildcard_forced: self.wildcard_forced,
        }
    }
}

impl Clone for TargetConfig {
    fn clone(&self) -> (copy: TargetConfig)
        ensures
            copy@ == self@,
    {
        proof {
            use_type_invariant(self);
        }
        TargetConfig {
            base_url: self.base_url.clone(),
            accepted: self.accepted.clone(),
            user_agent: self.user_agent.clone(),
            cookie: self.cookie.clone(),
            auth: self.auth.clone(),
            redirect: self.redirect,
            concurrency: self.concurrency,
            show_length: self.show_length,
            wildcard_forced: self.wildcard_forced,
        }
    }
}

/// The text of an option, or none where it was left empty.
fn given_text(text: &String) -> (option: Option<String>)
    ensures
        option.deep_view() == given(text@),
{
    if text.as_str().is_empty() {
        None
    } else {
        Some(text.clone())
    }
}

impl TargetConfig {
    #[verifier::type_invariant]
    spec fn valid(self) -> bool {
        self@.wf()
    }

    /// Validates the options and makes the configuration of the run. The
    /// base URL is normalized here, once. The options that can be rejected
    /// are the status codes, the user agent and the cookies.
    pub fn build(raw: &RawOptions) -> (result: Result<TargetConfig, ConfigError>)
        ensures
            (match result {
                Ok(config) => target_of(raw@) == Ok::<TargetView, ConfigErrorView>(config@),
                Err(error) => target_of(raw@) == Err::<TargetView, ConfigErrorView>(error@),
            }),
    {
        let accepted = match StatusSet::parse(raw.status_codes.as_str()) {
            Ok(accepted) => accepted,
            Err(error) => {
                return Err(error);
            },
        };
        if !header_value_accepted(raw.user_agent.as_str()) {
            return Err(ConfigError::InvalidHeader { header: Header::UserAgent });
        }
        if !header_value_accepted(raw.cookies.as_str()) {
            return Err(ConfigError::InvalidHeader { header: Header::Cookie });
        }
        let auth = if !raw.username.as_str().is_empty() {
            Auth::Basic { username: raw.username.clone(), password: raw.password.clone() }
        } else if !raw.bearer.as_str().is_empty() {
            Auth::Bearer { token: raw.bearer.clone() }
        } else {
            Auth::Anonymous
        };
        let redirect = if raw.redirects {
            RedirectPolicy::Follow { max_hops: MAX_REDIRECT_HOPS }
        } else {
            RedirectPolicy::NoFollow
        };
        proof {
            lemma_target_is_well_formed(raw@);
        }
        Ok(
            TargetConfig {
                base_url: normalize_base_url(raw.url.as_str()),
                accepted,
                user_agent: given_text(&raw.user_agent),
                cookie: given_text(&raw.cookies),
                auth,
                redirect,
                concurrency: DEFAULT_CONCURRENCY,
                show_length: raw.length,
                wildcard_forced: raw.wildcard_forced,
            },
        )
    }

    /// The same configuration with another concurrency limit. A limit of
    /// zero is rejected: no probe could ever start.
    pub fn with_concurrency(self, limit: usize) -> (result: Result<TargetConfig, ConfigError>)
        ensures
            (match result {
                Ok(config) => limit > 0 && config@ == (TargetView { concurrency: limit, ..self@ }),
                Err(error) => limit == 0 && error == ConfigError::ZeroConcurrency,
            }),
    {
        proof {
            use_type_invariant(&self);
        }
        if limit == 0 {
            return Err(ConfigError::ZeroConcurrency);
        }
        Ok(
            TargetConfig {
                base_url: self.base_url,
                accepted: self.accepted,
                user_agent: self.user_agent,
                cookie: self.cookie,
                auth: self.auth,
                redirect: self.redirect,
                concurrency: limit,
                show_length: self.show_length,
                wildcard_forced: self.wildcard_forced,
            },
        )
    }

    /// The base URL. It ends with exactly one slash.
    pub fn base_url(&self) -> (url: &str)
        ensures
            url@ == self@.base_url,
            self@.wf(),
    {
        proof {
            use_type_invariant(self);
        }
        self.base_url.as_str()
    }

    /// The accepted status codes.
    pub fn accepted(&self) -> (accepted: &StatusSet)
        ensures
            accepted@ == self@.accepted,
    {
        &self.accepted
    }

    /// The user agent to send, if one is configured.
    pub fn user_agent(&self) -> (user_agent: &Option<String>)
        ensures
            user_agent.deep_view() == self@.user_agent,
    {
        &self.user_agent
    }

    /// The cookies to send, if any are configured.
    pub fn cookie(&self) -> (cookie: &Option<String>)
        ensures
            cookie.deep_view() == self@.cookie,
    {
        &self.cookie
    }

    /// How requests authenticate.
    pub fn auth(&self) -> (auth: &Auth)
        ensures
            auth@ == self@.auth,
    {
        &self.auth
    }

    /// What requests do with redirects.
    pub fn redirect(&self) -> (redirect: RedirectPolicy)
        ensures
            redirect == self@.redirect,
    {
        self.redirect
    }

    /// How many probes may be in flight at once. It is never zero.
    pub fn concurrency(&self) -> (limit: usize)
        ensures
            limit == self@.concurrency,
            limit > 0,
            self@.wf(),
    {
        proof {
            use_type_invariant(self);
        }
        self.concurrency
    }

    /// Whether the length of a matched response is fetched and shown.
    pub fn show_length(&self) -> (show: bool)
        ensures
            show == self@.show_length,
    {
        self.show_length
    }

    /// Whether the run goes on when the target answers any path with an
    /// accepted status.
    pub fn wildcard_forced(&self) -> (forced: bool)
        ensures
            forced == self@.wildcard_forced,
    {
        self.wildcard_forced
    }

    /// Whether a response with this status is a match.
    pub fn matches(&self, status: u16) -> (matched: bool)
        ensures
            matched == self@.accepted.contains(status),
    {
        self.accepted.contains(status)
    }
}

} // verus!
