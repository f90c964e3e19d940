//! The baseline check: one request for a path that cannot exist, made before
//! the run, to find targets that answer every path alike.

use crate::config::{TargetConfig, TargetView};
use crate::error::{RunError, RunErrorView};
use crate::request::{request_of, Method, Outcome, Request};
use vstd::prelude::*;
use vstd::string::*;

verus! {

/// How many characters a baseline token has.
pub const TOKEN_LENGTH: usize = 21;

/// Whether `c` may occur in a baseline token: a letter or a digit of ASCII,
/// `_` or `~`.
pub open spec fn is_token_char(c: char) -> bool {
    ||| c == '_'
    ||| c == '~'
    ||| ('0' <= c && c <= '9')
    ||| ('a' <= c && c <= 'z')
    ||| ('A' <= c && c <= 'Z')
}

/// Whether `text` has the form of a baseline token.
pub open spec fn is_token(text: Seq<char>) -> bool {
    &&& text.len() == TOKEN_LENGTH
    &&& forall|i: int| 0 <= i < text.len() ==> is_token_char(#[trigger] text[i])
}

/// A fresh random token, from `nanoid::simple`. Believed of it, not proved:
/// the identifier has 21 characters, each taken from the crate's URL-safe
/// alphabet (`_`, `~`, the digits and the letters of ASCII). Nothing is
/// claimed about which identifier comes back: two calls may differ, and they
/// are meant to. The call reads the random source of the operating system
/// and panics where there is none.
#[verifier::external_body]
fn random_token() -> (token: String)
    ensures
        is_token(token@),
{
    nanoid::simple()
}

/// What the baseline request showed: the status that the target gave to a
/// path that does not exist, and whether that status is an accepted one.
#[derive(Debug, Clone, Copy, PartialEq, Eq, Structural)]
pub struct WildcardBaseline {
    pub status: u16,
    pub is_wildcard: bool,
}

/// What the baseline check means for the run.
#[derive(Debug, PartialEq, Eq)]
pub enum BaselineVerdict {
    /// The run goes on. Where the baseline is a wildcard, the run was told
    /// to go on regardless: it goes on with a warning about the URL that
    /// showed it, and its matches may be false.
    Proceed { url: String, baseline: WildcardBaseline },
    /// The run ends here, before any candidate is probed.
    Abort(RunError),
}

/// A `BaselineVerdict` as a mathematical value.
pub enum BaselineVerdictView {
    Proceed { url: Seq<char>, baseline: WildcardBaseline },
    Abort(RunErrorView),
}

impl View for BaselineVerdict {
    type V = BaselineVerdictView;

    open spec fn view(&self) -> BaselineVerdictView {
        match self {
            BaselineVerdict::Proceed { url, baseline } => BaselineVerdictView::Proceed {
                url: url@,
                baseline: *baseline,
            },
            BaselineVerdict::Abort(error) => BaselineVerdictView::Abort(error@),
        }
    }
}

/// The verdict on a baseline request for `url` that ended with `outcome`.
/// A request that brought no response is fatal, forced or not: without it
/// nothing is known about the target. A response with an accepted status is
/// fatal unless the run is forced.
pub open spec fn verdict_of(target: TargetView, url: Seq<char>, outcome: Outcome)
    -> BaselineVerdictView {
    match outcome {
        Err(failure) => BaselineVerdictView::Abort(RunErrorView::BaselineNetwork { failure }),
        Ok(response) => {
            let baseline = WildcardBaseline {
                status: response.status,
                is_wildcard: target.accepted.contains(response.status),
            };
            if baseline.is_wildcard && !target.wildcard_forced {
                BaselineVerdictView::Abort(
                    RunErrorView::WildcardDetected { url, status: response.status },
                )
            } else {
                BaselineVerdictView::Proceed { url, baseline }
            }
        },
    }
}

/// A baseline check whose request is under way. Its view is the URL that
/// the request asks for.
#[derive(Debug, PartialEq, Eq)]
pub struct BaselineProbe {
    url: String,
}

impl View for BaselineProbe {
    type V = Seq<char>;

    closed spec fn view(&self) -> Seq<char> {
        self.url@
    }
}

impl BaselineProbe {
    /// Starts the baseline check with a given token as the path: a `GET`
    /// request for the token under the base URL.
    pub fn with_token(config: &TargetConfig, token: &str) -> (started: (BaselineProbe, Request))
        ensures
            started.0@ == config@.base_url + token@,
            started.1@ == request_of(config@, Method::Get, token@),
    {
        let request = Request::new(config, Method::Get, token);
        (BaselineProbe { url: request.url.clone() }, request)
    }

    /// Starts the baseline check with a fresh random token as the path, one
    /// that no real path is likely to equal.
    pub fn begin(config: &TargetConfig) -> (started: (BaselineProbe, Request))
        ensures
            (exists|token: Seq<char>|
                {
                    &&& #[trigger] is_token(token)
                    &&& started.0@ == config@.base_url + token
                    &&& started.1@ == request_of(config@, Method::Get, token)
                }),
    {
        let token = random_token();
        let started = BaselineProbe::with_token(config, token.as_str());
        started
    }

    /// The URL that the baseline request asks for.
    pub fn url(&self) -> (url: &str)
        ensures
            url@ == self@,
    {
        self.url.as_str()
    }

    /// Concludes the check from how its request ended.
    pub fn assess(self, config: &TargetConfig, outcome: Outcome) -> (verdict: BaselineVerdict)
        ensures
            verdict@ == verdict_of(config@, self@, outcome),
    {
        match outcome {
            Err(failure) => BaselineVerdict::Abort(RunError::BaselineNetwork { failure }),
            Ok(response) => {
                let baseline = WildcardBaseline {
                    status: response.status,
                    is_wildcard: config.matches(response.status),
                };
                if baseline.is_wildcard && !config.wildcard_forced() {
                    BaselineVerdict::Abort(
                        RunError::WildcardDetected { url: self.url, status: response.status },
                    )
                } else {
                    BaselineVerdict::Proceed { url: self.url, baseline }
                }
            },
        }
    }
}

/// What the baseline check decides. Against a target that answers a path
/// that does not exist with an accepted status, a run that is not forced
/// ends with the error that names the URL and the status, and a forced run
/// goes on. Against any other target the run goes on. A baseline request
/// without a response ends the run, forced or not.
pub proof fn lemma_baseline_decides(target: TargetView, url: Seq<char>, outcome: Outcome)
    ensures
        (outcome matches Ok(response) ==> {
            let wildcard = target.accepted.contains(response.status);
            let baseline = WildcardBaseline { status: response.status, is_wildcard: wildcard };
            &&& wildcard && !target.wildcard_forced ==> verdict_of(target, url, outcome)
                == BaselineVerdictView::Abort(
                RunErrorView::WildcardDetected { url, status: response.status },
            )
            &&& !wildcard || target.wildcard_forced ==> verdict_of(target, url, outcome)
                == (BaselineVerdictView::Proceed { url, baseline })
        }),
        (outcome matches Err(failure) ==> verdict_of(target, url, outcome)
            == BaselineVerdictView::Abort(RunErrorView::BaselineNetwork { failure })),
{
}

} // verus!
