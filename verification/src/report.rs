//! What a run prints: the line of a result, the line of an error, the
//! banner. The texts are made here; printing them is the caller's part.

use crate::baseline::WildcardBaseline;
use crate::config::{TargetConfig, TargetView};
use crate::dispatch::{
    Dispatcher, ProbeFailure, ProbeFailureView, ProbeResult, ProbeResultView, Reaction,
    ReactionView,
};
use crate::error::{
    ConfigError, ConfigErrorView, Header, RunError, RunErrorView, TransportFailure,
};
use crate::text::{append_decimal, decimal};
use vstd::prelude::*;
use vstd::string::*;

verus! {

/// The line of a result: the candidate after a slash, its status, and its
/// length where it has one.
pub open spec fn result_line(result: ProbeResultView) -> Seq<char> {
    let head = "/"@ + result.candidate + " (Status: "@ + decimal(result.status as nat);
    match result.content_length {
        Some(length) => head + " | Content-Length: "@ + decimal(length as nat) + ")"@,
        None => head + ")"@,
    }
}

/// Writes the line of a result.
pub fn render_result(result: &ProbeResult) -> (line: String)
    ensures
        line@ == result_line(result@),
{
    let mut line = String::from_str("/");
    line.append(result.candidate.as_str());
    line.append(" (Status: ");
    append_decimal(&mut line, result.status as u64);
    match result.content_length {
        Some(length) => {
            line.append(" | Content-Length: ");
            append_decimal(&mut line, length);
            line.append(")");
        },
        None => {
            line.append(")");
        },
    }
    line
}

/// What a transport failure is called.
pub open spec fn failure_text(failure: TransportFailure) -> Seq<char> {
    match failure {
        TransportFailure::Timeout => "the request timed out"@,
        TransportFailure::Connection => "the connection failed"@,
        TransportFailure::TooManyRedirects => "too many redirects"@,
        TransportFailure::Other => "the request failed"@,
    }
}

/// Names a transport failure.
pub fn describe_failure(failure: TransportFailure) -> (text: &'static str)
    ensures
        text@ == failure_text(failure),
{
    match failure {
        TransportFailure::Timeout => "the request timed out",
        TransportFailure::Connection => "the connection failed",
        TransportFailure::TooManyRedirects => "too many redirects",
        TransportFailure::Other => "the request failed",
    }
}

/// The line of a probe that failed: the candidate after a slash, and what
/// went wrong.
pub open spec fn failure_line(failure: ProbeFailureView) -> Seq<char> {
    "/"@ + failure.candidate + " (Error: "@ + failure_text(failure.failure) + ")"@
}

/// Writes the line of a probe that failed.
pub fn render_failure(failure: &ProbeFailure) -> (line: String)
    ensures
        line@ == failure_line(failure@),
{
    let mut line = String::from_str("/");
    line.append(failure.candidate.as_str());
    line.append(" (Error: ");
    line.append(describe_failure(failure.failure));
    line.append(")");
    line
}

/// Where a line goes.
#[derive(Debug, PartialEq, Eq)]
pub enum Emission {
    /// To the console: the line of a match.
    Console(String),
    /// To the verbose log only: the line of a result that is no match, or
    /// of a probe that failed.
    Verbose(String),
    /// Nowhere: there is nothing to say yet.
    Silent,
}

/// An `Emission` as a mathematical value.
pub enum EmissionView {
    Console(Seq<char>),
    Verbose(Seq<char>),
    Silent,
}

impl View for Emission {
    type V = EmissionView;

    open spec fn view(&self) -> EmissionView {
        match self {
            Emission::Console(line) => EmissionView::Console(line@),
            Emission::Verbose(line) => EmissionView::Verbose(line@),
            Emission::Silent => EmissionView::Silent,
        }
    }
}

/// What is printed of a reaction, and where. A match goes to the console.
/// A result that is no match and a probe that failed show in the verbose
/// log only. A probe that goes on says nothing yet.
pub open spec fn emission_of(reaction: ReactionView) -> EmissionView {
    match reaction {
        ReactionView::Report(result) => if result.matched {
            EmissionView::Console(result_line(result))
        } else {
            EmissionView::Verbose(result_line(result))
        },
        ReactionView::Skip(failure) => EmissionView::Verbose(failure_line(failure)),
        ReactionView::FollowUp { .. } => EmissionView::Silent,
        ReactionView::Ignored => EmissionView::Silent,
    }
}

/// Says what to print of a reaction, and where.
pub fn emit(reaction: &Reaction) -> (emission: Emission)
    ensures
        emission@ == emission_of(reaction@),
{
    match reaction {
        Reaction::Report(result) => if result.matched {
            Emission::Console(render_result(result))
        } else {
            Emission::Verbose(render_result(result))
        },
        Reaction::Skip(failure) => Emission::Verbose(render_failure(failure)),
        Reaction::FollowUp { .. } => Emission::Silent,
        Reaction::Ignored => Emission::Silent,
    }
}

/// The line that tells of a wildcard response: the URL that was asked for,
/// and the status that came back.
pub open spec fn wildcard_line(url: Seq<char>, status: u16) -> Seq<char> {
    "[-] Wildcard response found: "@ + url + " => "@ + decimal(status as nat)
}

/// Writes the line that tells of a wildcard response.
pub fn render_wildcard(url: &str, status: u16) -> (line: String)
    ensures
        line@ == wildcard_line(url@, status),
{
    let mut line = String::from_str("[-] Wildcard response found: ");
    line.append(url);
    line.append(" => ");
    append_decimal(&mut line, status as u64);
    line
}

/// The warning that a baseline calls for: the wildcard line where the run
/// goes on against a wildcard target, none otherwise.
pub open spec fn warning_of(url: Seq<char>, baseline: WildcardBaseline) -> Option<Seq<char>> {
    if baseline.is_wildcard {
        Some(wildcard_line(url, baseline.status))
    } else {
        None
    }
}

/// Writes the warning that a run opens with, if it calls for one.
pub fn render_warning(dispatcher: &Dispatcher) -> (warning: Option<String>)
    ensures
        warning.deep_view() == warning_of(dispatcher@.baseline_url, dispatcher@.baseline),
{
    let baseline = dispatcher.baseline();
    if baseline.is_wildcard {
        Some(render_wildcard(dispatcher.baseline_url(), baseline.status))
    } else {
        None
    }
}

/// The one line that tells of a rejected configuration.
pub open spec fn config_error_line(error: ConfigErrorView) -> Seq<char> {
    match error {
        ConfigErrorView::InvalidStatusCode { position, entry } => "Invalid status code '"@ + entry
            + "' at position "@ + decimal(position as nat),
        ConfigErrorView::InvalidHeader { header } => match header {
            Header::UserAgent => "Invalid value for the User-Agent header"@,
            Header::Cookie => "Invalid value for the Cookie header"@,
        },
        ConfigErrorView::ZeroConcurrency => "The concurrency limit must not be zero"@,
    }
}

/// The one line that tells of a fatal error.
pub open spec fn error_line(error: RunErrorView) -> Seq<char> {
    match error {
        RunErrorView::Config(error) => config_error_line(error),
        RunErrorView::BaselineNetwork { failure } => "Baseline request failed: "@ + failure_text(
            failure,
        ),
        RunErrorView::WildcardDetected { url, status } => wildcard_line(url, status)
            + " (to force processing of wildcard responses, specify the '-f' switch)"@,
    }
}

/// Writes the line of a rejected configuration.
pub fn render_config_error(error: &ConfigError) -> (line: String)
    ensures
        line@ == config_error_line(error@),
{
    match error {
        ConfigError::InvalidStatusCode { position, entry } => {
            let mut line = String::from_str("Invalid status code '");
            line.append(entry.as_str());
            line.append("' at position ");
            append_decimal(&mut line, *position as u64);
            line
        },
        ConfigError::InvalidHeader { header } => match header {
            Header::UserAgent => String::from_str("Invalid value for the User-Agent header"),
            Header::Cookie => String::from_str("Invalid value for the Cookie header"),
        },
        ConfigError::ZeroConcurrency => String::from_str("The concurrency limit must not be zero"),
    }
}

/// Writes the line of a fatal error.
pub fn render_error(error: &RunError) -> (line: String)
    ensures
        line@ == error_line(error@),
{
    match error {
        RunError::Config(error) => render_config_error(error),
        RunError::BaselineNetwork { failure } => {
            let mut line = String::from_str("Baseline request failed: ");
            line.append(describe_failure(*failure));
            line
        },
        RunError::WildcardDetected { url, status } => {
            let mut line = render_wildcard(url.as_str(), *status);
            line.append(" (to force processing of wildcard responses, specify the '-f' switch)");
            line
        },
    }
}

/// The codes of a list, separated by a comma and a blank.
pub open spec fn listing(codes: Seq<u16>) -> Seq<char>
    decreases codes.len(),
{
    if codes.len() == 0 {
        Seq::<char>::empty()
    } else if codes.len() == 1 {
        decimal(codes[0] as nat)
    } else {
        listing(codes.drop_last()) + ", "@ + decimal(codes.last() as nat)
    }
}

/// The lines of the banner that opens a run.
pub open spec fn banner_of(target: TargetView, wordlist: Seq<char>, words: usize) -> Seq<
    Seq<char>,
> {
    seq![
        "Rbuster 0.2.1"@,
        "====================================================="@,
        "Url/Domain    : "@ + target.base_url,
        "Wordlist      : "@ + wordlist,
        "Words         : "@ + decimal(words as nat),
        "Status        : ["@ + listing(target.accepted) + "]"@,
        "====================================================="@,
    ]
}

/// Writes the banner that opens a run: the target, the wordlist and how
/// many words it has, and the accepted status codes.
pub fn banner(config: &TargetConfig, wordlist: &str, words: usize) -> (lines: Vec<String>)
    ensures
        lines.deep_view() == banner_of(config@, wordlist@, words),
{
    let mut url_line = String::from_str("Url/Domain    : ");
    url_line.append(config.base_url());
    let mut wordlist_line = String::from_str("Wordlist      : ");
    wordlist_line.append(wordlist);
    let mut words_line = String::from_str("Words         : ");
    append_decimal(&mut words_line, words as u64);
    let mut status_line = String::from_str("Status        : [");
    let codes = config.accepted().codes();
    let ghost opening = status_line@;
    let mut i: usize = 0;
    while i < codes.len()
        invariant
            i <= codes.len(),
            status_line@ == opening + listing(codes@.take(i as int)),
        decreases codes.len() - i,
    {
        assert(codes@.take(i + 1).drop_last() =~= codes@.take(i as int));
        if i > 0 {
            status_line.append(", ");
        }
        append_decimal(&mut status_line, codes[i] as u64);
        i += 1;
    }
    assert(codes@.take(i as int) =~= codes@);
    status_line.append("]");
    let mut lines: Vec<String> = Vec::new();
    lines.push(String::from_str("Rbuster 0.2.1"));
    lines.push(String::from_str("====================================================="));
    lines.push(url_line);
    lines.push(wordlist_line);
    lines.push(words_line);
    lines.push(status_line);
    lines.push(String::from_str("====================================================="));
    lines
}

} // verus!
