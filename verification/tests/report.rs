use rbuster::config::{RawOptions, TargetConfig};
use rbuster::dispatch::{ProbeFailure, ProbeResult, Reaction};
use rbuster::error::{ConfigError, Header, RunError, TransportFailure};
use rbuster::report::{
    banner, describe_failure, emit, render_config_error, render_error, render_failure,
    render_result, render_wildcard, Emission,
};
use rbuster::request::{Method, Request};
use rbuster::wordlist::candidates;

fn result(candidate: &str, status: u16, length: Option<u64>, matched: bool) -> ProbeResult {
    ProbeResult { candidate: String::from(candidate), status, content_length: length, matched }
}

#[test]
fn match_line_names_candidate_and_status() {
    assert_eq!(render_result(&result("admin", 200, None, true)), "/admin (Status: 200)");
    assert_eq!(render_result(&result("a/b c", 301, None, true)), "/a/b c (Status: 301)");
    assert_eq!(render_result(&result("", 0, None, false)), "/ (Status: 0)");
}

#[test]
fn match_line_with_length_names_the_length() {
    assert_eq!(
        render_result(&result("admin", 200, Some(1532), true)),
        "/admin (Status: 200 | Content-Length: 1532)"
    );
    assert_eq!(
        render_result(&result("empty", 204, Some(0), true)),
        "/empty (Status: 204 | Content-Length: 0)"
    );
    assert_eq!(
        render_result(&result("big", 65535, Some(u64::MAX), true)),
        "/big (Status: 65535 | Content-Length: 18446744073709551615)"
    );
}

#[test]
fn matches_go_to_the_console_and_the_rest_to_the_log() {
    assert_eq!(
        emit(&Reaction::Report(result("admin", 200, None, true))),
        Emission::Console(String::from("/admin (Status: 200)"))
    );
    assert_eq!(
        emit(&Reaction::Report(result("nothing", 404, None, false))),
        Emission::Verbose(String::from("/nothing (Status: 404)"))
    );
    let failure =
        ProbeFailure { candidate: String::from("slow"), failure: TransportFailure::Timeout };
    assert_eq!(
        emit(&Reaction::Skip(failure)),
        Emission::Verbose(String::from("/slow (Error: the request timed out)"))
    );
    assert_eq!(emit(&Reaction::Ignored), Emission::Silent);
    let config = TargetConfig::build(&RawOptions::for_url("http://t")).unwrap();
    let request = Request::new(&config, Method::Get, "admin");
    assert_eq!(emit(&Reaction::FollowUp { ticket: 0, request }), Emission::Silent);
}

#[test]
fn failures_have_names() {
    assert_eq!(describe_failure(TransportFailure::Timeout), "the request timed out");
    assert_eq!(describe_failure(TransportFailure::Connection), "the connection failed");
    assert_eq!(describe_failure(TransportFailure::TooManyRedirects), "too many redirects");
    assert_eq!(describe_failure(TransportFailure::Other), "the request failed");
    let failure = ProbeFailure {
        candidate: String::from("loop"),
        failure: TransportFailure::TooManyRedirects,
    };
    assert_eq!(render_failure(&failure), "/loop (Error: too many redirects)");
}

#[test]
fn wildcard_line_names_url_and_status() {
    assert_eq!(
        render_wildcard("http://t/Uakgb_J5m9g~0JDMbcJqL", 200),
        "[-] Wildcard response found: http://t/Uakgb_J5m9g~0JDMbcJqL => 200"
    );
}

#[test]
fn each_fatal_error_has_its_line() {
    assert_eq!(
        render_error(&RunError::WildcardDetected { url: String::from("http://t/zz"), status: 200 }),
        "[-] Wildcard response found: http://t/zz => 200 \
         (to force processing of wildcard responses, specify the '-f' switch)"
    );
    assert_eq!(
        render_error(&RunError::BaselineNetwork { failure: TransportFailure::Connection }),
        "Baseline request failed: the connection failed"
    );
    let invalid = ConfigError::InvalidStatusCode { position: 1, entry: String::from("abc") };
    assert_eq!(render_config_error(&invalid), "Invalid status code 'abc' at position 1");
    assert_eq!(
        render_error(&RunError::Config(invalid)),
        "Invalid status code 'abc' at position 1"
    );
    assert_eq!(
        render_error(&RunError::Config(ConfigError::ZeroConcurrency)),
        "The concurrency limit must not be zero"
    );
    assert_eq!(
        render_config_error(&ConfigError::InvalidHeader { header: Header::UserAgent }),
        "Invalid value for the User-Agent header"
    );
    assert_eq!(
        render_config_error(&ConfigError::InvalidHeader { header: Header::Cookie }),
        "Invalid value for the Cookie header"
    );
}

#[test]
fn banner_tells_of_the_run() {
    let config = TargetConfig::build(&RawOptions::for_url("http://example.com")).unwrap();
    assert_eq!(
        banner(&config, "words.txt", 4613),
        vec![
            "Rbuster 0.2.1",
            "=====================================================",
            "Url/Domain    : http://example.com/",
            "Wordlist      : words.txt",
            "Words         : 4613",
            "Status        : [200, 204, 301, 302, 307]",
            "=====================================================",
        ]
    );
}

#[test]
fn banner_lists_one_code_without_a_comma() {
    let mut raw = RawOptions::for_url("http://example.com/");
    raw.status_codes = String::from("200,200");
    let config = TargetConfig::build(&raw).unwrap();
    let lines = banner(&config, "", 0);
    assert_eq!(lines[3], "Wordlist      : ");
    assert_eq!(lines[4], "Words         : 0");
    assert_eq!(lines[5], "Status        : [200]");
}

#[test]
fn candidates_are_the_lines_that_are_not_empty() {
    let lines: Vec<String> =
        ["admin", "", " ", "admin", "", "a b", "\t", "ü"].iter().map(|l| l.to_string()).collect();
    assert_eq!(candidates(&lines), vec!["admin", " ", "admin", "a b", "\t", "ü"]);
    assert_eq!(candidates(&Vec::new()), Vec::<String>::new());
    assert_eq!(candidates(&vec![String::new(), String::new()]), Vec::<String>::new());
}
