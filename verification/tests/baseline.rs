use rbuster::baseline::{BaselineProbe, BaselineVerdict, WildcardBaseline, TOKEN_LENGTH};
use rbuster::config::{Auth, RawOptions, RedirectPolicy, TargetConfig};
use rbuster::dispatch::Dispatcher;
use rbuster::error::{exit_code_of, RunError, TransportFailure};
use rbuster::report::render_warning;
use rbuster::request::{Method, Response};

fn config(forced: bool) -> TargetConfig {
    let mut raw = RawOptions::for_url("http://example.com");
    raw.wildcard_forced = forced;
    TargetConfig::build(&raw).unwrap()
}

fn words() -> Vec<String> {
    vec![String::from("admin"), String::from("login"), String::from("backup")]
}

fn answered(status: u16) -> Result<Response, TransportFailure> {
    Ok(Response { status, body_length: 0 })
}

#[test]
fn baseline_token_is_fresh_and_url_safe() {
    let config = config(false);
    let (probe, request) = BaselineProbe::begin(&config);
    assert_eq!(probe.url(), request.url);
    let token = request.url.strip_prefix("http://example.com/").unwrap();
    assert_eq!(TOKEN_LENGTH, 21);
    assert_eq!(token.chars().count(), 21);
    assert!(token.chars().all(|c| c.is_ascii_alphanumeric() || c == '_' || c == '~'));
    let (_, again) = BaselineProbe::begin(&config);
    assert_ne!(again.url, request.url);
}

#[test]
fn baseline_request_is_a_get_with_the_configured_headers() {
    let mut raw = RawOptions::for_url("http://example.com");
    raw.user_agent = String::from("probe/1.0");
    raw.cookies = String::from("session=1");
    raw.bearer = String::from("token");
    raw.redirects = true;
    let config = TargetConfig::build(&raw).unwrap();
    let (_, request) = BaselineProbe::begin(&config);
    assert_eq!(request.method, Method::Get);
    assert_eq!(request.user_agent, Some(String::from("probe/1.0")));
    assert_eq!(request.cookie, Some(String::from("session=1")));
    assert_eq!(request.auth, Auth::Bearer { token: String::from("token") });
    assert_eq!(request.redirect, RedirectPolicy::Follow { max_hops: 5 });
}

#[test]
fn baseline_with_a_given_token_asks_for_it() {
    let config = config(false);
    let (probe, request) = BaselineProbe::with_token(&config, "no-such-path");
    assert_eq!(probe.url(), "http://example.com/no-such-path");
    assert_eq!(request.url, "http://example.com/no-such-path");
    assert_eq!(request.method, Method::Get);
}

fn probe(config: &TargetConfig) -> BaselineProbe {
    BaselineProbe::with_token(config, "zz").0
}

#[test]
fn unmatched_baseline_lets_the_run_go_on() {
    for forced in [false, true] {
        let config = config(forced);
        let baseline = WildcardBaseline { status: 404, is_wildcard: false };
        assert_eq!(
            probe(&config).assess(&config, answered(404)),
            BaselineVerdict::Proceed { url: String::from("http://example.com/zz"), baseline }
        );
        let dispatcher =
            Dispatcher::open(config.clone(), probe(&config), answered(404), words()).unwrap();
        assert_eq!(dispatcher.total(), 3);
        assert_eq!(dispatcher.dispatched(), 0);
        assert_eq!(dispatcher.in_flight(), 0);
        assert_eq!(dispatcher.baseline(), baseline);
        assert_eq!(dispatcher.baseline_url(), "http://example.com/zz");
        assert_eq!(dispatcher.config(), &config);
    }
}

#[test]
fn wildcard_stops_the_run_before_any_probe() {
    let config = config(false);
    let error =
        RunError::WildcardDetected { url: String::from("http://example.com/zz"), status: 200 };
    assert_eq!(
        probe(&config).assess(&config, answered(200)),
        BaselineVerdict::Abort(error.clone())
    );
    let opened = Dispatcher::open(config.clone(), probe(&config), answered(200), words());
    assert_eq!(opened.err(), Some(error));
}

#[test]
fn every_accepted_status_is_a_wildcard() {
    for status in [200u16, 204, 301, 302, 307] {
        let config = config(false);
        let verdict = probe(&config).assess(&config, answered(status));
        assert!(matches!(verdict, BaselineVerdict::Abort(RunError::WildcardDetected { .. })));
    }
    for status in [0u16, 199, 201, 300, 404, 500, 65535] {
        let config = config(false);
        let verdict = probe(&config).assess(&config, answered(status));
        assert!(matches!(verdict, BaselineVerdict::Proceed { .. }));
    }
}

#[test]
fn forced_wildcard_goes_on_with_a_warning() {
    let config = config(true);
    let baseline = WildcardBaseline { status: 200, is_wildcard: true };
    assert_eq!(
        probe(&config).assess(&config, answered(200)),
        BaselineVerdict::Proceed { url: String::from("http://example.com/zz"), baseline }
    );
    let dispatcher =
        Dispatcher::open(config.clone(), probe(&config), answered(200), words()).unwrap();
    assert_eq!(dispatcher.total(), 3);
    assert_eq!(dispatcher.baseline(), baseline);
    assert_eq!(
        render_warning(&dispatcher),
        Some(String::from("[-] Wildcard response found: http://example.com/zz => 200"))
    );
}

#[test]
fn run_against_a_clear_target_is_not_warned() {
    for forced in [false, true] {
        let config = config(forced);
        let dispatcher =
            Dispatcher::open(config.clone(), probe(&config), answered(404), words()).unwrap();
        assert_eq!(render_warning(&dispatcher), None);
    }
}

#[test]
fn baseline_failure_is_fatal_even_when_forced() {
    for forced in [false, true] {
        let failures = [
            TransportFailure::Timeout,
            TransportFailure::Connection,
            TransportFailure::TooManyRedirects,
            TransportFailure::Other,
        ];
        for failure in failures {
            let config = config(forced);
            let error = RunError::BaselineNetwork { failure };
            assert_eq!(
                probe(&config).assess(&config, Err(failure)),
                BaselineVerdict::Abort(error.clone())
            );
            let opened = Dispatcher::open(config.clone(), probe(&config), Err(failure), words());
            assert_eq!(opened.err(), Some(error));
        }
    }
}

#[test]
fn fatal_errors_exit_with_a_code_that_is_not_zero() {
    let errors = [
        RunError::Config(rbuster::error::ConfigError::ZeroConcurrency),
        RunError::BaselineNetwork { failure: TransportFailure::Timeout },
        RunError::WildcardDetected { url: String::from("http://x/y"), status: 200 },
    ];
    for error in errors {
        assert_eq!(exit_code_of(&Err(error)), 1);
    }
    assert_eq!(exit_code_of(&Ok(())), 0);
}
