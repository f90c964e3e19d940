use rbuster::config::{
    default_status_codes, normalize_base_url, Auth, RawOptions, RedirectDecision, RedirectPolicy,
    TargetConfig, DEFAULT_CONCURRENCY, MAX_REDIRECT_HOPS,
};
use rbuster::error::{ConfigError, Header};
use rbuster::request::{Method, Request};

fn options(url: &str) -> RawOptions {
    RawOptions::for_url(url)
}

#[test]
fn base_url_gets_its_slash() {
    assert_eq!(normalize_base_url("http://example.com"), "http://example.com/");
    assert_eq!(normalize_base_url("http://example.com/app"), "http://example.com/app/");
}

#[test]
fn base_url_keeps_its_one_slash() {
    assert_eq!(normalize_base_url("http://example.com/"), "http://example.com/");
}

#[test]
fn base_url_loses_its_other_slashes() {
    assert_eq!(normalize_base_url("http://example.com//"), "http://example.com/");
    assert_eq!(normalize_base_url("http://example.com/a/////"), "http://example.com/a/");
    assert_eq!(normalize_base_url("/"), "/");
    assert_eq!(normalize_base_url("////"), "/");
    assert_eq!(normalize_base_url(""), "/");
}

#[test]
fn slashes_inside_a_base_url_stay() {
    assert_eq!(normalize_base_url("http://a//b"), "http://a//b/");
    assert_eq!(normalize_base_url("http://a//b//"), "http://a//b/");
}

#[test]
fn normalizing_twice_is_normalizing_once() {
    for url in ["", "/", "//", "a", "a/", "a//", "http://x", "http://x/", "http://x///", "ü/"] {
        let once = normalize_base_url(url);
        assert!(once.ends_with('/'));
        assert!(!once.ends_with("//"));
        assert_eq!(normalize_base_url(&once), once, "{:?}", url);
    }
}

#[test]
fn defaults_make_the_default_configuration() {
    let config = TargetConfig::build(&options("http://example.com")).unwrap();
    assert_eq!(config.base_url(), "http://example.com/");
    assert_eq!(config.accepted().codes(), &vec![200, 204, 301, 302, 307]);
    assert_eq!(config.user_agent(), &None);
    assert_eq!(config.cookie(), &None);
    assert_eq!(config.auth(), &Auth::Anonymous);
    assert_eq!(config.redirect(), RedirectPolicy::NoFollow);
    assert_eq!(config.concurrency(), 100);
    assert_eq!(config.concurrency(), DEFAULT_CONCURRENCY);
    assert!(!config.show_length());
    assert!(!config.wildcard_forced());
    assert_eq!(default_status_codes(), "200,204,301,302,307");
}

#[test]
fn options_are_taken_over() {
    let mut raw = options("http://example.com/");
    raw.status_codes = String::from("200,500");
    raw.user_agent = String::from("probe/1.0");
    raw.cookies = String::from("session=1");
    raw.redirects = true;
    raw.length = true;
    raw.wildcard_forced = true;
    let config = TargetConfig::build(&raw).unwrap();
    assert_eq!(config.accepted().codes(), &vec![200, 500]);
    assert_eq!(config.user_agent(), &Some(String::from("probe/1.0")));
    assert_eq!(config.cookie(), &Some(String::from("session=1")));
    assert_eq!(config.redirect(), RedirectPolicy::Follow { max_hops: 5 });
    assert_eq!(MAX_REDIRECT_HOPS, 5);
    assert!(config.show_length());
    assert!(config.wildcard_forced());
    assert!(config.matches(500));
    assert!(!config.matches(301));
}

#[test]
fn bad_status_list_is_a_config_error() {
    let mut raw = options("http://example.com");
    raw.status_codes = String::from("200,abc");
    assert_eq!(
        TargetConfig::build(&raw),
        Err(ConfigError::InvalidStatusCode { position: 1, entry: String::from("abc") })
    );
}

#[test]
fn status_outside_sixteen_bits_is_a_config_error() {
    let mut raw = options("http://example.com");
    raw.status_codes = String::from("200,65536");
    assert_eq!(
        TargetConfig::build(&raw),
        Err(ConfigError::InvalidStatusCode { position: 1, entry: String::from("65536") })
    );
}

#[test]
fn username_wins_over_bearer() {
    let mut raw = options("http://example.com");
    raw.username = String::from("alice");
    raw.password = String::from("secret");
    raw.bearer = String::from("token");
    let config = TargetConfig::build(&raw).unwrap();
    let basic =
        Auth::Basic { username: String::from("alice"), password: String::from("secret") };
    assert_eq!(config.auth(), &basic);
    for method in [Method::Head, Method::Get] {
        let request = Request::new(&config, method, "admin");
        assert_eq!(request.auth, basic);
    }
}

#[test]
fn bearer_counts_without_a_username() {
    let mut raw = options("http://example.com");
    raw.password = String::from("ignored");
    raw.bearer = String::from("token");
    let config = TargetConfig::build(&raw).unwrap();
    assert_eq!(config.auth(), &Auth::Bearer { token: String::from("token") });
}

#[test]
fn username_alone_is_basic_with_an_empty_password() {
    let mut raw = options("http://example.com");
    raw.username = String::from("alice");
    let config = TargetConfig::build(&raw).unwrap();
    assert_eq!(
        config.auth(),
        &Auth::Basic { username: String::from("alice"), password: String::new() }
    );
}

#[test]
fn password_alone_is_no_authentication() {
    let mut raw = options("http://example.com");
    raw.password = String::from("secret");
    let config = TargetConfig::build(&raw).unwrap();
    assert_eq!(config.auth(), &Auth::Anonymous);
}

#[test]
fn concurrency_can_be_set_but_not_to_zero() {
    let config = TargetConfig::build(&options("http://example.com")).unwrap();
    let narrow = config.clone().with_concurrency(3).unwrap();
    assert_eq!(narrow.concurrency(), 3);
    assert_eq!(narrow.base_url(), config.base_url());
    assert_eq!(narrow.accepted(), config.accepted());
    assert_eq!(config.with_concurrency(0), Err(ConfigError::ZeroConcurrency));
}

#[test]
fn request_url_is_base_and_path_as_they_stand() {
    let mut raw = options("http://example.com/app//");
    raw.user_agent = String::from("probe/1.0");
    raw.cookies = String::from("a=b; c=d");
    raw.redirects = true;
    let config = TargetConfig::build(&raw).unwrap();
    let request = Request::new(&config, Method::Head, "a b/../%41?x=1#y");
    assert_eq!(request.method, Method::Head);
    assert_eq!(request.url, "http://example.com/app/a b/../%41?x=1#y");
    assert_eq!(request.user_agent, Some(String::from("probe/1.0")));
    assert_eq!(request.cookie, Some(String::from("a=b; c=d")));
    assert_eq!(request.auth, Auth::Anonymous);
    assert_eq!(request.redirect, RedirectPolicy::Follow { max_hops: 5 });
    let slashed = Request::new(&config, Method::Get, "/admin");
    assert_eq!(slashed.method, Method::Get);
    assert_eq!(slashed.url, "http://example.com/app//admin");
}

#[test]
fn redirects_are_not_followed_by_default() {
    for previous in [0usize, 1, 5, 6, 100] {
        assert_eq!(RedirectPolicy::NoFollow.decide(previous), RedirectDecision::Stop);
    }
}

#[test]
fn redirects_are_followed_for_five_hops() {
    let policy = RedirectPolicy::Follow { max_hops: MAX_REDIRECT_HOPS };
    for previous in 0usize..=5 {
        assert_eq!(policy.decide(previous), RedirectDecision::Follow);
    }
    for previous in [6usize, 7, 100, usize::MAX] {
        assert_eq!(policy.decide(previous), RedirectDecision::TooManyRedirects);
    }
}

#[test]
fn header_with_a_control_character_is_a_config_error() {
    for value in ["a\nb", "a\rb", "\u{0}", "a\u{7f}", "\u{1b}[0m", "tab\tis fine\u{1}"] {
        let mut raw = options("http://example.com");
        raw.user_agent = String::from(value);
        assert_eq!(
            TargetConfig::build(&raw),
            Err(ConfigError::InvalidHeader { header: Header::UserAgent }),
            "{:?}",
            value
        );
        let mut raw = options("http://example.com");
        raw.cookies = String::from(value);
        assert_eq!(
            TargetConfig::build(&raw),
            Err(ConfigError::InvalidHeader { header: Header::Cookie }),
            "{:?}",
            value
        );
    }
}

#[test]
fn header_of_text_is_taken() {
    for value in ["Mozilla/5.0 (X11; Linux x86_64)", "a\tb", " ", "~", "na\u{ef}ve", "\u{1F980}"] {
        let mut raw = options("http://example.com");
        raw.user_agent = String::from(value);
        raw.cookies = String::from(value);
        let config = TargetConfig::build(&raw).unwrap();
        assert_eq!(config.user_agent(), &Some(String::from(value)));
        assert_eq!(config.cookie(), &Some(String::from(value)));
    }
}

#[test]
fn first_wrong_option_is_the_one_reported() {
    let mut raw = options("http://example.com");
    raw.status_codes = String::from("abc");
    raw.user_agent = String::from("a\nb");
    raw.cookies = String::from("a\nb");
    assert_eq!(
        TargetConfig::build(&raw),
        Err(ConfigError::InvalidStatusCode { position: 0, entry: String::from("abc") })
    );
    raw.status_codes = String::from("200");
    assert_eq!(
        TargetConfig::build(&raw),
        Err(ConfigError::InvalidHeader { header: Header::UserAgent })
    );
    raw.user_agent = String::new();
    assert_eq!(
        TargetConfig::build(&raw),
        Err(ConfigError::InvalidHeader { header: Header::Cookie })
    );
}
