use gsc_client::config::{parse_dotfile, render_dotfile, Config, Dotfile};
use gsc_client::config::dotfile_is_clean;
use gsc_client::errors::{
    auth_should_retry, check_matching_passwords, classify_deauth, response_outcome,
    DeauthOutcome, GscError, JsonError,
};
use gsc_client::parse_cookie;
use gsc_client::cookie::parse_cookies;

fn dotfile(username: &str, cookie: &str, endpoint: &str) -> Dotfile {
    Dotfile {
        username: username.to_owned(),
        cookie: cookie.to_owned(),
        endpoint: endpoint.to_owned(),
    }
}

#[test]
fn render_writes_one_line_per_field() {
    let d = dotfile("alice", "sid=abc", "http://host");
    assert_eq!(render_dotfile(&d), "username=alice\ncookie=sid=abc\nendpoint=http://host\n");
}

#[test]
fn render_skips_absent_fields() {
    let d = dotfile("", "", "http://host");
    assert_eq!(render_dotfile(&d), "endpoint=http://host\n");
    let none = dotfile("", "", "");
    assert_eq!(render_dotfile(&none), "");
}

// A record written whole and read back is the record that was written:
// a reader never sees a mixture of fields from different records.
#[test]
fn record_round_trips() {
    let d = dotfile("alice", "sid=a=b;c", "http://host:9090");
    let parsed = parse_dotfile(&render_dotfile(&d)).unwrap();
    assert_eq!(parsed, d);

    let partial = dotfile("bob", "", "");
    assert_eq!(parse_dotfile(&render_dotfile(&partial)).unwrap(), partial);
}

#[test]
fn parse_takes_missing_fields_as_absent() {
    let d = parse_dotfile("username=carol").unwrap();
    assert_eq!(d.username, "carol");
    assert_eq!(d.cookie, "");
    assert_eq!(d.endpoint, "");
    let empty = parse_dotfile("").unwrap();
    assert_eq!(empty, dotfile("", "", ""));
}

#[test]
fn parse_ignores_blank_lines_and_lets_later_lines_win() {
    let d = parse_dotfile("\nusername=a\n\nusername=b\n").unwrap();
    assert_eq!(d.username, "b");
}

#[test]
fn parse_rejects_foreign_lines() {
    match parse_dotfile("username=a\nwhat is this\n") {
        Err(GscError::SyntaxError(what, line)) => {
            assert_eq!(what, "dotfile");
            assert_eq!(line, "what is this");
        }
        other => panic!("expected syntax error, got {:?}", other),
    }
    assert!(matches!(parse_dotfile("unknown=x\n"), Err(GscError::SyntaxError(_, _))));
}

#[test]
fn parse_rejects_empty_key_and_keeps_equals_in_values() {
    assert!(matches!(parse_dotfile("=x\n"), Err(GscError::SyntaxError(_, _))));
    let d = parse_dotfile("cookie=a=b=c\n").unwrap();
    assert_eq!(d.cookie, "a=b=c");
}

#[test]
fn cookie_chunk_parsing() {
    assert_eq!(
        parse_cookie("sid=abc123; Path=/; HttpOnly"),
        Some(("sid".to_owned(), "abc123".to_owned()))
    );
    assert_eq!(parse_cookie("sid=a=b"), Some(("sid".to_owned(), "a=b".to_owned())));
    assert_eq!(parse_cookie("junk; Path=/"), None);
    assert_eq!(parse_cookie(""), None);
}

#[test]
fn first_chunk_with_a_cookie_wins() {
    let chunks = vec!["nothing here".to_owned(), "sid=x; Path=/".to_owned(), "t=y".to_owned()];
    assert_eq!(parse_cookies(&chunks), Some(("sid".to_owned(), "x".to_owned())));
    assert_eq!(parse_cookies(&vec!["no pair".to_owned()]), None);
}

#[test]
fn config_credential_lifecycle() {
    let mut c = Config::new(Some("/home/u/.gsclogin".to_owned()), "http://host");
    assert_eq!(c.get_endpoint(), "http://host");
    assert_eq!(c.get_username(), "");
    assert!(matches!(c.get_cookie(), Err(GscError::LoginPlease)));
    assert!(matches!(c.get_cookie_header(), Err(GscError::LoginPlease)));
    assert_eq!(c.get_dotfile().unwrap(), "/home/u/.gsclogin");

    c.set_username("alice".to_owned());
    c.set_cookie(Some(("sid".to_owned(), "abc".to_owned())));
    assert_eq!(c.get_cookie().unwrap(), ("sid".to_owned(), "abc".to_owned()));
    assert_eq!(c.get_cookie_header().unwrap(), "sid=abc");

    let d = c.to_dotfile();
    assert_eq!(d, dotfile("alice", "sid=abc", "http://host"));

    c.clear_credentials();
    assert_eq!(c.get_username(), "");
    assert!(matches!(c.get_cookie(), Err(GscError::LoginPlease)));
}

#[test]
fn config_without_dotfile_path() {
    let c = Config::new(None, "http://host");
    assert!(matches!(c.get_dotfile(), Err(GscError::NoDotfileGiven)));
}

#[test]
fn apply_dotfile_overrides_only_present_fields() {
    let mut c = Config::new(None, "http://default");
    c.set_username("old".to_owned());
    c.apply_dotfile(&dotfile("", "sid=abc; Path=/", "http://other"));
    assert_eq!(c.get_username(), "old");
    assert_eq!(c.get_endpoint(), "http://other");
    assert_eq!(c.get_cookie().unwrap(), ("sid".to_owned(), "abc".to_owned()));

    // An unparseable cookie text leaves no cookie in force.
    c.apply_dotfile(&dotfile("new", "garbage", ""));
    assert_eq!(c.get_username(), "new");
    assert_eq!(c.get_endpoint(), "http://other");
    assert!(matches!(c.get_cookie(), Err(GscError::LoginPlease)));
}

#[test]
fn response_classification() {
    let ok_body = JsonError { status: 0, title: String::new(), message: String::new() };
    assert!(response_outcome(200, ok_body.clone()).is_ok());
    assert!(response_outcome(204, ok_body.clone()).is_ok());
    assert!(response_outcome(199, ok_body.clone()).is_err());
    assert!(response_outcome(301, ok_body).is_err());

    let body = JsonError { status: 404, title: "Not Found".to_owned(), message: "gone".to_owned() };
    match response_outcome(404, body.clone()) {
        Err(GscError::ServerError(e)) => assert_eq!(e, body),
        other => panic!("expected server error, got {:?}", other),
    }
    assert!(response_outcome(201, body).is_ok());
}

#[test]
fn auth_retries_only_on_rejected_password() {
    let unauthorized = GscError::ServerError(JsonError {
        status: 401,
        title: "Unauthorized".to_owned(),
        message: "bad password".to_owned(),
    });
    assert!(auth_should_retry(&unauthorized));
    let forbidden = GscError::ServerError(JsonError {
        status: 403,
        title: "Forbidden".to_owned(),
        message: "no".to_owned(),
    });
    assert!(!auth_should_retry(&forbidden));
    assert!(!auth_should_retry(&GscError::LoginPlease));
}

#[test]
fn deauth_classification() {
    assert_eq!(classify_deauth(&Ok(true)), DeauthOutcome::ServerOk);
    assert_eq!(classify_deauth(&Ok(false)), DeauthOutcome::ServerRefused);
    assert_eq!(
        classify_deauth(&Err(GscError::LoginPlease)),
        DeauthOutcome::NotAuthenticated
    );
    let other = GscError::ServerError(JsonError {
        status: 500,
        title: "oops".to_owned(),
        message: "broke".to_owned(),
    });
    assert_eq!(classify_deauth(&Err(other)), DeauthOutcome::OtherFailure);
}

#[test]
fn record_with_newline_is_not_representable() {
    assert!(dotfile_is_clean(&dotfile("alice", "sid=abc", "http://host")));
    assert!(!dotfile_is_clean(&dotfile("ali\nce", "sid=abc", "http://host")));
    assert!(!dotfile_is_clean(&dotfile("alice", "sid=a\nbc", "")));
    assert!(!dotfile_is_clean(&dotfile("", "", "http://host\n")));
    assert!(dotfile_is_clean(&dotfile("", "", "")));
}

#[test]
fn password_pair_must_match() {
    assert_eq!(
        check_matching_passwords("pw1".to_owned(), &"pw1".to_owned()).unwrap(),
        "pw1"
    );
    assert!(matches!(
        check_matching_passwords("pw1".to_owned(), &"pw2".to_owned()),
        Err(GscError::PasswordMismatch)
    ));
}
