use wimesh::parser::{parse_credentials, parse_gateway_html, ExtractionError};

#[test]
fn test_parse_gateway() {
    let html = r#"
            var mac = "AA:BB:CC:DD:EE:FF";
            var ip = "192.168.1.1";
            var chap_id = "12345";
            var chap_challenge = "abcdef123456";
            var link_login_only = "http://portal.local/login";
        "#;

    let gw = parse_gateway_html(html).unwrap();
    assert_eq!(gw.mac, "AA:BB:CC:DD:EE:FF");
    assert_eq!(gw.ip, "192.168.1.1");
    assert_eq!(gw.chap_challenge, "abcdef123456");
}

#[test]
fn test_parse_credentials() {
    let html = r#"
            <form>
                <input type="hidden" name="username" value="user123">
                <input type="hidden" name="password" value="pass456">
            </form>
        "#;

    let creds = parse_credentials(html).unwrap();
    assert_eq!(creds.username, "user123");
    assert_eq!(creds.password, "pass456");
}

#[test]
fn credentials_same_when_attributes_swapped() {
    let name_first = r#"<form>
        <input type="hidden" name="username" value="alice">
        <input type="hidden" name="password" value="s3cret">
    </form>"#;
    let value_first = r#"<form>
        <input type="hidden" value="alice" name="username">
        <input type="hidden" value="s3cret" name="password">
    </form>"#;
    let a = parse_credentials(name_first).unwrap();
    let b = parse_credentials(value_first).unwrap();
    assert_eq!(a.username, "alice");
    assert_eq!(a.password, "s3cret");
    assert_eq!(a.username, b.username);
    assert_eq!(a.password, b.password);
}

#[test]
fn credentials_single_quotes_and_mixed_order() {
    let html = "<input name='password' value='pw'><input value='me' type='hidden' name='username'>";
    let c = parse_credentials(html).unwrap();
    assert_eq!(c.username, "me");
    assert_eq!(c.password, "pw");
}

#[test]
fn credentials_first_match_wins() {
    let html = r#"<input name="username" value="first"><input name="username" value="second">
        <input name="password" value="p">"#;
    let c = parse_credentials(html).unwrap();
    assert_eq!(c.username, "first");
}

#[test]
fn credentials_missing_username() {
    let html = r#"<input type="hidden" name="password" value="p">"#;
    assert_eq!(parse_credentials(html).unwrap_err(), ExtractionError::UsernameNotFound);
}

#[test]
fn credentials_missing_password() {
    let html = r#"<input type="hidden" name="username" value="u">"#;
    assert_eq!(parse_credentials(html).unwrap_err(), ExtractionError::PasswordNotFound);
}

#[test]
fn credentials_empty_value_is_accepted() {
    let html = r#"<input name="username" value=""><input name="password" value="x">"#;
    let c = parse_credentials(html).unwrap();
    assert_eq!(c.username, "");
    assert_eq!(c.password, "x");
}

#[test]
fn gateway_without_challenge_fails() {
    let html = r#"
        var mac = "AA:BB:CC:DD:EE:FF";
        var ip = "10.0.0.1";
        var chap_id = "7";
        "link-login-only": "http://gw/login";
    "#;
    assert_eq!(parse_gateway_html(html).unwrap_err(), ExtractionError::ChallengeNotFound);
    assert_eq!(parse_gateway_html("").unwrap_err(), ExtractionError::ChallengeNotFound);
}

#[test]
fn gateway_challenge_with_empty_value_fails() {
    let html = r#"chap_challenge = ""; mac = "m""#;
    assert_eq!(parse_gateway_html(html).unwrap_err(), ExtractionError::ChallengeNotFound);
}

#[test]
fn gateway_colon_form_quoted_keys_and_defaults() {
    let html = r#"{ 'chap_challenge' : 'xyz', "link-login-only": "http://gw.local/login" }"#;
    let gw = parse_gateway_html(html).unwrap();
    assert_eq!(gw.chap_challenge, "xyz");
    assert_eq!(gw.link_login_only, "http://gw.local/login");
    assert_eq!(gw.mac, "");
    assert_eq!(gw.ip, "");
    assert_eq!(gw.chap_id, "");
}

#[test]
fn gateway_first_assignment_wins() {
    let html = r#"chap_challenge="one"; chap_challenge="two";"#;
    assert_eq!(parse_gateway_html(html).unwrap().chap_challenge, "one");
}

#[test]
fn extraction_error_messages() {
    assert_eq!(ExtractionError::ChallengeNotFound.message(), "chap_challenge not found");
    assert_eq!(ExtractionError::UsernameNotFound.message(), "username not found in form");
    assert_eq!(ExtractionError::PasswordNotFound.message(), "password not found in form");
}

#[test]
fn bare_credentials_form_both_orders() {
    let a = parse_credentials(r#"<input name="username" value="u1"><input name="password" value="p1">"#).unwrap();
    let b = parse_credentials(r#"<input value="u1" name="username"><input value="p1" name="password">"#).unwrap();
    assert_eq!((a.username.as_str(), a.password.as_str()), ("u1", "p1"));
    assert_eq!((b.username.as_str(), b.password.as_str()), ("u1", "p1"));
}
