use wimesh::http::TransportError;
use wimesh::models::GatewayConfig;
use wimesh::portal::awing::{
    handshake_url, select_authen_form, AwingConfig, AwingPortal, Cause, ConnectFlow, ConnectStep,
    Method, ProtocolContext, ProtocolError, Reply, Request,
};
use wimesh::parser::ExtractionError;

const GATEWAY_PAGE: &str = r#"
    var mac = "AA:BB:CC:DD:EE:FF";
    var ip = "192.168.1.1";
    var chap_id = "12345";
    var chap_challenge = "abcdef123456";
    "link-login-only": "http://portal.local/login";
"#;

const FORM: &str = r#"<form>
    <input type="hidden" name="username" value="user123">
    <input type="hidden" value="pass456" name="password">
</form>"#;

fn portal() -> AwingPortal {
    AwingPortal::new(AwingConfig {
        name: "KTX".to_string(),
        ssids: vec!["Guest".to_string()],
        mac_address: "11:22:33:44:55:66".to_string(),
    })
}

fn context(tag: &str) -> ProtocolContext {
    ProtocolContext {
        text: format!("{{\"session\":\"{}\"}}", tag),
        fields: vec![
            ("session".to_string(), format!("\"{}\"", tag)),
            ("customer".to_string(), "{\"gender\":2}".to_string()),
        ],
    }
}

/// Runs a whole attempt with scripted replies and returns the requests sent.
fn run_attempt(p: &AwingPortal, tag: &str) -> (ConnectFlow, Vec<Request>) {
    let (mut flow, first) = p.begin_connect();
    let mut sent = vec![first];
    let replies = vec![
        Reply::Page(GATEWAY_PAGE.to_string()),
        Reply::Page(String::new()),
        Reply::Context(context(tag)),
        Reply::AuthenForms { nested: Some(FORM.to_string()), top: None },
        Reply::Page(String::new()),
        Reply::Page(String::new()),
    ];
    for reply in replies {
        match flow.advance(reply) {
            Ok(Some(req)) => sent.push(req),
            Ok(None) => break,
            Err(e) => panic!("step failed: {:?}", e),
        }
    }
    (flow, sent)
}

#[test]
fn six_steps_in_order() {
    let (flow, sent) = run_attempt(&portal(), "one");
    assert_eq!(flow.step(), ConnectStep::Connected);
    assert_eq!(sent.len(), 6);
    assert_eq!(sent[0].method, Method::Get);
    assert_eq!(sent[0].url, "http://login.net.vn");
    let hs = "http://v1.awingconnect.vn/login?serial=11:22:33:44:55:66&client_mac=AA:BB:CC:DD:EE:FF&client_ip=192.168.1.1&userurl=http://login.net.vn/&login_url=http%3A%2F%2Fportal.local%2Flogin&chap_id=12345&chap_challenge=abcdef123456";
    assert_eq!(sent[1].url, hs);
    assert_eq!(sent[1].referer.as_deref(), Some(hs));
    assert_eq!(sent[1].origin.as_deref(), Some("http://v1.awingconnect.vn"));
    assert_eq!(sent[2].url, "http://v1.awingconnect.vn/Home/VerifyUrl");
    assert_eq!(sent[2].method, Method::PostJson);
    assert!(sent[2].fields.is_empty());
    assert_eq!(sent[2].referer.as_deref(), Some(hs));
    assert_eq!(sent[3].url, "http://v1.awingconnect.vn/Content/GetCustomer");
    assert_eq!(
        sent[3].fields,
        vec![
            ("captiveContextDTO".to_string(), "{\"session\":\"one\"}".to_string()),
            ("customer".to_string(), "{\"gender\":2}".to_string()),
            ("customerRequiredFields".to_string(), "[]".to_string()),
            ("session".to_string(), "\"one\"".to_string()),
        ]
    );
    assert_eq!(sent[4].url, "http://v1.awingconnect.vn/Analytic/Send");
    assert_eq!(sent[4].fields[1], ("analyticType".to_string(), "\"Authentication\"".to_string()));
    assert_eq!(sent[4].fields[2], ("viewIndex".to_string(), "1".to_string()));
    assert_eq!(sent[5].method, Method::PostForm);
    assert_eq!(sent[5].url, "http://portal.local/login");
    assert_eq!(
        sent[5].fields,
        vec![
            ("username".to_string(), "user123".to_string()),
            ("password".to_string(), "pass456".to_string()),
            ("dst".to_string(), "http://v1.awingconnect.vn/Success".to_string()),
            ("popup".to_string(), "false".to_string()),
        ]
    );
}

#[test]
fn two_attempts_are_independent() {
    let p = portal();
    let (f1, a) = run_attempt(&p, "one");
    let (f2, b) = run_attempt(&p, "two");
    assert_eq!(f1.step(), ConnectStep::Connected);
    assert_eq!(f2.step(), ConnectStep::Connected);
    assert_eq!(a.len(), 6);
    assert_eq!(b.len(), 6);
    assert_eq!(a[0].url, b[0].url);
    assert_eq!(a[1].url, b[1].url);
    assert_eq!(a[3].fields[0].1, "{\"session\":\"one\"}");
    assert_eq!(b[3].fields[0].1, "{\"session\":\"two\"}");
    let (fresh, _) = p.begin_connect();
    assert_eq!(fresh.step(), ConnectStep::ScanGateway);
    assert!(fresh.gateway().is_none());
    assert!(fresh.handshake_url().is_none());
}

#[test]
fn missing_challenge_fails_scan_step() {
    let (mut flow, _) = portal().begin_connect();
    let e = flow.advance(Reply::Page("var mac = \"x\";".to_string())).unwrap_err();
    assert_eq!(e.step, ConnectStep::ScanGateway);
    assert!(matches!(e.cause, Cause::Extraction(ExtractionError::ChallengeNotFound)));
    assert_eq!(flow.step(), ConnectStep::Failed);
}

#[test]
fn transport_failure_names_the_step() {
    let (mut flow, _) = portal().begin_connect();
    flow.advance(Reply::Page(GATEWAY_PAGE.to_string())).unwrap();
    let e = flow
        .advance(Reply::TransportFailed(TransportError::Status { status: 404, excerpt: "no".to_string() }))
        .unwrap_err();
    assert_eq!(e.step, ConnectStep::Handshake);
    assert!(matches!(e.cause, Cause::Transport(TransportError::Status { status: 404, .. })));
    // the gateway parameters stay for diagnostics
    assert_eq!(flow.gateway().unwrap().chap_challenge, "abcdef123456");
}

#[test]
fn missing_authen_form_is_a_protocol_error() {
    let (mut flow, _) = portal().begin_connect();
    flow.advance(Reply::Page(GATEWAY_PAGE.to_string())).unwrap();
    flow.advance(Reply::Page(String::new())).unwrap();
    flow.advance(Reply::Context(context("x"))).unwrap();
    let e = flow.advance(Reply::AuthenForms { nested: None, top: None }).unwrap_err();
    assert_eq!(e.step, ConnectStep::GetCredentials);
    assert!(matches!(e.cause, Cause::Protocol(ProtocolError::AuthenFormMissing)));
}

#[test]
fn unexpected_reply_fails_the_step() {
    let (mut flow, _) = portal().begin_connect();
    let e = flow.advance(Reply::Context(context("x"))).unwrap_err();
    assert_eq!(e.step, ConnectStep::ScanGateway);
    assert!(matches!(e.cause, Cause::Protocol(ProtocolError::UnexpectedReply)));
}

#[test]
fn nested_form_is_preferred() {
    assert_eq!(select_authen_form(Some("n".to_string()), Some("t".to_string())).unwrap(), "n");
    assert_eq!(select_authen_form(None, Some("t".to_string())).unwrap(), "t");
    assert!(select_authen_form(None, None).is_err());
}

#[test]
fn fallback_login_url_when_gateway_gives_none() {
    let (mut flow, _) = portal().begin_connect();
    flow.advance(Reply::Page("chap_challenge = 'c'".to_string())).unwrap();
    flow.advance(Reply::Page(String::new())).unwrap();
    flow.advance(Reply::Context(context("x"))).unwrap();
    flow.advance(Reply::AuthenForms { nested: None, top: Some(FORM.to_string()) }).unwrap();
    let req = flow.advance(Reply::Page(String::new())).unwrap().unwrap();
    assert_eq!(req.url, "http://free.wi-mesh.vn/login");
}

#[test]
fn handshake_url_percent_encodes_login_address() {
    let gw = GatewayConfig {
        mac: "m".to_string(),
        ip: "i".to_string(),
        chap_id: "c".to_string(),
        chap_challenge: "h".to_string(),
        link_login_only: "http://a b/é~".to_string(),
    };
    assert_eq!(
        handshake_url("d", &gw),
        "http://v1.awingconnect.vn/login?serial=d&client_mac=m&client_ip=i&userurl=http://login.net.vn/&login_url=http%3A%2F%2Fa%20b%2F%C3%A9~&chap_id=c&chap_challenge=h"
    );
}
