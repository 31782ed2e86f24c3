//! The Awing (Wi-MESH) captive portal: its configuration and engine.
use vstd::prelude::*;

use vstd::utf8::encode_utf8;

use crate::models::{Credentials, GatewayConfig, GatewayView, CredentialsView};
use crate::parser::{
    assigned_or_empty, assigned_value, input_value, parse_credentials, parse_gateway_html,
    ExtractionError,
};
use crate::payload::{field_views, put_all, put_fields};
use crate::portal::CaptivePortal;
use crate::http::TransportError;
use crate::text::{push_text, same_text, views};
use crate::url::{percent_encoded, url_encode};

verus! {

/// The captive-redirect address scanned for the gateway parameters.
pub open spec fn gateway_url() -> Seq<char> {
    "http://login.net.vn"@
}

/// The vendor's base address, also sent as `Origin`.
pub open spec fn base_url() -> Seq<char> {
    "http://v1.awingconnect.vn"@
}

/// Where the credentials go when the gateway names no login address.
pub open spec fn fallback_login_url() -> Seq<char> {
    "http://free.wi-mesh.vn/login"@
}

/// How a request is sent.
#[derive(Debug, Clone, Copy, PartialEq, Eq, Structural)]
pub enum Method {
    /// A GET.
    Get,
    /// A POST of a JSON object built from `fields`.
    PostJson,
    /// A POST of `fields` as a URL-encoded form.
    PostForm,
}

/// A request that the engine asks the transport to send.
#[derive(Debug, Clone)]
pub struct Request {
    pub method: Method,
    pub url: String,
    pub referer: Option<String>,
    pub origin: Option<String>,
    /// Form fields, or JSON fields with the JSON text of each value.
    pub fields: Vec<(String, String)>,
}

/// A request as text.
pub struct RequestView {
    pub method: Method,
    pub url: Seq<char>,
    pub referer: Option<Seq<char>>,
    pub origin: Option<Seq<char>>,
    pub fields: Seq<(Seq<char>, Seq<char>)>,
}

/// The view of an optional text.
pub open spec fn opt_view(o: Option<String>) -> Option<Seq<char>> {
    match o {
        Some(s) => Some(s@),
        None => None,
    }
}

impl View for Request {
    type V = RequestView;

    open spec fn view(&self) -> RequestView {
        RequestView {
            method: self.method,
            url: self.url@,
            referer: opt_view(self.referer),
            origin: opt_view(self.origin),
            fields: field_views(self.fields@),
        }
    }
}

/// The decoded answer of the verification endpoint: its JSON text, and its
/// top-level fields when it is an object.
#[derive(Debug, Clone)]
pub struct ProtocolContext {
    pub text: String,
    pub fields: Vec<(String, String)>,
}

/// The address of the handshake: device MAC, gateway MAC and IP, the
/// percent-encoded login address, and the chap id and challenge.
pub open spec fn handshake_url_spec(mac_address: Seq<char>, gw: GatewayView) -> Seq<char> {
    base_url() + "/login?serial="@ + mac_address + "&client_mac="@ + gw.mac + "&client_ip="@
        + gw.ip + "&userurl=http://login.net.vn/&login_url="@ + percent_encoded(
        encode_utf8(gw.link_login_only),
    ) + "&chap_id="@ + gw.chap_id + "&chap_challenge="@ + gw.chap_challenge
}

/// Builds the handshake address for the device `mac_address`.
pub fn handshake_url(mac_address: &str, gw: &GatewayConfig) -> (r: String)
    ensures
        r@ == handshake_url_spec(mac_address@, gw@),
{
    let mut u = String::new();
    push_text(&mut u, "http://v1.awingconnect.vn");
    push_text(&mut u, "/login?serial=");
    push_text(&mut u, mac_address);
    push_text(&mut u, "&client_mac=");
    push_text(&mut u, gw.mac.as_str());
    push_text(&mut u, "&client_ip=");
    push_text(&mut u, gw.ip.as_str());
    push_text(&mut u, "&userurl=http://login.net.vn/&login_url=");
    let login = url_encode(gw.link_login_only.as_str());
    push_text(&mut u, login.as_str());
    push_text(&mut u, "&chap_id=");
    push_text(&mut u, gw.chap_id.as_str());
    push_text(&mut u, "&chap_challenge=");
    push_text(&mut u, gw.chap_challenge.as_str());
    proof {
        assert(u@ =~= handshake_url_spec(mac_address@, gw@));
    }
    u
}

/// The request that scans the captive redirect page.
pub open spec fn gateway_request_spec() -> RequestView {
    RequestView {
        method: Method::Get,
        url: gateway_url(),
        referer: None,
        origin: None,
        fields: Seq::empty(),
    }
}

/// The handshake request: the address is its own `Referer`.
pub open spec fn handshake_request_spec(url: Seq<char>) -> RequestView {
    RequestView {
        method: Method::Get,
        url,
        referer: Some(url),
        origin: Some(base_url()),
        fields: Seq::empty(),
    }
}

/// A JSON request to the vendor's `path`, anchored on the handshake address.
pub open spec fn api_request_spec(
    path: Seq<char>,
    fields: Seq<(Seq<char>, Seq<char>)>,
    handshake: Seq<char>,
) -> RequestView {
    RequestView {
        method: Method::PostJson,
        url: base_url() + path,
        referer: Some(handshake),
        origin: Some(base_url()),
        fields,
    }
}

/// The fields of the credentials request: a fixed skeleton, then every
/// top-level field of the context.
pub open spec fn customer_fields_spec(
    context_text: Seq<char>,
    context_fields: Seq<(Seq<char>, Seq<char>)>,
) -> Seq<(Seq<char>, Seq<char>)> {
    put_all(
        seq![
            ("captiveContextDTO"@, context_text),
            ("customer"@, "{\"gender\":1,\"name\":\"\"}"@),
            ("customerRequiredFields"@, "[]"@),
        ],
        context_fields,
    )
}

/// The fields of the analytics request.
pub open spec fn analytics_fields_spec(context_text: Seq<char>) -> Seq<(Seq<char>, Seq<char>)> {
    seq![
        ("captiveContextDTO"@, context_text),
        ("analyticType"@, "\"Authentication\""@),
        ("viewIndex"@, "1"@),
    ]
}

/// Where the credentials are posted.
pub open spec fn login_url_spec(gw: GatewayView) -> Seq<char> {
    if gw.link_login_only.len() == 0 {
        fallback_login_url()
    } else {
        gw.link_login_only
    }
}

/// The login form.
pub open spec fn login_fields_spec(c: CredentialsView) -> Seq<(Seq<char>, Seq<char>)> {
    seq![
        ("username"@, c.username),
        ("password"@, c.password),
        ("dst"@, base_url() + "/Success"@),
        ("popup"@, "false"@),
    ]
}

/// The request that submits the credentials to the gateway.
pub open spec fn login_request_spec(gw: GatewayView, c: CredentialsView) -> RequestView {
    RequestView {
        method: Method::PostForm,
        url: login_url_spec(gw),
        referer: None,
        origin: None,
        fields: login_fields_spec(c),
    }
}

fn text(s: &str) -> (r: String)
    ensures
        r@ == s@,
{
    s.to_owned()
}

fn pair(k: &str, v: &str) -> (r: (String, String))
    ensures
        r.0@ == k@,
        r.1@ == v@,
{
    (k.to_owned(), v.to_owned())
}

/// Builds the request that scans the captive redirect page.
pub fn gateway_request() -> (r: Request)
    ensures
        r@ == gateway_request_spec(),
{
    let r = Request {
        method: Method::Get,
        url: text("http://login.net.vn"),
        referer: None,
        origin: None,
        fields: Vec::new(),
    };
    proof {
        assert(r@.fields =~= Seq::<(Seq<char>, Seq<char>)>::empty());
    }
    r
}

/// Builds the handshake request for the address `url`.
pub fn handshake_request(url: &String) -> (r: Request)
    ensures
        r@ == handshake_request_spec(url@),
{
    let r = Request {
        method: Method::Get,
        url: url.clone(),
        referer: Some(url.clone()),
        origin: Some(text("http://v1.awingconnect.vn")),
        fields: Vec::new(),
    };
    proof {
        assert(r@.fields =~= Seq::<(Seq<char>, Seq<char>)>::empty());
    }
    r
}

/// Builds a JSON request to the vendor's `path`, anchored on `handshake`.
pub fn api_request(path: &str, fields: Vec<(String, String)>, handshake: &String) -> (r: Request)
    ensures
        r@ == api_request_spec(path@, field_views(fields@), handshake@),
{
    let mut url = text("http://v1.awingconnect.vn");
    push_text(&mut url, path);
    Request {
        method: Method::PostJson,
        url,
        referer: Some(handshake.clone()),
        origin: Some(text("http://v1.awingconnect.vn")),
        fields,
    }
}

/// Builds the fields of the credentials request from the context.
pub fn customer_fields(context: &ProtocolContext) -> (r: Vec<(String, String)>)
    ensures
        field_views(r@) == customer_fields_spec(context.text@, field_views(context.fields@)),
{
    let mut fields: Vec<(String, String)> = Vec::new();
    fields.push((text("captiveContextDTO"), context.text.clone()));
    fields.push(pair("customer", "{\"gender\":1,\"name\":\"\"}"));
    fields.push(pair("customerRequiredFields", "[]"));
    proof {
        assert(field_views(fields@) =~= seq![
            ("captiveContextDTO"@, context.text@),
            ("customer"@, "{\"gender\":1,\"name\":\"\"}"@),
            ("customerRequiredFields"@, "[]"@),
        ]);
    }
    put_fields(&mut fields, &context.fields);
    fields
}

/// Builds the fields of the analytics request from the context's JSON text.
pub fn analytics_fields(context_text: &String) -> (r: Vec<(String, String)>)
    ensures
        field_views(r@) == analytics_fields_spec(context_text@),
{
    let mut fields: Vec<(String, String)> = Vec::new();
    fields.push((text("captiveContextDTO"), context_text.clone()));
    fields.push(pair("analyticType", "\"Authentication\""));
    fields.push(pair("viewIndex", "1"));
    proof {
        assert(field_views(fields@) =~= analytics_fields_spec(context_text@));
    }
    fields
}

/// Builds the request that submits the credentials to the gateway's login
/// address, or to the fallback one when the gateway gave none.
pub fn login_request(gw: &GatewayConfig, creds: &Credentials) -> (r: Request)
    ensures
        r@ == login_request_spec(gw@, creds@),
{
    let url = if gw.link_login_only.as_str().is_empty() {
        text("http://free.wi-mesh.vn/login")
    } else {
        gw.link_login_only.clone()
    };
    let mut dst = text("http://v1.awingconnect.vn");
    push_text(&mut dst, "/Success");
    let mut fields: Vec<(String, String)> = Vec::new();
    fields.push((text("username"), creds.username.clone()));
    fields.push((text("password"), creds.password.clone()));
    fields.push((text("dst"), dst));
    fields.push(pair("popup", "false"));
    let r = Request { method: Method::PostForm, url, referer: None, origin: None, fields };
    proof {
        assert(r@.fields =~= login_fields_spec(creds@));
    }
    r
}

/// The steps of one authentication attempt, in order.
#[derive(Debug, Clone, Copy, PartialEq, Eq, Structural)]
pub enum ConnectStep {
    ScanGateway,
    Handshake,
    VerifyDevice,
    GetCredentials,
    SendAnalytics,
    LoginRouter,
    Connected,
    Failed,
}

/// What the transport brought back for the pending request.
#[derive(Debug, Clone)]
pub enum Reply {
    /// A successful response, with its body.
    Page(String),
    /// The verification endpoint's answer, decoded.
    Context(ProtocolContext),
    /// The authentication-form fragments of the credentials endpoint's
    /// answer: under its captive context, and at its top level.
    AuthenForms { nested: Option<String>, top: Option<String> },
    /// The request failed.
    TransportFailed(TransportError),
    /// A successful response whose body could not be decoded.
    Undecodable(String),
}

/// A later step's expected structure is absent.
#[derive(Debug, Clone)]
pub enum ProtocolError {
    /// No authentication form, nested or at the top level.
    AuthenFormMissing,
    /// A reply of another kind than the step asked for.
    UnexpectedReply,
    /// A body that could not be decoded.
    Undecodable(String),
}

/// The cause of a failed step.
#[derive(Debug, Clone)]
pub enum Cause {
    Transport(TransportError),
    Extraction(ExtractionError),
    Protocol(ProtocolError),
}

/// A failed authentication attempt: the step that failed, and why.
#[derive(Debug, Clone)]
pub struct ConnectError {
    pub step: ConnectStep,
    pub cause: Cause,
}

/// The authentication form: the nested fragment when there is one, else the
/// top-level one.
pub fn select_authen_form(nested: Option<String>, top: Option<String>) -> (r: Result<
    String,
    ProtocolError,
>)
    ensures
        match (nested, top) {
            (Some(n), _) => r matches Ok(f) && f@ == n@,
            (None, Some(t)) => r matches Ok(f) && f@ == t@,
            (None, None) => r matches Err(ProtocolError::AuthenFormMissing),
        },
{
    match nested {
        Some(n) => Ok(n),
        None => match top {
            Some(t) => Ok(t),
            None => Err(ProtocolError::AuthenFormMissing),
        },
    }
}

/// One authentication attempt with an Awing portal: the step reached and
/// what the earlier steps produced. Each attempt starts afresh; only the
/// transport's cookies outlive it.
pub struct ConnectFlow {
    mac_address: String,
    step: ConnectStep,
    gateway: Option<GatewayConfig>,
    handshake_url: Option<String>,
    context: Option<ProtocolContext>,
    credentials: Option<Credentials>,
}

/// A protocol context as text.
pub struct ContextView {
    pub text: Seq<char>,
    pub fields: Seq<(Seq<char>, Seq<char>)>,
}

/// The state of an attempt as text.
pub struct FlowView {
    pub mac_address: Seq<char>,
    pub step: ConnectStep,
    pub gateway: Option<GatewayView>,
    pub handshake_url: Option<Seq<char>>,
    pub context: Option<ContextView>,
    pub credentials: Option<CredentialsView>,
}

/// The state in which an attempt for the device `mac_address` starts.
pub open spec fn fresh_flow(mac_address: Seq<char>) -> FlowView {
    FlowView {
        mac_address,
        step: ConnectStep::ScanGateway,
        gateway: None,
        handshake_url: None,
        context: None,
        credentials: None,
    }
}

/// Whether the attempt is waiting for the reply to a request.
pub open spec fn is_active(step: ConnectStep) -> bool {
    step != ConnectStep::Connected && step != ConnectStep::Failed
}

impl View for ConnectFlow {
    type V = FlowView;

    closed spec fn view(&self) -> FlowView {
        FlowView {
            mac_address: self.mac_address@,
            step: self.step,
            gateway: match self.gateway {
                Some(g) => Some(g@),
                None => None,
            },
            handshake_url: opt_view(self.handshake_url),
            context: match self.context {
                Some(c) => Some(ContextView { text: c.text@, fields: field_views(c.fields@) }),
                None => None,
            },
            credentials: match self.credentials {
                Some(c) => Some(c@),
                None => None,
            },
        }
    }
}

/// Each step finds what the earlier steps produced.
pub open spec fn flow_wf(f: FlowView) -> bool {
    &&& (f.step == ConnectStep::Handshake || f.step == ConnectStep::VerifyDevice || f.step
        == ConnectStep::GetCredentials || f.step == ConnectStep::SendAnalytics || f.step
        == ConnectStep::LoginRouter) ==> f.gateway is Some
    &&& (f.step == ConnectStep::VerifyDevice || f.step == ConnectStep::GetCredentials || f.step
        == ConnectStep::SendAnalytics) ==> f.handshake_url is Some
    &&& (f.step == ConnectStep::GetCredentials || f.step == ConnectStep::SendAnalytics)
        ==> f.context is Some
    &&& (f.step == ConnectStep::SendAnalytics || f.step == ConnectStep::LoginRouter)
        ==> f.credentials is Some
}

/// The state after a step failed: the step is `Failed`, the rest is kept.
pub open spec fn failed(f: FlowView) -> FlowView {
    FlowView { step: ConnectStep::Failed, ..f }
}

/// Whether `reply` answers the request of `step`, or reports its failure.
pub open spec fn expected_reply(step: ConnectStep, reply: Reply) -> bool {
    match reply {
        Reply::TransportFailed(_) | Reply::Undecodable(_) => true,
        Reply::Page(_) => step == ConnectStep::ScanGateway || step == ConnectStep::Handshake
            || step == ConnectStep::SendAnalytics || step == ConnectStep::LoginRouter,
        Reply::Context(_) => step == ConnectStep::VerifyDevice,
        Reply::AuthenForms { .. } => step == ConnectStep::GetCredentials,
    }
}

impl ConnectFlow {
    /// Starts an attempt for the device `mac_address`; the first request
    /// scans the captive redirect page.
    pub fn start(mac_address: &str) -> (r: (ConnectFlow, Request))
        ensures
            r.0@ == fresh_flow(mac_address@),
            r.1@ == gateway_request_spec(),
    {
        let flow = ConnectFlow {
            mac_address: text(mac_address),
            step: ConnectStep::ScanGateway,
            gateway: None,
            handshake_url: None,
            context: None,
            credentials: None,
        };
        (flow, gateway_request())
    }

    /// The step reached.
    pub fn step(&self) -> (r: ConnectStep)
        ensures
            r == self@.step,
    {
        self.step
    }

    /// The gateway parameters, once scanned.
    pub fn gateway(&self) -> (r: Option<GatewayConfig>)
        ensures
            match self@.gateway {
                Some(g) => r matches Some(x) && x@ == g,
                None => r is None,
            },
    {
        match &self.gateway {
            Some(g) => Some(
                GatewayConfig {
                    mac: g.mac.clone(),
                    ip: g.ip.clone(),
                    chap_id: g.chap_id.clone(),
                    chap_challenge: g.chap_challenge.clone(),
                    link_login_only: g.link_login_only.clone(),
                },
            ),
            None => None,
        }
    }

    /// The handshake address, once the handshake went through.
    pub fn handshake_url(&self) -> (r: Option<String>)
        ensures
            opt_view(r) == self@.handshake_url,
    {
        match &self.handshake_url {
            Some(u) => Some(u.clone()),
            None => None,
        }
    }

    fn fail(&mut self, cause: Cause) -> (r: Result<Option<Request>, ConnectError>)
        ensures
            final(self)@ == failed(old(self)@),
            r matches Err(e) && e.step == old(self)@.step && e.cause == cause,
    {
        let step = self.step;
        self.step = ConnectStep::Failed;
        Err(ConnectError { step, cause })
    }

    /// Takes the reply to the pending request. Returns the next request,
    /// `None` once the credentials were accepted, or the error of the step
    /// that failed. A transport failure or an undecodable body fails the step
    /// that is waiting; so does a reply of another kind than it asked for.
    pub fn advance(&mut self, reply: Reply) -> (r: Result<Option<Request>, ConnectError>)
        requires
            flow_wf(old(self)@),
            is_active(old(self)@.step),
        ensures
            flow_wf(final(self)@),
            final(self)@.mac_address == old(self)@.mac_address,
            r is Err <==> final(self)@.step == ConnectStep::Failed,
            r matches Err(e) ==> e.step == old(self)@.step && final(self)@ == failed(old(self)@),
            reply matches Reply::TransportFailed(t) ==> r matches Err(e) && e.cause == Cause::Transport(t),
            old(self)@.step == ConnectStep::ScanGateway ==> (reply matches Reply::Page(body)
                ==> match (assigned_value(body@, "chap_challenge"@), r) {
                (None, Err(e)) => e.cause == Cause::Extraction(ExtractionError::ChallengeNotFound),
                (Some(_), Ok(Some(req))) => {
                    &&& final(self)@.step == ConnectStep::Handshake
                    &&& final(self)@.gateway matches Some(g)
                    &&& g.chap_challenge == assigned_or_empty(body@, "chap_challenge"@)
                    &&& g.mac == assigned_or_empty(body@, "mac"@)
                    &&& g.ip == assigned_or_empty(body@, "ip"@)
                    &&& g.chap_id == assigned_or_empty(body@, "chap_id"@)
                    &&& g.link_login_only == assigned_or_empty(body@, "link-login-only"@)
                    &&& req@ == handshake_request_spec(
                        handshake_url_spec(old(self)@.mac_address, g),
                    )
                },
                _ => false,
            }),
            old(self)@.step == ConnectStep::Handshake ==> (reply is Page ==> {
                let u = handshake_url_spec(old(self)@.mac_address, old(self)@.gateway->0);
                &&& r matches Ok(Some(req))
                &&& final(self)@ == (FlowView {
                    step: ConnectStep::VerifyDevice,
                    handshake_url: Some(u),
                    ..old(self)@
                })
                &&& req@ == api_request_spec("/Home/VerifyUrl"@, Seq::empty(), u)
            }),
            old(self)@.step == ConnectStep::VerifyDevice ==> (reply matches Reply::Context(c) ==> {
                &&& r matches Ok(Some(req))
                &&& final(self)@ == (FlowView {
                    step: ConnectStep::GetCredentials,
                    context: Some(ContextView { text: c.text@, fields: field_views(c.fields@) }),
                    ..old(self)@
                })
                &&& req@ == api_request_spec(
                    "/Content/GetCustomer"@,
                    customer_fields_spec(c.text@, field_views(c.fields@)),
                    old(self)@.handshake_url->0,
                )
            }),
            old(self)@.step == ConnectStep::GetCredentials ==> (reply matches Reply::AuthenForms {
                nested,
                top,
            } ==> match (if nested is Some {
                opt_view(nested)
            } else {
                opt_view(top)
            }) {
                None => r matches Err(e) && e.cause matches Cause::Protocol(
                    ProtocolError::AuthenFormMissing,
                ),
                Some(f) => match (input_value(f, "username"@), input_value(f, "password"@)) {
                    (Some(u), Some(p)) => {
                        &&& r matches Ok(Some(req))
                        &&& final(self)@ == (FlowView {
                            step: ConnectStep::SendAnalytics,
                            credentials: Some(CredentialsView { username: u, password: p }),
                            ..old(self)@
                        })
                        &&& req@ == api_request_spec(
                            "/Analytic/Send"@,
                            analytics_fields_spec(old(self)@.context->0.text),
                            old(self)@.handshake_url->0,
                        )
                    },
                    (None, _) => r matches Err(e) && e.cause == Cause::Extraction(
                        ExtractionError::UsernameNotFound,
                    ),
                    (Some(_), None) => r matches Err(e) && e.cause == Cause::Extraction(
                        ExtractionError::PasswordNotFound,
                    ),
                },
            }),
            old(self)@.step == ConnectStep::SendAnalytics ==> (reply is Page ==> {
                &&& r matches Ok(Some(req))
                &&& final(self)@ == (FlowView { step: ConnectStep::LoginRouter, ..old(self)@ })
                &&& req@ == login_request_spec(old(self)@.gateway->0, old(self)@.credentials->0)
            }),
            old(self)@.step == ConnectStep::LoginRouter ==> (reply is Page ==> {
                &&& r matches Ok(None)
                &&& final(self)@ == (FlowView { step: ConnectStep::Connected, ..old(self)@ })
            }),
            reply matches Reply::Undecodable(m) ==> (r matches Err(e) && e.cause matches Cause::Protocol(
                ProtocolError::Undecodable(x),
            ) && x@ == m@),
            !expected_reply(old(self)@.step, reply) ==> (r matches Err(e) && e.cause matches Cause::Protocol(
                ProtocolError::UnexpectedReply,
            )),
    {
        match reply {
            Reply::TransportFailed(t) => self.fail(Cause::Transport(t)),
            Reply::Undecodable(m) => self.fail(Cause::Protocol(ProtocolError::Undecodable(m))),
            Reply::Page(body) => match self.step {
                ConnectStep::ScanGateway => match parse_gateway_html(body.as_str()) {
                    Ok(gw) => {
                        let url = handshake_url(self.mac_address.as_str(), &gw);
                        let req = handshake_request(&url);
                        self.gateway = Some(gw);
                        self.step = ConnectStep::Handshake;
                        Ok(Some(req))
                    },
                    Err(e) => self.fail(Cause::Extraction(e)),
                },
                ConnectStep::Handshake => {
                    let url = match &self.gateway {
                        Some(gw) => handshake_url(self.mac_address.as_str(), gw),
                        None => String::new(),
                    };
                    let empty: Vec<(String, String)> = Vec::new();
                    proof {
                        assert(field_views(empty@) =~= Seq::empty());
                    }
                    let req = api_request("/Home/VerifyUrl", empty, &url);
                    self.handshake_url = Some(url);
                    self.step = ConnectStep::VerifyDevice;
                    Ok(Some(req))
                },
                ConnectStep::SendAnalytics => {
                    let req = match (&self.gateway, &self.credentials) {
                        (Some(gw), Some(c)) => login_request(gw, c),
                        _ => gateway_request(),
                    };
                    self.step = ConnectStep::LoginRouter;
                    Ok(Some(req))
                },
                ConnectStep::LoginRouter => {
                    self.step = ConnectStep::Connected;
                    Ok(None)
                },
                _ => self.fail(Cause::Protocol(ProtocolError::UnexpectedReply)),
            },
            Reply::Context(c) => {
                if self.step != ConnectStep::VerifyDevice {
                    return self.fail(Cause::Protocol(ProtocolError::UnexpectedReply));
                }
                let fields = customer_fields(&c);
                let hs = match &self.handshake_url {
                    Some(u) => u.clone(),
                    None => String::new(),
                };
                let req = api_request("/Content/GetCustomer", fields, &hs);
                self.context = Some(c);
                self.step = ConnectStep::GetCredentials;
                Ok(Some(req))
            },
            Reply::AuthenForms { nested, top } => {
                if self.step != ConnectStep::GetCredentials {
                    return self.fail(Cause::Protocol(ProtocolError::UnexpectedReply));
                }
                let form = match select_authen_form(nested, top) {
                    Ok(f) => f,
                    Err(e) => {
                        return self.fail(Cause::Protocol(e));
                    },
                };
                let creds = match parse_credentials(form.as_str()) {
                    Ok(c) => c,
                    Err(e) => {
                        return self.fail(Cause::Extraction(e));
                    },
                };
                let (ctx_text, hs) = match (&self.context, &self.handshake_url) {
                    (Some(c), Some(u)) => (c.text.clone(), u.clone()),
                    _ => (String::new(), String::new()),
                };
                let req = api_request("/Analytic/Send", analytics_fields(&ctx_text), &hs);
                self.credentials = Some(creds);
                self.step = ConnectStep::SendAnalytics;
                Ok(Some(req))
            },
        }
    }
}

/// Two attempts started for the same device begin in the same state and
/// send the same first request, whatever happened in earlier attempts: no
/// state of one attempt reaches the next.
pub proof fn lemma_attempts_independent(
    a: (ConnectFlow, Request),
    b: (ConnectFlow, Request),
    mac_address: Seq<char>,
)
    requires
        a.0@ == fresh_flow(mac_address),
        a.1@ == gateway_request_spec(),
        b.0@ == fresh_flow(mac_address),
        b.1@ == gateway_request_spec(),
    ensures
        a.0@ == b.0@,
        a.1@ == b.1@,
        flow_wf(a.0@),
        is_active(a.0@.step),
{
}

/// Configuration of one Awing portal.
#[derive(Debug, Clone)]
pub struct AwingConfig {
    /// Human-readable name of this portal instance.
    pub name: String,
    /// Networks that this portal serves.
    pub ssids: Vec<String>,
    /// Device MAC address sent as the handshake's serial.
    pub mac_address: String,
}

impl Default for AwingConfig {
    fn default() -> (r: Self)
        ensures
            r.name@ == "Wi-MESH Awing"@,
            views(r.ssids@) == seq!["1.Free Wi-MESH"@],
            r.mac_address@ == Seq::<char>::empty(),
    {
        let mut ssids: Vec<String> = Vec::new();
        ssids.push("1.Free Wi-MESH".to_owned());
        proof {
            assert(views(ssids@) =~= seq!["1.Free Wi-MESH"@]);
        }
        AwingConfig { name: "Wi-MESH Awing".to_owned(), ssids, mac_address: String::new() }
    }
}

/// The Awing portal engine. It holds only its configuration: the state of one
/// authentication attempt lives in a `ConnectFlow`.
pub struct AwingPortal {
    pub config: AwingConfig,
}

impl AwingPortal {
    /// Creates the engine for `config`.
    pub fn new(config: AwingConfig) -> (r: Self)
        ensures
            r.config == config,
    {
        AwingPortal { config }
    }

    /// Starts an authentication attempt with this portal's device MAC.
    pub fn begin_connect(&self) -> (r: (ConnectFlow, Request))
        ensures
            r.0@ == fresh_flow(self.config.mac_address@),
            r.1@ == gateway_request_spec(),
    {
        ConnectFlow::start(self.config.mac_address.as_str())
    }
}

impl CaptivePortal for AwingPortal {
    open spec fn served(&self) -> Seq<Seq<char>> {
        views(self.config.ssids@)
    }

    open spec fn display_name(&self) -> Seq<char> {
        self.config.name@
    }

    fn name(&self) -> (r: &str) {
        self.config.name.as_str()
    }

    fn ssids(&self) -> (r: &[String]) {
        self.config.ssids.as_slice()
    }

    fn matches_ssid(&self, ssid: &str) -> (r: bool) {
        let mut i: usize = 0;
        while i < self.config.ssids.len()
            invariant
                i <= self.config.ssids@.len(),
                forall|j: int| 0 <= j < i ==> self.config.ssids@[j]@ != ssid@,
            decreases self.config.ssids.len() - i,
        {
            if same_text(self.config.ssids[i].as_str(), ssid) {
                proof {
                    assert(views(self.config.ssids@).len() == self.config.ssids@.len());
                    assert(views(self.config.ssids@)[i as int] == ssid@);
                    assert(views(self.config.ssids@).contains(ssid@));

                }
                return true;
            }
            i = i + 1;
        }
        proof {
            if views(self.config.ssids@).contains(ssid@) {
                let k = choose|k: int| 0 <= k < views(self.config.ssids@).len() && views(self.config.ssids@)[k] == ssid@;
                assert(self.config.ssids@[k]@ == ssid@);
            }
        }
        false
    }
}

} // verus!
