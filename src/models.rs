//! The values that one authentication attempt extracts.
use vstd::prelude::*;

verus! {

/// Gateway parameters scanned from the captive redirect page.
#[derive(Debug, Clone)]
pub struct GatewayConfig {
    pub mac: String,
    pub ip: String,
    pub chap_id: String,
    pub chap_challenge: String,
    pub link_login_only: String,
}

/// The gateway parameters as text.
pub struct GatewayView {
    pub mac: Seq<char>,
    pub ip: Seq<char>,
    pub chap_id: Seq<char>,
    pub chap_challenge: Seq<char>,
    pub link_login_only: Seq<char>,
}

impl View for GatewayConfig {
    type V = GatewayView;

    open spec fn view(&self) -> GatewayView {
        GatewayView {
            mac: self.mac@,
            ip: self.ip@,
            chap_id: self.chap_id@,
            chap_challenge: self.chap_challenge@,
            link_login_only: self.link_login_only@,
        }
    }
}

/// Login credentials taken from the vendor's authentication form.
#[derive(Debug, Clone)]
pub struct Credentials {
    pub username: String,
    pub password: String,
}

/// The credentials as text.
pub struct CredentialsView {
    pub username: Seq<char>,
    pub password: Seq<char>,
}

impl View for Credentials {
    type V = CredentialsView;

    open spec fn view(&self) -> CredentialsView {
        CredentialsView { username: self.username@, password: self.password@ }
    }
}

} // verus!
