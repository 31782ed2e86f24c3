//! Settings: the daemon's check interval, the transport's limits, logging,
//! and the portals to register.
use vstd::prelude::*;

use crate::portal::awing::{AwingConfig, AwingPortal};
use crate::portal::{all_served, PortalEngine, PortalRegistry};
use crate::text::{same_text, views};

verus! {

/// Global daemon settings.
#[derive(Debug, Clone)]
pub struct GlobalConfig {
    /// Seconds between two checks in daemon mode.
    pub check_interval: u64,
}

/// Settings of the HTTP transport.
#[derive(Debug, Clone)]
pub struct HttpConfig {
    /// Request timeout in seconds.
    pub timeout: u64,
    /// Connection timeout in seconds.
    pub connect_timeout: u64,
    /// Attempts made for one request.
    pub max_retries: u32,
}

/// Logging settings.
#[derive(Debug, Clone)]
pub struct LoggingConfig {
    /// Log level filter.
    pub level: String,
    /// Log file path; empty for none.
    pub log_file: String,
}

/// One portal to register.
#[derive(Debug, Clone)]
pub struct PortalConfig {
    /// Human-readable name.
    pub name: String,
    /// Vendor tag that selects the engine, such as `awing`.
    pub portal_type: String,
    /// Networks this portal serves.
    pub ssids: Vec<String>,
    /// Device MAC address for authentication; may be empty.
    pub mac_address: String,
}

/// All settings.
#[derive(Debug, Clone)]
pub struct Config {
    pub global: GlobalConfig,
    pub http: HttpConfig,
    pub logging: LoggingConfig,
    pub portals: Vec<PortalConfig>,
}

/// The default check interval in seconds.
pub fn default_check_interval() -> (r: u64)
    ensures
        r == 5,
{
    5
}

/// The default request timeout in seconds.
pub fn default_timeout() -> (r: u64)
    ensures
        r == 10,
{
    10
}

/// The default connection timeout in seconds.
pub fn default_connect_timeout() -> (r: u64)
    ensures
        r == 5,
{
    5
}

/// The default number of attempts per request.
pub fn default_max_retries() -> (r: u32)
    ensures
        r == 3,
{
    3
}

/// The default log level.
pub fn default_log_level() -> (r: String)
    ensures
        r@ == "info"@,
{
    "info".to_owned()
}

impl Default for GlobalConfig {
    fn default() -> (r: Self)
        ensures
            r.check_interval == 5,
    {
        GlobalConfig { check_interval: default_check_interval() }
    }
}

impl Default for HttpConfig {
    fn default() -> (r: Self)
        ensures
            r.timeout == 10,
            r.connect_timeout == 5,
            r.max_retries == 3,
    {
        HttpConfig {
            timeout: default_timeout(),
            connect_timeout: default_connect_timeout(),
            max_retries: default_max_retries(),
        }
    }
}

impl Default for LoggingConfig {
    fn default() -> (r: Self)
        ensures
            r.level@ == "info"@,
            r.log_file@ == Seq::<char>::empty(),
    {
        LoggingConfig { level: default_log_level(), log_file: String::new() }
    }
}

impl Default for Config {
    fn default() -> (r: Self)
        ensures
            r.global.check_interval == 5,
            r.http.timeout == 10 && r.http.connect_timeout == 5 && r.http.max_retries == 3,
            r.logging.level@ == "info"@ && r.logging.log_file@ == Seq::<char>::empty(),
            r.portals@.len() == 1,
            r.portals@[0].name@ == "KTX Khu B"@,
            r.portals@[0].portal_type@ == "awing"@,
            views(r.portals@[0].ssids@) == seq!["1.Free Wi-MESH"@],
            r.portals@[0].mac_address@ == Seq::<char>::empty(),
    {
        let mut ssids: Vec<String> = Vec::new();
        ssids.push("1.Free Wi-MESH".to_owned());
        proof {
            assert(views(ssids@) =~= seq!["1.Free Wi-MESH"@]);
        }
        let mut portals: Vec<PortalConfig> = Vec::new();
        portals.push(
            PortalConfig {
                name: "KTX Khu B".to_owned(),
                portal_type: "awing".to_owned(),
                ssids,
                mac_address: String::new(),
            },
        );
        Config {
            global: GlobalConfig::default(),
            http: HttpConfig::default(),
            logging: LoggingConfig::default(),
            portals,
        }
    }
}

/// The networks of the configured portals, portal after portal.
pub open spec fn configured_ssids(ps: Seq<PortalConfig>) -> Seq<Seq<char>>
    decreases ps.len(),
{
    if ps.len() == 0 {
        Seq::empty()
    } else {
        configured_ssids(ps.drop_last()) + views(ps.last().ssids@)
    }
}

impl Config {
    /// The networks of all configured portals, whatever their type.
    pub fn all_ssids(&self) -> (r: Vec<String>)
        ensures
            views(r@) == configured_ssids(self.portals@),
    {
        let mut out: Vec<String> = Vec::new();
        let mut i: usize = 0;
        while i < self.portals.len()
            invariant
                i <= self.portals@.len(),
                views(out@) == configured_ssids(self.portals@.take(i as int)),
            decreases self.portals.len() - i,
        {
            let ssids = &self.portals[i].ssids;
            let ghost before = out@;
            let mut k: usize = 0;
            while k < ssids.len()
                invariant
                    i < self.portals@.len(),
                    ssids@ == self.portals@[i as int].ssids@,
                    k <= ssids@.len(),
                    views(out@) == views(before) + views(ssids@).take(k as int),
                decreases ssids.len() - k,
            {
                let ghost prev = out@;
                out.push(ssids[k].clone());
                proof {
                    assert(views(out@) =~= views(prev).push(ssids@[k as int]@));
                    assert(views(ssids@).take(k + 1) =~= views(ssids@).take(k as int).push(
                        ssids@[k as int]@,
                    ));
                }
                k = k + 1;
            }
            proof {
                let t = self.portals@.take(i + 1);
                assert(t.drop_last() =~= self.portals@.take(i as int));
                assert(views(ssids@).take(k as int) =~= views(ssids@));
            }
            i = i + 1;
        }
        proof {
            assert(self.portals@.take(i as int) =~= self.portals@);
        }
        out
    }
}

/// The vendors with an engine.
#[derive(Debug, Clone, Copy, PartialEq, Eq, Structural)]
pub enum PortalKind {
    Awing,
}

/// The vendor that a type tag names, if it has an engine.
pub open spec fn kind_of(tag: Seq<char>) -> Option<PortalKind> {
    if tag == "awing"@ {
        Some(PortalKind::Awing)
    } else {
        None
    }
}

/// Reads a portal type tag.
pub fn portal_kind(tag: &str) -> (r: Option<PortalKind>)
    ensures
        r == kind_of(tag@),
{
    if same_text(tag, "awing") {
        Some(PortalKind::Awing)
    } else {
        None
    }
}

/// The engine a configured portal gets, when its type has one.
pub open spec fn engine_for(p: PortalConfig) -> Option<PortalEngine> {
    match kind_of(p.portal_type@) {
        Some(PortalKind::Awing) => Some(
            PortalEngine::Awing(
                AwingPortal {
                    config: AwingConfig {
                        name: p.name,
                        ssids: p.ssids,
                        mac_address: p.mac_address,
                    },
                },
            ),
        ),
        None => None,
    }
}

/// The networks that the engines of the configured portals serve, portal
/// after portal; portals of an unknown type serve none.
pub open spec fn registered_ssids(ps: Seq<PortalConfig>) -> Seq<Seq<char>>
    decreases ps.len(),
{
    if ps.len() == 0 {
        Seq::empty()
    } else {
        registered_ssids(ps.drop_last()) + match kind_of(ps.last().portal_type@) {
            Some(_) => views(ps.last().ssids@),
            None => Seq::empty(),
        }
    }
}

/// The configured portals whose type has an engine, in order.
pub open spec fn known_portals(ps: Seq<PortalConfig>) -> Seq<PortalConfig>
    decreases ps.len(),
{
    if ps.len() == 0 {
        Seq::empty()
    } else if kind_of(ps.last().portal_type@) is Some {
        known_portals(ps.drop_last()).push(ps.last())
    } else {
        known_portals(ps.drop_last())
    }
}

/// The engine is the Awing engine made from the configured portal `p`.
pub open spec fn engine_of(e: PortalEngine, p: PortalConfig) -> bool {
    match e {
        PortalEngine::Awing(a) => {
            &&& a.config.name@ == p.name@
            &&& views(a.config.ssids@) == views(p.ssids@)
            &&& a.config.mac_address@ == p.mac_address@
        },
    }
}

/// Builds the registry from the configured portals, in order. A portal whose
/// type has no engine is skipped.
pub fn build_portal_registry(cfg: &Config) -> (r: PortalRegistry)
    ensures
        all_served(r.engines()) == registered_ssids(cfg.portals@),
        r.engines().len() == known_portals(cfg.portals@).len(),
        forall|i: int|
            0 <= i < r.engines().len() ==> engine_of(
                #[trigger] r.engines()[i],
                known_portals(cfg.portals@)[i],
            ),
{
    let mut registry = PortalRegistry::new();
    let mut i: usize = 0;
    while i < cfg.portals.len()
        invariant
            i <= cfg.portals@.len(),
            all_served(registry.engines()) == registered_ssids(cfg.portals@.take(i as int)),
            registry.engines().len() == known_portals(cfg.portals@.take(i as int)).len(),
            forall|j: int|
                0 <= j < registry.engines().len() ==> engine_of(
                    #[trigger] registry.engines()[j],
                    known_portals(cfg.portals@.take(i as int))[j],
                ),
        decreases cfg.portals.len() - i,
    {
        let p = &cfg.portals[i];
        proof {
            let t = cfg.portals@.take(i + 1);
            assert(t.drop_last() =~= cfg.portals@.take(i as int));
            assert(t.last() == cfg.portals@[i as int]);
        }
        match portal_kind(p.portal_type.as_str()) {
            Some(PortalKind::Awing) => {
                let engine = PortalEngine::Awing(
                    AwingPortal::new(
                        AwingConfig {
                            name: p.name.clone(),
                            ssids: p.ssids.clone(),
                            mac_address: p.mac_address.clone(),
                        },
                    ),
                );
                let ghost before = registry.engines();
                proof {
                    assert(engine_of(engine, cfg.portals@[i as int])) by {
                        assert(views(engine->Awing_0.config.ssids@) =~= views(p.ssids@));
                    }
                }
                registry.register(engine);
                proof {
                    assert(registry.engines().drop_last() =~= before);
                }
            },
            None => {
                proof {
                    assert(registered_ssids(cfg.portals@.take(i + 1)) =~= registered_ssids(
                        cfg.portals@.take(i as int),
                    ));
                }
            },
        }
        i = i + 1;
    }
    proof {
        assert(cfg.portals@.take(i as int) =~= cfg.portals@);
    }
    registry
}

} // verus!
