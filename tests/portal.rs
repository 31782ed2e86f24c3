use wimesh::config::{build_portal_registry, Config, PortalConfig};
use wimesh::portal::awing::{AwingConfig, AwingPortal};
use wimesh::portal::{CaptivePortal, PortalEngine, PortalRegistry};

fn engine(name: &str, ssids: &[&str]) -> PortalEngine {
    PortalEngine::Awing(AwingPortal::new(AwingConfig {
        name: name.to_string(),
        ssids: ssids.iter().map(|s| s.to_string()).collect(),
        mac_address: String::new(),
    }))
}

#[test]
fn first_registered_engine_wins() {
    let mut reg = PortalRegistry::new();
    reg.register(engine("first", &["Guest", "Lab"]));
    reg.register(engine("second", &["Guest"]));
    for _ in 0..5 {
        let i = reg.find_for_ssid("Guest").unwrap();
        assert_eq!(i, 0);
        assert_eq!(reg.portal(i).name(), "first");
    }
}

#[test]
fn ssid_match_is_exact_and_case_sensitive() {
    let mut reg = PortalRegistry::default();
    reg.register(engine("a", &["Guest"]));
    assert!(reg.has_ssid("Guest"));
    assert!(!reg.has_ssid("guest"));
    assert!(!reg.has_ssid("Guest "));
    assert_eq!(reg.find_for_ssid("Other"), None);
}

#[test]
fn all_ssids_in_registration_order() {
    let mut reg = PortalRegistry::new();
    assert!(reg.all_ssids().is_empty());
    reg.register(engine("a", &["A1", "A2"]));
    reg.register(engine("b", &["B1"]));
    assert_eq!(reg.all_ssids(), vec!["A1", "A2", "B1"]);
    assert_eq!(reg.len(), 2);
    assert_eq!(reg.portal(1).ssids().to_vec(), vec!["B1".to_string()]);
    assert!(reg.portal(0).matches_ssid("A2"));
}

#[test]
fn awing_config_default() {
    let c = AwingConfig::default();
    assert_eq!(c.name, "Wi-MESH Awing");
    assert_eq!(c.ssids, vec!["1.Free Wi-MESH".to_string()]);
    assert_eq!(c.mac_address, "");
}

#[test]
fn registry_skips_unknown_portal_types() {
    let mut cfg = Config::default();
    cfg.portals.push(PortalConfig {
        name: "other".to_string(),
        portal_type: "fpt".to_string(),
        ssids: vec!["FPT".to_string()],
        mac_address: String::new(),
    });
    cfg.portals.push(PortalConfig {
        name: "lab".to_string(),
        portal_type: "awing".to_string(),
        ssids: vec!["Lab".to_string()],
        mac_address: "11:22:33:44:55:66".to_string(),
    });
    let reg = build_portal_registry(&cfg);
    assert_eq!(reg.len(), 2);
    assert_eq!(reg.all_ssids(), vec!["1.Free Wi-MESH", "Lab"]);
    assert!(!reg.has_ssid("FPT"));
    assert_eq!(cfg.all_ssids(), vec!["1.Free Wi-MESH", "FPT", "Lab"]);
}
