use wimesh::config::{
    default_check_interval, default_connect_timeout, default_log_level, default_max_retries,
    default_timeout, portal_kind, Config, GlobalConfig, HttpConfig, LoggingConfig, PortalKind,
};

#[test]
fn defaults() {
    assert_eq!(default_check_interval(), 5);
    assert_eq!(default_timeout(), 10);
    assert_eq!(default_connect_timeout(), 5);
    assert_eq!(default_max_retries(), 3);
    assert_eq!(default_log_level(), "info");
    assert_eq!(GlobalConfig::default().check_interval, 5);
    let h = HttpConfig::default();
    assert_eq!((h.timeout, h.connect_timeout, h.max_retries), (10, 5, 3));
    let l = LoggingConfig::default();
    assert_eq!(l.level, "info");
    assert_eq!(l.log_file, "");
}

#[test]
fn default_config_has_one_awing_portal() {
    let c = Config::default();
    assert_eq!(c.portals.len(), 1);
    assert_eq!(c.portals[0].name, "KTX Khu B");
    assert_eq!(c.portals[0].portal_type, "awing");
    assert_eq!(c.all_ssids(), vec!["1.Free Wi-MESH"]);
}

#[test]
fn portal_kind_tags() {
    assert_eq!(portal_kind("awing"), Some(PortalKind::Awing));
    assert_eq!(portal_kind("Awing"), None);
    assert_eq!(portal_kind(""), None);
}
