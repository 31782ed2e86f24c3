use wimesh::network::active_target_ssid;

#[test]
fn finds_active_target_network() {
    let listing = "no:Neighbour\nyes:Guest\r\nno:Lab\n";
    let targets = vec!["Lab".to_string(), "Guest".to_string()];
    assert_eq!(active_target_ssid(listing, &targets), Some("Guest".to_string()));
}

#[test]
fn ignores_active_network_that_is_not_a_target() {
    let listing = "yes:Home\nno:Guest\n";
    let targets = vec!["Guest".to_string()];
    assert_eq!(active_target_ssid(listing, &targets), None);
    assert_eq!(active_target_ssid("", &targets), None);
}

#[test]
fn network_name_may_hold_colons() {
    let listing = "yes:Cafe:5G";
    let targets = vec!["Cafe:5G".to_string()];
    assert_eq!(active_target_ssid(listing, &targets), Some("Cafe:5G".to_string()));
}
