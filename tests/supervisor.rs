use wimesh::portal::awing::{AwingConfig, AwingPortal};
use wimesh::portal::{PortalEngine, PortalRegistry};
use wimesh::supervisor::{
    plan_once, wait_before_tick, FollowUp, Observation, OncePlan, Supervisor, SupervisorMode,
    TickAction,
};

fn registry() -> PortalRegistry {
    let mut reg = PortalRegistry::new();
    reg.register(PortalEngine::Awing(AwingPortal::new(AwingConfig {
        name: "p".to_string(),
        ssids: vec!["Guest".to_string()],
        mac_address: String::new(),
    })));
    reg
}

fn fail_once(s: &mut Supervisor, reg: &PortalRegistry) -> FollowUp {
    assert_eq!(s.observe(&Observation::Offline("Guest".to_string()), reg), TickAction::Connect(0));
    s.on_connect_result(false)
}

#[test]
fn third_failure_enters_backoff_and_resets() {
    let reg = registry();
    let mut s = Supervisor::new();
    assert_eq!(fail_once(&mut s, &reg), FollowUp::Continue);
    assert_eq!(fail_once(&mut s, &reg), FollowUp::Continue);
    assert_eq!(s.consecutive_failures(), 2);
    assert_eq!(fail_once(&mut s, &reg), FollowUp::Backoff(60));
    assert_eq!(s.mode(), SupervisorMode::Backoff);
    s.end_backoff();
    assert_eq!(s.consecutive_failures(), 0);
    assert_eq!(s.mode(), SupervisorMode::Monitoring);
}

#[test]
fn success_at_two_failures_resets_without_backoff() {
    let reg = registry();
    let mut s = Supervisor::new();
    fail_once(&mut s, &reg);
    fail_once(&mut s, &reg);
    assert_eq!(s.observe(&Observation::Offline("Guest".to_string()), &reg), TickAction::Connect(0));
    assert_eq!(s.on_connect_result(true), FollowUp::Settle(10));
    assert_eq!(s.consecutive_failures(), 0);
    assert_eq!(s.mode(), SupervisorMode::Monitoring);
}

#[test]
fn observations_reset_or_keep_the_count() {
    let reg = registry();
    let mut s = Supervisor::new();
    fail_once(&mut s, &reg);
    assert_eq!(s.observe(&Observation::QueryFailed, &reg), TickAction::Idle);
    assert_eq!(s.consecutive_failures(), 1);
    assert_eq!(s.observe(&Observation::Offline("Elsewhere".to_string()), &reg), TickAction::NoPortal);
    assert_eq!(s.consecutive_failures(), 1);
    assert_eq!(s.observe(&Observation::Online("Guest".to_string()), &reg), TickAction::Idle);
    assert_eq!(s.consecutive_failures(), 0);
    fail_once(&mut s, &reg);
    assert_eq!(s.observe(&Observation::NotAssociated, &reg), TickAction::Idle);
    assert_eq!(s.consecutive_failures(), 0);
}

#[test]
fn tick_spacing() {
    assert_eq!(wait_before_tick(1200, 5000), 3800);
    assert_eq!(wait_before_tick(5000, 5000), 0);
    assert_eq!(wait_before_tick(9000, 5000), 0);
}

#[test]
fn single_run_plan() {
    let reg = registry();
    assert_eq!(plan_once(&None, &reg), OncePlan::NotAssociated);
    assert_eq!(plan_once(&Some("Guest".to_string()), &reg), OncePlan::Connect(0));
    assert_eq!(plan_once(&Some("Other".to_string()), &reg), OncePlan::NoPortal);
}
