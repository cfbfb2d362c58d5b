use tcp_relay::endpoint::{
    endpoint_next, opening_action, EndpointAction, EndpointEvent, SessionPolicy,
};

#[test]
fn listen_mode_binds_and_connect_mode_dials() {
    assert_eq!(opening_action(true), EndpointAction::Bind);
    assert_eq!(opening_action(false), EndpointAction::Connect);
}

#[test]
fn each_establishment_failure_has_its_exit_code() {
    let p = SessionPolicy::SingleSession;
    assert_eq!(endpoint_next(true, p, EndpointEvent::BindFailed), EndpointAction::Exit(3));
    assert_eq!(endpoint_next(true, p, EndpointEvent::AcceptFailed), EndpointAction::Exit(4));
    assert_eq!(endpoint_next(false, p, EndpointEvent::ConnectFailed), EndpointAction::Exit(5));
}

#[test]
fn successful_establishment_leads_to_a_session() {
    let p = SessionPolicy::RepeatAccept;
    assert_eq!(endpoint_next(true, p, EndpointEvent::Bound), EndpointAction::Accept);
    assert_eq!(endpoint_next(true, p, EndpointEvent::Accepted), EndpointAction::Serve);
    assert_eq!(endpoint_next(false, p, EndpointEvent::Connected), EndpointAction::Serve);
}

#[test]
fn after_a_session_the_policy_decides() {
    let ended = EndpointEvent::SessionEnded;
    assert_eq!(endpoint_next(true, SessionPolicy::RepeatAccept, ended), EndpointAction::Accept);
    assert_eq!(endpoint_next(true, SessionPolicy::SingleSession, ended), EndpointAction::Exit(0));
    assert_eq!(endpoint_next(false, SessionPolicy::RepeatAccept, ended), EndpointAction::Exit(0));
    assert_eq!(endpoint_next(false, SessionPolicy::SingleSession, ended), EndpointAction::Exit(0));
}
