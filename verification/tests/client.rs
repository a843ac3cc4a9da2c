use artemis_cli::{
    buildlogs_uri, dashboard_uri, derive_ssh_uri, details_uri, login_outcome, login_uri,
    parse_config, participations_uri, render_config, reply_error, result_details_uri,
    session_step, task_dir_name, u64_to_dec, ArtemisConfig, ClientError, ReplyStep, RequestFsm,
    SessionAction, SessionEvent, SessionState,
};

#[test]
fn one_unauthorized_triggers_one_relogin_and_retry() {
    let mut fsm = RequestFsm::new();
    assert_eq!(fsm.on_status(401), ReplyStep::ReloginAndRetry);
    assert_eq!(fsm.on_status(401), ReplyStep::FailAuth);
}

#[test]
fn retry_after_unauthorized_can_deliver() {
    let mut fsm = RequestFsm::new();
    assert_eq!(fsm.on_status(401), ReplyStep::ReloginAndRetry);
    assert_eq!(fsm.on_status(200), ReplyStep::Deliver);
}

#[test]
fn success_delivers_at_once() {
    let mut fsm = RequestFsm::new();
    assert_eq!(fsm.on_status(200), ReplyStep::Deliver);
    let mut fsm = RequestFsm::new();
    assert_eq!(fsm.on_status(204), ReplyStep::Deliver);
}

#[test]
fn other_failures_surface_uri_and_status() {
    let mut fsm = RequestFsm::new();
    let step = fsm.on_status(503);
    assert_eq!(step, ReplyStep::FailFetch(503));
    match reply_error(step, "https://artemis.example/api/x") {
        Some(ClientError::Fetch { uri, status }) => {
            assert_eq!(uri, "https://artemis.example/api/x");
            assert_eq!(status, 503);
        }
        other => panic!("unexpected error: {:?}", other),
    }
}

#[test]
fn terminal_unauthorized_is_an_authentication_error() {
    let mut fsm = RequestFsm::new();
    fsm.on_status(401);
    let step = fsm.on_status(401);
    assert!(matches!(
        reply_error(step, "u"),
        Some(ClientError::Authentication)
    ));
}

#[test]
fn login_succeeds_exactly_on_success_statuses() {
    assert!(login_outcome(200).is_ok());
    assert!(matches!(
        login_outcome(401),
        Err(ClientError::Authentication)
    ));
    assert!(login_outcome(500).is_err());
}

#[test]
fn session_lifecycle_transitions() {
    assert_eq!(
        session_step(SessionState::Missing, SessionEvent::Restored),
        (SessionState::Cached, SessionAction::Proceed)
    );
    assert_eq!(
        session_step(SessionState::Missing, SessionEvent::Absent),
        (SessionState::Missing, SessionAction::Login)
    );
    assert_eq!(
        session_step(SessionState::Missing, SessionEvent::LoginOk),
        (SessionState::Authenticated, SessionAction::StoreToken)
    );
    assert_eq!(
        session_step(SessionState::Cached, SessionEvent::Unauthorized),
        (SessionState::Cached, SessionAction::Login)
    );
    assert_eq!(
        session_step(SessionState::Cached, SessionEvent::LoginRejected),
        (SessionState::Cached, SessionAction::Abort)
    );
}

#[test]
fn config_round_trips_through_the_file_text() {
    let cfg = ArtemisConfig::new("https://artemis.example:8080".to_string());
    let text = render_config(&cfg);
    assert_eq!(text, "base_url = \"https://artemis.example:8080\"\n");
    let back = parse_config(&text).unwrap();
    assert_eq!(back.get_base_url(), "https://artemis.example:8080");
}

#[test]
fn config_round_trips_with_escaped_characters() {
    let cfg = ArtemisConfig::new("a\"b\\c\nd".to_string());
    let text = render_config(&cfg);
    assert_eq!(text, "base_url = \"a\\\"b\\\\c\\nd\"\n");
    let back = parse_config(&text).unwrap();
    assert_eq!(back.get_base_url(), "a\"b\\c\nd");
}

#[test]
fn config_parse_accepts_a_missing_final_line_break() {
    let back = parse_config("base_url = \"https://h\"").unwrap();
    assert_eq!(back.get_base_url(), "https://h");
}

#[test]
fn config_parse_rejects_malformed_texts() {
    assert!(parse_config("").is_none());
    assert!(parse_config("url = \"https://h\"\n").is_none());
    assert!(parse_config("base_url = \"https://h").is_none());
    assert!(parse_config("base_url = \"https://h\"trailing\n").is_none());
    assert!(parse_config("base_url = \"bad\\escape\"\n").is_none());
}

#[test]
fn default_configuration_names_the_artemis_host() {
    let cfg = ArtemisConfig::default();
    assert_eq!(cfg.get_base_url(), "https://artemis-app.inf.tu-dresden.de");
}

#[test]
fn set_base_url_replaces_the_url() {
    let mut cfg = ArtemisConfig::default();
    cfg.set_base_url("https://other.example".to_string());
    assert_eq!(cfg.get_base_url(), "https://other.example");
}

#[test]
fn endpoints_follow_the_base_url() {
    let base = "https://artemis.example";
    assert_eq!(
        dashboard_uri(base),
        "https://artemis.example/api/courses/for-dashboard"
    );
    assert_eq!(
        details_uri(base, 42),
        "https://artemis.example/api/exercises/42/details"
    );
    assert_eq!(
        participations_uri(base, 42),
        "https://artemis.example/api/exercises/42/participations"
    );
    assert_eq!(
        buildlogs_uri(base, 33, 7),
        "https://artemis.example/api/repository/33/buildlogs?resultId=7"
    );
    assert_eq!(
        result_details_uri(base, 33, 7),
        "https://artemis.example/api/participations/33/results/7/details"
    );
    assert_eq!(
        login_uri(base),
        "https://artemis.example/api/public/authenticate"
    );
}

#[test]
fn decimal_rendering_is_exact() {
    assert_eq!(u64_to_dec(0), "0");
    assert_eq!(u64_to_dec(7), "7");
    assert_eq!(u64_to_dec(1234567890), "1234567890");
    assert_eq!(u64_to_dec(u64::MAX), "18446744073709551615");
}

#[test]
fn ssh_uri_keeps_everything_after_the_first_at_sign() {
    let got = derive_ssh_uri("https://student@git.example/course/repo.git").unwrap();
    assert_eq!(got, "ssh://git@git.example/course/repo.git");
}

#[test]
fn uri_without_at_sign_is_a_parse_error() {
    assert!(matches!(
        derive_ssh_uri("https://git.example/repo.git"),
        Err(ClientError::Parse)
    ));
}

#[test]
fn task_directory_is_named_by_the_task_id() {
    assert_eq!(task_dir_name(42), "artemis-task-42");
    assert_ne!(task_dir_name(1), task_dir_name(2));
}
