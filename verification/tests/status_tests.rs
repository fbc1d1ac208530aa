use zapretctl::status::{parse_query_output, status_text, translate_token, ServiceStatus};

fn chars(s: &str) -> Vec<char> {
    s.chars().collect()
}

#[test]
fn translate_documented_tokens() {
    assert_eq!(translate_token(chars("1")), ServiceStatus::Stopped);
    assert_eq!(translate_token(chars("2")), ServiceStatus::StartPending);
    assert_eq!(translate_token(chars("3")), ServiceStatus::StopPending);
    assert_eq!(translate_token(chars("4")), ServiceStatus::Running);
}

#[test]
fn translate_keeps_unrecognized_token() {
    assert_eq!(translate_token(chars("7")), ServiceStatus::Unknown(chars("7")));
    assert_eq!(translate_token(chars("42")), ServiceStatus::Unknown(chars("42")));
    assert_eq!(translate_token(chars("")), ServiceStatus::Unknown(chars("")));
}

#[test]
fn parse_running_service() {
    let out = chars(
        "SERVICE_NAME: zapret\n        TYPE               : 10  WIN32_OWN_PROCESS\n        STATE              : 4  RUNNING\n        WIN32_EXIT_CODE    : 0  (0x0)\n",
    );
    assert_eq!(parse_query_output(&out), ServiceStatus::Running);
}

#[test]
fn parse_stopped_service() {
    let out = chars("SERVICE_NAME: zapret\n        STATE              : 1  STOPPED\n");
    assert_eq!(parse_query_output(&out), ServiceStatus::Stopped);
}

#[test]
fn parse_pending_states() {
    let starting = chars("        STATE              : 2  START_PENDING\n");
    assert_eq!(parse_query_output(&starting), ServiceStatus::StartPending);
    let stopping = chars("        STATE              : 3  STOP_PENDING\n");
    assert_eq!(parse_query_output(&stopping), ServiceStatus::StopPending);
}

#[test]
fn parse_missing_state_field_is_not_found() {
    let out = chars(
        "[SC] EnumQueryServicesStatus:OpenService FAILED 1060:\nThe specified service does not exist as an installed service.\n",
    );
    assert_eq!(parse_query_output(&out), ServiceStatus::NotFound);
    assert_eq!(parse_query_output(&chars("")), ServiceStatus::NotFound);
}

#[test]
fn parse_unrecognized_state_code_is_surfaced() {
    let out = chars("        STATE              : 7  ODD\n");
    assert_eq!(parse_query_output(&out), ServiceStatus::Unknown(chars("7")));
}

#[test]
fn parse_state_line_without_colon() {
    let out = chars("STATE\n");
    assert_eq!(parse_query_output(&out), ServiceStatus::Unknown(chars("")));
}

#[test]
fn parse_uses_first_state_line_only() {
    let out = chars("        STATE              : 1  STOPPED\n        STATE              : 4  RUNNING\n");
    assert_eq!(parse_query_output(&out), ServiceStatus::Stopped);
}

#[test]
fn status_text_shows_raw_code() {
    assert_eq!(status_text(&ServiceStatus::Running), chars("RUNNING"));
    assert_eq!(status_text(&ServiceStatus::StartPending), chars("START_PENDING"));
    assert_eq!(status_text(&ServiceStatus::NotFound), chars("NOT_FOUND"));
    assert_eq!(status_text(&ServiceStatus::Unknown(chars("9"))), chars("9"));
}
