use oauth_refresh::config::OAuthConfig;
use oauth_refresh::env::EnvVar;
use oauth_refresh::error::{refresh_failed_message, OAuthError};
use oauth_refresh::http::HttpStatus;
use oauth_refresh::manager::{OAuthStartup, OAuthTokenManager, RefreshAction, RefreshEvent};
use oauth_refresh::refresh::{
    check_status, refresh_once, AcceptedStatus, OAuthRefreshResponse, OAuthTokenState, RefreshReply,
    RejectedStatus, StatusCheck,
};
use std::time::Duration;

fn tokens(name: &str, expires_in: u64) -> OAuthTokenState {
    OAuthTokenState {
        api_token: format!("api-{}", name),
        refresh_token: format!("ref-{}", name),
        expires_in,
    }
}

fn failure() -> OAuthError {
    OAuthError::Client { cause: "connection reset".to_string() }
}

fn startup(refresh_interval_secs: Option<u64>) -> OAuthStartup {
    let config = OAuthConfig {
        refresh_path: "tokens/refresh".to_string(),
        refresh_interval_secs,
        api_version: "3.0".to_string(),
        subscription_key_env: "SUB_KEY".to_string(),
        initial_refresh_token_env: "REFRESH_TOK".to_string(),
        initial_api_token_env: None,
    };
    let env = vec![
        EnvVar { name: "SUB_KEY".to_string(), value: Some("sub".to_string()) },
        EnvVar { name: "REFRESH_TOK".to_string(), value: Some("first".to_string()) },
    ];
    OAuthStartup::from_config(&config, "https://proxy.example.com", &env).unwrap()
}

fn rejected(code: u16) -> RejectedStatus {
    match check_status(HttpStatus::from_u16(code).unwrap()) {
        StatusCheck::Rejected(status) => status,
        StatusCheck::Accepted(_) => panic!("status {} was accepted", code),
    }
}

fn accepted(code: u16) -> AcceptedStatus {
    match check_status(HttpStatus::from_u16(code).unwrap()) {
        StatusCheck::Accepted(status) => status,
        StatusCheck::Rejected(_) => panic!("status {} was rejected", code),
    }
}

fn waits(manager: &OAuthTokenManager, secs: u64) {
    assert_eq!(manager.next_action(), RefreshAction::Wait(Duration::from_secs(secs)));
}

fn backs_off(manager: &OAuthTokenManager, secs: u64) {
    assert_eq!(manager.next_action(), RefreshAction::BackOff(Duration::from_secs(secs)));
}

fn sends(manager: &OAuthTokenManager, api_token: &str, refresh_token: &str) {
    match manager.next_action() {
        RefreshAction::Send(request) => {
            assert_eq!(request.url, "https://proxy.example.com/tokens/refresh");
            let expected = [
                ("subscription-key", "sub"),
                ("api-version", "3.0"),
                ("api-token", api_token),
                ("refresh-token", refresh_token),
            ];
            assert_eq!(request.headers.len(), expected.len());
            for (header, (name, value)) in request.headers.iter().zip(expected) {
                assert_eq!(header.0, name);
                assert_eq!(header.1, value);
            }
        }
        _ => panic!("no refresh is due"),
    }
}

#[test]
fn status_codes_range_from_100_to_999() {
    assert_eq!(HttpStatus::from_u16(99), None);
    assert_eq!(HttpStatus::from_u16(1000), None);
    assert_eq!(HttpStatus::from_u16(0), None);
    assert_eq!(HttpStatus::from_u16(u16::MAX), None);
    for code in 100..1000u16 {
        let status = HttpStatus::from_u16(code).unwrap();
        let reference = reqwest::StatusCode::from_u16(code).unwrap();
        assert_eq!(status.as_u16(), code);
        assert_eq!(status.is_success(), reference.is_success());
        assert_eq!(status.text(), reference.to_string());
        assert!(status.text().starts_with(&format!("{} ", code)));
    }
    assert!(reqwest::StatusCode::from_u16(99).is_err());
    assert!(reqwest::StatusCode::from_u16(1000).is_err());
}

#[test]
fn status_text_has_number_and_phrase() {
    assert_eq!(HttpStatus::from_u16(200).unwrap().text(), "200 OK");
    assert_eq!(HttpStatus::from_u16(401).unwrap().text(), "401 Unauthorized");
    assert_eq!(HttpStatus::from_u16(999).unwrap().text(), "999 <unknown status code>");
}

#[test]
fn success_is_200_to_299() {
    for code in 100..1000u16 {
        let check = check_status(HttpStatus::from_u16(code).unwrap());
        assert_eq!(matches!(check, StatusCheck::Accepted(_)), (200..300).contains(&code));
    }
}

#[test]
fn accepted_response_gives_its_tokens() {
    for has_refreshed in [true, false] {
        let response = OAuthRefreshResponse {
            api_token: "tok-abc123".to_string(),
            refresh_token: "ref-xyz789".to_string(),
            expires_in: Some(3600),
            has_refreshed,
        };
        let warning = "Token refresh endpoint returned hasRefreshed=false".to_string();
        assert_eq!(response.warning(), if has_refreshed { None } else { Some(warning) });
        let state = refresh_once(RefreshReply::Accepted { status: accepted(200), response }).unwrap();
        assert_eq!(state.api_token, "tok-abc123");
        assert_eq!(state.refresh_token, "ref-xyz789");
        assert_eq!(state.expires_in, 3600);
    }
}

#[test]
fn missing_ttl_falls_back() {
    for expires_in in [None, Some(0)] {
        let response = OAuthRefreshResponse {
            api_token: "t".to_string(),
            refresh_token: "r".to_string(),
            expires_in,
            has_refreshed: true,
        };
        let state = refresh_once(RefreshReply::Accepted { status: accepted(200), response }).unwrap();
        assert_eq!(state.expires_in, 0);
        let manager = OAuthTokenManager::new(startup(Some(600)), Ok(state)).unwrap();
        waits(&manager, 480);
        assert_eq!(manager.current_api_token(), "t");
    }
}

#[test]
fn failure_message_has_status_text_and_body() {
    assert_eq!(
        refresh_failed_message("503 Service Unavailable", "later"),
        "Token refresh failed with HTTP 503 Service Unavailable: later"
    );
}

#[test]
fn rejected_response_is_an_error_with_status_and_body() {
    let body = Some("token expired".to_string());
    let error = refresh_once(RefreshReply::Rejected { status: rejected(401), body }).unwrap_err();
    assert_eq!(
        error,
        OAuthError::RefreshFailed {
            status: HttpStatus::from_u16(401).unwrap(),
            body: "token expired".to_string(),
        }
    );
    assert_eq!(error.message(), "Token refresh failed with HTTP 401 Unauthorized: token expired");
    assert!(error.message().starts_with("Token refresh failed with HTTP 401"));
}

#[test]
fn rejected_response_without_readable_body_is_an_error_too() {
    let error = refresh_once(RefreshReply::Rejected { status: rejected(599), body: None }).unwrap_err();
    assert_eq!(error.message(), "Token refresh failed with HTTP 599 <unknown status code>: ");
}

#[test]
fn failures_of_the_client_keep_their_cause() {
    let cause = "dns error".to_string();
    let error = refresh_once(RefreshReply::NoResponse { cause }).unwrap_err();
    assert_eq!(error, OAuthError::Client { cause: "dns error".to_string() });
    assert_eq!(error.message(), "dns error");
    let cause = "missing field `apiToken`".to_string();
    let error = refresh_once(RefreshReply::Unreadable { status: accepted(204), cause }).unwrap_err();
    assert_eq!(error, OAuthError::Client { cause: "missing field `apiToken`".to_string() });
}

#[test]
fn first_refresh_makes_the_manager() {
    let manager = OAuthTokenManager::new(startup(None), Ok(tokens("a", 3600))).unwrap();
    assert_eq!(manager.current_api_token(), "api-a");
    waits(&manager, 2880);
    let error = OAuthTokenManager::new(startup(None), Err(failure())).unwrap_err();
    assert_eq!(error, failure());
}

#[test]
fn wait_falls_back_to_the_configured_interval() {
    let manager = OAuthTokenManager::new(startup(None), Ok(tokens("a", 0))).unwrap();
    waits(&manager, 1200);
    let manager = OAuthTokenManager::new(startup(Some(600)), Ok(tokens("a", 0))).unwrap();
    waits(&manager, 480);
    let manager = OAuthTokenManager::new(startup(Some(0)), Ok(tokens("a", 0))).unwrap();
    waits(&manager, 30);
}

#[test]
fn success_leads_to_refresh_with_new_tokens() {
    let mut manager = OAuthTokenManager::new(startup(None), Ok(tokens("a", 3600))).unwrap();
    manager.handle(RefreshEvent::Elapsed);
    sends(&manager, "api-a", "ref-a");
    assert_eq!(manager.current_api_token(), "api-a");
    manager.handle(RefreshEvent::Finished(Ok(tokens("b", 1000))));
    assert_eq!(manager.current_api_token(), "api-b");
    waits(&manager, 800);
    manager.handle(RefreshEvent::Elapsed);
    sends(&manager, "api-b", "ref-b");
}

#[test]
fn failure_leads_to_the_same_refresh() {
    let mut manager = OAuthTokenManager::new(startup(None), Ok(tokens("a", 3600))).unwrap();
    manager.handle(RefreshEvent::Elapsed);
    for _ in 0..3 {
        sends(&manager, "api-a", "ref-a");
        manager.handle(RefreshEvent::Finished(Err(failure())));
        assert_eq!(manager.current_api_token(), "api-a");
        backs_off(&manager, 30);
        manager.handle(RefreshEvent::Elapsed);
    }
    manager.handle(RefreshEvent::Finished(Ok(tokens("b", 3600))));
    assert_eq!(manager.current_api_token(), "api-b");
}

#[test]
fn nothing_is_sent_before_the_least_wait() {
    let manager = OAuthTokenManager::new(startup(None), Ok(tokens("a", 1))).unwrap();
    waits(&manager, 30);
}

#[test]
fn events_out_of_turn_change_nothing() {
    let mut manager = OAuthTokenManager::new(startup(None), Ok(tokens("a", 3600))).unwrap();
    manager.handle(RefreshEvent::Finished(Ok(tokens("b", 10))));
    manager.handle(RefreshEvent::Finished(Err(failure())));
    assert_eq!(manager.current_api_token(), "api-a");
    waits(&manager, 2880);
    manager.handle(RefreshEvent::Elapsed);
    manager.handle(RefreshEvent::Elapsed);
    sends(&manager, "api-a", "ref-a");
}

#[test]
fn refreshes_are_spaced() {
    let mut manager = OAuthTokenManager::new(startup(None), Ok(tokens("a", 1))).unwrap();
    let mut waited = Duration::from_secs(0);
    let mut sent: u32 = 0;
    for turn in 0..60u32 {
        match manager.next_action() {
            RefreshAction::Wait(delay) | RefreshAction::BackOff(delay) => {
                waited += delay;
                manager.handle(RefreshEvent::Elapsed);
            }
            RefreshAction::Send(_) => {
                assert!(waited >= Duration::from_secs(30));
                waited = Duration::from_secs(0);
                sent += 1;
                let result = if turn % 2 == 0 { Ok(tokens("b", 1)) } else { Err(failure()) };
                manager.handle(RefreshEvent::Finished(result));
            }
        }
    }
    assert!(sent > 10);
}
