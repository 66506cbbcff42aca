use oauth_refresh::config::OAuthConfig;
use oauth_refresh::env::{read_env_var, EnvVar};
use oauth_refresh::error::OAuthError;
use oauth_refresh::manager::OAuthStartup;

fn var(name: &str, value: Option<&str>) -> EnvVar {
    EnvVar { name: name.to_string(), value: value.map(|v| v.to_string()) }
}

fn config() -> OAuthConfig {
    OAuthConfig {
        refresh_path: "tokens/refresh".to_string(),
        refresh_interval_secs: Some(1500),
        api_version: "3.0".to_string(),
        subscription_key_env: "SUBSCRIPTION_KEY".to_string(),
        initial_refresh_token_env: "INITIAL_REFRESH_TOKEN".to_string(),
        initial_api_token_env: Some("INITIAL_API_TOKEN".to_string()),
    }
}

fn header(startup: &OAuthStartup, name: &str) -> String {
    let request = startup.request();
    request.headers.iter().find(|h| h.0 == name).map(|h| h.1.clone()).unwrap()
}

#[test]
fn env_var_is_trimmed() {
    let env = vec![var("A", Some("x")), var("KEY", Some(" \t secret key \n")), var("KEY", Some("no"))];
    assert_eq!(read_env_var(&env, "KEY"), Ok("secret key".to_string()));
    assert_eq!(read_env_var(&env, "A"), Ok("x".to_string()));
}

#[test]
fn env_var_that_is_not_set_is_an_error() {
    let error = OAuthError::EnvVarNotSet { name: "KEY".to_string() };
    assert_eq!(read_env_var(&[], "KEY"), Err(OAuthError::EnvVarNotSet { name: "KEY".to_string() }));
    let env = vec![var("KEY", None), var("OTHER", Some("x"))];
    assert_eq!(read_env_var(&env, "KEY").unwrap_err(), error);
    assert_eq!(error.message(), "Required environment variable KEY is not set");
}

#[test]
fn env_var_that_is_empty_is_an_error() {
    for value in ["", "   ", "\n\t\u{2003}"] {
        let env = vec![var("KEY", Some(value))];
        let error = read_env_var(&env, "KEY").unwrap_err();
        assert_eq!(error, OAuthError::EnvVarEmpty { name: "KEY".to_string() });
        assert_eq!(error.message(), "Required environment variable KEY is empty");
    }
}

#[test]
fn fallback_interval_has_a_default() {
    let mut config = config();
    assert_eq!(config.fallback_interval(), 1500);
    config.refresh_interval_secs = Some(0);
    assert_eq!(config.fallback_interval(), 0);
    config.refresh_interval_secs = Some(77);
    assert_eq!(config.fallback_interval(), 77);
    config.refresh_interval_secs = None;
    assert_eq!(config.fallback_interval(), 1500);
}

#[test]
fn listed_variables_are_those_of_the_configuration() {
    let mut config = config();
    assert_eq!(config.env_names(), vec!["SUBSCRIPTION_KEY", "INITIAL_REFRESH_TOKEN", "INITIAL_API_TOKEN"]);
    config.initial_api_token_env = None;
    assert_eq!(config.env_names(), vec!["SUBSCRIPTION_KEY", "INITIAL_REFRESH_TOKEN"]);
}

#[test]
fn startup_makes_the_first_request() {
    let env = vec![
        var("SUBSCRIPTION_KEY", Some(" sub ")),
        var("INITIAL_REFRESH_TOKEN", Some("ref")),
        var("INITIAL_API_TOKEN", Some("tok\n")),
    ];
    let startup = OAuthStartup::from_config(&config(), "https://proxy.example.com/v1/", &env).unwrap();
    let request = startup.request();
    assert_eq!(request.url, "https://proxy.example.com/v1/tokens/refresh");
    let expected = [
        ("subscription-key", "sub"),
        ("api-version", "3.0"),
        ("api-token", "tok"),
        ("refresh-token", "ref"),
    ];
    assert_eq!(request.headers.len(), expected.len());
    for (header, (name, value)) in request.headers.iter().zip(expected) {
        assert_eq!(header.0, name);
        assert_eq!(header.1, value);
    }
}

#[test]
fn startup_needs_the_required_variables() {
    let none: Vec<EnvVar> = Vec::new();
    let error = OAuthStartup::from_config(&config(), "b", &none).unwrap_err();
    assert_eq!(error, OAuthError::EnvVarNotSet { name: "SUBSCRIPTION_KEY".to_string() });
    let env = vec![var("SUBSCRIPTION_KEY", Some("s")), var("INITIAL_REFRESH_TOKEN", Some("  "))];
    let error = OAuthStartup::from_config(&config(), "b", &env).unwrap_err();
    assert_eq!(error, OAuthError::EnvVarEmpty { name: "INITIAL_REFRESH_TOKEN".to_string() });
    let env = vec![var("SUBSCRIPTION_KEY", Some("s"))];
    let error = OAuthStartup::from_config(&config(), "b", &env).unwrap_err();
    assert_eq!(error, OAuthError::EnvVarNotSet { name: "INITIAL_REFRESH_TOKEN".to_string() });
}

#[test]
fn initial_api_token_is_optional() {
    let mut env = vec![var("SUBSCRIPTION_KEY", Some("s")), var("INITIAL_REFRESH_TOKEN", Some("r"))];
    let mut config = config();
    let startup = OAuthStartup::from_config(&config, "b", &env).unwrap();
    assert_eq!(header(&startup, "api-token"), "");
    env.push(var("INITIAL_API_TOKEN", Some(" ")));
    let startup = OAuthStartup::from_config(&config, "b", &env).unwrap();
    assert_eq!(header(&startup, "api-token"), "");
    env[2] = var("INITIAL_API_TOKEN", Some("t"));
    let startup = OAuthStartup::from_config(&config, "b", &env).unwrap();
    assert_eq!(header(&startup, "api-token"), "t");
    config.initial_api_token_env = None;
    let startup = OAuthStartup::from_config(&config, "b", &env).unwrap();
    assert_eq!(header(&startup, "api-token"), "");
}

#[test]
fn only_listed_variables_count() {
    let mut env = vec![var("SUBSCRIPTION_KEY", Some("s")), var("INITIAL_REFRESH_TOKEN", Some("r"))];
    let startup = OAuthStartup::from_config(&config(), "b", &env).unwrap();
    env.insert(0, var("SOMETHING_ELSE", Some("x")));
    env.push(var("initial_api_token", Some("x")));
    assert_eq!(OAuthStartup::from_config(&config(), "b", &env).unwrap(), startup);
}
