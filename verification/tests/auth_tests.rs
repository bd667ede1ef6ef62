use mistral_adapter::auth::{AuthError, State};

#[test]
fn test_fresh_state_is_unauthenticated() {
    let state = State::new();
    assert!(!state.is_authenticated());
    assert!(!state.api_key_from_env);
}

#[test]
fn test_set_and_reset_api_key() {
    let mut state = State::new();
    state.set_api_key("sk-test".to_string());
    assert!(state.is_authenticated());
    assert_eq!(state.api_key.as_deref(), Some("sk-test"));
    state.reset_api_key();
    assert!(!state.is_authenticated());
    assert!(!state.api_key_from_env);
}

#[test]
fn test_authenticate_prefers_environment() {
    let mut state = State::new();
    let r = state.authenticate_with(Some("env-key".to_string()), Some("stored-key".to_string()));
    assert!(r.is_ok());
    assert_eq!(state.api_key.as_deref(), Some("env-key"));
    assert!(state.api_key_from_env);
}

#[test]
fn test_authenticate_falls_back_to_stored_credential() {
    let mut state = State::new();
    let r = state.authenticate_with(None, Some("stored-key".to_string()));
    assert!(r.is_ok());
    assert_eq!(state.api_key.as_deref(), Some("stored-key"));
    assert!(!state.api_key_from_env);
}

#[test]
fn test_authenticate_without_any_key_fails() {
    let mut state = State::new();
    let r = state.authenticate_with(None, None);
    assert_eq!(r, Err(AuthError::CredentialsNotFound));
    assert!(!state.is_authenticated());
}

#[test]
fn test_authenticate_keeps_existing_key() {
    let mut state = State::new();
    state.set_api_key("existing".to_string());
    let r = state.authenticate_with(Some("env-key".to_string()), None);
    assert!(r.is_ok());
    assert_eq!(state.api_key.as_deref(), Some("existing"));
}
