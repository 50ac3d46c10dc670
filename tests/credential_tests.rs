use tencentcloud_sms_sdk::{Credential, TencentCloudError};

#[test]
fn test_credential_new() {
    let credential = Credential::new("test_id", "test_key", Some("test_token"));
    assert_eq!(credential.secret_id, "test_id");
    assert_eq!(credential.secret_key, "test_key");
    assert_eq!(credential.token, Some("test_token".to_string()));
}

#[test]
fn test_credential_validate() {
    let credential = Credential::new("test_id", "test_key", None);
    assert!(credential.validate().is_ok());

    let invalid_credential = Credential::new("", "test_key", None);
    assert!(invalid_credential.validate().is_err());

    let invalid_credential = Credential::new("test_id", "", None);
    assert!(invalid_credential.validate().is_err());
}

#[test]
fn test_credential_methods() {
    let mut credential = Credential::new("test_id", "test_key", None);

    assert_eq!(credential.secret_id(), "test_id");
    assert_eq!(credential.secret_key(), "test_key");
    assert_eq!(credential.token(), None);
    assert!(!credential.has_token());

    credential.set_token(Some("new_token"));
    assert_eq!(credential.token(), Some("new_token"));
    assert!(credential.has_token());
}

#[test]
fn credential_validate_reports_which_field() {
    match Credential::new("", "", None).validate() {
        Err(TencentCloudError::Auth(m)) => assert_eq!(m, "Secret ID cannot be empty"),
        _ => panic!("expected an authentication error"),
    }
    match Credential::new("id", "", None).validate() {
        Err(TencentCloudError::Auth(m)) => assert_eq!(m, "Secret Key cannot be empty"),
        _ => panic!("expected an authentication error"),
    }
}

#[test]
fn credential_default_is_empty() {
    let c = Credential::default();
    assert_eq!(c.secret_id, "");
    assert_eq!(c.secret_key, "");
    assert!(c.token.is_none());
    assert!(c.validate().is_err());
}

#[test]
fn credential_token_can_be_cleared() {
    let mut c = Credential::new("id", "key", Some("t"));
    c.set_token(None);
    assert!(!c.has_token());
    assert_eq!(c.secret_id(), "id");
}
