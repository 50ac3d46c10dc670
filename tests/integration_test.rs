use tencentcloud_sms_sdk::{
    init_api, shutdown_api, ClientProfile, Credential, HttpProfile, SendSmsRequest,
    SendSmsResponse, SendStatus, TencentCloudError,
};

fn status(serial: &str, phone: &str, fee: i32, code: &str, message: &str) -> SendStatus {
    SendStatus {
        serial_no: serial.to_string(),
        phone_number: phone.to_string(),
        fee,
        session_context: "test".to_string(),
        code: code.to_string(),
        message: message.to_string(),
        iso_code: "CN".to_string(),
    }
}

#[test]
fn test_credential_creation() {
    let credential = Credential::new("test_id", "test_key", None);
    assert_eq!(credential.secret_id(), "test_id");
    assert_eq!(credential.secret_key(), "test_key");
    assert_eq!(credential.token(), None);
}

#[test]
fn test_credential_with_token() {
    let credential = Credential::new("test_id", "test_key", Some("test_token"));
    assert_eq!(credential.secret_id(), "test_id");
    assert_eq!(credential.secret_key(), "test_key");
    assert_eq!(credential.token(), Some("test_token"));
}

#[test]
fn integration_test_test_send_sms_request_creation() {
    let request = SendSmsRequest::new(
        vec!["+8613800000000".to_string()],
        "1400000000",
        "123456",
        "TestSignature",
        vec!["123456".to_string()],
    );
    assert_eq!(request.phone_number_set, vec!["+8613800000000"]);
    assert_eq!(request.sms_sdk_app_id, "1400000000");
    assert_eq!(request.template_id, "123456");
    assert_eq!(request.sign_name, Some("TestSignature".to_string()));
    assert_eq!(request.template_param_set, Some(vec!["123456".to_string()]));
}

#[test]
fn integration_test_test_send_sms_request_international() {
    let request = SendSmsRequest::new_international(
        vec!["+1234567890".to_string()],
        "1400000000",
        "123456",
        vec!["123456".to_string()],
    );
    assert_eq!(request.phone_number_set, vec!["+1234567890"]);
    assert_eq!(request.sms_sdk_app_id, "1400000000");
    assert_eq!(request.template_id, "123456");
    assert_eq!(request.sign_name, None);
    assert_eq!(request.template_param_set, Some(vec!["123456".to_string()]));
}

#[test]
fn integration_test_test_send_sms_request_validation() {
    let request = SendSmsRequest::new(
        vec!["+8613800000000".to_string()],
        "1400000000",
        "123456",
        "TestSignature",
        vec!["123456".to_string()],
    );
    assert!(request.validate().is_ok());

    let request = SendSmsRequest::new(
        vec![],
        "1400000000",
        "123456",
        "TestSignature",
        vec!["123456".to_string()],
    );
    assert!(request.validate().is_err());

    let phone_numbers = (0..201).map(|i| format!("+861380000{:04}", i)).collect();
    let request = SendSmsRequest::new(
        phone_numbers,
        "1400000000",
        "123456",
        "TestSignature",
        vec!["123456".to_string()],
    );
    assert!(request.validate().is_err());

    let request = SendSmsRequest::new(
        vec!["+8613800000000".to_string()],
        "",
        "123456",
        "TestSignature",
        vec!["123456".to_string()],
    );
    assert!(request.validate().is_err());
}

#[test]
fn integration_test_test_http_profile_configuration() {
    let mut http_profile = HttpProfile::new();
    http_profile
        .set_req_timeout(30)
        .set_connect_timeout(30)
        .set_keep_alive(true)
        .set_endpoint("custom.endpoint.com")
        .set_proxy_host(Some("proxy.example.com"))
        .set_proxy_port(Some(8080));

    assert_eq!(http_profile.req_timeout, 30);
    assert_eq!(http_profile.connect_timeout, 30);
    assert!(http_profile.keep_alive);
    assert_eq!(http_profile.endpoint, "custom.endpoint.com");
    assert_eq!(http_profile.proxy_host, Some("proxy.example.com".to_string()));
    assert_eq!(http_profile.proxy_port, Some(8080));
}

#[test]
fn integration_test_test_client_profile_configuration() {
    let mut client_profile = ClientProfile::new();
    client_profile
        .set_sign_method("HmacSHA1")
        .set_api_version("2019-07-11")
        .set_language("zh-CN")
        .set_debug(true);

    assert_eq!(client_profile.sign_method, "HmacSHA1");
    assert_eq!(client_profile.api_version, "2019-07-11");
    assert_eq!(client_profile.language, "zh-CN");
    assert!(client_profile.debug);
}

#[test]
fn integration_test_test_send_status() {
    let s = status("12345", "+8613800000000", 1, "Ok", "Success");
    assert!(s.is_success());
    assert_eq!(s.get_status_description(), "Success");

    let failed_status = status(
        "12345",
        "+8613800000000",
        0,
        "InvalidParameterValue.IncorrectPhoneNumber",
        "Invalid phone number",
    );
    assert!(!failed_status.is_success());
    assert_eq!(failed_status.get_status_description(), "Invalid phone number format");
}

#[test]
fn integration_test_test_send_sms_response() {
    let response = SendSmsResponse {
        send_status_set: vec![
            status("12345", "+8613800000000", 1, "Ok", "Success"),
            status(
                "12346",
                "+8613800000001",
                0,
                "InvalidParameterValue.IncorrectPhoneNumber",
                "Invalid phone number",
            ),
        ],
        request_id: "test-request-id".to_string(),
    };

    assert!(!response.is_all_success());
    assert_eq!(response.success_count(), 1);
    assert_eq!(response.failed_count(), 1);
    assert_eq!(response.get_total_fee(), 1);

    let successful_numbers = response.get_successful_numbers();
    assert_eq!(successful_numbers, vec!["+8613800000000"]);

    let failed_numbers = response.get_failed_numbers();
    assert_eq!(failed_numbers.len(), 1);
    assert_eq!(failed_numbers[0].0, "+8613800000001");

    assert!(response.check_phone_success("+8613800000000"));
    assert!(!response.check_phone_success("+8613800000001"));
}

#[test]
fn test_error_handling() {
    let error = TencentCloudError::api("TestError", "Test error message");
    assert_eq!(error.code(), Some("TestError"));
    assert!(error.is_api_error("TestError"));
    assert!(!error.is_network_error());
    assert!(!error.is_timeout_error());

    let error_with_request_id = TencentCloudError::api_with_request_id(
        "TestError",
        "Test error message",
        Some("test-request-id"),
    );
    assert_eq!(error_with_request_id.request_id(), Some("test-request-id"));
}

#[test]
fn test_credential_validation() {
    let credential = Credential::new("test_id", "test_key", None);
    assert!(credential.validate().is_ok());

    let invalid_credential = Credential::new("", "test_key", None);
    assert!(invalid_credential.validate().is_err());

    let invalid_credential = Credential::new("test_id", "", None);
    assert!(invalid_credential.validate().is_err());
}

#[test]
fn test_library_exports() {
    init_api();
    let _credential = Credential::new("test", "test", None);
    let _http_profile = HttpProfile::new();
    let _client_profile = ClientProfile::new();
    let _request = SendSmsRequest::new(
        vec!["+8613800000000".to_string()],
        "1400000000",
        "123456",
        "TestSignature",
        vec!["123456".to_string()],
    );
    let _error = TencentCloudError::api("TestError", "Test message");
    shutdown_api();
    assert!(true);
}

#[test]
fn error_reports() {
    let e = TencentCloudError::api_with_request_id("C", "M", Some("R"));
    assert_eq!(e.print_all(), "API Error: C - M (Request ID: R)");
    assert_eq!(TencentCloudError::api("C", "M").print_all(), "API Error: C - M");
    assert_eq!(TencentCloudError::auth("a").print_all(), "Authentication error: a");
    assert_eq!(TencentCloudError::config("c").print_all(), "Configuration error: c");
    assert_eq!(TencentCloudError::parameter("p").print_all(), "Parameter error: p");
    assert_eq!(TencentCloudError::signature("s").print_all(), "Signature error: s");
    assert_eq!(TencentCloudError::timeout("t").print_all(), "Timeout error: t");
    assert_eq!(TencentCloudError::other("o").print_all(), "Error: o");
    assert!(TencentCloudError::timeout("t").is_timeout_error());
    assert!(!TencentCloudError::api("C", "M").is_api_error("D"));
    assert_eq!(TencentCloudError::auth("a").code(), None);
    assert_eq!(TencentCloudError::api("C", "M").request_id(), None);
}
