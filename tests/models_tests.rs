use tencentcloud_sms_sdk::{SendSmsRequest, SendSmsResponse, SendStatus};

fn status(serial: &str, phone: &str, fee: i32, code: &str, message: &str) -> SendStatus {
    SendStatus {
        serial_no: serial.to_string(),
        phone_number: phone.to_string(),
        fee,
        session_context: "test".to_string(),
        code: code.to_string(),
        message: message.to_string(),
        iso_code: "CN".to_string(),
    }
}

#[test]
fn models_test_send_sms_request_creation() {
    let request = SendSmsRequest::new(
        vec!["+8613800000000".to_string()],
        "1400000000",
        "123456",
        "TestSignature",
        vec!["123456".to_string()],
    );

    assert_eq!(request.phone_number_set, vec!["+8613800000000"]);
    assert_eq!(request.sms_sdk_app_id, "1400000000");
    assert_eq!(request.template_id, "123456");
    assert_eq!(request.sign_name, Some("TestSignature".to_string()));
    assert_eq!(request.template_param_set, Some(vec!["123456".to_string()]));
}

#[test]
fn models_test_send_sms_request_international() {
    let request = SendSmsRequest::new_international(
        vec!["+1234567890".to_string()],
        "1400000000",
        "123456",
        vec!["123456".to_string()],
    );

    assert_eq!(request.phone_number_set, vec!["+1234567890"]);
    assert_eq!(request.sms_sdk_app_id, "1400000000");
    assert_eq!(request.template_id, "123456");
    assert_eq!(request.sign_name, None);
    assert_eq!(request.template_param_set, Some(vec!["123456".to_string()]));
}

#[test]
fn models_test_send_sms_request_validation() {
    let request = SendSmsRequest::new(
        vec!["+8613800000000".to_string()],
        "1400000000",
        "123456",
        "TestSignature",
        vec!["123456".to_string()],
    );
    assert!(request.validate().is_ok());

    let request = SendSmsRequest::new(
        vec![],
        "1400000000",
        "123456",
        "TestSignature",
        vec!["123456".to_string()],
    );
    assert!(request.validate().is_err());

    let phone_numbers = (0..201).map(|i| format!("+861380000{:04}", i)).collect();
    let request = SendSmsRequest::new(
        phone_numbers,
        "1400000000",
        "123456",
        "TestSignature",
        vec!["123456".to_string()],
    );
    assert!(request.validate().is_err());

    let request = SendSmsRequest::new(
        vec!["+8613800000000".to_string()],
        "",
        "123456",
        "TestSignature",
        vec!["123456".to_string()],
    );
    assert!(request.validate().is_err());
}

#[test]
fn models_test_send_status() {
    let status_ok = status("12345", "+8613800000000", 1, "Ok", "Success");
    assert!(status_ok.is_success());
    assert_eq!(status_ok.get_status_description(), "Success");

    let failed_status = status(
        "12345",
        "+8613800000000",
        0,
        "InvalidParameterValue.IncorrectPhoneNumber",
        "Invalid phone number",
    );
    assert!(!failed_status.is_success());
    assert_eq!(failed_status.get_status_description(), "Invalid phone number format");
}

#[test]
fn models_test_send_sms_response() {
    let response = SendSmsResponse {
        send_status_set: vec![
            status("12345", "+8613800000000", 1, "Ok", "Success"),
            status(
                "12346",
                "+8613800000001",
                0,
                "InvalidParameterValue.IncorrectPhoneNumber",
                "Invalid phone number",
            ),
        ],
        request_id: "test-request-id".to_string(),
    };

    assert!(!response.is_all_success());
    assert_eq!(response.success_count(), 1);
    assert_eq!(response.failed_count(), 1);
    assert_eq!(response.get_total_fee(), 1);

    let successful_numbers = response.get_successful_numbers();
    assert_eq!(successful_numbers, vec!["+8613800000000"]);

    let failed_numbers = response.get_failed_numbers();
    assert_eq!(failed_numbers.len(), 1);
    assert_eq!(failed_numbers[0].0, "+8613800000001");

    assert!(response.check_phone_success("+8613800000000"));
    assert!(!response.check_phone_success("+8613800000001"));
}

#[test]
fn validation_messages_in_order() {
    let mut r = SendSmsRequest::new(vec!["13800000000".to_string()], "1", "2", "S", vec![]);
    assert!(r.validate().is_ok());
    assert_eq!(r.template_param_set, None);
    r.phone_number_set = vec!["12345".to_string()];
    assert_eq!(r.validate(), Err("Invalid phone number format: 12345".to_string()));
    r.phone_number_set = vec!["0086138".to_string(), "86138".to_string()];
    assert!(r.validate().is_ok());
    r.template_id = String::new();
    assert_eq!(r.validate(), Err("Template ID cannot be empty".to_string()));
    r.sms_sdk_app_id = String::new();
    assert_eq!(r.validate(), Err("SMS SDK App ID cannot be empty".to_string()));
    r.phone_number_set = (0..201).map(|i| format!("+86{}", i)).collect();
    assert_eq!(r.validate(), Err("Phone number set cannot exceed 200 numbers".to_string()));
    r.phone_number_set = vec![];
    assert_eq!(r.validate(), Err("Phone number set cannot be empty".to_string()));
}

#[test]
fn request_setters() {
    let mut r = SendSmsRequest::new_international(vec!["+1".to_string()], "1", "2", vec![]);
    r.set_sign_name("Sig")
        .set_extend_code("01")
        .set_session_context("ctx")
        .set_sender_id("sender")
        .set_template_param_set(vec!["a".to_string()]);
    assert_eq!(r.sign_name, Some("Sig".to_string()));
    assert_eq!(r.extend_code, Some("01".to_string()));
    assert_eq!(r.session_context, Some("ctx".to_string()));
    assert_eq!(r.sender_id, Some("sender".to_string()));
    assert_eq!(r.template_param_set, Some(vec!["a".to_string()]));
    r.set_template_param_set(vec![]);
    assert_eq!(r.template_param_set, None);
}

#[test]
fn status_descriptions() {
    let d = |code: &str| status("1", "p", 0, code, "m").get_status_description().to_string();
    assert_eq!(d("FailedOperation.SignatureIncorrectOrUnapproved"), "Signature incorrect or unapproved");
    assert_eq!(d("FailedOperation.TemplateIncorrectOrUnapproved"), "Template incorrect or unapproved");
    assert_eq!(d("FailedOperation.InsufficientBalanceInSmsPackage"), "Insufficient balance");
    assert_eq!(d("LimitExceeded.PhoneNumberCountLimit"), "Phone number count limit exceeded");
    assert_eq!(d("LimitExceeded.DeliveryFrequencyLimit"), "Delivery frequency limit exceeded");
    assert_eq!(d("ok"), "Unknown status");
}

#[test]
fn response_lookups_and_totals() {
    let response = SendSmsResponse {
        send_status_set: vec![
            status("1", "+1", 2, "Ok", "Success"),
            status("2", "+2", 3, "Ok", "Success"),
            status("3", "+1", 0, "Bad", "later duplicate"),
        ],
        request_id: "r".to_string(),
    };
    assert!(!response.is_all_success());
    assert_eq!(response.get_total_fee(), 5);
    assert_eq!(response.success_count(), 2);
    assert_eq!(response.failed_count(), 1);
    assert!(response.check_phone_success("+1"));
    assert_eq!(response.get_phone_status("+1").unwrap().serial_no, "1");
    assert!(response.get_phone_status("+9").is_none());
    assert!(!response.check_phone_success("+9"));
    assert_eq!(response.get_failed_numbers(), vec![("+1".to_string(), "later duplicate".to_string())]);
    let empty = SendSmsResponse { send_status_set: vec![], request_id: String::new() };
    assert!(empty.is_all_success());
    assert_eq!(empty.get_total_fee(), 0);
}

#[test]
fn total_fee_with_large_running_sum() {
    let response = SendSmsResponse {
        send_status_set: vec![
            status("1", "+1", i32::MAX, "Ok", "Success"),
            status("2", "+2", 1, "Ok", "Success"),
            status("3", "+3", -1, "Ok", "Success"),
        ],
        request_id: "r".to_string(),
    };
    assert_eq!(response.get_total_fee(), i32::MAX);
}
