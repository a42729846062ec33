use identity_core::errors::AppError;
use identity_core::models::CreateUserInput;
use identity_core::validation::{
    get_error_message, validate_credentials, validate_date_format, validate_email,
    validate_file_extension, validate_file_size, validate_hex_color, validate_ip_address,
    validate_password, validate_phone_number, validate_slug, validate_url,
};

#[test]
fn password_rules_yield_one_code_per_violation_class() {
    assert_eq!(validate_password("short"), Err("password_too_short"));
    let long = "Aa1!".repeat(19);
    assert_eq!(long.len(), 76);
    assert_eq!(validate_password(&long), Err("password_too_long"));
    assert_eq!(validate_password("alllowercase1!"), Err("password_requirements_not_met"));
    assert_eq!(validate_password("ALLUPPERCASE1!"), Err("password_requirements_not_met"));
    assert_eq!(validate_password("NoDigits!!"), Err("password_requirements_not_met"));
    assert_eq!(validate_password("NoSpecial11"), Err("password_requirements_not_met"));
    assert_eq!(validate_password("Abcdef1!"), Ok(()));
}

#[test]
fn email_rules_accept_addresses_and_reject_malformed_ones() {
    assert_eq!(validate_email("user@example.com"), Ok(()));
    assert_eq!(validate_email("first.last+tag@sub.example.co"), Ok(()));
    assert_eq!(validate_email("not-an-email"), Err("invalid_email"));
    assert_eq!(validate_email("@example.com"), Err("invalid_email"));
    assert_eq!(validate_email("user@"), Err("invalid_email"));
    // a single-label domain passes the pattern but fails the dot check
    assert_eq!(validate_email("a@b"), Err("invalid_email"));
    assert_eq!(validate_email("user@-bad.com"), Err("invalid_email"));
    assert_eq!(validate_email("user@bad-.com"), Err("invalid_email"));
    assert_eq!(validate_email("user@ex ample.com"), Err("invalid_email"));
    let local = "a".repeat(250);
    let long = format!("{}@b.co", local);
    assert!(long.len() > 254);
    assert_eq!(validate_email(&long), Err("email_too_long"));
}

#[test]
fn phone_rules_take_an_optional_plus_and_up_to_fifteen_digits() {
    assert_eq!(validate_phone_number("+14155552671"), Ok(()));
    assert_eq!(validate_phone_number("14155552671"), Ok(()));
    assert_eq!(validate_phone_number("+0123456"), Err("invalid_phone_number"));
    assert_eq!(validate_phone_number("1"), Err("invalid_phone_number"));
    assert_eq!(validate_phone_number("1234567890123456"), Err("invalid_phone_number"));
    assert_eq!(validate_phone_number("+1415555a671"), Err("invalid_phone_number"));
}

#[test]
fn url_rules_require_scheme_host_and_well_formed_port_and_path() {
    assert_eq!(validate_url("http://example.com"), Ok(()));
    assert_eq!(validate_url("https://example.com"), Ok(()));
    assert_eq!(validate_url("https://example.com:8080"), Ok(()));
    assert_eq!(validate_url("https://example.com:8080/a/b-c.d%20e"), Ok(()));
    assert_eq!(validate_url("http://example.com/"), Ok(()));
    assert_eq!(validate_url("ftp://example.com"), Err("invalid_url"));
    assert_eq!(validate_url("http://"), Err("invalid_url"));
    assert_eq!(validate_url("http://example.com:"), Err("invalid_url"));
    assert_eq!(validate_url("http://example.com:12x/"), Err("invalid_url"));
    assert_eq!(validate_url("http://exa mple.com"), Err("invalid_url"));
}

#[test]
fn date_rules_require_the_dashed_numeric_shape() {
    assert_eq!(validate_date_format("2024-01-31"), Ok(()));
    assert_eq!(validate_date_format("2024-1-31"), Err("invalid_date_format"));
    assert_eq!(validate_date_format("20240131"), Err("invalid_date_format"));
    assert_eq!(validate_date_format("2024-01-3a"), Err("invalid_date_format"));
}

#[test]
fn hex_color_rules_take_three_or_six_digits_after_the_hash() {
    assert_eq!(validate_hex_color("#fff"), Ok(()));
    assert_eq!(validate_hex_color("#FFAA00"), Ok(()));
    assert_eq!(validate_hex_color("#ffff"), Err("invalid_hex_color"));
    assert_eq!(validate_hex_color("fff"), Err("invalid_hex_color"));
    assert_eq!(validate_hex_color("#ggg"), Err("invalid_hex_color"));
}

#[test]
fn ip_rules_accept_either_loose_address_shape() {
    assert_eq!(validate_ip_address("192.168.0.1"), Ok(()));
    // the shape check is loose on ranges, as the original pattern was
    assert_eq!(validate_ip_address("999.1.1.1"), Ok(()));
    assert_eq!(validate_ip_address("1.2.3"), Err("invalid_ip_address"));
    assert_eq!(validate_ip_address("1.2.3.4.5"), Err("invalid_ip_address"));
    assert_eq!(validate_ip_address("2001:0db8:85a3:0000:0000:8a2e:0370:7334"), Ok(()));
    assert_eq!(validate_ip_address("::1"), Err("invalid_ip_address"));
    assert_eq!(validate_ip_address("not-an-ip"), Err("invalid_ip_address"));
}

#[test]
fn slug_rules_take_hyphen_joined_lowercase_groups() {
    assert_eq!(validate_slug("my-slug-1"), Ok(()));
    assert_eq!(validate_slug("slug"), Ok(()));
    assert_eq!(validate_slug("-bad"), Err("invalid_slug"));
    assert_eq!(validate_slug("bad-"), Err("invalid_slug"));
    assert_eq!(validate_slug("a--b"), Err("invalid_slug"));
    assert_eq!(validate_slug("Upper"), Err("invalid_slug"));
    assert_eq!(validate_slug(""), Err("invalid_slug"));
}

#[test]
fn file_size_rule_compares_against_the_maximum() {
    assert_eq!(validate_file_size(5, 10), Ok(()));
    assert_eq!(validate_file_size(10, 10), Ok(()));
    assert_eq!(validate_file_size(11, 10), Err("file_too_large"));
}

#[test]
fn file_extension_rule_checks_the_allow_list_ignoring_case() {
    assert_eq!(validate_file_extension("report.pdf", &["pdf", "doc"]), Ok(()));
    assert_eq!(validate_file_extension("report.PDF", &["pdf"]), Ok(()));
    assert_eq!(validate_file_extension("archive.tar.gz", &["gz"]), Ok(()));
    assert_eq!(validate_file_extension("report.exe", &["pdf", "doc"]), Err("invalid_file_extension"));
    // without any dot the whole name counts as the extension
    assert_eq!(validate_file_extension("noext", &["noext"]), Ok(()));
    assert_eq!(validate_file_extension("noext", &["pdf"]), Err("invalid_file_extension"));
}

#[test]
fn invalid_credentials_yield_exactly_one_violation_per_field() {
    let result = validate_credentials("not-an-email", "short");
    let errors = match result {
        Err(AppError::Validation(v)) => v,
        other => panic!("expected Validation, got {:?}", other),
    };
    assert_eq!(errors.len(), 2);
    assert_eq!(errors[0].field, "email");
    assert_eq!(errors[0].code, "invalid_email");
    assert_eq!(errors[0].message, "Invalid email format");
    assert_eq!(errors[1].field, "password");
    assert_eq!(errors[1].code, "password_too_short");
    assert_eq!(errors[1].message, "Password must be at least 8 characters");
}

#[test]
fn compliant_credentials_yield_no_violations() {
    assert!(validate_credentials("user@example.com", "Abcdef1!").is_ok());
}

#[test]
fn create_user_input_validates_its_credential_fields() {
    let bad = CreateUserInput {
        username: "someone".to_string(),
        email: "not-an-email".to_string(),
        password: "short".to_string(),
        bio: None,
    };
    match bad.validate_into_app_error() {
        Err(AppError::Validation(v)) => assert_eq!(v.len(), 2),
        other => panic!("expected Validation, got {:?}", other),
    }
    let good = CreateUserInput {
        username: "someone".to_string(),
        email: "user@example.com".to_string(),
        password: "Abcdef1!".to_string(),
        bio: Some("hi".to_string()),
    };
    assert!(good.validate_into_app_error().is_ok());
}

#[test]
fn default_messages_come_from_the_code_table() {
    assert_eq!(get_error_message("required", "email"), "The field 'email' is required");
    assert_eq!(get_error_message("password_too_long", ""), "Password must not exceed 72 characters");
    assert_eq!(
        get_error_message("password_requirements_not_met", "x"),
        "Password must contain uppercase, lowercase, number, and special character"
    );
    assert_eq!(get_error_message("invalid_date_format", "d"), "Date must be in YYYY-MM-DD format");
    assert_eq!(
        get_error_message("file_too_large", "avatar"),
        "File size exceeds maximum allowed for field 'avatar'"
    );
    assert_eq!(get_error_message("email_too_long", "email"), "Email address is too long");
    assert_eq!(get_error_message("something_else", "f"), "Validation failed for field 'f'");
}
