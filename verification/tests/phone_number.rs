use sabi_wallet::utils::phone_number::{
    validate_nigerian_phone_number, NigerianPhoneNumber, PhoneNumberError,
};

#[test]
fn test_valid_nigerian_numbers() {
    assert_eq!(
        NigerianPhoneNumber::new("08012345678").unwrap().as_str(),
        "+2348012345678"
    );
    assert_eq!(
        NigerianPhoneNumber::new("+2348012345678")
            .unwrap()
            .as_str(),
        "+2348012345678"
    );
    assert_eq!(
        NigerianPhoneNumber::new("2348012345678").unwrap().as_str(),
        "+2348012345678"
    );
}

#[test]
fn test_invalid_nigerian_numbers() {
    assert!(NigerianPhoneNumber::new("0701234567").is_err()); // Too short
    assert!(NigerianPhoneNumber::new("12345").is_err()); // Not a phone number
    assert!(NigerianPhoneNumber::new("+12025550100").is_err()); // Not Nigerian
}

#[test]
fn foreign_number_is_not_nigerian() {
    assert_eq!(
        NigerianPhoneNumber::new("+12025550100").err(),
        Some(PhoneNumberError::NotNigerian)
    );
}

#[test]
fn text_without_digits_is_unparseable() {
    assert_eq!(
        NigerianPhoneNumber::new("hello").err(),
        Some(PhoneNumberError::Unparseable)
    );
    let failure = validate_nigerian_phone_number("hello").unwrap_err();
    assert_eq!(failure.code, "invalid_nigerian_phone_number");
    assert_eq!(failure.message, "Failed to parse phone number");
}

#[test]
fn valid_number_passes_validation() {
    assert!(validate_nigerian_phone_number("08012345678").is_ok());
    let number = NigerianPhoneNumber::new("08012345678").unwrap();
    assert_eq!(number.to_text(), "+2348012345678");
    assert_eq!(number.into_string(), "+2348012345678");
}

#[test]
fn short_nigerian_number_is_invalid() {
    assert_eq!(
        NigerianPhoneNumber::new("0701234567").err(),
        Some(PhoneNumberError::Invalid)
    );
    assert_eq!(PhoneNumberError::Invalid.message(), "Phone number is not a valid number.");
    assert_eq!(
        PhoneNumberError::NotNigerian.message(),
        "Phone number is not a Nigerian number."
    );
    assert_eq!(PhoneNumberError::Unparseable.message(), "Failed to parse phone number");
}
