use ctb_web::api::{
    hash_password, parse_session_token, user_key, validate_registration, GetMeError, GetUserByIdError, LoginError,
    LoginResponse, RegistrationError, RegistrationRequest, MAX_EMAIL_BYTES,
    MAX_USERNAME_BYTES,
};

fn request(username: &str, email: &str) -> RegistrationRequest {
    RegistrationRequest {
        username: username.to_string(),
        email: email.to_string(),
        password: "hunter22".to_string(),
    }
}

#[test]
fn registration_lengths_are_checked_in_bytes() {
    assert_eq!(MAX_USERNAME_BYTES, 16);
    assert_eq!(MAX_EMAIL_BYTES, 64);
    assert_eq!(validate_registration(&request("a", "a@b.c")), Ok(()));
    assert_eq!(validate_registration(&request(&"u".repeat(16), &"e".repeat(64))), Ok(()));
    assert_eq!(
        validate_registration(&request(&"u".repeat(17), "a@b.c")),
        Err(RegistrationError::InvalidData)
    );
    assert_eq!(
        validate_registration(&request("a", &"e".repeat(65))),
        Err(RegistrationError::InvalidData)
    );
    // Nine two-byte characters take 18 bytes.
    assert_eq!(
        validate_registration(&request(&"é".repeat(9), "a@b.c")),
        Err(RegistrationError::InvalidData)
    );
    assert_eq!(validate_registration(&request(&"é".repeat(8), "a@b.c")), Ok(()));
}

#[test]
fn error_bodies() {
    assert_eq!(
        LoginError::InvalidCredentials.message(),
        "{\"error\":\"invalid-credentials\"}\n"
    );
    assert_eq!(RegistrationError::InvalidData.message(), "{\"error\":\"invalid-data\"}\n");
    assert_eq!(GetMeError::NotFound.message(), "{\"error\":\"not-found\"}\n");
    assert_eq!(GetUserByIdError::NotFound.message(), "{\"error\":\"not-found\"}\n");
}

#[test]
fn password_hash_uses_default_argon2() {
    let h = hash_password("password", "somesalt");
    assert_eq!(
        h,
        "$argon2i$v=19$m=4096,t=3,p=1$c29tZXNhbHQ$iWh06vD8Fy27wf9npn6FXWiCX4K6pW6Ue1Bnzz07Z8A"
    );
    assert_eq!(hash_password("password", "somesalt"), h);
    assert_ne!(hash_password("passw0rd", "somesalt"), h);
    assert!(hash_password("", "12345678").starts_with("$argon2i$v=19$m=4096,t=3,p=1$"));
}

#[test]
fn token_is_upper_case_hex() {
    let mut bytes = [0u8; 16];
    for (i, b) in bytes.iter_mut().enumerate() {
        *b = (i as u8) * 17;
    }
    let r = LoginResponse::from_token(bytes);
    assert_eq!(r.token, "00112233445566778899AABBCCDDEEFF");
    let r = LoginResponse::from_token([0xab; 16]);
    assert_eq!(r.token, "AB".repeat(16));
}

#[test]
fn user_keys_fit_the_column() {
    assert_eq!(user_key(0), Some(0));
    assert_eq!(user_key(2_147_483_647), Some(i32::MAX));
    assert_eq!(user_key(2_147_483_648), None);
    assert_eq!(user_key(u32::MAX), None);
}

#[test]
fn handed_out_tokens_are_read_back() {
    let bytes = [0x5a; 16];
    let token = LoginResponse::from_token(bytes).token;
    assert_eq!(parse_session_token(&token), Some(bytes));
    let mut counting = [0u8; 16];
    for (i, b) in counting.iter_mut().enumerate() {
        *b = i as u8;
    }
    let token = LoginResponse::from_token(counting).token;
    assert_eq!(parse_session_token(&token), Some(counting));
    assert_eq!(
        parse_session_token("00010203-0405-0607-0809-0a0b0c0d0e0f"),
        Some(counting)
    );
    assert_eq!(parse_session_token("not a token"), None);
    assert_eq!(parse_session_token(""), None);
}
