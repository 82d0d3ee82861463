use api_sample::bearer::{extract_token, AuthFailure};
use api_sample::jwt::{ApiJwt, DecodeError};
use api_sample::text::{chars_of, is_whitespace, skip_spaces_from, skip_word_from};

#[test]
fn bearer_header_gives_its_token() {
    assert_eq!(extract_token(Some("Bearer abc.def.ghi")), Ok("abc.def.ghi".to_string()));
}

#[test]
fn absent_header_is_header_missing() {
    assert_eq!(extract_token(None), Err(AuthFailure::HeaderMissing));
}

#[test]
fn empty_header_is_invalid_scheme() {
    assert_eq!(extract_token(Some("")), Err(AuthFailure::InvalidScheme));
    assert_eq!(extract_token(Some("   \t ")), Err(AuthFailure::InvalidScheme));
}

#[test]
fn other_scheme_is_invalid_scheme() {
    assert_eq!(extract_token(Some("Basic dXNlcjpwYXNz")), Err(AuthFailure::InvalidScheme));
    assert_eq!(extract_token(Some("Token abc")), Err(AuthFailure::InvalidScheme));
}

#[test]
fn scheme_is_case_sensitive() {
    assert_eq!(extract_token(Some("bearer abc")), Err(AuthFailure::InvalidScheme));
    assert_eq!(extract_token(Some("BEARER abc")), Err(AuthFailure::InvalidScheme));
    assert_eq!(extract_token(Some("Bearerx abc")), Err(AuthFailure::InvalidScheme));
    assert_eq!(extract_token(Some("Beare abc")), Err(AuthFailure::InvalidScheme));
}

#[test]
fn scheme_alone_is_token_missing() {
    assert_eq!(extract_token(Some("Bearer")), Err(AuthFailure::TokenMissing));
    assert_eq!(extract_token(Some("Bearer ")), Err(AuthFailure::TokenMissing));
    assert_eq!(extract_token(Some("  Bearer \t  ")), Err(AuthFailure::TokenMissing));
}

#[test]
fn what_follows_the_token_is_ignored() {
    assert_eq!(extract_token(Some("Bearer abc def ghi")), Ok("abc".to_string()));
    assert_eq!(extract_token(Some("Bearer abc Bearer")), Ok("abc".to_string()));
}

#[test]
fn any_run_of_white_space_separates() {
    assert_eq!(extract_token(Some("  Bearer \t\t abc  ")), Ok("abc".to_string()));
    assert_eq!(extract_token(Some("Bearer\tabc")), Ok("abc".to_string()));
    assert_eq!(extract_token(Some("Bearer\u{3000}abc")), Ok("abc".to_string()));
    assert_eq!(extract_token(Some("Bearer\u{a0}ab\u{2028}c")), Ok("ab".to_string()));
}

#[test]
fn token_may_hold_any_other_character() {
    assert_eq!(extract_token(Some("Bearer トークン ")), Ok("トークン".to_string()));
    assert_eq!(extract_token(Some("Bearer a=b/c+d")), Ok("a=b/c+d".to_string()));
}

#[test]
fn extraction_agrees_with_split_whitespace() {
    let samples = [
        "",
        " ",
        "Bearer",
        "Bearer x",
        " Bearer  x y",
        "\tBearer\nx",
        "Bearer\u{85}x",
        "Bearer\u{200b}x",
        "x Bearer",
        "Bearer\u{1680}\u{2000}tok\u{205f}rest",
    ];
    for sample in samples {
        let mut words = sample.split_whitespace();
        let expected = match words.next() {
            Some("Bearer") => match words.next() {
                Some(token) => Ok(token.to_string()),
                None => Err(AuthFailure::TokenMissing),
            },
            _ => Err(AuthFailure::InvalidScheme),
        };
        assert_eq!(extract_token(Some(sample)), expected);
    }
}

#[test]
fn white_space_is_what_char_says() {
    let mut code: u32 = 0;
    while code <= 0x10ffff {
        if let Some(c) = char::from_u32(code) {
            assert_eq!(is_whitespace(c), c.is_whitespace());
        }
        code += 1;
    }
}

#[test]
fn skipping_stops_at_the_first_change() {
    let chars = chars_of("  ab\tc");
    assert_eq!(chars, vec![' ', ' ', 'a', 'b', '\t', 'c']);
    assert_eq!(skip_spaces_from(&chars, 0), 2);
    assert_eq!(skip_spaces_from(&chars, 2), 2);
    assert_eq!(skip_word_from(&chars, 2), 4);
    assert_eq!(skip_word_from(&chars, 4), 4);
    assert_eq!(skip_spaces_from(&chars, 4), 5);
    assert_eq!(skip_word_from(&chars, 5), 6);
    assert_eq!(skip_spaces_from(&chars, 6), 6);
}

#[test]
fn chars_of_counts_characters_not_bytes() {
    assert_eq!(chars_of("日本"), vec!['日', '本']);
    assert_eq!(chars_of(""), Vec::<char>::new());
}

#[test]
fn failure_messages_are_fixed() {
    assert_eq!(AuthFailure::HeaderMissing.message(), "Authorization header not found.");
    assert_eq!(AuthFailure::InvalidScheme.message(), "invalid schema type.");
    assert_eq!(AuthFailure::TokenMissing.message(), "JWT token not found.");
    assert_eq!(AuthFailure::DecodeInvalid(DecodeError::InvalidToken).message(), "InvalidToken");
    assert_eq!(
        AuthFailure::DecodeInvalid(DecodeError::ExpiredSignature).message(),
        "ExpiredSignature"
    );
    assert_eq!(
        AuthFailure::DecodeInvalid(DecodeError::InvalidSignature).message(),
        "InvalidSignature"
    );
    assert_eq!(DecodeError::ExpiredSignature.message(), "ExpiredSignature");
}

#[test]
fn every_failure_becomes_a_401() {
    let failures = [
        AuthFailure::HeaderMissing,
        AuthFailure::InvalidScheme,
        AuthFailure::TokenMissing,
        AuthFailure::DecodeInvalid(DecodeError::InvalidToken),
        AuthFailure::DecodeInvalid(DecodeError::ExpiredSignature),
        AuthFailure::DecodeInvalid(DecodeError::InvalidSignature),
    ];
    for failure in failures {
        let reply = failure.into_error().error_response();
        assert_eq!(reply.status, 401);
        assert_eq!(reply.body.state, "authorization error");
        assert_eq!(reply.body.message, failure.message());
    }
}

#[test]
fn decode_header_turns_failures_into_errors() {
    let jwt = ApiJwt::new(b"secret");
    assert_eq!(jwt.decode_header(Some("Bearer t")).unwrap(), "t");
    let cases = [
        (None, "Authorization header not found."),
        (Some("Basic x"), "invalid schema type."),
        (Some(""), "invalid schema type."),
        (Some("Bearer"), "JWT token not found."),
    ];
    for (header, message) in cases {
        let reply = jwt.decode_header(header).unwrap_err().error_response();
        assert_eq!(reply.status, 401);
        assert_eq!(reply.body.state, "authorization error");
        assert_eq!(reply.body.message, message);
    }
}
