use server::extract::payload::{
    bad_request, before_first, no_data, Payload, PayloadRejection, PayloadSource, BAD_REQUEST,
    UNPROCESSABLE_ENTITY,
};
use server::extract::user::{AuthRejection, Bearer, User};
use server::jwt::Claim;
use server::schema::api::{password, username, whitespace, CredentialError};
use server::schema::ids::{CardId, Id, UserId};

#[test]
fn claim_is_for_its_user() {
    let id = UserId(Id::parse("0123456789abcdef").unwrap());
    assert_eq!(Claim::new(id).sub, id);
}

#[test]
fn generated_id_is_sixteen_letters_and_digits() {
    for _ in 0..200 {
        let id = Id::generate();
        assert_eq!(id.as_bytes().len(), 16);
        assert!(id.as_bytes().iter().all(|b| b.is_ascii_alphanumeric()));
    }
}

#[test]
fn default_ids_are_random_and_alphanumeric() {
    let a = UserId::default();
    let b = UserId::default();
    assert_ne!(a, b);
    assert!(CardId::default().0.as_bytes().iter().all(|b| b.is_ascii_alphanumeric()));
    assert!(Id::default().as_bytes().iter().all(|b| b.is_ascii_alphanumeric()));
}

#[test]
fn id_is_read_from_sixteen_bytes() {
    let id = Id::parse("ABCDEFGHabcdefgh").unwrap();
    assert_eq!(id.as_bytes(), b"ABCDEFGHabcdefgh");
    assert_eq!(Id::parse("\u{00e9}\u{00e9}\u{00e9}\u{00e9}\u{00e9}\u{00e9}\u{00e9}\u{00e9}").unwrap().as_bytes().len(), 16);
}

#[test]
fn id_of_another_length_is_turned_down() {
    assert_eq!(Id::parse(""), None);
    assert_eq!(Id::parse("ABCDEFGHabcdefg"), None);
    assert_eq!(Id::parse("ABCDEFGHabcdefghi"), None);
    assert_eq!(Id::parse("\u{00e9}BCDEFGHabcdefgh"), None);
}

#[test]
fn user_name_of_letters_digits_and_underscores_is_accepted() {
    assert_eq!(username("abcd"), Ok("abcd".to_string()));
    assert_eq!(username("A_b_0_9_Z_z_a_16"), Ok("A_b_0_9_Z_z_a_16".to_string()));
    assert_eq!(username("____"), Ok("____".to_string()));
}

#[test]
fn user_name_of_wrong_length_is_turned_down() {
    assert_eq!(username(""), Err(CredentialError::InvalidUsername));
    assert_eq!(username("abc"), Err(CredentialError::InvalidUsername));
    assert_eq!(username("abcdefghijklmnopq"), Err(CredentialError::InvalidUsername));
}

#[test]
fn user_name_with_other_characters_is_turned_down() {
    for name in ["ab cd", "abc-d", "abcd!", "abc\u{00e9}", "/abcd", ":abcd", "@abcd", "[abcd", "`abcd", "{abcd"] {
        assert_eq!(username(name), Err(CredentialError::InvalidUsername), "{name}");
    }
}

#[test]
fn password_without_white_space_is_accepted() {
    assert_eq!(password("secret"), Ok("secret".to_string()));
    assert_eq!(password("p@ss-w\u{00f6}rd!"), Ok("p@ss-w\u{00f6}rd!".to_string()));
    assert_eq!(password("0123456789abcdef"), Ok("0123456789abcdef".to_string()));
}

#[test]
fn password_of_wrong_length_is_turned_down() {
    assert_eq!(password("short"), Err(CredentialError::InvalidPassword));
    assert_eq!(password("0123456789abcdefg"), Err(CredentialError::InvalidPassword));
    assert_eq!(password("\u{4e2d}\u{4e2d}\u{4e2d}\u{4e2d}\u{4e2d}\u{4e2d}"), Err(CredentialError::InvalidPassword));
    assert_eq!(password("\u{00e9}\u{00e9}\u{00e9}"), Ok("\u{00e9}\u{00e9}\u{00e9}".to_string()));
}

#[test]
fn password_with_white_space_is_turned_down() {
    for word in ["pass word", "password\n", "\tpassword", "pass\u{00a0}word", "pass\u{3000}wd"] {
        assert_eq!(password(word), Err(CredentialError::InvalidPassword), "{word:?}");
    }
}

#[test]
fn white_space_is_what_the_standard_library_calls_so() {
    for n in 0..=0x10ffffu32 {
        if let Some(c) = char::from_u32(n) {
            assert_eq!(whitespace(c), c.is_whitespace(), "U+{n:04X}");
        }
    }
}

#[test]
fn credential_errors_have_their_messages() {
    assert_eq!(CredentialError::InvalidUsername.message(), "Invalid username");
    assert_eq!(CredentialError::InvalidPassword.message(), "Invalid password");
}

#[test]
fn request_without_bearer_header_is_unauthorized() {
    assert_eq!(User::from_request_parts(Bearer::Missing), Err(AuthRejection::NoBearer));
    assert_eq!(AuthRejection::NoBearer.status(), 401);
    assert_eq!(AuthRejection::NoBearer.message(), "No Bearer auth header");
}

#[test]
fn request_with_a_bad_token_is_unauthorized() {
    assert_eq!(User::from_request_parts(Bearer::Undecodable), Err(AuthRejection::InvalidToken));
    assert_eq!(AuthRejection::InvalidToken.status(), 401);
    assert_eq!(AuthRejection::InvalidToken.message(), "Invalid auth header");
}

#[test]
fn request_with_a_good_token_is_made_for_its_subject() {
    let id = UserId(Id::parse("0123456789abcdef").unwrap());
    assert_eq!(User::from_request_parts(Bearer::Decoded(Claim::new(id))), Ok(User(id)));
}

#[test]
fn payload_of_a_post_is_its_body() {
    assert_eq!(PayloadSource::from_request(true), PayloadSource::Body);
    assert_eq!(PayloadSource::from_request(false), PayloadSource::Query);
}

#[test]
fn payload_wraps_its_value() {
    assert_eq!(Payload(5).0, 5);
}

#[test]
fn undecodable_query_payload_is_unprocessable() {
    let rejection = PayloadRejection::QueryPayloadDeser("expected value at line 1 column 1".to_string());
    assert_eq!(
        rejection.into_response(),
        Some((
            422,
            "Failed to deserialize the JSON payload: expected value at line 1 column 1".to_string()
        ))
    );
    assert_eq!(UNPROCESSABLE_ENTITY, 422);
}

#[test]
fn other_rejections_keep_their_own_answer() {
    assert_eq!(PayloadRejection::Json.into_response(), None);
    assert_eq!(PayloadRejection::Query.into_response(), None);
}

#[test]
fn id_holds_the_bytes_it_was_made_of() {
    let bytes = *b"0123456789ABCDEF";
    assert_eq!(Id::from_bytes(bytes).as_bytes(), &bytes);
    assert_eq!(Id::from_bytes(bytes), Id::parse("0123456789ABCDEF").unwrap());
}

#[test]
fn position_is_cut_off_the_decoder_message() {
    assert_eq!(
        bad_request("missing field `username` at line 1 column 20"),
        (400, "missing field `username` ".to_string())
    );
    assert_eq!(bad_request("Invalid username at line 3 column 1"), (400, "Invalid username ".to_string()));
}

#[test]
fn message_without_position_is_kept() {
    assert_eq!(bad_request("EOF while parsing"), (400, "EOF while parsing".to_string()));
    assert_eq!(bad_request(""), (400, String::new()));
    assert_eq!(bad_request("at lin"), (400, "at lin".to_string()));
}

#[test]
fn message_is_cut_at_the_first_position() {
    assert_eq!(bad_request("a at line 1 at line 2"), (400, "a ".to_string()));
    assert_eq!(bad_request("at line 1"), (400, String::new()));
    assert_eq!(bad_request("\u{00e9}\u{4e2d} at line"), (400, "\u{00e9}\u{4e2d} ".to_string()));
}

#[test]
fn text_before_the_first_occurrence() {
    assert_eq!(before_first("abcabc", "bc"), "a");
    assert_eq!(before_first("abcabc", "cb"), "abcabc");
    assert_eq!(before_first("abc", "abcd"), "abc");
    assert_eq!(before_first("abc", "abc"), "");
    assert_eq!(before_first("abc", ""), "");
    assert_eq!(before_first("", ""), "");
    assert_eq!(before_first("aab", "ab"), "a");
    for (text, pattern) in [("hello at line", "at line"), ("xyz", "y"), ("\u{00e9}x\u{00e9}y", "\u{00e9}y")] {
        let wanted = text.split_once(pattern).map(|(before, _)| before).unwrap_or(text);
        assert_eq!(before_first(text, pattern), wanted);
    }
}

#[test]
fn request_without_body_is_a_bad_request() {
    assert_eq!(no_data(), (400, "No data received".to_string()));
    assert_eq!(BAD_REQUEST, 400);
}
