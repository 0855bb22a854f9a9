use portredirect::protocol::auth::{
    build_challenge, build_challenge_request, check_client_response, check_server_reply,
    client_response, expected_response, new_server_challenge, parse_challenge_prompt,
    respond_to_challenge, server_verdict, AuthError, ResponseCheck, CHALLENGE_MAX_LEN,
    RESPONSE_LEN,
};

const CHALLENGE: &str = "this-is-the-challenge-000102030405060708090a0b0c0d0e0f101112131415161718191a1b1c1d1e1f-at-12345-pr-v1";
const EXPECTED: &str = "f4a49f9b6c8ebbb3f7d84c012bc57ffdaf2a5a7f014589df19049c90872b4ea40e3381cef1af30e2747123725c351de4f407759b627b4da035525ca49562cca3";

fn random_bytes() -> Vec<u8> {
    (0u8..32).collect()
}

#[test]
fn challenge_has_the_documented_form() {
    let c = build_challenge(&random_bytes(), 12345);
    assert_eq!(c, CHALLENGE.as_bytes());
}

#[test]
fn challenge_request_carries_prompt_and_challenge() {
    let r = build_challenge_request(CHALLENGE.as_bytes()).unwrap();
    assert_eq!(r, format!("WHO THE HECK ARE YOU?\n{}\n", CHALLENGE).as_bytes());
}

#[test]
fn overlong_challenge_is_refused() {
    let long = vec![b'a'; 300];
    assert_eq!(build_challenge_request(&long), Err(AuthError::ChallengeTooLong));
    // The longest challenge that still fits: 22 bytes of prompt and newlines plus it.
    let fits = vec![b'a'; CHALLENGE_MAX_LEN - 23];
    assert_eq!(build_challenge_request(&fits).unwrap().len(), CHALLENGE_MAX_LEN);
    let too_long = vec![b'a'; CHALLENGE_MAX_LEN - 22];
    assert_eq!(build_challenge_request(&too_long), Err(AuthError::ChallengeTooLong));
}

#[test]
fn expected_response_is_hex_sha512() {
    assert_eq!(expected_response(CHALLENGE.as_bytes(), b"test-secret"), EXPECTED.as_bytes());
    assert_eq!(
        expected_response(b"abc", b""),
        "ddaf35a193617abacc417349ae20413112e6fa4e89a97ea20a9eeee64b55d39a2192992a274fc1a836ba3c23a3feebbd454d4423643ce80e2a9ac94fa54ca49f".as_bytes()
    );
}

#[test]
fn client_response_ends_in_newline() {
    let r = client_response(CHALLENGE.as_bytes(), b"test-secret");
    assert_eq!(r.len(), RESPONSE_LEN);
    assert_eq!(r, format!("{}\n", EXPECTED).as_bytes());
}

#[test]
fn test_authentication_protocol_good() {
    let psk = b"test-secret";
    let (challenge, request) = new_server_challenge(12345).unwrap();
    let answer = respond_to_challenge(&request, psk).unwrap();
    let check = check_client_response(&challenge, psk, &answer);
    assert_eq!(check, ResponseCheck::Accepted);
    let (reply, outcome) = server_verdict(check);
    assert_eq!(outcome, Ok(()));
    let reply = reply.unwrap();
    assert_eq!(reply, b"HAPPY\n");
    assert_eq!(check_server_reply(&reply), Ok(()));
}

#[test]
fn test_authentication_protocol_bad_psk() {
    let (challenge, request) = new_server_challenge(12345).unwrap();
    let answer = respond_to_challenge(&request, b"another-test-secret").unwrap();
    let check = check_client_response(&challenge, b"test-secret", &answer);
    assert_eq!(check, ResponseCheck::Mismatch);
    let (reply, outcome) = server_verdict(check);
    assert_eq!(outcome, Err(AuthError::ResponseMismatch));
    let reply = reply.unwrap();
    assert_eq!(reply, b"BAD\n");
    assert_eq!(check_server_reply(&reply), Err(AuthError::ServerRejected));
}

#[test]
fn server_challenges_differ_and_have_fixed_shape() {
    let (c1, r1) = new_server_challenge(7).unwrap();
    let (c2, _) = new_server_challenge(7).unwrap();
    assert_eq!(c1.len(), 22 + 64 + 4 + 1 + 6);
    assert!(c1.starts_with(b"this-is-the-challenge-"));
    assert!(c1.ends_with(b"-at-7-pr-v1"));
    assert!(r1.starts_with(b"WHO THE HECK ARE YOU?\n"));
    assert_ne!(c1, c2);
}

#[test]
fn trailing_whitespace_after_the_answer_is_trimmed() {
    let c = CHALLENGE.as_bytes();
    for tail in ["\n", " ", "\r", "\t", "\u{3000}", "\u{a0}", " \n"] {
        let answer = format!("{}{}", EXPECTED, tail);
        assert_eq!(check_client_response(c, b"test-secret", answer.as_bytes()), ResponseCheck::Accepted, "{:?}", tail);
    }
    let answer = format!("{}x", EXPECTED);
    assert_eq!(check_client_response(c, b"test-secret", answer.as_bytes()), ResponseCheck::Mismatch);
    let answer = format!(" {}", EXPECTED);
    assert_eq!(check_client_response(c, b"test-secret", answer.as_bytes()), ResponseCheck::Mismatch);
    assert_eq!(check_client_response(c, b"test-secret", &EXPECTED.as_bytes()[..127]), ResponseCheck::Mismatch);
}

#[test]
fn answer_that_is_not_utf8_gets_no_reply() {
    let mut answer = EXPECTED.as_bytes().to_vec();
    answer.push(0xff);
    let check = check_client_response(CHALLENGE.as_bytes(), b"test-secret", &answer);
    assert_eq!(check, ResponseCheck::NotUtf8);
    let (reply, outcome) = server_verdict(check);
    assert!(reply.is_none());
    assert_eq!(outcome, Err(AuthError::NotUtf8));
}

#[test]
fn prompt_errors() {
    assert_eq!(parse_challenge_prompt(&[0xff, 0xfe]), Err(AuthError::NotUtf8));
    assert_eq!(parse_challenge_prompt(b""), Err(AuthError::UnexpectedPrompt));
    assert_eq!(parse_challenge_prompt(b"HELLO\nabc\n"), Err(AuthError::UnexpectedPrompt));
    assert_eq!(parse_challenge_prompt(b"WHO THE HECK ARE YOU?\n"), Err(AuthError::MissingChallenge));
    assert_eq!(parse_challenge_prompt(b"WHO THE HECK ARE YOU?"), Err(AuthError::MissingChallenge));
}

#[test]
fn prompt_lines_follow_str_lines() {
    assert_eq!(parse_challenge_prompt(b"WHO THE HECK ARE YOU?\r\nabc\r\n").unwrap(), b"abc");
    assert_eq!(parse_challenge_prompt(b"WHO THE HECK ARE YOU?\nabc").unwrap(), b"abc");
    assert_eq!(parse_challenge_prompt(b"WHO THE HECK ARE YOU?\n\nabc").unwrap(), b"");
    assert_eq!(parse_challenge_prompt(b"WHO THE HECK ARE YOU?\nabc\r").unwrap(), b"abc\r");
}

#[test]
fn server_reply_checks() {
    assert_eq!(check_server_reply(b"HAPPY\n"), Ok(()));
    assert_eq!(check_server_reply(b"HAPPYish"), Ok(()));
    assert_eq!(check_server_reply(b"BAD\n"), Err(AuthError::ServerRejected));
    assert_eq!(check_server_reply(b""), Err(AuthError::ServerRejected));
    assert_eq!(check_server_reply(&[0xc3]), Err(AuthError::NotUtf8));
}

#[test]
fn authentication_error_texts() {
    assert_eq!(AuthError::ChallengeTooLong.message(), "Challenge string exceeds maximum length");
    assert_eq!(AuthError::NotUtf8.message(), "authentication message is not valid UTF-8");
    assert_eq!(AuthError::UnexpectedPrompt.message(), "Unexpected authentication prompt");
    assert_eq!(AuthError::MissingChallenge.message(), "Missing challenge in authentication message");
    assert_eq!(AuthError::ResponseMismatch.message(), "Authentication failed: response mismatch");
    assert_eq!(AuthError::ServerRejected.message(), "Server rejected authentication");
    assert_eq!(AuthError::RandomSourceFailed.message(), "failed to get random bytes");
}
