//! PSK challenge-response authentication.
//!
//! The server trusts nobody who connects. It sends a prompt line followed by a
//! challenge line that carries 32 random bytes (in hex) and the current time in
//! minutes. The client proves that it knows the pre-shared key by answering
//! with the lowercase hex SHA-512 digest of the challenge followed by the key.
//! The server compares that answer with its own and replies `HAPPY` or `BAD`.
use vstd::prelude::*;
use vstd::utf8::valid_utf8;

use crate::protocol::encoding::{
    all_whitespace, bytes_equal, bytes_start_with, decimal, decimal_digits, decimal_value, extend_bytes,
    hex_encode, hex_lower, is_ascii_bytes, is_hex_char, is_valid_utf8, is_whitespace_from,
    lemma_ascii_valid_utf8, lemma_decimal_chars, lemma_decimal_len_u64, lemma_decimal_value, lemma_hex_chars,
    lemma_hex_injective, lemma_hex_len, lemma_newline_is_whitespace, lemma_next_line_of,
    next_line, sha512, sha512_digest, slice_prefix, slice_range, split_first_line, starts_with,
    whitespace_len,
};
use crate::protocol::utils::generate_random_bytes;

verus! {

/// Maximum length of the challenge request the server sends, in bytes.
pub const CHALLENGE_MAX_LEN: usize = 256;

/// Number of random bytes in a challenge.
pub const CHALLENGE_RANDOM_LEN: usize = 32;

/// Number of bytes the server reads as the client's answer:
/// 128 hex digits and a newline.
pub const RESPONSE_LEN: usize = 129;

/// Why an authentication step failed.
#[derive(Clone, Copy, Debug, PartialEq, Eq, Structural)]
pub enum AuthError {
    /// The challenge request would be longer than `CHALLENGE_MAX_LEN`.
    ChallengeTooLong,
    /// A message received from the peer is not valid UTF-8.
    NotUtf8,
    /// The first line from the server is not the expected prompt.
    UnexpectedPrompt,
    /// The server's message has no challenge line after the prompt.
    MissingChallenge,
    /// The client's answer does not match the expected response.
    ResponseMismatch,
    /// The server's reply does not start with `HAPPY`.
    ServerRejected,
    /// The operating system could not supply random bytes.
    RandomSourceFailed,
}

/// How the server judges a client's answer.
#[derive(Clone, Copy, Debug, PartialEq, Eq, Structural)]
pub enum ResponseCheck {
    /// The answer is the expected response, followed only by whitespace.
    Accepted,
    /// The answer is valid UTF-8 but not the expected response.
    Mismatch,
    /// The answer is not valid UTF-8.
    NotUtf8,
}

// ---------------------------------------------------------------------------
// Message texts.
/// `WHO THE HECK ARE YOU?`
pub open spec fn prompt_text() -> Seq<u8> {
    seq![
        87, 72, 79, 32, 84, 72, 69, 32, 72, 69, 67, 75, 32, 65, 82,
        69, 32, 89, 79, 85, 63,
    ]
}

/// `this-is-the-challenge-`
pub open spec fn challenge_head() -> Seq<u8> {
    seq![
        116, 104, 105, 115, 45, 105, 115, 45, 116, 104, 101, 45, 99, 104, 97,
        108, 108, 101, 110, 103, 101, 45,
    ]
}

/// `-at-`
pub open spec fn challenge_at() -> Seq<u8> {
    seq![45, 97, 116, 45]
}

/// `-pr-v1`
pub open spec fn challenge_tail() -> Seq<u8> {
    seq![45, 112, 114, 45, 118, 49]
}

/// `HAPPY`, the prefix of an accepting server reply.
pub open spec fn happy_text() -> Seq<u8> {
    seq![72, 65, 80, 80, 89]
}

/// The server's reply to an accepted answer: `HAPPY\n`.
pub open spec fn happy_reply() -> Seq<u8> {
    happy_text().push(10)
}

/// The server's reply to a wrong answer: `BAD\n`.
pub open spec fn bad_reply() -> Seq<u8> {
    seq![66, 65, 68, 10]
}

// ---------------------------------------------------------------------------
// The protocol as functions on byte sequences.
/// The challenge: `this-is-the-challenge-{hex(random)}-at-{minutes}-pr-v1`.
pub open spec fn spec_challenge(random_bytes: Seq<u8>, coarse_unix_time: u64) -> Seq<u8> {
    challenge_head() + hex_lower(random_bytes) + challenge_at() + decimal(coarse_unix_time as nat)
        + challenge_tail()
}

/// The server's opening message: the prompt line, then the challenge line.
pub open spec fn spec_challenge_request(challenge: Seq<u8>) -> Seq<u8> {
    prompt_text().push(10) + challenge.push(10)
}

/// The answer that proves knowledge of `psk`: hex SHA-512 of challenge and key.
pub open spec fn spec_expected_response(challenge: Seq<u8>, psk: Seq<u8>) -> Seq<u8> {
    hex_lower(sha512_digest(challenge + psk))
}

/// What the client sends: the expected response and a newline.
pub open spec fn spec_client_response(challenge: Seq<u8>, psk: Seq<u8>) -> Seq<u8> {
    spec_expected_response(challenge, psk).push(10)
}

/// The server's judgement of `response`: it must be UTF-8, and with trailing
/// whitespace trimmed it must equal the expected response.
pub open spec fn spec_check_response(challenge: Seq<u8>, psk: Seq<u8>, response: Seq<u8>) -> ResponseCheck {
    let expected = spec_expected_response(challenge, psk);
    if !valid_utf8(response) {
        ResponseCheck::NotUtf8
    } else if expected.len() <= response.len() && response.subrange(0, expected.len() as int)
        == expected && all_whitespace(response.subrange(expected.len() as int, response.len() as int)) {
        ResponseCheck::Accepted
    } else {
        ResponseCheck::Mismatch
    }
}

/// What the server sends back after judging an answer (nothing when the answer is not UTF-8).
pub open spec fn spec_server_reply(check: ResponseCheck) -> Option<Seq<u8>> {
    match check {
        ResponseCheck::Accepted => Some(happy_reply()),
        ResponseCheck::Mismatch => Some(bad_reply()),
        ResponseCheck::NotUtf8 => None,
    }
}

/// The challenge the client reads from the server's message: the message must be
/// UTF-8, its first line the prompt, and its second line is the challenge.
pub open spec fn spec_parse_prompt(message: Seq<u8>) -> Result<Seq<u8>, AuthError> {
    if !valid_utf8(message) {
        Err(AuthError::NotUtf8)
    } else {
        match next_line(message) {
            Some((first, rest)) => if first == prompt_text() {
                match next_line(rest) {
                    Some((challenge, _)) => Ok(challenge),
                    None => Err(AuthError::MissingChallenge),
                }
            } else {
                Err(AuthError::UnexpectedPrompt)
            },
            None => Err(AuthError::UnexpectedPrompt),
        }
    }
}

/// The client's verdict on the server's final reply.
pub open spec fn spec_reply_outcome(reply: Seq<u8>) -> Result<(), AuthError> {
    if !valid_utf8(reply) {
        Err(AuthError::NotUtf8)
    } else if starts_with(reply, happy_text()) {
        Ok(())
    } else {
        Err(AuthError::ServerRejected)
    }
}

// ---------------------------------------------------------------------------
// Executable steps.
fn prompt_bytes() -> (v: Vec<u8>)
    ensures
        v@ == prompt_text(),
{
    let v: Vec<u8> = vec![
        87, 72, 79, 32, 84, 72, 69, 32, 72, 69, 67, 75, 32, 65, 82,
        69, 32, 89, 79, 85, 63,
    ];
    assert(v@ =~= prompt_text());
    v
}

/// The bytes of `HAPPY\n`, sent after an accepted answer.
pub fn happy_reply_bytes() -> (v: Vec<u8>)
    ensures
        v@ == happy_reply(),
{
    let v: Vec<u8> = vec![72, 65, 80, 80, 89, 10u8];
    assert(v@ =~= happy_reply());
    v
}

/// The bytes of `BAD\n`, sent after a wrong answer.
pub fn bad_reply_bytes() -> (v: Vec<u8>)
    ensures
        v@ == bad_reply(),
{
    let v: Vec<u8> = vec![66, 65, 68, 10u8];
    assert(v@ =~= bad_reply());
    v
}

/// Builds the challenge string from the random bytes and the time in minutes.
pub fn build_challenge(random_bytes: &[u8], coarse_unix_time: u64) -> (challenge: Vec<u8>)
    ensures
        challenge@ == spec_challenge(random_bytes@, coarse_unix_time),
{
    let mut c: Vec<u8> = vec![
        116, 104, 105, 115, 45, 105, 115, 45, 116, 104, 101, 45, 99, 104, 97,
        108, 108, 101, 110, 103, 101, 45,
    ];
    assert(c@ =~= challenge_head());
    let hex = hex_encode(random_bytes);
    extend_bytes(&mut c, hex.as_slice());
    let at: Vec<u8> = vec![45, 97, 116, 45];
    assert(at@ =~= challenge_at());
    extend_bytes(&mut c, at.as_slice());
    let digits = decimal_digits(coarse_unix_time);
    extend_bytes(&mut c, digits.as_slice());
    let tail: Vec<u8> = vec![45, 112, 114, 45, 118, 49];
    assert(tail@ =~= challenge_tail());
    extend_bytes(&mut c, tail.as_slice());
    c
}

/// Builds the server's opening message for `challenge`, refusing one that
/// would be longer than `CHALLENGE_MAX_LEN` bytes.
pub fn build_challenge_request(challenge: &[u8]) -> (request: Result<Vec<u8>, AuthError>)
    ensures
        match request {
            Ok(r) => r@ == spec_challenge_request(challenge@) && r@.len() <= CHALLENGE_MAX_LEN,
            Err(e) => e == AuthError::ChallengeTooLong && spec_challenge_request(challenge@).len()
                > CHALLENGE_MAX_LEN,
        },
{
    if challenge.len() > CHALLENGE_MAX_LEN - 23 {
        return Err(AuthError::ChallengeTooLong);
    }
    let mut r = prompt_bytes();
    r.push(10u8);
    extend_bytes(&mut r, challenge);
    r.push(10u8);
    assert(r@ =~= spec_challenge_request(challenge@));
    Ok(r)
}

/// The challenge and the request that carries it, made from 32 random bytes
/// and the time in minutes. A challenge made this way always fits in the
/// request limit, so there is nothing to refuse.
pub fn challenge_from_random(random_bytes: &[u8], coarse_unix_time: u64) -> (started: (
    Vec<u8>,
    Vec<u8>,
))
    requires
        random_bytes@.len() == CHALLENGE_RANDOM_LEN,
    ensures
        started.0@ == spec_challenge(random_bytes@, coarse_unix_time),
        started.1@ == spec_challenge_request(started.0@),
        started.1@.len() <= CHALLENGE_MAX_LEN,
{
    let challenge = build_challenge(random_bytes, coarse_unix_time);
    proof {
        lemma_challenge_request_fits(random_bytes@, coarse_unix_time);
    }
    let mut request = prompt_bytes();
    request.push(10u8);
    extend_bytes(&mut request, challenge.as_slice());
    request.push(10u8);
    assert(request@ =~= spec_challenge_request(challenge@));
    (challenge, request)
}

/// Starts an authentication on the server side: draws 32 random bytes and
/// builds the challenge and the request that carries it.
///
/// Whether the operating system supplies random bytes is outside the library's
/// control; when it does, the challenge is built from them and always fits,
/// so the only failure is the random source's.
pub fn new_server_challenge(coarse_unix_time: u64) -> (started: Result<(Vec<u8>, Vec<u8>), AuthError>)
    ensures
        match started {
            Ok((challenge, request)) => {
                &&& exists|random: Seq<u8>|
                    random.len() == CHALLENGE_RANDOM_LEN && challenge@ == #[trigger] spec_challenge(
                        random,
                        coarse_unix_time,
                    )
                &&& request@ == spec_challenge_request(challenge@)
                &&& request@.len() <= CHALLENGE_MAX_LEN
            },
            Err(e) => e == AuthError::RandomSourceFailed,
        },
{
    match generate_random_bytes(CHALLENGE_RANDOM_LEN) {
        Ok(random) => Ok(challenge_from_random(random.as_slice(), coarse_unix_time)),
        Err(_) => Err(AuthError::RandomSourceFailed),
    }
}

/// The expected answer for `challenge` under `psk`: 128 lowercase hex digits.
pub fn expected_response(challenge: &[u8], psk: &[u8]) -> (expected: Vec<u8>)
    ensures
        expected@ == spec_expected_response(challenge@, psk@),
        expected@.len() == 128,
{
    let mut data = slice_prefix(challenge, challenge.len());
    assert(data@ =~= challenge@);
    extend_bytes(&mut data, psk);
    let digest = sha512(data.as_slice());
    proof {
        lemma_hex_len(digest@);
    }
    hex_encode(digest.as_slice())
}

/// The server's judgement of the client's answer.
pub fn check_client_response(challenge: &[u8], psk: &[u8], response: &[u8]) -> (check: ResponseCheck)
    ensures
        check == spec_check_response(challenge@, psk@, response@),
{
    if !is_valid_utf8(response) {
        return ResponseCheck::NotUtf8;
    }
    let expected = expected_response(challenge, psk);
    if expected.len() <= response.len() && bytes_start_with(response, expected.as_slice())
        && is_whitespace_from(response, expected.len()) {
        ResponseCheck::Accepted
    } else {
        ResponseCheck::Mismatch
    }
}

/// The outcome of the server's side once it has judged the answer: the reply
/// to send (none for an answer that is not UTF-8) and the result.
pub fn server_verdict(check: ResponseCheck) -> (verdict: (Option<Vec<u8>>, Result<(), AuthError>))
    ensures
        match (verdict.0, spec_server_reply(check)) {
            (Some(sent), Some(spec_sent)) => sent@ == spec_sent,
            (None, None) => true,
            _ => false,
        },
        verdict.1 == match check {
            ResponseCheck::Accepted => Ok(()),
            ResponseCheck::Mismatch => Err(AuthError::ResponseMismatch),
            ResponseCheck::NotUtf8 => Err(AuthError::NotUtf8),
        },
{
    match check {
        ResponseCheck::Accepted => (Some(happy_reply_bytes()), Ok(())),
        ResponseCheck::Mismatch => (Some(bad_reply_bytes()), Err(AuthError::ResponseMismatch)),
        ResponseCheck::NotUtf8 => (None, Err(AuthError::NotUtf8)),
    }
}

/// Reads the challenge out of the server's opening message.
pub fn parse_challenge_prompt(message: &[u8]) -> (parsed: Result<Vec<u8>, AuthError>)
    ensures
        match (parsed, spec_parse_prompt(message@)) {
            (Ok(c), Ok(spec_c)) => c@ == spec_c,
            (Err(e), Err(spec_e)) => e == spec_e,
            _ => false,
        },
{
    if !is_valid_utf8(message) {
        return Err(AuthError::NotUtf8);
    }
    match split_first_line(message) {
        None => Err(AuthError::UnexpectedPrompt),
        Some((first, rest_start)) => {
            let prompt = prompt_bytes();
            if !bytes_equal(first.as_slice(), prompt.as_slice()) {
                return Err(AuthError::UnexpectedPrompt);
            }
            let rest = slice_range(message, rest_start, message.len());
            match split_first_line(rest.as_slice()) {
                None => Err(AuthError::MissingChallenge),
                Some((challenge, _)) => Ok(challenge),
            }
        },
    }
}

/// What the client sends for `challenge` under `psk`: the expected response and a newline.
pub fn client_response(challenge: &[u8], psk: &[u8]) -> (response: Vec<u8>)
    ensures
        response@ == spec_client_response(challenge@, psk@),
        response@.len() == RESPONSE_LEN,
{
    let mut r = expected_response(challenge, psk);
    r.push(10u8);
    r
}

/// The client's answer to the server's opening message.
pub fn respond_to_challenge(message: &[u8], psk: &[u8]) -> (answer: Result<Vec<u8>, AuthError>)
    ensures
        match (answer, spec_parse_prompt(message@)) {
            (Ok(a), Ok(c)) => a@ == spec_client_response(c, psk@),
            (Err(e), Err(spec_e)) => e == spec_e,
            _ => false,
        },
        answer matches Ok(a) ==> a@.len() == RESPONSE_LEN,
{
    match parse_challenge_prompt(message) {
        Ok(challenge) => Ok(client_response(challenge.as_slice(), psk)),
        Err(e) => Err(e),
    }
}

/// The client's verdict on the server's final reply: success iff it is UTF-8
/// and starts with `HAPPY`.
pub fn check_server_reply(reply: &[u8]) -> (outcome: Result<(), AuthError>)
    ensures
        outcome == spec_reply_outcome(reply@),
{
    if !is_valid_utf8(reply) {
        return Err(AuthError::NotUtf8);
    }
    let happy: Vec<u8> = vec![72, 65, 80, 80, 89];
    assert(happy@ =~= happy_text());
    if bytes_start_with(reply, happy.as_slice()) {
        Ok(())
    } else {
        Err(AuthError::ServerRejected)
    }
}

// ---------------------------------------------------------------------------
// Laws of the exchange.
/// A challenge made from 32 random bytes always fits in the request limit,
/// so starting an authentication can only fail for want of randomness.
pub proof fn lemma_challenge_request_fits(random_bytes: Seq<u8>, coarse_unix_time: u64)
    requires
        random_bytes.len() == CHALLENGE_RANDOM_LEN,
    ensures
        spec_challenge_request(spec_challenge(random_bytes, coarse_unix_time)).len()
            <= CHALLENGE_MAX_LEN,
{
    lemma_hex_len(random_bytes);
    lemma_decimal_len_u64(coarse_unix_time);
}

/// A challenge carries the whole time it was made with: after
/// `this-is-the-challenge-` and the hex of the random bytes comes `-at-`, then
/// decimal digits that read back as exactly the time given, then `-pr-v1`.
pub proof fn lemma_challenge_time_field(random_bytes: Seq<u8>, coarse_unix_time: u64)
    ensures
        ({
            let c = spec_challenge(random_bytes, coarse_unix_time);
            let start: int = 22 + 2 * random_bytes.len() as int + 4;
            &&& start + 7 <= c.len()
            &&& c.subrange(0, 22) == seq![
                116u8, 104, 105, 115, 45, 105, 115, 45, 116, 104, 101, 45, 99, 104, 97,
                108, 108, 101, 110, 103, 101, 45,
            ]
            &&& c.subrange(22, start - 4) == hex_lower(random_bytes)
            &&& c.subrange(start - 4, start) == seq![45u8, 97, 116, 45]
            &&& c.subrange(c.len() - 6, c.len() as int) == seq![45u8, 112, 114, 45, 118, 49]
            &&& forall|i: int| start <= i < c.len() - 6 ==> 48 <= #[trigger] c[i] <= 57
            &&& decimal_value(c.subrange(start, c.len() - 6)) == coarse_unix_time as nat
        }),
{
    let c = spec_challenge(random_bytes, coarse_unix_time);
    let h = hex_lower(random_bytes);
    let d = decimal(coarse_unix_time as nat);
    lemma_hex_len(random_bytes);
    lemma_decimal_chars(coarse_unix_time as nat);
    lemma_decimal_value(coarse_unix_time as nat);
    let start: int = 22 + 2 * random_bytes.len() as int + 4;
    assert(d.len() >= 1);
    assert(c.len() == start + d.len() + 6);
    assert(c.subrange(0, 22) =~= challenge_head());
    assert(c.subrange(22, start - 4) =~= h);
    assert(c.subrange(start - 4, start) =~= challenge_at());
    assert(c.subrange(c.len() - 6, c.len() as int) =~= challenge_tail());
    assert(c.subrange(start, c.len() - 6) =~= d);
    assert forall|i: int| start <= i < c.len() - 6 implies 48 <= #[trigger] c[i] <= 57 by {
        assert(c[i] == d[i - start]);
    }
}

/// Every byte of a challenge is a letter, a digit or `-`: in particular it is
/// ASCII and holds no line break.
proof fn lemma_challenge_plain(random_bytes: Seq<u8>, coarse_unix_time: u64)
    ensures
        forall|i: int|
            0 <= i < spec_challenge(random_bytes, coarse_unix_time).len() ==> {
                let b = #[trigger] spec_challenge(random_bytes, coarse_unix_time)[i];
                &&& b < 128
                &&& b != 10
                &&& b != 13
            },
        spec_challenge(random_bytes, coarse_unix_time).len() > 0,
        spec_challenge(random_bytes, coarse_unix_time).last() == 49u8,
{
    let h = hex_lower(random_bytes);
    let d = decimal(coarse_unix_time as nat);
    lemma_hex_chars(random_bytes);
    lemma_decimal_chars(coarse_unix_time as nat);
    let c = spec_challenge(random_bytes, coarse_unix_time);
    let p1 = challenge_head();
    let p2 = p1 + h;
    let p3 = p2 + challenge_at();
    let p4 = p3 + d;
    assert(c == p4 + challenge_tail());
    assert forall|i: int| 0 <= i < c.len() implies {
        let b = #[trigger] c[i];
        &&& b < 128
        &&& b != 10
        &&& b != 13
    } by {
        if i < p1.len() {
            assert(c[i] == p1[i]);
        } else if i < p2.len() {
            assert(c[i] == h[i - p1.len()]);
            assert(is_hex_char(h[i - p1.len()]));
        } else if i < p3.len() {
            assert(c[i] == challenge_at()[i - p2.len()]);
        } else if i < p4.len() {
            assert(c[i] == d[i - p3.len()]);
        } else {
            assert(c[i] == challenge_tail()[i - p4.len()]);
        }
    }
}

/// The expected response is ASCII hex with no whitespace in it.
proof fn lemma_expected_response_hex(challenge: Seq<u8>, psk: Seq<u8>)
    ensures
        forall|i: int|
            0 <= i < spec_expected_response(challenge, psk).len() ==> is_hex_char(
                #[trigger] spec_expected_response(challenge, psk)[i],
            ),
{
    lemma_hex_chars(sha512_digest(challenge + psk));
}

/// An honest run succeeds: for any challenge the server makes and any key,
/// the client reads the challenge back out of the server's request, and the
/// answer it computes with the same key is accepted, so the server replies
/// `HAPPY`, which the client takes as success.
pub proof fn lemma_honest_exchange_succeeds(
    random_bytes: Seq<u8>,
    coarse_unix_time: u64,
    psk: Seq<u8>,
)
    ensures
        spec_parse_prompt(spec_challenge_request(spec_challenge(random_bytes, coarse_unix_time)))
            == Ok::<Seq<u8>, AuthError>(spec_challenge(random_bytes, coarse_unix_time)),
        spec_check_response(
            spec_challenge(random_bytes, coarse_unix_time),
            psk,
            spec_client_response(spec_challenge(random_bytes, coarse_unix_time), psk),
        ) == ResponseCheck::Accepted,
        spec_server_reply(ResponseCheck::Accepted) == Some(happy_reply()),
        spec_reply_outcome(happy_reply()) == Ok::<(), AuthError>(()),
{
    let c = spec_challenge(random_bytes, coarse_unix_time);
    lemma_challenge_plain(random_bytes, coarse_unix_time);
    let request = spec_challenge_request(c);
    // The request is ASCII, hence UTF-8.
    assert(is_ascii_bytes(request)) by {
        assert forall|i: int| 0 <= i < request.len() implies #[trigger] request[i] < 128 by {
            if i < 22 {
                assert(request[i] == prompt_text().push(10)[i]);
            } else {
                assert(request[i] == c.push(10)[i - 22]);
            }
        }
    }
    lemma_ascii_valid_utf8(request);
    assert(forall|i: int| 0 <= i < prompt_text().len() ==> #[trigger] prompt_text()[i] != 10);
    lemma_next_line_of(prompt_text(), c.push(10));
    lemma_next_line_of(c, Seq::<u8>::empty());
    assert(c.push(10) + Seq::<u8>::empty() =~= c.push(10));
    // The client's answer is accepted.
    let e = spec_expected_response(c, psk);
    let r = spec_client_response(c, psk);
    lemma_expected_response_hex(c, psk);
    assert(is_ascii_bytes(r)) by {
        assert forall|i: int| 0 <= i < r.len() implies #[trigger] r[i] < 128 by {
            if i < e.len() {
                assert(r[i] == e[i]);
                assert(is_hex_char(e[i]));
            }
        }
    }
    lemma_ascii_valid_utf8(r);
    assert(r.subrange(0, e.len() as int) =~= e);
    assert(r.subrange(e.len() as int, r.len() as int) =~= seq![10u8]);
    lemma_newline_is_whitespace();
    // The client accepts `HAPPY\n`.
    let h = happy_reply();
    assert(is_ascii_bytes(h));
    lemma_ascii_valid_utf8(h);
    assert(h.subrange(0, 5) =~= happy_text());
}

/// A byte that hex encoding produces is not whitespace.
proof fn lemma_hex_char_not_whitespace(s: Seq<u8>)
    requires
        s.len() > 0,
        is_hex_char(s[0]),
    ensures
        whitespace_len(s) == 0,
{
}

/// Authentication binds the key: an answer computed with `client_psk` is
/// accepted by a server holding `server_psk` exactly when the SHA-512 digests
/// of the challenge under both keys coincide. In particular, a client with a
/// different key gets in only through a SHA-512 collision.
pub proof fn lemma_answer_accepted_iff_digests_agree(
    challenge: Seq<u8>,
    server_psk: Seq<u8>,
    client_psk: Seq<u8>,
)
    ensures
        (spec_check_response(challenge, server_psk, spec_client_response(challenge, client_psk))
            == ResponseCheck::Accepted) <==> (sha512_digest(challenge + server_psk)
            == sha512_digest(challenge + client_psk)),
        spec_check_response(challenge, server_psk, spec_client_response(challenge, client_psk))
            != ResponseCheck::NotUtf8,
{
    let es = spec_expected_response(challenge, server_psk);
    let ec = spec_expected_response(challenge, client_psk);
    let r = spec_client_response(challenge, client_psk);
    lemma_expected_response_hex(challenge, server_psk);
    lemma_expected_response_hex(challenge, client_psk);
    assert(is_ascii_bytes(r)) by {
        assert forall|i: int| 0 <= i < r.len() implies #[trigger] r[i] < 128 by {
            if i < ec.len() {
                assert(r[i] == ec[i]);
                assert(is_hex_char(ec[i]));
            }
        }
    }
    lemma_ascii_valid_utf8(r);
    if sha512_digest(challenge + server_psk) == sha512_digest(challenge + client_psk) {
        assert(r.subrange(0, es.len() as int) =~= es);
        assert(r.subrange(es.len() as int, r.len() as int) =~= seq![10u8]);
        lemma_newline_is_whitespace();
    } else {
        if spec_check_response(challenge, server_psk, r) == ResponseCheck::Accepted {
            let tail = r.subrange(es.len() as int, r.len() as int);
            assert(es.len() <= r.len());
            assert(r.subrange(0, es.len() as int) == es);
            if es.len() < ec.len() {
                assert(tail[0] == r[es.len() as int]);
                assert(r[es.len() as int] == ec[es.len() as int]);
                assert(is_hex_char(ec[es.len() as int]));
                lemma_hex_char_not_whitespace(tail);
                assert(!all_whitespace(tail));
            } else if es.len() == ec.len() {
                assert(es =~= ec);
                lemma_hex_injective(sha512_digest(challenge + server_psk), sha512_digest(challenge + client_psk));
            } else {
                let last = es.len() - 1;
                assert(es.len() == r.len());
                assert(es[last] == r[last]);
                assert(r[last] == 10);
                assert(is_hex_char(es[last]));
            }
        }
    }
}

/// A refused answer reaches the client as a refusal: the server replies
/// `BAD`, and the client reports that the server rejected it.
pub proof fn lemma_refusal_reaches_client()
    ensures
        spec_server_reply(ResponseCheck::Mismatch) == Some(bad_reply()),
        spec_reply_outcome(bad_reply()) == Err::<(), AuthError>(AuthError::ServerRejected),
{
    let b = bad_reply();
    assert(is_ascii_bytes(b));
    lemma_ascii_valid_utf8(b);
}

/// The text that reports each failed authentication step.
pub open spec fn auth_error_text(e: AuthError) -> Seq<char> {
    match e {
        AuthError::ChallengeTooLong => "Challenge string exceeds maximum length"@,
        AuthError::NotUtf8 => "authentication message is not valid UTF-8"@,
        AuthError::UnexpectedPrompt => "Unexpected authentication prompt"@,
        AuthError::MissingChallenge => "Missing challenge in authentication message"@,
        AuthError::ResponseMismatch => "Authentication failed: response mismatch"@,
        AuthError::ServerRejected => "Server rejected authentication"@,
        AuthError::RandomSourceFailed => "failed to get random bytes"@,
    }
}

impl AuthError {
    /// The text that reports this failure.
    pub fn message(&self) -> (text: &'static str)
        ensures
            text@ == auth_error_text(*self),
    {
        match self {
            AuthError::ChallengeTooLong => "Challenge string exceeds maximum length",
            AuthError::NotUtf8 => "authentication message is not valid UTF-8",
            AuthError::UnexpectedPrompt => "Unexpected authentication prompt",
            AuthError::MissingChallenge => "Missing challenge in authentication message",
            AuthError::ResponseMismatch => "Authentication failed: response mismatch",
            AuthError::ServerRejected => "Server rejected authentication",
            AuthError::RandomSourceFailed => "failed to get random bytes",
        }
    }
}

} // verus!
