//! Webhooks: endpoint validation, payload signing and verification, and the
//! retry schedule of deliveries.
use crate::api_error::ApiError;
use crate::text::{is_prefix, starts_with, decimal};
use hmac::{Hmac, Mac};
use sha2::{Digest, Sha256};
use vstd::prelude::*;
use vstd::string::StringSliceAdditionalSpecFns;

verus! {

/// What HMAC-SHA256 of `message` under `key` is.
pub uninterp spec fn spec_hmac_sha256(key: Seq<u8>, message: Seq<u8>) -> Seq<u8>;

/// What SHA-256 of `data` is.
pub uninterp spec fn spec_sha256(data: Seq<u8>) -> Seq<u8>;

/// `Hmac::<Sha256>::new_from_slice(key)`, `update(message)`, `finalize()`:
/// the 32-byte HMAC-SHA256 tag. The constructor accepts keys of any length.
#[verifier::external_body]
fn hmac_sha256(key: &[u8], message: &[u8]) -> (tag: Vec<u8>)
    ensures
        tag@ == spec_hmac_sha256(key@, message@),
        tag@.len() == 32,
{
    let mut mac = <Hmac<Sha256> as Mac>::new_from_slice(key).expect("HMAC accepts any key length");
    mac.update(message);
    mac.finalize().into_bytes().to_vec()
}

/// `Hmac::<Sha256>` over `message` under `key`, then `verify_slice(tag)`: the
/// check succeeds exactly when `tag` is the whole tag (constant-time compare).
#[verifier::external_body]
fn hmac_sha256_verify(key: &[u8], message: &[u8], tag: &[u8]) -> (ok: bool)
    ensures
        ok == (tag@ == spec_hmac_sha256(key@, message@)),
{
    let mut mac = <Hmac<Sha256> as Mac>::new_from_slice(key).expect("HMAC accepts any key length");
    mac.update(message);
    mac.verify_slice(tag).is_ok()
}

/// `Sha256::new()`, `update(data)`, `finalize()`: the 32-byte digest.
#[verifier::external_body]
fn sha256_digest(data: &[u8]) -> (digest: Vec<u8>)
    ensures
        digest@ == spec_sha256(data@),
        digest@.len() == 32,
{
    let mut hasher = Sha256::new();
    hasher.update(data);
    hasher.finalize().to_vec()
}

/// The ASCII code of the lowercase hex digit for `n` (0 ≤ n < 16).
pub open spec fn hex_digit(n: int) -> u8 {
    if n < 10 {
        (48 + n) as u8
    } else {
        (87 + n) as u8
    }
}

/// Lowercase hex encoding, two digits per byte, high nibble first.
pub open spec fn hex_lower_bytes(b: Seq<u8>) -> Seq<u8>
    decreases b.len(),
{
    if b.len() == 0 {
        seq![]
    } else {
        seq![hex_digit((b[0] / 16) as int), hex_digit((b[0] % 16) as int)] + hex_lower_bytes(b.drop_first())
    }
}

/// Lowercase hex encoding as text.
pub open spec fn hex_lower(b: Seq<u8>) -> Seq<char> {
    hex_lower_bytes(b).map_values(|x: u8| x as char)
}

/// The value of a hex digit in either case.
pub open spec fn hex_value(c: u8) -> Option<int> {
    if 48 <= c <= 57 {
        Some(c - 48)
    } else if 97 <= c <= 102 {
        Some(c - 87)
    } else if 65 <= c <= 70 {
        Some(c - 55)
    } else {
        None
    }
}

/// Hex decoding: defined for an even number of hex digits, two per byte.
pub open spec fn hex_decode_bytes(t: Seq<u8>) -> Option<Seq<u8>>
    decreases t.len(),
{
    if t.len() == 0 {
        Some(seq![])
    } else if t.len() == 1 {
        None
    } else {
        match (hex_value(t[0]), hex_value(t[1]), hex_decode_bytes(t.subrange(2, t.len() as int))) {
            (Some(h), Some(l), Some(rest)) => Some(seq![(h * 16 + l) as u8] + rest),
            _ => None,
        }
    }
}

/// `hex::encode`: lowercase hex, two digits per byte.
#[verifier::external_body]
fn hex_encode(data: &[u8]) -> (text: String)
    ensures
        text@ == hex_lower(data@),
{
    hex::encode(data)
}

/// `hex::decode` of the text's bytes: `None` for an odd length or a byte that
/// is not a hex digit.
#[verifier::external_body]
fn hex_decode(text: &str) -> (bytes: Option<Vec<u8>>)
    ensures
        match bytes {
            Some(v) => hex_decode_bytes(text.spec_bytes()) == Some(v@),
            None => hex_decode_bytes(text.spec_bytes()) is None,
        },
{
    hex::decode(text).ok()
}

proof fn lemma_hex_digit_value(n: int)
    requires
        0 <= n < 16,
    ensures
        hex_value(hex_digit(n)) == Some(n),
        hex_digit(n) < 128,
{
}

/// Decoding the lowercase hex of `b` gives `b` back.
pub proof fn lemma_hex_roundtrip(b: Seq<u8>)
    ensures
        hex_decode_bytes(hex_lower_bytes(b)) == Some(b),
        hex_lower_bytes(b).len() == 2 * b.len(),
        forall|i: int| 0 <= i < hex_lower_bytes(b).len() ==> #[trigger] hex_lower_bytes(b)[i] < 128,
    decreases b.len(),
{
    if b.len() > 0 {
        let h = b[0] / 16;
        let l = b[0] % 16;
        lemma_hex_digit_value(h as int);
        lemma_hex_digit_value(l as int);
        lemma_hex_roundtrip(b.drop_first());
        let t = hex_lower_bytes(b);
        assert(t.subrange(2, t.len() as int) =~= hex_lower_bytes(b.drop_first()));
        assert(seq![(h * 16 + l) as u8] + b.drop_first() =~= b);
        assert forall|i: int| 0 <= i < t.len() implies #[trigger] t[i] < 128 by {
            if i >= 2 {
                assert(t[i] == hex_lower_bytes(b.drop_first())[i - 2]);
            }
        }
    }
}

/// The bytes of a text that reads as the lowercase hex of `b` are that hex.
proof fn lemma_hex_text_bytes(s: &str, b: Seq<u8>)
    requires
        s@ == hex_lower(b),
    ensures
        s.spec_bytes() == hex_lower_bytes(b),
{
    lemma_hex_roundtrip(b);
    let t = hex_lower_bytes(b);
    assert(vstd::string::is_ascii(s)) by {
        assert forall|i: int| 0 <= i < s@.len() implies '\0' <= #[trigger] s@[i] <= '\u{7f}' by {
            assert(s@[i] == t[i] as char);
            assert(t[i] < 128);
        }
    }
    vstd::string::is_ascii_spec_bytes(s);
    assert forall|i: int| 0 <= i < t.len() implies #[trigger] s.spec_bytes()[i] == t[i] by {
        assert(s@[i] == t[i] as char);
    }
    assert(s.spec_bytes() =~= t);
}

/// Registration of a webhook endpoint.
pub struct RegisterWebhookRequest {
    pub merchant_id: String,
    pub url: String,
    pub secret: String,
    pub events: Vec<String>,
}

/// Most delivery attempts before a delivery is given up (`exhausted`).
pub const MAX_ATTEMPTS: i32 = 5;

/// The delay in slot `i` of the backoff table (slots from 0): 10 s, 30 s,
/// 5 min, 30 min, 2 h.
pub open spec fn backoff_secs_spec(i: int) -> i64 {
    if i == 0 {
        10
    } else if i == 1 {
        30
    } else if i == 2 {
        300
    } else if i == 3 {
        1800
    } else {
        7200
    }
}

/// What happens to a delivery after a failed attempt.
#[derive(Debug, Clone, Copy, PartialEq, Eq, Structural)]
pub enum RetryPlan {
    /// No attempts are left: the delivery is marked `exhausted`.
    Exhausted,
    /// The delivery goes back to `pending`, due after this many seconds.
    RetryAfter(i64),
}

/// The slot of the backoff table used after failed attempt number `attempt`
/// (attempts count from 1): the first retry waits the first delay, the k-th
/// retry the k-th; a count outside 1..=4 uses the last slot.
pub open spec fn backoff_slot(attempt: int) -> int {
    if 1 <= attempt <= 4 {
        attempt - 1
    } else {
        4
    }
}

/// How an attempt went, as the HTTP client reports it.
pub enum AttemptResult {
    /// A response arrived; `success` tells whether its status is 2xx.
    Response { status: u16, success: bool },
    /// No response: the transport failed with this message.
    TransportError(String),
}

/// The record update that follows an attempt.
pub enum DeliveryUpdate {
    /// Mark `delivered` with the response status.
    Delivered { response_status: i32 },
    /// Record the error and response status, then follow the plan.
    Failed { error_message: String, response_status: Option<i32>, plan: RetryPlan },
}

/// The retry schedule: after failed attempts 1 to 4 the delivery is retried
/// after 10 s, 30 s, 5 min and 30 min in turn; every attempt below the maximum
/// waits between 10 s and 2 h, later attempts never wait less than earlier
/// ones, and from the fifth attempt on the delivery is given up.
pub proof fn lemma_retry_schedule(a: int, b: int)
    ensures
        WebhookService::retry_plan_spec(1) == RetryPlan::RetryAfter(10),
        WebhookService::retry_plan_spec(2) == RetryPlan::RetryAfter(30),
        WebhookService::retry_plan_spec(3) == RetryPlan::RetryAfter(300),
        WebhookService::retry_plan_spec(4) == RetryPlan::RetryAfter(1800),
        1 <= a < MAX_ATTEMPTS ==> WebhookService::retry_plan_spec(a) == RetryPlan::RetryAfter(
            backoff_secs_spec(a - 1),
        ),
        a >= MAX_ATTEMPTS ==> WebhookService::retry_plan_spec(a) == RetryPlan::Exhausted,
        a < MAX_ATTEMPTS ==> (WebhookService::retry_plan_spec(a) matches RetryPlan::RetryAfter(d) && 10 <= d
            <= 7200),
        1 <= a <= b < MAX_ATTEMPTS ==> backoff_secs_spec(backoff_slot(a)) <= backoff_secs_spec(
            backoff_slot(b),
        ),
{
}

/// The signature of `body` under `secret`: the lowercase hex of the
/// HMAC-SHA256 tag of the body's bytes keyed with the secret's bytes.
pub open spec fn payload_signature(body: &str, secret: &str) -> Seq<char> {
    hex_lower(spec_hmac_sha256(secret.spec_bytes(), body.spec_bytes()))
}

/// A payload signed with a secret verifies with that secret: the signature
/// text is all ASCII, its bytes are the hex of the tag, and they decode back
/// to the tag itself, so both the text check and the constant-time tag check
/// of `verify_signature` accept what `sign_payload` produced.
pub proof fn lemma_signed_payload_verifies(body: &str, secret: &str)
    ensures
        ({
            let tag = spec_hmac_sha256(secret.spec_bytes(), body.spec_bytes());
            &&& payload_signature(body, secret) == hex_lower_bytes(tag).map_values(|x: u8| x as char)
            &&& hex_decode_bytes(hex_lower_bytes(tag)) == Some(tag)
            &&& forall|i: int| 0 <= i < hex_lower_bytes(tag).len() ==> #[trigger] hex_lower_bytes(tag)[i] < 128
        }),
{
    lemma_hex_roundtrip(spec_hmac_sha256(secret.spec_bytes(), body.spec_bytes()));
}

/// The webhook service's computations; the database and HTTP work around
/// them belong to the host.
pub struct WebhookService;

impl WebhookService {
    /// Compute `HMAC-SHA256(secret, body)` and return it as lowercase hex.
    pub fn sign_payload(body: &str, secret: &str) -> (sig: String)
        ensures
            sig@ == payload_signature(body, secret),
    {
        let tag = hmac_sha256(secret.as_bytes(), body.as_bytes());
        hex_encode(tag.as_slice())
    }

    /// Verify an incoming webhook signature: it must be the lowercase hex of
    /// the HMAC-SHA256 tag of `body` under `secret` (checked in constant time
    /// on the decoded bytes, and as text).
    pub fn verify_signature(body: &str, secret: &str, provided_sig: &str) -> (ok: bool)
        ensures
            ok == (provided_sig@ == payload_signature(body, secret)),
    {
        let expected = Self::sign_payload(body, secret);
        let provided_bytes: Vec<u8> = match hex_decode(provided_sig) {
            Some(b) => b,
            None => Vec::new(),
        };
        let mac_ok = hmac_sha256_verify(secret.as_bytes(), body.as_bytes(), provided_bytes.as_slice());
        let provided = String::from_str(provided_sig);
        let text_ok = expected == provided;
        proof {
            let h = spec_hmac_sha256(secret.spec_bytes(), body.spec_bytes());
            if provided_sig@ == hex_lower(h) {
                lemma_hex_text_bytes(provided_sig, h);
                lemma_hex_roundtrip(h);
            }
        }
        mac_ok && text_ok
    }

    /// The stored form of an endpoint secret: lowercase hex of its SHA-256,
    /// so the plaintext is never persisted.
    pub fn hash_secret(secret: &str) -> (hashed: String)
        ensures
            hashed@ == hex_lower(spec_sha256(secret.spec_bytes())),
    {
        let digest = sha256_digest(secret.as_bytes());
        hex_encode(digest.as_slice())
    }

    /// Webhook URLs must use the http or https scheme.
    pub fn validate_url(url: &str) -> (r: Result<(), ApiError>)
        ensures
            r is Ok <==> (is_prefix("https://"@, url@) || is_prefix("http://"@, url@)),
            r matches Err(e) ==> e matches ApiError::Validation(m) && m@ == "Webhook URL must be http(s)"@,
    {
        if !starts_with(url, "https://") && !starts_with(url, "http://") {
            return Err(ApiError::Validation(String::from_str("Webhook URL must be http(s)")));
        }
        Ok(())
    }

    /// Deleting an endpoint that matched no row is reported as not found.
    pub fn check_deleted(rows_deleted: u64) -> (r: Result<(), ApiError>)
        ensures
            r is Ok <==> rows_deleted != 0,
            r matches Err(e) ==> e matches ApiError::NotFound(m) && m@ == "Webhook endpoint not found"@,
    {
        if rows_deleted == 0 {
            return Err(ApiError::NotFound(String::from_str("Webhook endpoint not found")));
        }
        Ok(())
    }

    /// The backoff in seconds before the next try, indexed by slot.
    pub fn backoff_secs(slot: usize) -> (secs: i64)
        ensures
            secs == backoff_secs_spec(slot as int),
    {
        match slot {
            0 => 10,
            1 => 30,
            2 => 300,
            3 => 1800,
            _ => 7200,
        }
    }

    /// After failed attempt number `attempt` (counted from 1): give up once
    /// `MAX_ATTEMPTS` are used, otherwise retry after the `attempt`-th delay of
    /// the backoff table (10 s after the first failure).
    pub fn retry_plan(attempt: i32) -> (plan: RetryPlan)
        ensures
            attempt >= MAX_ATTEMPTS ==> plan == RetryPlan::Exhausted,
            attempt < MAX_ATTEMPTS ==> plan == RetryPlan::RetryAfter(
                backoff_secs_spec(backoff_slot(attempt as int)),
            ),
    {
        if attempt >= MAX_ATTEMPTS {
            RetryPlan::Exhausted
        } else {
            let slot: usize = if 1 <= attempt && attempt <= 4 {
                (attempt - 1) as usize
            } else {
                4
            };
            RetryPlan::RetryAfter(Self::backoff_secs(slot))
        }
    }

    /// The update after a delivery attempt when `attempt_count` attempts had
    /// been made before it: a 2xx response delivers; any other response or a
    /// transport error is recorded and the delivery retried or given up.
    pub fn attempt_outcome(attempt_count: i32, result: AttemptResult) -> (u: DeliveryUpdate)
        requires
            attempt_count < i32::MAX,
        ensures
            match result {
                AttemptResult::Response { status, success: true } => u == DeliveryUpdate::Delivered {
                    response_status: status as i32,
                },
                AttemptResult::Response { status, success: false } => u matches DeliveryUpdate::Failed {
                    error_message,
                    response_status,
                    plan,
                } && error_message@ == "HTTP "@ + decimal(status as nat) && response_status == Some(
                    status as i32,
                ) && plan == Self::retry_plan_spec(attempt_count + 1),
                AttemptResult::TransportError(msg) => u matches DeliveryUpdate::Failed {
                    error_message,
                    response_status,
                    plan,
                } && error_message == msg && response_status is None && plan == Self::retry_plan_spec(
                    attempt_count + 1,
                ),
            },
    {
        let new_attempt = attempt_count + 1;
        match result {
            AttemptResult::Response { status, success } => {
                if success {
                    DeliveryUpdate::Delivered { response_status: status as i32 }
                } else {
                    let mut message = String::from_str("HTTP ");
                    proof {
                        reveal_strlit("HTTP ");
                    }
                    crate::text::push_decimal(&mut message, status as u64);
                    DeliveryUpdate::Failed {
                        error_message: message,
                        response_status: Some(status as i32),
                        plan: Self::retry_plan(new_attempt),
                    }
                }
            },
            AttemptResult::TransportError(msg) => DeliveryUpdate::Failed {
                error_message: msg,
                response_status: None,
                plan: Self::retry_plan(new_attempt),
            },
        }
    }

    pub open spec fn retry_plan_spec(attempt: int) -> RetryPlan {
        if attempt >= MAX_ATTEMPTS {
            RetryPlan::Exhausted
        } else {
            RetryPlan::RetryAfter(backoff_secs_spec(backoff_slot(attempt)))
        }
    }
}

} // verus!
