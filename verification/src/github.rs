//! Checking a GitHub webhook delivery before it is accepted.
use crate::auth::{opt_bytes, opt_seq};
use crate::headers::{ascii_text, header_is_text, header_text, is_header_text};
use crate::signature::{expected_signature, hmac_sha256, signature_is_valid};
use vstd::prelude::*;
use vstd::string::{is_ascii, StringSliceAdditionalSpecFns};

verus! {

/// Why a request is turned away.
#[derive(PartialEq, Eq, Structural, Debug, Clone, Copy)]
pub enum Rejection {
    /// The GitHub delivery has no `x-hub-signature-256` header.
    MissingSignatureHeader,
    /// No webhook secret is configured, so no signature can be checked.
    SecretNotConfigured,
    /// The signature header cannot be read as text.
    InvalidSignatureHeader,
    /// The signature does not match the body and the secret.
    InvalidSignature,
    /// The body is not JSON.
    InvalidJsonPayload,
    /// The bearer token is missing or wrong.
    InvalidToken,
}

/// The HTTP status code that goes with a rejection.
pub open spec fn rejection_status(r: Rejection) -> u16 {
    match r {
        Rejection::MissingSignatureHeader => 400,
        Rejection::SecretNotConfigured => 500,
        Rejection::InvalidSignatureHeader => 400,
        Rejection::InvalidSignature => 401,
        Rejection::InvalidJsonPayload => 400,
        Rejection::InvalidToken => 401,
    }
}

/// The response body that goes with a rejection.
pub open spec fn rejection_message(r: Rejection) -> Seq<char> {
    match r {
        Rejection::MissingSignatureHeader => "Missing x-hub-signature-256 header\n"@,
        Rejection::SecretNotConfigured => "Webhook secret not configured\n"@,
        Rejection::InvalidSignatureHeader => "Invalid signature header\n"@,
        Rejection::InvalidSignature => "Invalid webhook signature\n"@,
        Rejection::InvalidJsonPayload => "Invalid JSON payload\n"@,
        Rejection::InvalidToken => "Invalid or missing authorization token"@,
    }
}

impl Rejection {
    /// The HTTP status code of the response.
    pub fn status(&self) -> (code: u16)
        ensures
            code == rejection_status(*self),
    {
        match self {
            Rejection::MissingSignatureHeader => 400,
            Rejection::SecretNotConfigured => 500,
            Rejection::InvalidSignatureHeader => 400,
            Rejection::InvalidSignature => 401,
            Rejection::InvalidJsonPayload => 400,
            Rejection::InvalidToken => 401,
        }
    }

    /// The body of the response.
    pub fn message(&self) -> (text: &'static str)
        ensures
            text@ == rejection_message(*self),
    {
        match self {
            Rejection::MissingSignatureHeader => "Missing x-hub-signature-256 header\n",
            Rejection::SecretNotConfigured => "Webhook secret not configured\n",
            Rejection::InvalidSignatureHeader => "Invalid signature header\n",
            Rejection::InvalidSignature => "Invalid webhook signature\n",
            Rejection::InvalidJsonPayload => "Invalid JSON payload\n",
            Rejection::InvalidToken => "Invalid or missing authorization token",
        }
    }
}

/// The rejection of a GitHub delivery, if any, given its signature header,
/// the configured webhook secret and the body, checked in this order: the
/// header must be present, a secret configured, the header readable as text
/// and equal to the signature of the body under the secret.
pub open spec fn github_rejection(
    signature: Option<Seq<u8>>,
    secret: Option<Seq<u8>>,
    body: Seq<u8>,
) -> Option<Rejection> {
    match signature {
        None => Some(Rejection::MissingSignatureHeader),
        Some(sig) => match secret {
            None => Some(Rejection::SecretNotConfigured),
            Some(key) => if !is_header_text(sig) {
                Some(Rejection::InvalidSignatureHeader)
            } else if sig != expected_signature(key, body) {
                Some(Rejection::InvalidSignature)
            } else {
                None
            },
        },
    }
}

/// A delivery that carries the signature computed from its body with the
/// configured secret is accepted, whatever the secret and the body.
pub proof fn lemma_signed_delivery_accepted(secret: Seq<u8>, body: Seq<u8>)
    ensures
        github_rejection(Some(expected_signature(secret, body)), Some(secret), body) is None,
{
    let sig = expected_signature(secret, body);
    let hex = crate::signature::hex_lower(crate::signature::hmac_sha256(secret, body));
    crate::signature::lemma_hex_lower_shape(crate::signature::hmac_sha256(secret, body));
    assert(is_header_text(sig)) by {
        assert forall|i: int| 0 <= i < sig.len() implies crate::headers::is_visible_ascii(
            #[trigger] sig[i],
        ) by {
            if i >= 7 {
                assert(sig[i] == hex[i - 7]);
            }
        }
    }
}

/// The checks come in a fixed order: a delivery without a signature header is
/// refused as such whatever else holds; with one but no secret configured, for
/// the missing secret; with a secret but an unreadable header, for the header.
pub proof fn lemma_github_check_order(
    signature: Seq<u8>,
    secret: Option<Seq<u8>>,
    key: Seq<u8>,
    body: Seq<u8>,
)
    ensures
        github_rejection(None, secret, body) == Some(Rejection::MissingSignatureHeader),
        github_rejection(Some(signature), None, body) == Some(Rejection::SecretNotConfigured),
        (exists|i: int| 0 <= i < signature.len() && !(32 <= #[trigger] signature[i] <= 126 || signature[i] == 9))
            ==> github_rejection(Some(signature), Some(key), body) == Some(
            Rejection::InvalidSignatureHeader,
        ),
{
    crate::headers::lemma_header_text_bytes(signature);
}

/// A readable signature that is not the one computed from the body with the
/// configured secret is turned away as invalid.
pub proof fn lemma_wrong_signature_rejected(signature: Seq<u8>, secret: Seq<u8>, body: Seq<u8>)
    requires
        is_header_text(signature),
        signature != expected_signature(secret, body),
    ensures
        github_rejection(Some(signature), Some(secret), body) == Some(Rejection::InvalidSignature),
{
}

/// The event type named by the `x-github-event` header: its text, when the
/// header is present and readable as text.
pub open spec fn event_text(header: Option<Seq<u8>>) -> Option<Seq<char>> {
    match header {
        Some(h) => if is_header_text(h) {
            Some(ascii_text(h))
        } else {
            None
        },
        None => None,
    }
}

/// The event type of a delivery whose `x-github-event` header can be read as
/// text is that header's text, whatever its length: one character per byte.
pub proof fn lemma_event_type_is_header_text(header: Seq<u8>)
    requires
        forall|i: int| 0 <= i < header.len() ==> (32 <= #[trigger] header[i] <= 126 || header[i] == 9),
    ensures
        event_text(Some(header)) is Some,
        event_text(Some(header))->Some_0.len() == header.len(),
        forall|i: int|
            0 <= i < header.len() ==> #[trigger] event_text(Some(header))->Some_0[i] as u32
                == header[i] as u32,
{
    crate::headers::lemma_header_text_bytes(header);
    crate::headers::lemma_ascii_text_chars(header);
}

/// The characters of an optional string.
pub open spec fn opt_chars(s: Option<String>) -> Option<Seq<char>> {
    match s {
        Some(t) => Some(t@),
        None => None,
    }
}

/// The event type of a GitHub delivery, read from its `x-github-event` header.
pub fn github_event_type(event_header: Option<&[u8]>) -> (event: Option<String>)
    ensures
        opt_chars(event) == event_text(opt_seq(event_header)),
{
    match event_header {
        Some(h) => header_text(h),
        None => None,
    }
}

/// The JSON value that `body` holds, if it is JSON text (as `serde_json`
/// reads it).
pub uninterp spec fn parsed_json(body: Seq<u8>) -> Option<serde_json::Value>;

/// `body` is JSON text.
pub open spec fn is_json(body: Seq<u8>) -> bool {
    parsed_json(body) is Some
}

/// `serde_json::from_slice::<serde_json::Value>`: the JSON value in `body`,
/// or nothing when `body` is not JSON text. The result depends on the bytes
/// alone and is named by `parsed_json`; the JSON grammar is not written out.
#[verifier::external_body]
fn parse_json(body: &[u8]) -> (payload: Option<serde_json::Value>)
    ensures
        payload == parsed_json(body@),
{
    serde_json::from_slice(body).ok()
}

/// Checks the signature of a GitHub delivery: its `x-hub-signature-256`
/// header, the configured webhook secret and its raw body. When the signature
/// is right, gives the event type named by the `x-github-event` header;
/// otherwise the reason to turn the delivery away.
pub fn check_github_signature(
    signature_header: Option<&[u8]>,
    webhook_secret: Option<&str>,
    event_header: Option<&[u8]>,
    body: &[u8],
) -> (verdict: Result<Option<String>, Rejection>)
    ensures
        match verdict {
            Ok(event) => github_rejection(opt_seq(signature_header), opt_bytes(webhook_secret), body@)
                is None && opt_chars(event) == event_text(opt_seq(event_header)),
            Err(r) => github_rejection(
                opt_seq(signature_header),
                opt_bytes(webhook_secret),
                body@,
            ) == Some(r),
        },
        match (signature_header, webhook_secret) {
            (Some(sig), Some(key)) => is_header_text(sig@) ==> hmac_sha256(
                key.spec_bytes(),
                body@,
            ).len() == 32,
            _ => true,
        },
{
    let signature = match signature_header {
        None => return Err(Rejection::MissingSignatureHeader),
        Some(s) => s,
    };
    let secret = match webhook_secret {
        None => return Err(Rejection::SecretNotConfigured),
        Some(k) => k.as_bytes(),
    };
    if !header_is_text(signature) {
        return Err(Rejection::InvalidSignatureHeader);
    }
    if !signature_is_valid(signature, body, secret) {
        return Err(Rejection::InvalidSignature);
    }
    Ok(github_event_type(event_header))
}

/// The outcome of a correctly signed delivery, given what reading its body as
/// JSON gave: the payload with the event type, or a rejection when the body
/// is not JSON.
pub fn accept_signed_payload(payload: Option<serde_json::Value>, event: Option<String>) -> (verdict:
    Result<(serde_json::Value, Option<String>), Rejection>)
    ensures
        match payload {
            Some(p) => verdict == Ok::<(serde_json::Value, Option<String>), Rejection>((p, event)),
            None => verdict == Err::<(serde_json::Value, Option<String>), Rejection>(
                Rejection::InvalidJsonPayload,
            ),
        },
{
    match payload {
        Some(p) => Ok((p, event)),
        None => Err(Rejection::InvalidJsonPayload),
    }
}

/// Checks a GitHub delivery: its signature (see `check_github_signature`),
/// then that its body is JSON. On success gives the JSON payload and the
/// event type named by the `x-github-event` header; otherwise the reason to
/// turn it away. The body is read as JSON only once the signature is right.
pub fn check_github_webhook(
    signature_header: Option<&[u8]>,
    webhook_secret: Option<&str>,
    event_header: Option<&[u8]>,
    body: &[u8],
) -> (verdict: Result<(serde_json::Value, Option<String>), Rejection>)
    ensures
        match verdict {
            Ok((payload, event)) => github_rejection(
                opt_seq(signature_header),
                opt_bytes(webhook_secret),
                body@,
            ) is None && parsed_json(body@) == Some(payload) && opt_chars(event) == event_text(
                opt_seq(event_header),
            ),
            Err(r) => match github_rejection(
                opt_seq(signature_header),
                opt_bytes(webhook_secret),
                body@,
            ) {
                Some(g) => r == g,
                None => !is_json(body@) && r == Rejection::InvalidJsonPayload,
            },
        },
        match (signature_header, webhook_secret) {
            (Some(sig), Some(key)) => is_header_text(sig@) ==> hmac_sha256(
                key.spec_bytes(),
                body@,
            ).len() == 32,
            _ => true,
        },
{
    let event = match check_github_signature(signature_header, webhook_secret, event_header, body) {
        Ok(e) => e,
        Err(r) => return Err(r),
    };
    let payload = parse_json(body);
    accept_signed_payload(payload, event)
}

/// The label under which an event is counted: its event type, or `unknown`.
pub fn event_label(event_type: &Option<String>) -> (label: String)
    ensures
        label@ == match event_type {
            Some(t) => t@,
            None => "unknown"@,
        },
{
    match event_type {
        Some(t) => t.clone(),
        None => "unknown".to_owned(),
    }
}

/// The JSON text broadcast for an accepted GitHub delivery, given the JSON
/// texts of its payload and of its event type (if known): an object whose
/// members, in key order, are `event_type` (only when the type is known) and
/// `payload`.
pub open spec fn github_broadcast_text(payload: Seq<u8>, event_type: Option<Seq<u8>>) -> Seq<u8> {
    match event_type {
        Some(e) => "{\"event_type\":".spec_bytes() + e + ",\"payload\":".spec_bytes() + payload
            + "}".spec_bytes(),
        None => "{\"payload\":".spec_bytes() + payload + "}".spec_bytes(),
    }
}

/// The broadcast message is `{"payload":` followed by the whole payload text
/// and `}` when the event type is unknown, and `{"event_type":`, the event
/// type's text, `,"payload":`, the whole payload text and `}` when it is known.
pub proof fn lemma_broadcast_holds_whole_payload(payload: Seq<u8>, event_type: Seq<u8>)
    ensures
        github_broadcast_text(payload, None) == seq![123u8, 34, 112, 97, 121, 108, 111, 97, 100, 34, 58]
            + payload + seq![125u8],
        github_broadcast_text(payload, Some(event_type)) == seq![
            123u8, 34, 101, 118, 101, 110, 116, 95, 116, 121, 112, 101, 34, 58
        ] + event_type + seq![44u8, 34, 112, 97, 121, 108, 111, 97, 100, 34, 58] + payload
            + seq![125u8],
{
    reveal_strlit("{\"payload\":");
    reveal_strlit("{\"event_type\":");
    reveal_strlit(",\"payload\":");
    reveal_strlit("}");
    assert(is_ascii("{\"payload\":"));
    assert(is_ascii("{\"event_type\":"));
    assert(is_ascii(",\"payload\":"));
    assert(is_ascii("}"));
    vstd::string::is_ascii_spec_bytes("{\"payload\":");
    vstd::string::is_ascii_spec_bytes("{\"event_type\":");
    vstd::string::is_ascii_spec_bytes(",\"payload\":");
    vstd::string::is_ascii_spec_bytes("}");
    assert("{\"payload\":".spec_bytes() =~= seq![123u8, 34, 112, 97, 121, 108, 111, 97, 100, 34, 58]);
    assert("{\"event_type\":".spec_bytes() =~= seq![
        123u8, 34, 101, 118, 101, 110, 116, 95, 116, 121, 112, 101, 34, 58
    ]);
    assert(",\"payload\":".spec_bytes() =~= seq![44u8, 34, 112, 97, 121, 108, 111, 97, 100, 34, 58]);
    assert("}".spec_bytes() =~= seq![125u8]);
}

/// Appends the bytes of `tail` to `out`.
fn append_bytes(out: &mut Vec<u8>, tail: &[u8])
    ensures
        final(out)@ == old(out)@ + tail@,
{
    let ghost start = out@;
    let mut i: usize = 0;
    while i < tail.len()
        invariant
            i <= tail@.len(),
            out@ == start + tail@.take(i as int),
        decreases tail@.len() - i,
    {
        out.push(tail[i]);
        assert(tail@.take(i + 1) =~= tail@.take(i as int).push(tail@[i as int]));
        i = i + 1;
    }
    assert(tail@.take(tail@.len() as int) =~= tail@);
}

/// Frames the message broadcast to WebSocket clients for an accepted GitHub
/// delivery from the JSON texts of its payload and event type.
pub fn github_broadcast(payload_json: &[u8], event_type_json: Option<&[u8]>) -> (message: Vec<u8>)
    ensures
        message@ == github_broadcast_text(payload_json@, opt_seq(event_type_json)),
{
    let mut out: Vec<u8> = Vec::new();
    match event_type_json {
        Some(e) => {
            append_bytes(&mut out, "{\"event_type\":".as_bytes());
            append_bytes(&mut out, e);
            append_bytes(&mut out, ",\"payload\":".as_bytes());
        },
        None => {
            append_bytes(&mut out, "{\"payload\":".as_bytes());
        },
    }
    append_bytes(&mut out, payload_json);
    append_bytes(&mut out, "}".as_bytes());
    out
}

/// The body of the response to an accepted GitHub delivery.
pub fn github_accepted_message() -> (text: &'static str)
    ensures
        text@ == "GitHub webhook received successfully\n"@,
{
    "GitHub webhook received successfully\n"
}

/// The body of the response to an accepted generic webhook.
pub fn webhook_accepted_message() -> (text: &'static str)
    ensures
        text@ == "Webhook received successfully\n"@,
{
    "Webhook received successfully\n"
}

/// The body of the response to a health check.
pub fn health_message() -> (text: &'static str)
    ensures
        text@ == "Server is running\n"@,
{
    "Server is running\n"
}

} // verus!
