//! GitHub webhook signatures: `sha256=` followed by the lowercase hex
//! HMAC-SHA256 of the request body, keyed with the webhook secret.
use hmac::{Hmac, Mac};
use sha2::Sha256;
use vstd::prelude::*;
use vstd::string::StringSliceAdditionalSpecFns;

verus! {

/// The HMAC-SHA256 tag of `message` under `key` (RFC 2104 over SHA-256).
pub uninterp spec fn hmac_sha256(key: Seq<u8>, message: Seq<u8>) -> Seq<u8>;

/// HMAC-SHA256 from the `hmac` and `sha2` crates: `Hmac::<Sha256>::new_from_slice`,
/// `update` and `finalize`. The tag is named by `hmac_sha256` of the key and
/// the message; SHA-256 tags are 32 bytes long. `new_from_slice` accepts keys
/// of every length (longer keys are hashed first), so it never fails here.
#[verifier::external_body]
fn compute_hmac_sha256(key: &[u8], message: &[u8]) -> (tag: Vec<u8>)
    ensures
        tag@ == hmac_sha256(key@, message@),
        tag@.len() == 32,
{
    let mut mac = <Hmac<Sha256> as Mac>::new_from_slice(key).expect("HMAC takes keys of any size");
    mac.update(message);
    mac.finalize().into_bytes().to_vec()
}

/// The lowercase hexadecimal digit for a value below 16.
pub open spec fn hex_digit(v: int) -> u8 {
    if v < 10 {
        (48 + v) as u8
    } else {
        (87 + v) as u8
    }
}

/// Lowercase hexadecimal text of `data`: two digits per byte, high nibble first.
pub open spec fn hex_lower(data: Seq<u8>) -> Seq<u8>
    decreases data.len(),
{
    if data.len() == 0 {
        Seq::empty()
    } else {
        hex_lower(data.drop_last()) + seq![
            hex_digit(data.last() as int / 16),
            hex_digit(data.last() as int % 16),
        ]
    }
}

/// Hex text has two digits per byte, each a digit `0`-`9` or a letter `a`-`f`.
pub proof fn lemma_hex_lower_shape(data: Seq<u8>)
    ensures
        hex_lower(data).len() == 2 * data.len(),
        forall|i: int|
            0 <= i < hex_lower(data).len() ==> {
                let c: u8 = #[trigger] hex_lower(data)[i];
                (48 <= c <= 57) || (97 <= c <= 102)
            },
    decreases data.len(),
{
    if data.len() > 0 {
        lemma_hex_lower_shape(data.drop_last());
        let prev = hex_lower(data.drop_last());
        let hi: int = data.last() as int / 16;
        let lo: int = data.last() as int % 16;
        assert(0 <= hi < 16 && 0 <= lo < 16);
        assert forall|i: int| 0 <= i < hex_lower(data).len() implies {
            let c: u8 = #[trigger] hex_lower(data)[i];
            (48 <= c <= 57) || (97 <= c <= 102)
        } by {
            if i < prev.len() {
                assert(hex_lower(data)[i] == prev[i]);
            }
        }
    }
}

/// Hex text is made byte by byte: the text of `a` followed by that of `b` is
/// the text of `a + b`, and a single byte becomes its high and low nibbles as
/// the characters `0`-`9` (0x30-0x39) and `a`-`f` (0x61-0x66).
pub proof fn lemma_hex_lower_bytewise(a: Seq<u8>, b: Seq<u8>, x: u8)
    ensures
        hex_lower(a + b) == hex_lower(a) + hex_lower(b),
        hex_lower(seq![x]) == seq![
            (if x / 16 < 10 { 48 + x / 16 } else { 87 + x / 16 }) as u8,
            (if x % 16 < 10 { 48 + x % 16 } else { 87 + x % 16 }) as u8,
        ],
    decreases b.len(),
{
    assert(seq![x].drop_last() =~= Seq::<u8>::empty());
    assert(hex_lower(Seq::<u8>::empty()) == Seq::<u8>::empty());
    assert(hex_lower(seq![x]) =~= seq![
        (if x / 16 < 10 { 48 + x / 16 } else { 87 + x / 16 }) as u8,
        (if x % 16 < 10 { 48 + x % 16 } else { 87 + x % 16 }) as u8,
    ]);
    if b.len() == 0 {
        assert(a + b =~= a);
        assert(hex_lower(a) + hex_lower(b) =~= hex_lower(a));
    } else {
        lemma_hex_lower_bytewise(a, b.drop_last(), x);
        assert((a + b).drop_last() =~= a + b.drop_last());
        assert((a + b).last() == b.last());
        assert(hex_lower(a + b) =~= hex_lower(a) + hex_lower(b));
    }
}

/// `hex::encode`: the lowercase hexadecimal text of `data`, high nibble of
/// each byte first (the crate maps nibbles through `b"0123456789abcdef"`),
/// taken here as the bytes of the returned `String`.
#[verifier::external_body]
fn hex_encode(data: &[u8]) -> (text: Vec<u8>)
    ensures
        text@ == hex_lower(data@),
{
    hex::encode(data).into_bytes()
}

/// The bytes `sha256=`.
pub open spec fn sha256_prefix() -> Seq<u8> {
    seq![115u8, 104, 97, 50, 53, 54, 61]
}

/// The signature header value that GitHub sends with a body whose HMAC-SHA256
/// tag is `tag`.
pub open spec fn signature_for_tag(tag: Seq<u8>) -> Seq<u8> {
    sha256_prefix() + hex_lower(tag)
}

/// The signature header value for `body` delivered with the webhook secret `secret`.
pub open spec fn expected_signature(secret: Seq<u8>, body: Seq<u8>) -> Seq<u8> {
    signature_for_tag(hmac_sha256(secret, body))
}

/// Whether `signature` is the header value that goes with the HMAC tag `tag`.
pub fn signature_matches_tag(signature: &[u8], tag: &[u8]) -> (ok: bool)
    ensures
        ok == (signature@ == signature_for_tag(tag@)),
{
    let hex = hex_encode(tag);
    let mut expected: Vec<u8> = Vec::new();
    expected.push(115u8);
    expected.push(104u8);
    expected.push(97u8);
    expected.push(50u8);
    expected.push(53u8);
    expected.push(54u8);
    expected.push(61u8);
    assert(expected@ =~= sha256_prefix());
    let mut i: usize = 0;
    while i < hex.len()
        invariant
            i <= hex@.len(),
            expected@ =~= sha256_prefix() + hex@.take(i as int),
        decreases hex@.len() - i,
    {
        expected.push(hex[i]);
        assert(hex@.take(i + 1) =~= hex@.take(i as int).push(hex@[i as int]));
        i = i + 1;
    }
    assert(hex@.take(hex@.len() as int) =~= hex@);
    if signature.len() != expected.len() {
        return false;
    }
    // Every byte is compared, whatever the earlier bytes were, so that the time
    // taken does not reveal how long a prefix of the signature is right.
    let mut diff: u8 = 0;
    let mut j: usize = 0;
    while j < expected.len()
        invariant
            signature@.len() == expected@.len(),
            expected@ == signature_for_tag(tag@),
            j <= expected@.len(),
            (diff == 0) == (forall|k: int| 0 <= k < j ==> signature@[k] == expected@[k]),
        decreases expected@.len() - j,
    {
        let a: u8 = signature[j];
        let b: u8 = expected[j];
        let next: u8 = diff | (a ^ b);
        assert((next == 0) == (diff == 0 && a == b)) by (bit_vector)
            requires
                next == diff | (a ^ b),
        ;
        diff = next;
        j = j + 1;
    }
    let same: bool = diff == 0;
    if same {
        assert(signature@ =~= expected@);
    } else {
        assert(signature@ != expected@);
    }
    same
}

/// A signature header value is the bytes `sha256=` followed by the hex text of
/// the tag.
pub proof fn lemma_signature_layout(tag: Seq<u8>)
    ensures
        signature_for_tag(tag).subrange(0, 7) == seq![115u8, 104, 97, 50, 53, 54, 61],
        signature_for_tag(tag).skip(7) == hex_lower(tag),
{
    assert(signature_for_tag(tag).subrange(0, 7) =~= seq![115u8, 104, 97, 50, 53, 54, 61]);
    assert(signature_for_tag(tag).skip(7) =~= hex_lower(tag));
}

/// A signature header value has `sha256=` and two hex digits per tag byte, so
/// the signature of a 32-byte HMAC-SHA256 tag is 71 bytes long.
pub proof fn lemma_signature_length(tag: Seq<u8>)
    ensures
        signature_for_tag(tag).len() == 7 + 2 * tag.len(),
{
    lemma_hex_lower_shape(tag);
}

/// Since HMAC-SHA256 tags are 32 bytes long, every accepted signature is 71
/// bytes long; a signature of any other length is turned away.
pub proof fn lemma_accepted_signature_length(secret: Seq<u8>, body: Seq<u8>, signature: Seq<u8>)
    requires
        hmac_sha256(secret, body).len() == 32,
        signature.len() != 71,
    ensures
        expected_signature(secret, body).len() == 71,
        signature != expected_signature(secret, body),
{
    lemma_signature_length(hmac_sha256(secret, body));
}

/// Whether the signature bytes `signature` sign `body` under the secret bytes `secret`.
pub fn signature_is_valid(signature: &[u8], body: &[u8], secret: &[u8]) -> (ok: bool)
    ensures
        ok == (signature@ == expected_signature(secret@, body@)),
        hmac_sha256(secret@, body@).len() == 32,
{
    let tag = compute_hmac_sha256(secret, body);
    signature_matches_tag(signature, tag.as_slice())
}

/// Whether `signature` is the GitHub signature of `body` under the webhook
/// secret `secret` (both texts taken as their UTF-8 bytes).
pub fn verify_github_signature(signature: &str, body: &[u8], secret: &str) -> (ok: bool)
    ensures
        ok == (signature.spec_bytes() == expected_signature(secret.spec_bytes(), body@)),
        hmac_sha256(secret.spec_bytes(), body@).len() == 32,
{
    signature_is_valid(signature.as_bytes(), body, secret.as_bytes())
}

} // verus!
