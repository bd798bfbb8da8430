//! Bearer-token authorization of the WebSocket and recent-events endpoints.
use crate::headers::{header_is_text, is_header_text};
use vstd::prelude::*;
use vstd::string::StringSliceAdditionalSpecFns;

verus! {

/// The bytes `Bearer ` (with its trailing space).
pub open spec fn bearer_prefix() -> Seq<u8> {
    seq![66u8, 101, 97, 114, 101, 114, 32]
}

/// `s` begins with `p`.
pub open spec fn starts_with(s: Seq<u8>, p: Seq<u8>) -> bool {
    p.len() <= s.len() && s.subrange(0, p.len() as int) == p
}

/// `s` with every leading repetition of the non-empty pattern `p` removed.
pub open spec fn strip_prefixes(s: Seq<u8>, p: Seq<u8>) -> Seq<u8>
    decreases s.len(),
{
    if p.len() > 0 && starts_with(s, p) {
        strip_prefixes(s.skip(p.len() as int), p)
    } else {
        s
    }
}

/// An ASCII white-space character: tab, line feed, vertical tab, form feed,
/// carriage return or space.
pub open spec fn is_whitespace_byte(b: u8) -> bool {
    (9 <= b && b <= 13) || b == 32
}

/// `s` without its leading white space.
pub open spec fn trim_start(s: Seq<u8>) -> Seq<u8>
    decreases s.len(),
{
    if s.len() > 0 && is_whitespace_byte(s[0]) {
        trim_start(s.drop_first())
    } else {
        s
    }
}

/// `s` without its trailing white space.
pub open spec fn trim_end(s: Seq<u8>) -> Seq<u8>
    decreases s.len(),
{
    if s.len() > 0 && is_whitespace_byte(s.last()) {
        trim_end(s.drop_last())
    } else {
        s
    }
}

/// The token carried by an `Authorization` header value: the header must be
/// readable as text and start with `Bearer `; every leading `Bearer ` is then
/// removed and the rest trimmed of white space.
pub open spec fn bearer_token(header: Seq<u8>) -> Option<Seq<u8>> {
    if is_header_text(header) && starts_with(header, bearer_prefix()) {
        Some(trim_end(trim_start(strip_prefixes(header, bearer_prefix()))))
    } else {
        None
    }
}

/// Whether a request with the `Authorization` header `header` (if any) is let
/// through when the configured client secret is `expected` (if any).
/// Authentication is disabled when no secret is configured, and skipped when
/// the configured secret is empty.
pub open spec fn token_accepted(expected: Option<Seq<u8>>, header: Option<Seq<u8>>) -> bool {
    match expected {
        None => true,
        Some(secret) => secret.len() == 0 || match header {
            None => false,
            Some(h) => bearer_token(h) == Some(secret),
        },
    }
}

/// The UTF-8 bytes of an optional text.
pub open spec fn opt_bytes(s: Option<&str>) -> Option<Seq<u8>> {
    match s {
        None => None,
        Some(t) => Some(t.spec_bytes()),
    }
}

/// The contents of an optional byte slice.
pub open spec fn opt_seq(s: Option<&[u8]>) -> Option<Seq<u8>> {
    match s {
        None => None,
        Some(t) => Some(t@),
    }
}

/// A client that sends the configured secret as `Bearer <secret>` is let
/// through, for every secret of printable ASCII characters and tabs that does
/// not itself begin with `Bearer ` and neither begins nor ends with white space.
pub proof fn lemma_bearer_secret_accepted(secret: Seq<u8>)
    requires
        secret.len() > 0,
        forall|i: int| 0 <= i < secret.len() ==> (32 <= #[trigger] secret[i] <= 126 || secret[i] == 9),
        !(secret.len() >= 7 && secret.subrange(0, 7) == seq![66u8, 101, 97, 114, 101, 114, 32]),
        !(9 <= secret[0] <= 13 || secret[0] == 32),
        !(9 <= secret.last() <= 13 || secret.last() == 32),
    ensures
        token_accepted(Some(secret), Some(seq![66u8, 101, 97, 114, 101, 114, 32] + secret)),
{
    assert(bearer_prefix() =~= seq![66u8, 101, 97, 114, 101, 114, 32]);
    crate::headers::lemma_header_text_bytes(secret);
    let p = bearer_prefix();
    let h = p + secret;
    assert(is_header_text(h)) by {
        assert forall|i: int| 0 <= i < h.len() implies crate::headers::is_visible_ascii(
            #[trigger] h[i],
        ) by {
            if i >= 7 {
                assert(h[i] == secret[i - 7]);
            }
        }
    }
    assert(h.subrange(0, 7) =~= p);
    assert(h.skip(7) =~= secret);
    assert(strip_prefixes(h, p) == strip_prefixes(secret, p));
    assert(trim_start(secret) == secret);
    assert(trim_end(secret) == secret);
}

/// Leading white space is dropped by `trim_start`, whatever follows it.
proof fn lemma_trim_start_skips_whitespace(w: Seq<u8>, s: Seq<u8>)
    requires
        forall|i: int| 0 <= i < w.len() ==> is_whitespace_byte(#[trigger] w[i]),
    ensures
        trim_start(w + s) == trim_start(s),
    decreases w.len(),
{
    if w.len() > 0 {
        assert((w + s).drop_first() =~= w.drop_first() + s);
        lemma_trim_start_skips_whitespace(w.drop_first(), s);
    } else {
        assert(w + s =~= s);
    }
}

/// Trailing white space is dropped by `trim_end`, whatever precedes it.
proof fn lemma_trim_end_skips_whitespace(s: Seq<u8>, w: Seq<u8>)
    requires
        forall|i: int| 0 <= i < w.len() ==> is_whitespace_byte(#[trigger] w[i]),
    ensures
        trim_end(s + w) == trim_end(s),
    decreases w.len(),
{
    if w.len() > 0 {
        assert((s + w).drop_last() =~= s + w.drop_last());
        lemma_trim_end_skips_whitespace(s, w.drop_last());
    } else {
        assert(s + w =~= s);
    }
}

/// Spaces and tabs around the secret after `Bearer ` do not matter: such a
/// header is let through just as `Bearer <secret>` is (unless the secret and
/// the spacing after it themselves begin with `Bearer `, as the secret
/// `Bearer` followed by a space does, which is removed as one more prefix).
pub proof fn lemma_bearer_secret_accepted_with_spacing(secret: Seq<u8>, before: Seq<u8>, after: Seq<u8>)
    requires
        secret.len() > 0,
        forall|i: int| 0 <= i < secret.len() ==> (32 <= #[trigger] secret[i] <= 126 || secret[i] == 9),
        !((secret + after).len() >= 7 && (secret + after).subrange(0, 7) == seq![
            66u8,
            101,
            97,
            114,
            101,
            114,
            32,
        ]),
        !(9 <= secret[0] <= 13 || secret[0] == 32),
        !(9 <= secret.last() <= 13 || secret.last() == 32),
        forall|i: int| 0 <= i < before.len() ==> (#[trigger] before[i] == 32 || before[i] == 9),
        forall|i: int| 0 <= i < after.len() ==> (#[trigger] after[i] == 32 || after[i] == 9),
    ensures
        token_accepted(
            Some(secret),
            Some(seq![66u8, 101, 97, 114, 101, 114, 32] + before + secret + after),
        ),
{
    let p = bearer_prefix();
    assert(p =~= seq![66u8, 101, 97, 114, 101, 114, 32]);
    let rest = before + secret + after;
    let h = p + rest;
    crate::headers::lemma_header_text_bytes(secret);
    assert(is_header_text(h)) by {
        assert forall|i: int| 0 <= i < h.len() implies crate::headers::is_visible_ascii(
            #[trigger] h[i],
        ) by {
            if i >= 7 + before.len() + secret.len() {
                assert(h[i] == after[i - 7 - before.len() - secret.len()]);
            } else if i >= 7 + before.len() {
                assert(h[i] == secret[i - 7 - before.len()]);
            } else if i >= 7 {
                assert(h[i] == before[i - 7]);
            }
        }
    }
    assert(h.subrange(0, 7) =~= p);
    assert(h.skip(7) =~= rest);
    assert(!starts_with(rest, p)) by {
        if before.len() > 0 {
            assert(rest[0] == before[0]);
            if starts_with(rest, p) {
                assert(rest.subrange(0, 7)[0] == p[0]);
            }
        } else {
            assert(rest =~= secret + after);
        }
    }
    assert(strip_prefixes(h, p) == strip_prefixes(rest, p));
    assert(strip_prefixes(rest, p) == rest);
    assert(forall|i: int| 0 <= i < before.len() ==> is_whitespace_byte(#[trigger] before[i]));
    assert(forall|i: int| 0 <= i < after.len() ==> is_whitespace_byte(#[trigger] after[i]));
    lemma_trim_start_skips_whitespace(before, secret + after);
    assert(rest =~= before + (secret + after));
    assert(trim_start(secret + after) == secret + after);
    lemma_trim_end_skips_whitespace(secret, after);
    assert(trim_end(secret) == secret);
    assert(trim_start(rest) == secret + after);
    assert(trim_end(trim_start(strip_prefixes(h, p))) == secret);
    assert(bearer_token(h) == Some(secret));
    assert(seq![66u8, 101, 97, 114, 101, 114, 32] + before + secret + after =~= h);
}

/// `k` copies of `Bearer ` one after the other.
pub open spec fn bearer_repeated(k: nat) -> Seq<u8>
    decreases k,
{
    if k == 0 {
        Seq::empty()
    } else {
        seq![66u8, 101, 97, 114, 101, 114, 32] + bearer_repeated((k - 1) as nat)
    }
}

/// Every leading copy of `Bearer ` is removed before the token is compared,
/// so `Bearer Bearer <secret>` (or any number of copies) is let through like
/// `Bearer <secret>`.
pub proof fn lemma_repeated_bearer_accepted(secret: Seq<u8>, k: nat)
    requires
        k >= 1,
        secret.len() > 0,
        forall|i: int| 0 <= i < secret.len() ==> (32 <= #[trigger] secret[i] <= 126 || secret[i] == 9),
        !(secret.len() >= 7 && secret.subrange(0, 7) == seq![66u8, 101, 97, 114, 101, 114, 32]),
        !(9 <= secret[0] <= 13 || secret[0] == 32),
        !(9 <= secret.last() <= 13 || secret.last() == 32),
    ensures
        token_accepted(Some(secret), Some(bearer_repeated(k) + secret)),
    decreases k,
{
    let p = bearer_prefix();
    assert(p =~= seq![66u8, 101, 97, 114, 101, 114, 32]);
    lemma_bearer_secret_accepted(secret);
    if k > 1 {
        lemma_repeated_bearer_accepted(secret, (k - 1) as nat);
        let tail = bearer_repeated((k - 1) as nat) + secret;
        let h = bearer_repeated(k) + secret;
        assert(h =~= p + tail);
        assert(h.subrange(0, 7) =~= p);
        assert(h.skip(7) =~= tail);
        assert(strip_prefixes(h, p) == strip_prefixes(tail, p));
        assert(is_header_text(h)) by {
            assert forall|i: int| 0 <= i < h.len() implies crate::headers::is_visible_ascii(
                #[trigger] h[i],
            ) by {
                if i >= 7 {
                    assert(h[i] == tail[i - 7]);
                } else {
                    assert(h[i] == p[i]);
                }
            }
        }
    } else {
        assert(bearer_repeated(0) =~= Seq::<u8>::empty());
        assert(bearer_repeated(1) + secret =~= seq![66u8, 101, 97, 114, 101, 114, 32] + secret);
    }
}

/// With a non-empty secret configured, a request without an `Authorization`
/// header, or whose header does not start with `Bearer `, is refused.
pub proof fn lemma_requests_without_bearer_refused(secret: Seq<u8>, header: Seq<u8>)
    requires
        secret.len() > 0,
        !(header.len() >= 7 && header.subrange(0, 7) == seq![66u8, 101, 97, 114, 101, 114, 32]),
    ensures
        !token_accepted(Some(secret), None),
        !token_accepted(Some(secret), Some(header)),
{
    assert(bearer_prefix() =~= seq![66u8, 101, 97, 114, 101, 114, 32]);
}

/// Whether `s` holds `Bearer ` at position `pos`.
fn bearer_at(s: &[u8], pos: usize) -> (r: bool)
    requires
        pos <= s@.len(),
    ensures
        r == starts_with(s@.skip(pos as int), bearer_prefix()),
{
    if s.len() - pos < 7 {
        return false;
    }
    let prefix: [u8; 7] = [66u8, 101, 97, 114, 101, 114, 32];
    assert(prefix@ =~= bearer_prefix());
    assert(s@.skip(pos as int).subrange(0, 7) =~= s@.subrange(pos as int, pos + 7));
    slice_equals(s, pos, pos + 7, prefix.as_slice())
}

/// The bounds `(start, end)` of the bearer token inside a header value that
/// is text and starts with `Bearer `.
fn bearer_token_bounds(h: &[u8]) -> (b: (usize, usize))
    requires
        starts_with(h@, bearer_prefix()),
    ensures
        b.0 <= b.1 <= h@.len(),
        h@.subrange(b.0 as int, b.1 as int) == trim_end(
            trim_start(strip_prefixes(h@, bearer_prefix())),
        ),
{
    let n: usize = h.len();
    let mut pos: usize = 0;
    assert(h@.skip(0) =~= h@);
    loop
        invariant
            n == h@.len(),
            pos <= h@.len(),
            strip_prefixes(h@.skip(pos as int), bearer_prefix()) == strip_prefixes(
                h@,
                bearer_prefix(),
            ),
        ensures
            pos <= h@.len(),
            strip_prefixes(h@, bearer_prefix()) == h@.skip(pos as int),
        decreases h@.len() - pos,
    {
        if !bearer_at(h, pos) {
            assert(strip_prefixes(h@.skip(pos as int), bearer_prefix()) == h@.skip(pos as int));
            break;
        }
        assert(bearer_prefix().len() == 7);
        assert(h@.skip(pos as int).len() == h@.len() - pos);
        assert(h@.skip(pos as int).skip(7) =~= h@.skip(pos + 7));
        pos = pos + 7;
    }
    let ghost stripped = h@.skip(pos as int);
    assert(stripped == strip_prefixes(h@, bearer_prefix()));
    let mut start: usize = pos;
    while start < h.len() && (h[start] == 32u8 || (9u8 <= h[start] && h[start] <= 13u8))
        invariant
            pos <= start <= h@.len(),
            trim_start(h@.skip(start as int)) == trim_start(stripped),
        decreases h@.len() - start,
    {
        assert(h@.skip(start as int).drop_first() =~= h@.skip(start + 1));
        start = start + 1;
    }
    let ghost started = h@.skip(start as int);
    assert(trim_start(started) == started);
    let mut end: usize = h.len();
    assert(h@.subrange(start as int, end as int) =~= started);
    while end > start && (h[end - 1] == 32u8 || (9u8 <= h[end - 1] && h[end - 1] <= 13u8))
        invariant
            start <= end <= h@.len(),
            trim_end(h@.subrange(start as int, end as int)) == trim_end(started),
        decreases end - start,
    {
        assert(h@.subrange(start as int, end as int).drop_last() =~= h@.subrange(
            start as int,
            end - 1,
        ));
        end = end - 1;
    }
    assert(trim_end(h@.subrange(start as int, end as int)) == h@.subrange(start as int, end as int));
    (start, end)
}

/// Whether `a[start..end]` equals `b`.
fn slice_equals(a: &[u8], start: usize, end: usize, b: &[u8]) -> (r: bool)
    requires
        start <= end <= a@.len(),
    ensures
        r == (a@.subrange(start as int, end as int) == b@),
{
    if end - start != b.len() {
        return false;
    }
    let mut i: usize = 0;
    while i < b.len()
        invariant
            end - start == b@.len(),
            start <= end <= a@.len(),
            i <= b@.len(),
            forall|k: int| 0 <= k < i ==> a@[start + k] == b@[k],
        decreases b@.len() - i,
    {
        if a[start + i] != b[i] {
            assert(a@.subrange(start as int, end as int)[i as int] != b@[i as int]);
            return false;
        }
        i = i + 1;
    }
    assert(a@.subrange(start as int, end as int) =~= b@);
    true
}

/// Whether a request carrying the `Authorization` header value `authorization`
/// (if present) may use the protected endpoints, given the configured client
/// secret `expected_token` (if set).
pub fn validate_token(expected_token: Option<&str>, authorization: Option<&[u8]>) -> (ok: bool)
    ensures
        ok == token_accepted(opt_bytes(expected_token), opt_seq(authorization)),
{
    let expected = match expected_token {
        None => return true,
        Some(t) => t.as_bytes(),
    };
    if expected.len() == 0 {
        return true;
    }
    let header = match authorization {
        None => return false,
        Some(h) => h,
    };
    if !header_is_text(header) {
        return false;
    }
    assert(header@.skip(0) =~= header@);
    if !bearer_at(header, 0) {
        return false;
    }
    let (start, end) = bearer_token_bounds(header);
    slice_equals(header, start, end, expected)
}

} // verus!
