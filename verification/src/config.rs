//! Server settings read from the environment, with their defaults.
use vstd::arithmetic::power::pow;
use vstd::prelude::*;
use vstd::string::StringSliceAdditionalSpecFns;

verus! {

/// An ASCII decimal digit.
pub open spec fn is_digit(b: u8) -> bool {
    48 <= b && b <= 57
}

/// Every byte of `s` is a decimal digit.
pub open spec fn all_digits(s: Seq<u8>) -> bool {
    forall|i: int| 0 <= i < s.len() ==> is_digit(#[trigger] s[i])
}

/// The number written by the decimal digits `s` (most significant first).
pub open spec fn decimal_value(s: Seq<u8>) -> nat
    decreases s.len(),
{
    if s.len() == 0 {
        0
    } else {
        decimal_value(s.drop_last()) * 10 + (s.last() - 48) as nat
    }
}

/// The digits of a number written with an optional leading `+`.
pub open spec fn unsigned_digits(s: Seq<u8>) -> Seq<u8> {
    if s.len() > 0 && s[0] == 43 {
        s.drop_first()
    } else {
        s
    }
}

/// The unsigned integer that `s` writes, if it is no greater than `max`: an
/// optional `+` followed by at least one decimal digit and nothing else
/// (the rule by which `str::parse` reads unsigned integers).
pub open spec fn parse_unsigned(s: Seq<u8>, max: nat) -> Option<nat> {
    let d = unsigned_digits(s);
    if d.len() > 0 && all_digits(d) && decimal_value(d) <= max {
        Some(decimal_value(d))
    } else {
        None
    }
}

/// A longer run of digits never writes a smaller number.
proof fn lemma_decimal_prefix(s: Seq<u8>, k: int)
    requires
        0 <= k <= s.len(),
        all_digits(s),
    ensures
        decimal_value(s.take(k)) <= decimal_value(s),
    decreases s.len(),
{
    if k < s.len() {
        assert(all_digits(s.drop_last())) by {
            assert forall|i: int| 0 <= i < s.drop_last().len() implies is_digit(
                #[trigger] s.drop_last()[i],
            ) by {
                assert(s.drop_last()[i] == s[i]);
            }
        }
        assert(s.drop_last().take(k) =~= s.take(k));
        lemma_decimal_prefix(s.drop_last(), k);
    } else {
        assert(s.take(k) =~= s);
    }
}

/// Reads an unsigned integer no greater than `max` from `s` (see `parse_unsigned`).
pub fn parse_unsigned_bytes(s: &[u8], max: u64) -> (value: Option<u64>)
    ensures
        match value {
            Some(v) => parse_unsigned(s@, max as nat) == Some(v as nat),
            None => parse_unsigned(s@, max as nat) is None,
        },
{
    let n: usize = s.len();
    let start: usize = if n > 0 && s[0] == 43u8 { 1 } else { 0 };
    let ghost d = unsigned_digits(s@);
    assert(d =~= s@.skip(start as int));
    if start == n {
        return None;
    }
    let mut acc: u64 = 0;
    let mut i: usize = start;
    assert(d.take(0) =~= Seq::<u8>::empty());
    while i < n
        invariant
            n == s@.len(),
            start <= i <= n,
            d == s@.skip(start as int),
            d == unsigned_digits(s@),
            all_digits(d.take(i - start)),
            acc as nat == decimal_value(d.take(i - start)),
            acc <= max,
        decreases n - i,
    {
        let b: u8 = s[i];
        assert(d[i - start] == b);
        if !(48u8 <= b && b <= 57u8) {
            assert(!all_digits(d)) by {
                assert(!is_digit(d[i - start]));
            }
            return None;
        }
        let next: u128 = (acc as u128) * 10 + ((b - 48u8) as u128);
        let ghost taken = d.take(i - start + 1);
        assert(taken.drop_last() =~= d.take(i - start));
        assert(all_digits(taken)) by {
            assert forall|j: int| 0 <= j < taken.len() implies is_digit(#[trigger] taken[j]) by {
                if j < i - start {
                    assert(taken[j] == d.take(i - start)[j]);
                }
            }
        }
        assert(next == decimal_value(taken));
        if next > max as u128 {
            proof {
                if all_digits(d) {
                    lemma_decimal_prefix(d, i - start + 1);
                }
            }
            return None;
        }
        acc = next as u64;
        i = i + 1;
    }
    assert(d.take(n - start) =~= d);
    Some(acc)
}

/// The port and cache size the server runs with.
pub struct ServerConfig {
    pub port: u16,
    pub max_cached_events: usize,
}

/// The port to listen on: the `PORT` setting when it is a valid port number,
/// otherwise 8080.
pub open spec fn configured_port(setting: Option<Seq<u8>>) -> u16 {
    match setting {
        Some(s) => match parse_unsigned(s, u16::MAX as nat) {
            Some(v) => v as u16,
            None => 8080,
        },
        None => 8080,
    }
}

/// How many recent events to keep: the `MAX_CACHED_EVENTS` setting when it is a
/// valid count, otherwise 100.
pub open spec fn configured_max_events(setting: Option<Seq<u8>>) -> usize {
    match setting {
        Some(s) => match parse_unsigned(s, usize::MAX as nat) {
            Some(v) => v as usize,
            None => 100,
        },
        None => 100,
    }
}

/// Writing the digits `b` after the digits `a` multiplies the number `a`
/// writes by ten for each digit of `b` and adds the number `b` writes; with a
/// single digit writing its own value, this fixes what every run of digits
/// means.
pub proof fn lemma_decimal_value_concat(a: Seq<u8>, b: Seq<u8>)
    ensures
        decimal_value(a + b) == decimal_value(a) * pow(10, b.len()) + decimal_value(b),
        forall|d: u8| 48 <= d <= 57 ==> #[trigger] decimal_value(seq![d]) == d - 48,
    decreases b.len(),
{
    assert forall|d: u8| 48 <= d <= 57 implies #[trigger] decimal_value(seq![d]) == d - 48 by {
        assert(seq![d].drop_last() =~= Seq::<u8>::empty());
        assert(decimal_value(Seq::<u8>::empty()) == 0);
        assert(seq![d].last() == d);
    }
    if b.len() == 0 {
        assert(a + b =~= a);
        assert(pow(10, 0) == 1) by {
            vstd::arithmetic::power::lemma_pow0(10);
        }
    } else {
        let bl = b.drop_last();
        lemma_decimal_value_concat(a, bl);
        assert((a + b).drop_last() =~= a + bl);
        assert((a + b).last() == b.last());
        vstd::arithmetic::power::lemma_pow_adds(10, bl.len(), 1);
        vstd::arithmetic::power::lemma_pow1(10);
        assert(pow(10, b.len()) == pow(10, bl.len()) * 10);
        let x = decimal_value(a);
        let y = pow(10, bl.len());
        assert((x * y + decimal_value(bl)) * 10 == x * (y * 10) + decimal_value(bl) * 10)
            by (nonlinear_arith);
    }
}

/// Every run of decimal digits (after an optional `+`) that writes a count
/// no greater than `usize::MAX` sets the cache size to exactly that count.
pub proof fn lemma_max_events_reads_every_count(digits: Seq<u8>)
    requires
        digits.len() > 0,
        forall|i: int| 0 <= i < digits.len() ==> 48 <= #[trigger] digits[i] <= 57,
        decimal_value(digits) <= usize::MAX,
    ensures
        configured_max_events(Some(digits)) == decimal_value(digits),
        configured_max_events(Some(seq![43u8] + digits)) == decimal_value(digits),
{
    assert(seq![43u8].add(digits).drop_first() =~= digits);
    assert(all_digits(digits));
}

/// Every run of decimal digits (after an optional `+`) that writes a number
/// no greater than 65535 sets the port to exactly that number.
pub proof fn lemma_port_reads_every_port_number(digits: Seq<u8>)
    requires
        digits.len() > 0,
        forall|i: int| 0 <= i < digits.len() ==> 48 <= #[trigger] digits[i] <= 57,
        decimal_value(digits) <= 65535,
    ensures
        configured_port(Some(digits)) == decimal_value(digits),
        configured_port(Some(seq![43u8] + digits)) == decimal_value(digits),
{
    assert(seq![43u8].add(digits).drop_first() =~= digits);
    assert(all_digits(digits));
}

/// A setting that is empty, holds a byte that is neither a digit nor a leading
/// `+`, or writes a number too large, leaves the default in place.
pub proof fn lemma_invalid_settings_keep_defaults(s: Seq<u8>)
    requires
        s.len() == 0 || (exists|i: int|
            0 <= i < s.len() && !(48 <= #[trigger] s[i] <= 57) && !(i == 0 && s[i] == 43 && s.len() > 1)),
    ensures
        configured_port(Some(s)) == 8080,
        configured_max_events(Some(s)) == 100,
{
    if s.len() > 0 {
        let i = choose|i: int|
            0 <= i < s.len() && !(48 <= #[trigger] s[i] <= 57) && !(i == 0 && s[i] == 43 && s.len() > 1);
        let d = unsigned_digits(s);
        if s[0] == 43 {
            if i > 0 {
                assert(d[i - 1] == s[i]);
            }
        } else {
            assert(d[i] == s[i]);
        }
    }
}

/// The UTF-8 bytes of an optional setting.
pub open spec fn setting_bytes(s: Option<&str>) -> Option<Seq<u8>> {
    match s {
        None => None,
        Some(t) => Some(t.spec_bytes()),
    }
}

/// The server's settings from the values of `PORT` and `MAX_CACHED_EVENTS`
/// (each absent when the variable is unset).
pub fn server_config(port: Option<&str>, max_cached_events: Option<&str>) -> (config: ServerConfig)
    ensures
        config.port == configured_port(setting_bytes(port)),
        config.max_cached_events == configured_max_events(setting_bytes(max_cached_events)),
{
    let port_value: u16 = match port {
        Some(s) => match parse_unsigned_bytes(s.as_bytes(), 65535) {
            Some(v) => v as u16,
            None => 8080,
        },
        None => 8080,
    };
    let max_value: usize = match max_cached_events {
        Some(s) => match parse_unsigned_bytes(s.as_bytes(), usize::MAX as u64) {
            Some(v) => v as usize,
            None => 100,
        },
        None => 100,
    };
    ServerConfig { port: port_value, max_cached_events: max_value }
}

} // verus!
