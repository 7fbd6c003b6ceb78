//! Configuration values read from plain text: the liveness listener's
//! port, the keepalive interval and target URL.

use vstd::prelude::*;
use vstd::string::StrSliceExecFns;
use vstd::string::StringExecFns;

verus! {

/// The port the liveness listener asks for when none is configured.
pub const DEFAULT_HEALTH_PORT: u16 = 8000;

/// The keepalive interval used when none is configured, in seconds.
pub const DEFAULT_PING_INTERVAL_SECS: u64 = 20;

/// The keepalive target when none is configured points back at the
/// process's own liveness listener: this base, the bound port, and `/`.
pub const PING_URL_BASE: &'static str = "http://127.0.0.1:";

/// The fixed body the liveness listener answers every request with.
pub const HEALTH_BODY: &'static str = "ok";

/// Whether `c` is a decimal digit.
pub open spec fn spec_is_digit(c: char) -> bool {
    0x30 <= (c as u32) && (c as u32) <= 0x39
}

/// The numeric value of a decimal digit character.
pub open spec fn spec_digit_val(c: char) -> int {
    (c as u32) - 0x30
}

/// The value of a string of decimal digits, most significant first.
pub open spec fn spec_digits_val(s: Seq<char>) -> int
    decreases s.len(),
{
    if s.len() == 0 {
        0
    } else {
        spec_digits_val(s.drop_last()) * 10 + spec_digit_val(s.last())
    }
}

/// Whether every character of `s` is a decimal digit.
pub open spec fn spec_all_digits(s: Seq<char>) -> bool {
    forall|i: int| 0 <= i < s.len() ==> spec_is_digit(s[i])
}

/// `s` without the single optional leading `+` sign.
pub open spec fn spec_unsigned_body(s: Seq<char>) -> Seq<char> {
    if s.len() > 0 && s[0] == '+' {
        s.drop_first()
    } else {
        s
    }
}

/// The unsigned decimal reading of `s`, exactly as std parses an
/// unsigned integer: an optional leading `+`, then one or more digits,
/// with the value in range; anything else reads as nothing.
pub open spec fn spec_parse_u64(s: Seq<char>) -> Option<u64> {
    let body = spec_unsigned_body(s);
    if body.len() > 0 && spec_all_digits(body) && spec_digits_val(body) <= u64::MAX {
        Some(spec_digits_val(body) as u64)
    } else {
        None
    }
}

proof fn lemma_digits_val_nonneg(s: Seq<char>)
    requires
        spec_all_digits(s),
    ensures
        spec_digits_val(s) >= 0,
    decreases s.len(),
{
    if s.len() > 0 {
        assert forall|i: int| 0 <= i < s.drop_last().len() implies spec_is_digit(
            s.drop_last()[i],
        ) by {
            assert(s.drop_last()[i] == s[i]);
        }
        lemma_digits_val_nonneg(s.drop_last());
    }
}

proof fn lemma_digits_val_mono(s: Seq<char>, k: int)
    requires
        0 <= k <= s.len(),
        spec_all_digits(s),
    ensures
        spec_digits_val(s.take(k)) <= spec_digits_val(s),
    decreases s.len(),
{
    if k == s.len() {
        assert(s.take(k) =~= s);
    } else {
        assert forall|i: int| 0 <= i < s.drop_last().len() implies spec_is_digit(
            s.drop_last()[i],
        ) by {
            assert(s.drop_last()[i] == s[i]);
        }
        lemma_digits_val_mono(s.drop_last(), k);
        assert(s.drop_last().take(k) =~= s.take(k));
        lemma_digits_val_nonneg(s.drop_last());
        assert(spec_is_digit(s.last()));
        assert(spec_digits_val(s) >= spec_digits_val(s.drop_last()));
    }
}

/// Parses an unsigned decimal number the way std parses a `u64`.
pub fn parse_u64(s: &str) -> (r: Option<u64>)
    ensures
        r == spec_parse_u64(s@),
{
    let n = s.unicode_len();
    let start: usize = if n > 0 && s.get_char(0) == '+' {
        1
    } else {
        0
    };
    let ghost body = spec_unsigned_body(s@);
    proof {
        assert(body =~= s@.skip(start as int));
    }
    if start == n {
        return None;
    }
    let mut val: u64 = 0;
    let mut i: usize = start;
    proof {
        assert(s@.subrange(start as int, start as int) =~= Seq::<char>::empty());
    }
    while i < n
        invariant
            start <= i <= n,
            n == s@.len(),
            body == spec_unsigned_body(s@),
            body == s@.skip(start as int),
            forall|j: int| start <= j < i ==> spec_is_digit(s@[j]),
            val == spec_digits_val(s@.subrange(start as int, i as int)),
        decreases n - i,
    {
        let ghost done = s@.subrange(start as int, i as int);
        let ghost next = s@.subrange(start as int, i as int + 1);
        proof {
            assert(next.drop_last() =~= done);
            assert(next.last() == s@[i as int]);
        }
        let c = s.get_char(i);
        let u = c as u32;
        if !(0x30 <= u && u <= 0x39) {
            proof {
                assert(body[i - start] == s@[i as int]);
                assert(!spec_all_digits(body));
            }
            return None;
        }
        let d = (u - 0x30) as u64;
        if val > (u64::MAX - d) / 10 {
            proof {
                assert forall|j: int| 0 <= j < next.len() implies spec_is_digit(next[j]) by {
                    assert(next[j] == s@[j + start]);
                }
                lemma_digits_val_nonneg(done);
                assert(spec_digits_val(next) == val * 10 + d > u64::MAX);
                if spec_all_digits(body) {
                    lemma_digits_val_mono(body, i + 1 - start);
                    assert(body.take(i + 1 - start) =~= next);
                }
            }
            return None;
        }
        val = val * 10 + d;
        i = i + 1;
    }
    proof {
        assert(s@.subrange(start as int, n as int) =~= body);
        assert forall|j: int| 0 <= j < body.len() implies spec_is_digit(body[j]) by {
            assert(body[j] == s@[j + start]);
        }
    }
    Some(val)
}

/// The liveness listener's configured port for one raw value.
pub open spec fn spec_health_port_of(s: Seq<char>) -> u16 {
    match spec_parse_u64(s) {
        Some(v) => if v <= u16::MAX {
            v as u16
        } else {
            DEFAULT_HEALTH_PORT
        },
        None => DEFAULT_HEALTH_PORT,
    }
}

/// The port the liveness listener asks for: the configured value when
/// it reads as a port number, else the default.
pub fn health_port(raw: Option<&str>) -> (p: u16)
    ensures
        raw matches Some(s) ==> p == spec_health_port_of(s@),
        raw is None ==> p == DEFAULT_HEALTH_PORT,
{
    match raw {
        Some(s) => match parse_u64(s) {
            Some(v) => {
                if v <= u16::MAX as u64 {
                    v as u16
                } else {
                    DEFAULT_HEALTH_PORT
                }
            },
            None => DEFAULT_HEALTH_PORT,
        },
        None => DEFAULT_HEALTH_PORT,
    }
}

/// The keepalive interval for one raw value.
pub open spec fn spec_ping_interval_of(s: Seq<char>) -> u64 {
    match spec_parse_u64(s) {
        Some(v) => v,
        None => DEFAULT_PING_INTERVAL_SECS,
    }
}

/// The keepalive interval in seconds: the configured value when it
/// reads as a number, else the default.
pub fn ping_interval_secs(raw: Option<&str>) -> (t: u64)
    ensures
        raw matches Some(s) ==> t == spec_ping_interval_of(s@),
        raw is None ==> t == DEFAULT_PING_INTERVAL_SECS,
{
    match raw {
        Some(s) => match parse_u64(s) {
            Some(v) => v,
            None => DEFAULT_PING_INTERVAL_SECS,
        },
        None => DEFAULT_PING_INTERVAL_SECS,
    }
}

/// The decimal digit character for one digit value.
pub open spec fn spec_digit_char(d: int) -> char {
    if d == 0 {
        '0'
    } else if d == 1 {
        '1'
    } else if d == 2 {
        '2'
    } else if d == 3 {
        '3'
    } else if d == 4 {
        '4'
    } else if d == 5 {
        '5'
    } else if d == 6 {
        '6'
    } else if d == 7 {
        '7'
    } else if d == 8 {
        '8'
    } else {
        '9'
    }
}

/// The decimal rendering of `n`, most significant digit first, with no
/// leading zero except for zero itself.
pub open spec fn spec_u64_digits(n: int) -> Seq<char>
    decreases n,
{
    if n < 10 {
        seq![spec_digit_char(n)]
    } else {
        spec_u64_digits(n / 10) + seq![spec_digit_char(n % 10)]
    }
}

fn digit_str(d: u64) -> (r: &'static str)
    requires
        d < 10,
    ensures
        r@ == seq![spec_digit_char(d as int)],
{
    let r: &'static str = match d {
        0 => "0",
        1 => "1",
        2 => "2",
        3 => "3",
        4 => "4",
        5 => "5",
        6 => "6",
        7 => "7",
        8 => "8",
        _ => "9",
    };
    proof {
        reveal_strlit("0");
        reveal_strlit("1");
        reveal_strlit("2");
        reveal_strlit("3");
        reveal_strlit("4");
        reveal_strlit("5");
        reveal_strlit("6");
        reveal_strlit("7");
        reveal_strlit("8");
        reveal_strlit("9");
        assert(r@ =~= seq![spec_digit_char(d as int)]);
    }
    r
}

/// Renders `n` in decimal.
pub fn u64_to_string(n: u64) -> (r: String)
    ensures
        r@ == spec_u64_digits(n as int),
    decreases n,
{
    if n < 10 {
        String::from_str(digit_str(n))
    } else {
        let mut r = u64_to_string(n / 10);
        r.append(digit_str(n % 10));
        r
    }
}

/// The keepalive target for one raw value and the bound port.
pub open spec fn spec_ping_url_of(raw: Option<Seq<char>>, port: u16) -> Seq<char> {
    match raw {
        Some(s) => s,
        None => PING_URL_BASE@ + spec_u64_digits(port as int) + ("/")@,
    }
}

/// The URL the keepalive pinger polls: the configured one, or the
/// process's own liveness listener on the bound port.
pub fn ping_url(raw: Option<&str>, health_port: u16) -> (r: String)
    ensures
        raw matches Some(s) ==> r@ == s@,
        raw is None ==> r@ == spec_ping_url_of(None, health_port),
{
    match raw {
        Some(s) => String::from_str(s),
        None => {
            let mut r = String::from_str(PING_URL_BASE);
            let digits = u64_to_string(health_port as u64);
            r.append(digits.as_str());
            r.append("/");
            proof {
                assert(r@ =~= PING_URL_BASE@ + spec_u64_digits(health_port as int) + ("/")@);
            }
            r
        },
    }
}

} // verus!
