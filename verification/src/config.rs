//! Configuration of the server.
//!
//! The process environment is read outside; this module holds the
//! validated configuration value and the parsing that turns the raw
//! environment texts into it.

use vstd::prelude::*;
use vstd::string::StrSliceExecFns;

use crate::wire::is_digit;

verus! {

/// A configuration text that could not be parsed.
#[derive(Debug, Clone, Copy, PartialEq, Eq, Structural)]
pub enum ConfigError {
    /// The port text is not a decimal number between 0 and 65535.
    InvalidPort,
}

/// Configuration data for the server.
pub struct Config {
    /// The address and port the server should be started on.
    pub bind_address: (String, u16),
    /// The location of the database as a URL.
    pub database_url: String,
}

/// The value of a digit character.
pub open spec fn digit_val(c: char) -> int {
    c as int - '0' as int
}

/// The value of a decimal digit text, most significant digit first.
pub open spec fn digits_value(s: Seq<char>) -> int
    decreases s.len(),
{
    if s.len() == 0 {
        0
    } else {
        digits_value(s.drop_last()) * 10 + digit_val(s.last())
    }
}

/// The digit part of a port text: an optional leading plus sign is
/// accepted, as the original integer parsing accepted it.
pub open spec fn port_digits(s: Seq<char>) -> Seq<char> {
    if s.len() > 0 && s[0] == '+' {
        s.subrange(1, s.len() as int)
    } else {
        s
    }
}

/// A valid port text: sign-stripped it is one or more decimal digits whose
/// value fits a 16-bit port number.
pub open spec fn port_text_ok(s: Seq<char>) -> bool {
    &&& port_digits(s).len() > 0
    &&& forall|i: int| 0 <= i < port_digits(s).len() ==> is_digit(#[trigger] port_digits(s)[i])
    &&& digits_value(port_digits(s)) < 65536
}

pub(crate) proof fn lemma_digits_value_bounds(s: Seq<char>)
    requires
        forall|i: int| 0 <= i < s.len() ==> is_digit(#[trigger] s[i]),
    ensures
        digits_value(s) >= 0,
    decreases s.len(),
{
    if s.len() > 0 {
        lemma_digits_value_bounds(s.drop_last());
    }
}

pub(crate) proof fn lemma_digits_value_monotone(s: Seq<char>, i: int)
    requires
        0 <= i <= s.len(),
        forall|k: int| 0 <= k < s.len() ==> is_digit(#[trigger] s[k]),
    ensures
        digits_value(s.take(i)) <= digits_value(s),
    decreases s.len() - i,
{
    if i < s.len() {
        let t = s.take(i + 1);
        assert(t.drop_last() =~= s.take(i));
        lemma_digits_value_bounds(s.take(i));
        assert(digits_value(t) == digits_value(s.take(i)) * 10 + digit_val(s[i]));
        assert(digit_val(s[i]) >= 0);
        assert(digits_value(s.take(i)) <= digits_value(t));
        lemma_digits_value_monotone(s, i + 1);
        assert(s.take(s.len() as int) =~= s);
    } else {
        assert(s.take(i) =~= s);
    }
}

/// Parses a port number from its decimal text.
///
/// Succeeds if and only if the text, after an optional leading plus sign,
/// is one or more decimal digits whose value is at most 65535; the result
/// is then that value.
pub fn parse_port(s: &str) -> (r: Result<u16, ConfigError>)
    ensures
        r is Ok <==> port_text_ok(s@),
        r is Ok ==> r->Ok_0 as int == digits_value(port_digits(s@)),
        r is Err ==> r == Err::<u16, ConfigError>(ConfigError::InvalidPort),
{
    let n = s.unicode_len();
    if n == 0 {
        return Err(ConfigError::InvalidPort);
    }
    let start: usize = if s.get_char(0) == '+' {
        1
    } else {
        0
    };
    if start == n {
        return Err(ConfigError::InvalidPort);
    }
    let ghost digits = port_digits(s@);
    proof {
        assert(digits =~= s@.subrange(start as int, n as int));
    }
    let mut v: u32 = 0;
    let mut i = start;
    while i < n
        invariant
            start <= i <= n,
            n == s@.len(),
            start < n,
            digits == port_digits(s@),
            digits =~= s@.subrange(start as int, n as int),
            v <= 65535,
            forall|k: int| start <= k < i ==> is_digit(#[trigger] s@[k]),
            v == digits_value(s@.subrange(start as int, i as int)),
        decreases n - i,
    {
        let c = s.get_char(i);
        if !('0' <= c && c <= '9') {
            proof {
                assert(digits[i - start] == s@[i as int]);
                assert(!is_digit(digits[i - start]));
            }
            return Err(ConfigError::InvalidPort);
        }
        let d = (c as u32) - ('0' as u32);
        v = v * 10 + d;
        proof {
            let pre = s@.subrange(start as int, i as int);
            let cur = s@.subrange(start as int, i as int + 1);
            assert(cur.drop_last() =~= pre);
            assert(cur.last() == s@[i as int]);
            assert(v == digits_value(cur));
        }
        if v > 65535 {
            proof {
                if port_text_ok(s@) {
                    let cur = s@.subrange(start as int, i as int + 1);
                    assert(cur =~= digits.take(i as int + 1 - start));
                    lemma_digits_value_monotone(digits, i as int + 1 - start);
                    assert(false);
                }
            }
            return Err(ConfigError::InvalidPort);
        }
        i += 1;
    }
    proof {
        assert(s@.subrange(start as int, n as int) =~= digits);
        assert(v == digits_value(digits));
        assert(port_text_ok(s@));
    }
    Ok(v as u16)
}

impl Config {
    /// Assembles the configuration from the raw environment texts: the
    /// bind host, the bind port as text, and the database URL.  Fails if
    /// and only if the port text is invalid.
    pub fn from_parts(host: String, port_text: &str, database_url: String) -> (r: Result<
        Config,
        ConfigError,
    >)
        ensures
            r is Ok <==> port_text_ok(port_text@),
            r is Ok ==> r->Ok_0.bind_address.0 == host,
            r is Ok ==> r->Ok_0.bind_address.1 as int == digits_value(port_digits(port_text@)),
            r is Ok ==> r->Ok_0.database_url == database_url,
            r is Err ==> r == Err::<Config, ConfigError>(ConfigError::InvalidPort),
    {
        let port = match parse_port(port_text) {
            Ok(p) => p,
            Err(e) => {
                return Err(e);
            },
        };
        Ok(Config { bind_address: (host, port), database_url })
    }
}

} // verus!
