//! Server configuration: the listening port and the file-serving
//! switch, each derived from an optional environment value with a
//! default.  Reading the environment is the caller's concern; the
//! defaulting and parsing rules live here.

use vstd::prelude::*;

use crate::strutil::str_eq;

verus! {

/// Configuration of the serving surface.
#[derive(Debug)]
pub struct Config {
    /// The port the server should listen on.
    pub port: u16,
    /// Whether static file serving is enabled.
    pub enable_file_serving: bool,
}

/// A decimal digit.
pub open spec fn is_digit(c: char) -> bool {
    '0' <= c && c <= '9'
}

/// The value of a digit.
pub open spec fn digit_val(c: char) -> int {
    c as u32 - 48
}

/// The value of a digit string, most significant digit first.
pub open spec fn digits_val(s: Seq<char>) -> int
    decreases s.len(),
{
    if s.len() == 0 {
        0
    } else {
        digits_val(s.drop_last()) * 10 + digit_val(s.last())
    }
}

/// The digits of a number string: everything after an optional leading
/// plus sign.
pub open spec fn number_body(s: Seq<char>) -> Seq<char> {
    if s.len() > 0 && s[0] == '+' {
        s.drop_first()
    } else {
        s
    }
}

/// What parsing a 16-bit port number accepts: an optional leading plus
/// sign, then at least one digit, with a value that fits.
pub open spec fn parse_u16_spec(s: Seq<char>) -> Option<u16> {
    if number_body(s).len() > 0 && (forall|j: int|
        0 <= j < number_body(s).len() ==> is_digit(number_body(s)[j])) && digits_val(
        number_body(s),
    ) <= 65535 {
        Some(digits_val(number_body(s)) as u16)
    } else {
        None
    }
}

proof fn lemma_digits_nonneg(s: Seq<char>)
    requires
        forall|j: int| 0 <= j < s.len() ==> is_digit(s[j]),
    ensures
        digits_val(s) >= 0,
    decreases s.len(),
{
    if s.len() > 0 {
        lemma_digits_nonneg(s.drop_last());
    }
}

proof fn lemma_digits_grow(s: Seq<char>, k: int)
    requires
        0 <= k <= s.len(),
        forall|j: int| 0 <= j < s.len() ==> is_digit(s[j]),
    ensures
        digits_val(s) >= digits_val(s.take(k)),
    decreases s.len() - k,
{
    if k < s.len() {
        lemma_digits_grow(s, k + 1);
        assert(s.take(k + 1).drop_last() =~= s.take(k));
        assert(s.take(k + 1).last() == s[k]);
        lemma_digits_nonneg(s.take(k));
    } else {
        assert(s.take(k) =~= s);
    }
}

/// Parses a 16-bit number as `str::parse::<u16>` accepts it: an
/// optional leading plus sign, then decimal digits.
pub fn parse_u16(s: &str) -> (r: Option<u16>)
    ensures
        r == parse_u16_spec(s@),
{
    let n = s.unicode_len();
    let start: usize = if n > 0 && s.get_char(0) == '+' {
        1
    } else {
        0
    };
    let ghost body = number_body(s@);
    proof {
        assert(body =~= s@.skip(start as int));
    }
    if start == n {
        return None;
    }
    let mut acc: u32 = 0;
    let mut i: usize = start;
    while i < n
        invariant
            start <= i <= n,
            n == s@.len(),
            body == s@.skip(start as int),
            body == number_body(s@),
            forall|j: int| start <= j < i ==> is_digit(s@[j]),
            acc == digits_val(body.take(i - start)),
            acc <= 65535,
        decreases n - i,
    {
        let c = s.get_char(i);
        let cu = c as u32;
        proof {
            assert(('0' <= c && c <= '9') == (48 <= cu && cu <= 57));
            assert(body[i - start] == s@[i as int]);
        }
        if !(48 <= cu && cu <= 57) {
            proof {
                assert(!is_digit(body[i - start]));
            }
            return None;
        }
        let d: u32 = cu - 48;
        proof {
            assert(body.take(i - start + 1).drop_last() =~= body.take(i - start));
            assert(body.take(i - start + 1).last() == body[i - start]);
        }
        if acc > 6553 || (acc == 6553 && d > 5) {
            // the value no longer fits in 16 bits
            proof {
                assert(digits_val(body.take(i - start + 1)) == acc * 10 + d);
                if (forall|j: int| 0 <= j < body.len() ==> is_digit(#[trigger] body[j])) {
                    lemma_digits_grow(body, i - start + 1);
                    assert(digits_val(body) > 65535);
                }
            }
            return None;
        }
        acc = acc * 10 + d;
        i = i + 1;
    }
    proof {
        assert(body.take(n - start) =~= body);
    }
    Some(acc as u16)
}

/// What parsing a switch accepts: exactly `true` or `false`.
pub open spec fn parse_bool_spec(s: Seq<char>) -> Option<bool> {
    if s == "true"@ {
        Some(true)
    } else if s == "false"@ {
        Some(false)
    } else {
        None
    }
}

/// Parses a switch as `str::parse::<bool>` accepts it: exactly `true`
/// or `false`.
pub fn parse_bool(s: &str) -> (r: Option<bool>)
    ensures
        r == parse_bool_spec(s@),
{
    if str_eq(s, "true") {
        Some(true)
    } else if str_eq(s, "false") {
        Some(false)
    } else {
        None
    }
}

/// What the configuration defaults to: port 8080 and no file serving,
/// each overridden by an environment value that parses.
pub open spec fn config_spec(port: Option<Seq<char>>, file_serving: Option<Seq<char>>) -> Config {
    Config {
        port: match port {
            Some(s) => match parse_u16_spec(s) {
                Some(p) => p,
                None => 8080,
            },
            None => 8080,
        },
        enable_file_serving: match file_serving {
            Some(s) => match parse_bool_spec(s) {
                Some(b) => b,
                None => false,
            },
            None => false,
        },
    }
}

impl Config {
    /// Builds the configuration from the raw environment values, with
    /// the documented defaults.
    pub fn from_env_values(port: Option<&str>, file_serving: Option<&str>) -> (c: Config)
        ensures
            c == config_spec(
                match port {
                    Some(s) => Some(s@),
                    None => None,
                },
                match file_serving {
                    Some(s) => Some(s@),
                    None => None,
                },
            ),
    {
        let p: u16 = match port {
            Some(s) => match parse_u16(s) {
                Some(p) => p,
                None => 8080,
            },
            None => 8080,
        };
        let f: bool = match file_serving {
            Some(s) => match parse_bool(s) {
                Some(b) => b,
                None => false,
            },
            None => false,
        };
        Config { port: p, enable_file_serving: f }
    }
}

} // verus!
