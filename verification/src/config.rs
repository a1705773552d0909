//! The backend's configuration: the two ports it needs, read from
//! environment text by the caller and parsed here.

use vstd::prelude::*;
use vstd::string::StrSliceExecFns;

verus! {

pub open spec fn is_digit(c: char) -> bool {
    '0' <= c && c <= '9'
}

pub open spec fn digit_val(c: char) -> int {
    c as int - '0' as int
}

pub open spec fn all_digits(s: Seq<char>) -> bool {
    forall|i: int| 0 <= i < s.len() ==> is_digit(#[trigger] s[i])
}

/// The number a digit string denotes, most significant digit first.
pub open spec fn decimal_value(s: Seq<char>) -> int
    decreases s.len(),
{
    if s.len() == 0 {
        0
    } else {
        decimal_value(s.drop_last()) * 10 + digit_val(s.last())
    }
}

/// Parse a decimal port number: accepted exactly when the text is one or
/// more digits denoting a value that fits a `u16`.
pub fn parse_port(s: &str) -> (r: Option<u16>)
    ensures
        (r is Some) <==> (s@.len() > 0 && all_digits(s@) && decimal_value(s@) <= u16::MAX),
        match r {
            Some(p) => p == decimal_value(s@),
            None => true,
        },
{
    let n = s.unicode_len();
    if n == 0 {
        return None;
    }
    let mut i: usize = 0;
    let mut v: u32 = 0;
    while i < n
        invariant
            i <= n,
            n == s@.len(),
            forall|j: int| 0 <= j < i ==> is_digit(#[trigger] s@[j]),
            0 <= decimal_value(s@.subrange(0, i as int)),
            v <= 65536,
            (decimal_value(s@.subrange(0, i as int)) <= 65535 && v == decimal_value(
                s@.subrange(0, i as int),
            )) || (decimal_value(s@.subrange(0, i as int)) >= 65536 && v == 65536),
        decreases n - i,
    {
        let c = s.get_char(i);
        if !(c >= '0' && c <= '9') {
            return None;
        }
        let d: u32 = (c as u32) - ('0' as u32);
        let w: u32 = v * 10 + d;
        proof {
            assert(s@.subrange(0, i + 1).drop_last() =~= s@.subrange(0, i as int));
            assert(s@.subrange(0, i + 1).last() == s@[i as int]);
        }
        v = if w > 65536 {
            65536
        } else {
            w
        };
        i = i + 1;
    }
    proof {
        assert(s@.subrange(0, n as int) =~= s@);
    }
    if v <= 65535 {
        Some(v as u16)
    } else {
        None
    }
}

/// The two ports the backend needs: where its own callback server listens,
/// and where the worker's API listens.
#[derive(Debug, Clone, Copy, PartialEq, Eq, Structural)]
pub struct GenBackendConfig {
    pub backend_port: u16,
    pub genjutsu_api_port: u16,
}

/// The port an optional environment value denotes: the default when the
/// variable is absent, its parsed value when present and numeric, and
/// nothing when present but malformed.
pub open spec fn port_of(v: Option<Seq<char>>, default: u16) -> Option<u16> {
    match v {
        None => Some(default),
        Some(s) => if s.len() > 0 && all_digits(s) && decimal_value(s) <= u16::MAX {
            Some(decimal_value(s) as u16)
        } else {
            None
        },
    }
}

pub const DEFAULT_BACKEND_PORT: u16 = 3000;

pub const DEFAULT_API_PORT: u16 = 5000;

impl GenBackendConfig {
    /// Build the configuration from the two environment values, where read;
    /// refused exactly when a present value is not a port number.
    pub fn from_vars(backend: Option<String>, api: Option<String>) -> (r: Option<
        GenBackendConfig,
    >)
        ensures
            match r {
                Some(c) => Some(c.backend_port) == port_of(
                    crate::job::opt_string_view(backend),
                    DEFAULT_BACKEND_PORT,
                ) && Some(c.genjutsu_api_port) == port_of(
                    crate::job::opt_string_view(api),
                    DEFAULT_API_PORT,
                ),
                None => port_of(crate::job::opt_string_view(backend), DEFAULT_BACKEND_PORT)
                    is None || port_of(crate::job::opt_string_view(api), DEFAULT_API_PORT)
                    is None,
            },
    {
        let backend_port = match backend {
            None => DEFAULT_BACKEND_PORT,
            Some(s) => match parse_port(s.as_str()) {
                Some(p) => p,
                None => {
                    return None;
                },
            },
        };
        let genjutsu_api_port = match api {
            None => DEFAULT_API_PORT,
            Some(s) => match parse_port(s.as_str()) {
                Some(p) => p,
                None => {
                    return None;
                },
            },
        };
        Some(GenBackendConfig { backend_port, genjutsu_api_port })
    }
}

} // verus!
