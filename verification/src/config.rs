//! Configuration resolution: the decisions taken over raw environment
//! values.  Reading the environment itself happens outside the library;
//! the raw strings are handed in and every default, parse and validation
//! rule is decided here.

use crate::text::{chars_to_string, push_str_chars, sp_all_digits, sp_digits_val, sp_is_digit};
use vstd::prelude::*;

verus! {

/// The number a port string denotes: an optional `+` sign and digits
/// whose value fits 16 bits; anything else denotes nothing.
pub open spec fn sp_parse_u16(s: Seq<char>) -> Option<u16> {
    let t = if s.len() > 0 && s.first() == '+' {
        s.drop_first()
    } else {
        s
    };
    if t.len() > 0 && sp_all_digits(t) && sp_digits_val(t) <= u16::MAX {
        Some(sp_digits_val(t) as u16)
    } else {
        None
    }
}

/// Read a 16-bit number from a string.
pub fn parse_u16(s: &str) -> (r: Option<u16>)
    ensures
        r == sp_parse_u16(s@),
{
    let n = s.unicode_len();
    let start: usize = if n > 0 && s.get_char(0) == '+' {
        1
    } else {
        0
    };
    let ghost t = if s@.len() > 0 && s@.first() == '+' {
        s@.drop_first()
    } else {
        s@
    };
    proof {
        assert(t =~= s@.skip(start as int));
    }
    if n == start {
        return None;
    }
    let mut acc: u32 = 0;
    let mut i: usize = start;
    while i < n
        invariant
            n == s@.len(),
            start <= i <= n,
            start < n,
            start == (if s@.len() > 0 && s@.first() == '+' {
                1int
            } else {
                0int
            }),
            t == (if s@.len() > 0 && s@.first() == '+' {
                s@.drop_first()
            } else {
                s@
            }),
            t =~= s@.skip(start as int),
            acc <= u16::MAX,
            forall|j: int| start <= j < i ==> sp_is_digit(s@[j]),
            crate::text::sp_fold_digits(t, 0) == crate::text::sp_fold_digits(
                s@.skip(i as int),
                acc as nat,
            ),
        decreases n - i,
    {
        let c = s.get_char(i);
        if c < '0' || c > '9' {
            proof {
                assert(t[i - start] == s@[i as int]);
                assert(!sp_all_digits(t)) by {
                    if sp_all_digits(t) {
                        assert(sp_is_digit(t[i - start]));
                    }
                }
            }
            return None;
        }
        let d = c as u32 - '0' as u32;
        proof {
            assert(s@.skip(i as int).first() == s@[i as int]);
            assert(s@.skip(i as int).drop_first() =~= s@.skip(i as int + 1));
            assert(crate::text::sp_fold_digits(s@.skip(i as int), acc as nat)
                == crate::text::sp_fold_digits(
                s@.skip(i as int + 1),
                (acc * 10 + crate::text::sp_digit_val(s@[i as int])) as nat,
            ));
        }
        if acc > (u16::MAX as u32 - d) / 10 {
            proof {
                crate::text::lemma_fold_digits_ge_acc(s@.skip(i as int + 1), (acc * 10
                    + crate::text::sp_digit_val(s@[i as int])) as nat);
                assert(sp_digits_val(t) > u16::MAX);
            }
            return None;
        }
        acc = acc * 10 + d;
        i = i + 1;
    }
    proof {
        assert(s@.skip(n as int).len() == 0);
        assert(sp_digits_val(t) == acc);
        assert(forall|j: int| 0 <= j < t.len() ==> sp_is_digit(#[trigger] t[j]));
    }
    Some(acc as u16)
}

/// The process-level configuration: serving mode, port, and whether the
/// deprecated REST surface is disabled.
#[derive(Debug)]
pub struct Config {
    pub mode: String,
    pub port: u16,
    pub deprecate_rest: bool,
}

impl Config {
    /// Resolve the configuration from raw environment values: the mode
    /// defaults to `server`, the port to 8080 when absent or unreadable,
    /// and any non-empty marker disables the REST surface.
    pub fn from_parts(mode: Option<String>, port: Option<String>, deprecate_rest: Option<String>)
        -> (c: Config)
        ensures
            c.mode@ == (match mode {
                Some(m) => m@,
                None => "server"@,
            }),
            c.port == (match port {
                Some(p) => match sp_parse_u16(p@) {
                    Some(v) => v,
                    None => 8080u16,
                },
                None => 8080u16,
            }),
            c.deprecate_rest == (match deprecate_rest {
                Some(v) => v@.len() > 0,
                None => false,
            }),
    {
        let mode_val = match mode {
            Some(m) => m,
            None => String::from_str("server"),
        };
        let port_val = match port {
            Some(p) => match parse_u16(p.as_str()) {
                Some(v) => v,
                None => 8080,
            },
            None => 8080,
        };
        let deprecate = match deprecate_rest {
            Some(v) => v.as_str().unicode_len() > 0,
            None => false,
        };
        Config { mode: mode_val, port: port_val, deprecate_rest: deprecate }
    }
}

/// The message for a mode that is neither `server` nor `stdio`.
pub open spec fn sp_invalid_mode_msg(mode: Seq<char>) -> Seq<char> {
    "Invalid MODE: "@ + mode + ". Must be 'server' or 'stdio'"@
}

/// What validation decides for raw mode and port values: the mode must be
/// `server` or `stdio`, and a server must not sit on port zero.  An
/// unreadable port falls back to the default and passes.
pub open spec fn sp_validate_config(mode: Option<Seq<char>>, port: Option<Seq<char>>) -> Result<
    (),
    Seq<char>,
> {
    let m = match mode {
        Some(s) => s,
        None => "server"@,
    };
    if m != "server"@ && m != "stdio"@ {
        Err(sp_invalid_mode_msg(m))
    } else if m == "server"@ && (match port {
        Some(p) => match sp_parse_u16(p) {
            Some(v) => v,
            None => 8080u16,
        },
        None => 8080u16,
    }) == 0 {
        Err("PORT cannot be 0"@)
    } else {
        Ok(())
    }
}

/// Validate raw mode and port values.
pub fn validate_config(mode: Option<String>, port: Option<String>) -> (r: Result<(), String>)
    ensures
        match r {
            Ok(()) => sp_validate_config(
                match mode {
                    Some(m) => Some(m@),
                    None => None,
                },
                match port {
                    Some(p) => Some(p@),
                    None => None,
                },
            ) is Ok,
            Err(e) => sp_validate_config(
                match mode {
                    Some(m) => Some(m@),
                    None => None,
                },
                match port {
                    Some(p) => Some(p@),
                    None => None,
                },
            ) == Err::<(), Seq<char>>(e@),
        },
{
    let m = match &mode {
        Some(s) => s.clone(),
        None => String::from_str("server"),
    };
    let is_server = crate::text::str_eq(m.as_str(), "server");
    let is_stdio = crate::text::str_eq(m.as_str(), "stdio");
    if !is_server && !is_stdio {
        let mut out: Vec<char> = Vec::new();
        push_str_chars(&mut out, "Invalid MODE: ");
        push_str_chars(&mut out, m.as_str());
        push_str_chars(&mut out, ". Must be 'server' or 'stdio'");
        return Err(chars_to_string(&out));
    }
    if is_server {
        let port_val = match &port {
            Some(p) => match parse_u16(p.as_str()) {
                Some(v) => v,
                None => 8080,
            },
            None => 8080,
        };
        if port_val == 0 {
            return Err(String::from_str("PORT cannot be 0"));
        }
    }
    Ok(())
}

/// Per-tool remote configuration.
#[derive(Debug)]
pub struct ToolConfig {
    pub base_url: Option<String>,
    pub request_timeout_ms: Option<u64>,
    pub retries: Option<u32>,
    pub concurrency_limit: Option<usize>,
}

/// The view of an optional string.
pub open spec fn sp_opt_str(o: Option<String>) -> Option<Seq<char>> {
    match o {
        Some(s) => Some(s@),
        None => None,
    }
}

impl ToolConfig {
    /// An empty configuration: nothing set.
    pub fn empty() -> (c: ToolConfig)
        ensures
            c.base_url is None,
            c.request_timeout_ms is None,
            c.retries is None,
            c.concurrency_limit is None,
    {
        ToolConfig {
            base_url: None,
            request_timeout_ms: None,
            retries: None,
            concurrency_limit: None,
        }
    }

    /// Field-wise preference of the first configuration over the second:
    /// how environment values override file values.
    pub fn merged(env: &ToolConfig, file: &ToolConfig) -> (c: ToolConfig)
        ensures
            sp_opt_str(c.base_url) == (if env.base_url is Some {
                sp_opt_str(env.base_url)
            } else {
                sp_opt_str(file.base_url)
            }),
            c.request_timeout_ms == (if env.request_timeout_ms is Some {
                env.request_timeout_ms
            } else {
                file.request_timeout_ms
            }),
            c.retries == (if env.retries is Some {
                env.retries
            } else {
                file.retries
            }),
            c.concurrency_limit == (if env.concurrency_limit is Some {
                env.concurrency_limit
            } else {
                file.concurrency_limit
            }),
    {
        ToolConfig {
            base_url: match &env.base_url {
                Some(s) => Some(s.clone()),
                None => match &file.base_url {
                    Some(s) => Some(s.clone()),
                    None => None,
                },
            },
            request_timeout_ms: if env.request_timeout_ms.is_some() {
                env.request_timeout_ms
            } else {
                file.request_timeout_ms
            },
            retries: if env.retries.is_some() {
                env.retries
            } else {
                file.retries
            },
            concurrency_limit: if env.concurrency_limit.is_some() {
                env.concurrency_limit
            } else {
                file.concurrency_limit
            },
        }
    }
}

/// The configuration for both remote-backed capabilities.
#[derive(Debug)]
pub struct AppConfig {
    pub grammar: ToolConfig,
    pub spell: ToolConfig,
}

impl AppConfig {
    /// An empty configuration.
    pub fn empty() -> (c: AppConfig)
        ensures
            c.grammar.base_url is None,
            c.spell.base_url is None,
    {
        AppConfig { grammar: ToolConfig::empty(), spell: ToolConfig::empty() }
    }
}

} // verus!
