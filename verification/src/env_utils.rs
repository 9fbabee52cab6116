//! Decisions about the process environment and the logging configuration:
//! which value a configuration variable resolves to, where the application's
//! data directory stands, and what the logging limits are. The caller reads
//! the actual environment and hands the raw values over.

use vstd::prelude::*;
use crate::paths::join_spec;
use crate::paths::join_str;
use crate::text::chars_to_string;
use crate::text::dec_val;
use crate::text::digits_body;
use crate::text::is_valid_dec;
use crate::text::parse_usize;
use crate::text::push_str_chars;
use crate::text::str_to_chars;

verus! {

/// A private configuration value: the value baked in at build time wins,
/// else the runtime environment's value, else an error naming the variable.
pub fn get_private_env_var(key: &str, baked: Option<String>, runtime: Option<String>) -> (r:
    Result<String, String>)
    ensures
        match baked {
            Some(b) => r matches Ok(v) && v == b,
            None => match runtime {
                Some(e) => r matches Ok(v) && v == e,
                None => r matches Err(m) && m@ == "Environment variable '"@ + key@
                    + "' not found"@,
            },
        },
{
    match baked {
        Some(b) => Ok(b),
        None => match runtime {
            Some(e) => Ok(e),
            None => {
                let mut v: Vec<char> = Vec::new();
                push_str_chars(&mut v, "Environment variable '");
                push_str_chars(&mut v, key);
                push_str_chars(&mut v, "' not found");
                Err(chars_to_string(&v))
            },
        },
    }
}

/// The name the application data directory is keyed by, when none is
/// configured.
pub open spec fn default_app_name() -> Seq<char> {
    "MightyPieRevamped"@
}

/// The application's data directory: the local application-data root (or
/// the roaming one, or the current directory) joined with the application
/// name.
pub open spec fn app_data_dir_spec(
    app_name: Option<Seq<char>>,
    local_app_data: Option<Seq<char>>,
    app_data: Option<Seq<char>>,
) -> Seq<char> {
    let base = match local_app_data {
        Some(l) => l,
        None => match app_data {
            Some(a) => a,
            None => "."@,
        },
    };
    let name = match app_name {
        Some(n) => n,
        None => default_app_name(),
    };
    join_spec(base, name)
}

/// Resolve the application data directory, as `app_data_dir_spec` describes.
pub fn get_app_data_dir(
    app_name: Option<String>,
    local_app_data: Option<String>,
    app_data: Option<String>,
) -> (r: String)
    ensures
        r@ == app_data_dir_spec(
            match app_name {
                Some(n) => Some(n@),
                None => None,
            },
            match local_app_data {
                Some(l) => Some(l@),
                None => None,
            },
            match app_data {
                Some(a) => Some(a@),
                None => None,
            },
        ),
{
    let base = match local_app_data {
        Some(l) => l,
        None => match app_data {
            Some(a) => a,
            None => {
                let mut v: Vec<char> = Vec::new();
                v.push('.');
                assert(v@ =~= "."@) by {
                    reveal_strlit(".");
                }
                chars_to_string(&v)
            },
        },
    };
    let name = match app_name {
        Some(n) => n,
        None => {
            let mut v: Vec<char> = Vec::new();
            push_str_chars(&mut v, "MightyPieRevamped");
            chars_to_string(&v)
        },
    };
    join_str(base.as_str(), name.as_str())
}

/// The log directory: `logs` under the application data directory.
pub fn get_log_dir_for(app_data_dir: &str) -> (r: String)
    ensures
        r@ == join_spec(app_data_dir@, "logs"@),
{
    join_str(app_data_dir, "logs")
}

/// What a configuration variable holding a number resolves to: its decimal
/// value when it parses and fits, else the default.
pub open spec fn usize_config_spec(val: Option<Seq<char>>, default: int) -> int {
    match val {
        Some(s) => if is_valid_dec(s) && dec_val(digits_body(s)) <= usize::MAX {
            dec_val(digits_body(s))
        } else {
            default
        },
        None => default,
    }
}

/// Parse a numeric configuration value, as `usize_config_spec` describes.
pub fn usize_config(val: Option<String>, default: usize) -> (r: usize)
    ensures
        r == usize_config_spec(
            match val {
                Some(s) => Some(s@),
                None => None,
            },
            default as int,
        ),
{
    match val {
        Some(s) => {
            let chars = str_to_chars(s.as_str());
            match parse_usize(&chars) {
                Some(v) => v,
                None => default,
            }
        },
        None => default,
    }
}

/// The in-memory log buffer's capacity: the configured entry count, or 1000.
pub fn log_buffer_capacity(val: Option<String>) -> (r: usize)
    ensures
        r == usize_config_spec(
            match val {
                Some(s) => Some(s@),
                None => None,
            },
            1000,
        ),
{
    usize_config(val, 1000)
}

/// The size past which the log file rotates: the configured number of
/// kibibytes, capped so the byte count fits, or one mebibyte.
pub fn max_log_size_bytes(val: Option<String>) -> (r: usize)
    ensures
        ({
            let kb = usize_config_spec(
                match val {
                    Some(s) => Some(s@),
                    None => None,
                },
                1024,
            );
            r == (if kb * 1024 <= usize::MAX {
                kb * 1024
            } else {
                1048576int
            })
        }),
{
    let kb = usize_config(val, 1024);
    if kb <= usize::MAX / 1024 {
        proof {
            assert((usize::MAX / 1024) * 1024 <= usize::MAX) by (nonlinear_arith);
            assert(kb * 1024 <= (usize::MAX / 1024) * 1024) by (nonlinear_arith)
                requires
                    kb <= usize::MAX / 1024,
            ;
        }
        kb * 1024
    } else {
        proof {
            assert(kb * 1024 > usize::MAX) by (nonlinear_arith)
                requires
                    kb > usize::MAX / 1024,
            ;
        }
        1024 * 1024
    }
}

/// How many rotated log files are kept: the configured count, or 5.
pub fn max_log_files(val: Option<String>) -> (r: usize)
    ensures
        r == usize_config_spec(
            match val {
                Some(s) => Some(s@),
                None => None,
            },
            5,
        ),
{
    usize_config(val, 5)
}

/// The console verbosity threshold: the configured level name, or `info`.
/// The buffer and the file record every entry regardless.
pub fn get_log_level(configured: Option<String>) -> (r: String)
    ensures
        match configured {
            Some(s) => r == s,
            None => r@ == "info"@,
        },
{
    match configured {
        Some(s) => s,
        None => {
            let mut v: Vec<char> = Vec::new();
            push_str_chars(&mut v, "info");
            chars_to_string(&v)
        },
    }
}

} // verus!
