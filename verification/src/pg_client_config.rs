//! Settings of the connection pool. Reading the environment is the caller's
//! part: a function here takes the value of a variable, or `None` where the
//! variable is not set.

use vstd::prelude::*;

use crate::text;

verus! {

/// The pool ceiling this process may use, given the operator's figure and
/// the server's `max_connections`.
///
/// The server's limit is shared by every client of that server, so it can
/// only ever lower the operator's figure, never raise it. A server whose limit
/// could not be read leaves the figure alone.
pub fn effective_pool_max(requested: i32, server_max_connections: i32) -> (ceiling: i32)
    ensures
        ceiling == (if server_max_connections <= 0 || requested <= server_max_connections {
            requested
        } else {
            server_max_connections
        }),
        ceiling <= requested,
        server_max_connections > 0 ==> ceiling <= server_max_connections,
{
    if server_max_connections <= 0 {
        return requested;
    }
    if requested <= server_max_connections {
        requested
    } else {
        server_max_connections
    }
}

/// Whether a variable is set to something other than nothing and `0`.
pub fn env_nonzero(value: Option<&str>) -> (nonzero: bool)
    ensures
        nonzero <==> (value matches Some(v) && v@.len() > 0 && v@ != "0"@),
{
    match value {
        Some(v) => !v.is_empty() && !text::same_text(v, "0"),
        None => false,
    }
}

/// The positive number that a variable is set to, or `default_value` where it
/// is not set to one.
pub fn parse_positive_env_or_default(value: Option<&str>, default_value: i32) -> (n: i32)
    ensures
        n == match value {
            Some(v) => match text::parsed_i32(text::trimmed(v@)) {
                Some(k) => if k > 0 {
                    k
                } else {
                    default_value
                },
                None => default_value,
            },
            None => default_value,
        },
{
    match value {
        Some(v) => {
            let chars = text::to_chars(v);
            let inner = text::trim_chars(chars.as_slice());
            match text::parse_i32(inner.as_slice()) {
                Some(k) => if k > 0 {
                    k
                } else {
                    default_value
                },
                None => default_value,
            }
        },
        None => default_value,
    }
}

} // verus!
