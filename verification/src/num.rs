//! Parsing numeric flag values into bounded unsigned integers.
//!
//! A value is accepted exactly when it is an optional leading `+`
//! followed by one or more decimal digits whose value fits the target
//! type; anything else fails with `InvalidArgument`.

use vstd::prelude::*;

use crate::errors::ConfigError;
use crate::errors::IntKind;
use crate::text::all_digits;
use crate::text::dec_val;
use crate::text::parse_dec;

verus! {

/// The digits of a numeral after the optional leading plus sign.
pub open spec fn uint_body(s: Seq<char>) -> Seq<char> {
    if s.len() >= 1 && s[0] == '+' {
        s.drop_first()
    } else {
        s
    }
}

/// `s` parses as an unsigned integer no greater than `max`: an optional
/// leading `+`, then one or more decimal digits, value in range.
pub open spec fn parses_as_uint(s: Seq<char>, max: int) -> bool {
    uint_body(s).len() >= 1 && all_digits(uint_body(s)) && dec_val(uint_body(s)) <= max
}

fn parse_uint(s: &str, max: u64) -> (r: Option<u64>)
    requires
        max <= 0xFFFF_FFFF,
    ensures
        r is Some <==> parses_as_uint(s@, max as int),
        r is Some ==> r->0 as int == dec_val(uint_body(s@)),
{
    let n: usize = s.unicode_len();
    if n >= 1 && s.get_char(0) == '+' {
        let body = s.substring_char(1, n);
        proof {
            assert(body@ =~= uint_body(s@));
        }
        parse_dec(body, max)
    } else {
        proof {
            assert(s@ =~= uint_body(s@));
        }
        parse_dec(s, max)
    }
}

/// Parse a 16-bit unsigned flag value, or report the offending value.
pub fn parse_u16(s: &str) -> (r: Result<u16, ConfigError>)
    ensures
        parses_as_uint(s@, u16::MAX as int) ==> (r matches Ok(v) && v as int == dec_val(
            uint_body(s@),
        )),
        !parses_as_uint(s@, u16::MAX as int) ==> (r matches Err(ConfigError::InvalidArgument {
            value,
            target,
        }) && value@ == s@ && target == IntKind::Unsigned16),
{
    match parse_uint(s, 0xFFFF) {
        Some(v) => Ok(v as u16),
        None => Err(
            ConfigError::InvalidArgument { value: s.to_owned(), target: IntKind::Unsigned16 },
        ),
    }
}

/// Parse a 32-bit unsigned flag value, or report the offending value.
pub fn parse_u32(s: &str) -> (r: Result<u32, ConfigError>)
    ensures
        parses_as_uint(s@, u32::MAX as int) ==> (r matches Ok(v) && v as int == dec_val(
            uint_body(s@),
        )),
        !parses_as_uint(s@, u32::MAX as int) ==> (r matches Err(ConfigError::InvalidArgument {
            value,
            target,
        }) && value@ == s@ && target == IntKind::Unsigned32),
{
    match parse_uint(s, 0xFFFF_FFFF) {
        Some(v) => Ok(v as u32),
        None => Err(
            ConfigError::InvalidArgument { value: s.to_owned(), target: IntKind::Unsigned32 },
        ),
    }
}

} // verus!
