//! Reading the run's numeric configuration out of raw text: sample count,
//! per-sample time step, worker override.

use vstd::prelude::*;

use crate::errors::ConfigError;
use crate::floatlit::float_literal;
use crate::floatlit::is_float_literal;
use crate::text::is_uint_literal;
use crate::text::parse_usize;
use crate::text::spec_trim;
use crate::text::spec_uint_val;
use crate::text::trim;

verus! {

/// Read a sample count from the raw contents of a metadata file: the text
/// is trimmed, then must be an unsigned decimal literal that fits the
/// machine.
pub fn parse_count(raw: &str) -> (r: Result<usize, ConfigError>)
    ensures
        r is Ok <==> is_uint_literal(spec_trim(raw@)) && spec_uint_val(spec_trim(raw@))
            <= usize::MAX,
        r is Ok ==> r->Ok_0 == spec_uint_val(spec_trim(raw@)),
        r is Err ==> r->Err_0 == ConfigError::ParseInt,
{
    let t = trim(raw);
    match parse_usize(t.as_str()) {
        Some(n) => Ok(n),
        None => Err(ConfigError::ParseInt),
    }
}

/// Read an explicit worker count, exactly as given: an unsigned decimal
/// literal that fits the machine, untrimmed.
pub fn parse_worker_override(arg: &str) -> (r: Result<usize, ConfigError>)
    ensures
        r is Ok <==> is_uint_literal(arg@) && spec_uint_val(arg@) <= usize::MAX,
        r is Ok ==> r->Ok_0 == spec_uint_val(arg@),
        r is Err ==> r->Err_0 == ConfigError::ParseInt,
{
    match parse_usize(arg) {
        Some(n) => Ok(n),
        None => Err(ConfigError::ParseInt),
    }
}

/// Read the per-sample time step from the raw contents of a metadata file:
/// the text is trimmed, then must be a floating-point literal.  The token
/// is returned as validated text; its numeric value stays with the caller.
pub fn validate_time_token(raw: &str) -> (r: Result<String, ConfigError>)
    ensures
        r is Ok <==> is_float_literal(spec_trim(raw@)),
        r is Ok ==> r->Ok_0@ == spec_trim(raw@),
        r is Err ==> r->Err_0 == ConfigError::ParseFloat,
{
    let t = trim(raw);
    if float_literal(t.as_str()) {
        Ok(t)
    } else {
        Err(ConfigError::ParseFloat)
    }
}

} // verus!
