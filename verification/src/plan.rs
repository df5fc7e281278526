//! Choice of execution strategy for one invocation.
//!
//! The caller either names one part (only that part's rows are ever
//! materialized, via pushdown of the part's range into the row-producing
//! plan) or asks for all parts (the full row sequence is materialized once
//! and every part's range is sliced out of it in memory).

use crate::config::ConfigError;
use vstd::prelude::*;

verus! {

/// Output format requested for the table.
#[derive(Debug, Copy, Clone, PartialEq, Eq, Structural)]
pub enum OutputFormat {
    Tbl,
    Csv,
    Parquet,
}

/// The execution strategy chosen for one invocation.
#[derive(Debug, Copy, Clone, PartialEq, Eq, Structural)]
pub enum GenerationMode {
    /// Produce one named part; its range is pushed down into the
    /// not-yet-executed row-producing plan.
    SinglePart { parts: i32, part: i32 },
    /// Produce every part in one run; the full row sequence is
    /// materialized once and sliced per part.
    AllParts { parts: i32 },
}

/// The part count to use when the caller named none.
pub open spec fn spec_resolved_parts(parts: Option<i32>) -> i32 {
    match parts {
        Some(k) => k,
        None => 1,
    }
}

/// The strategy owed for a request: the zone table exists only in the
/// columnar file format; a named part selects single-part mode, no named
/// part selects multi-part mode; an absent part count defaults to 1.
pub open spec fn spec_plan(format: OutputFormat, parts: Option<i32>, part: Option<i32>) -> Result<
    GenerationMode,
    ConfigError,
> {
    if format != OutputFormat::Parquet {
        Err(ConfigError::UnsupportedFormat)
    } else {
        match part {
            Some(p) => Ok(
                GenerationMode::SinglePart { parts: spec_resolved_parts(parts), part: p },
            ),
            None => Ok(GenerationMode::AllParts { parts: spec_resolved_parts(parts) }),
        }
    }
}

/// Chooses the execution strategy for a request.
pub fn plan_generation(format: OutputFormat, parts: Option<i32>, part: Option<i32>) -> (r: Result<
    GenerationMode,
    ConfigError,
>)
    ensures
        r == spec_plan(format, parts, part),
{
    match format {
        OutputFormat::Parquet => {
            let resolved_parts: i32 = match parts {
                Some(k) => k,
                None => 1,
            };
            match part {
                Some(p) => Ok(GenerationMode::SinglePart { parts: resolved_parts, part: p }),
                None => Ok(GenerationMode::AllParts { parts: resolved_parts }),
            }
        },
        _ => Err(ConfigError::UnsupportedFormat),
    }
}

} // verus!
