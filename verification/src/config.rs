//! Request validation and output-path resolution for one invocation of the
//! zone generator.
//!
//! A request names the output root, how many parts the table is split into,
//! which 1-based part this invocation produces, and the writer hints (row
//! group byte threshold and compression codec). Validation rejects a part
//! index outside `[1, parts]` before any row is produced.

use crate::text::{dec_string, dec_string_signed, spec_dec, spec_dec_signed};
use vstd::prelude::*;
use vstd::string::StringExecFns;

verus! {

/// Compression codec selector handed to the columnar file writer, which
/// applies its own default level for the leveled codecs.
#[derive(Clone, Copy, Debug, PartialEq, Eq, Structural)]
pub enum Compression {
    Uncompressed,
    Snappy,
    Gzip,
    Lzo,
    Brotli,
    Lz4,
    Zstd,
    Lz4Raw,
}

/// A configuration fault, detected before any row is produced.
#[derive(Clone, Copy, Debug, PartialEq, Eq, Structural)]
pub enum ConfigError {
    /// The requested part index lies outside `[1, parts]`.
    InvalidPart { part: i32, parts: i32 },
    /// The zone table is only produced in the columnar file format.
    UnsupportedFormat,
}

/// The error text of a configuration fault.
pub open spec fn spec_error_message(e: ConfigError) -> Seq<char> {
    match e {
        ConfigError::InvalidPart { part, parts } => "Invalid --part="@ + spec_dec_signed(
            part as int,
        ) + " for --parts="@ + spec_dec_signed(parts as int),
        ConfigError::UnsupportedFormat => "Zone table is only supported in --format=parquet."@,
    }
}

impl ConfigError {
    /// Renders the fault for the caller's diagnostics.
    pub fn message(&self) -> (r: String)
        ensures
            r@ == spec_error_message(*self),
    {
        match self {
            ConfigError::InvalidPart { part, parts } => {
                let mut s: String = "Invalid --part=".to_owned();
                let p = dec_string_signed(*part as i64);
                s.append(p.as_str());
                s.append(" for --parts=");
                let k = dec_string_signed(*parts as i64);
                s.append(k.as_str());
                s
            },
            ConfigError::UnsupportedFormat => {
                "Zone table is only supported in --format=parquet.".to_owned()
            },
        }
    }
}

/// The resolved output path of one part: a dedicated `zone` subdirectory
/// with one numbered file per part when the table is split, a single
/// canonical file otherwise.
pub open spec fn spec_output_path(dir: Seq<char>, parts: int, part: int) -> Seq<char> {
    if parts > 1 {
        dir + "/zone/zone."@ + spec_dec(part) + ".parquet"@
    } else {
        dir + "/zone.parquet"@
    }
}

/// One invocation's request: output root, split shape, and writer hints.
#[derive(Clone)]
pub struct ZoneDfArgs {
    pub output_dir: String,
    pub parts: i32,
    pub part: i32,
    pub parquet_row_group_bytes: i64,
    pub parquet_compression: Compression,
}

impl ZoneDfArgs {
    /// Bundles a request; `validate` checks it before any work starts.
    pub fn new(
        output_dir: String,
        parts: i32,
        part: i32,
        parquet_row_group_bytes: i64,
        parquet_compression: Compression,
    ) -> (r: Self)
        ensures
            r.output_dir == output_dir,
            r.parts == parts,
            r.part == part,
            r.parquet_row_group_bytes == parquet_row_group_bytes,
            r.parquet_compression == parquet_compression,
    {
        Self { output_dir, parts, part, parquet_row_group_bytes, parquet_compression }
    }

    /// Accepts the request exactly when the part index lies in
    /// `[1, parts]`; rejects it with a configuration fault otherwise.
    pub fn validate(&self) -> (r: Result<(), ConfigError>)
        ensures
            r.is_ok() <==> 1 <= self.part <= self.parts,
            !(1 <= self.part <= self.parts) ==> r == Err::<(), ConfigError>(
                ConfigError::InvalidPart { part: self.part, parts: self.parts },
            ),
    {
        if self.part < 1 || self.part > self.parts {
            return Err(ConfigError::InvalidPart { part: self.part, parts: self.parts });
        }
        Ok(())
    }

    /// Resolves where this part's file goes, without touching the
    /// filesystem: `<root>/zone/zone.<part>.parquet` when the table is
    /// split into several parts, `<root>/zone.parquet` otherwise.
    pub fn output_filename(&self) -> (r: String)
        requires
            self.parts > 1 ==> self.part >= 1,
        ensures
            r@ == spec_output_path(self.output_dir@, self.parts as int, self.part as int),
    {
        let mut s = self.output_dir.clone();
        if self.parts > 1 {
            s.append("/zone/zone.");
            let num = dec_string(self.part as u64);
            s.append(num.as_str());
            s.append(".parquet");
        } else {
            s.append("/zone.parquet");
        }
        s
    }
}

} // verus!
