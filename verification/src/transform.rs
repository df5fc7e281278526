//! Mapping of a part-restricted row sequence into the output schema of the
//! zone table.
//!
//! Each row is numbered 1-based within its part in the declared row order
//! and the part's global offset is added, so `z_zonekey` is contiguous and
//! unique across all parts of one dataset. The attribute columns are a
//! declarative mapping, one source expression per output column, with
//! absent string sources defaulting to the empty string; the geometry
//! passes through unchanged.

use crate::partition::{
    lemma_partition_in_bounds, lemma_last_range_ends_at_total, lemma_ranges_contiguous,
    part_limit, part_offset,
};
use crate::text::{dec_string, spec_dec};
use vstd::prelude::*;
use vstd::string::StringExecFns;

verus! {

/// The `z_zonekey` values of one part: `off + 1 .. off + cnt`, in row
/// order.
pub open spec fn key_seq(off: int, cnt: int) -> Seq<int>
    recommends
        0 <= cnt,
{
    Seq::new(cnt as nat, |j: int| off + j + 1)
}

/// The key sequences of the 0-based parts `0 .. k`, concatenated in part
/// order, for `total` rows split into `parts` parts.
pub open spec fn keys_concat(total: int, parts: int, k: int) -> Seq<int>
    decreases k,
{
    if k <= 0 {
        Seq::empty()
    } else {
        keys_concat(total, parts, k - 1) + key_seq(
            part_offset(total, parts, k - 1),
            part_limit(total, parts, k - 1),
        )
    }
}

/// The keys of the parts `0 .. k` form the contiguous integers
/// `1 .. part_offset(k)`: each part continues exactly where the previous
/// one stopped.
pub proof fn lemma_keys_concat_prefix(total: int, parts: int, k: int)
    requires
        total >= 0,
        parts >= 1,
        0 <= k <= parts,
    ensures
        keys_concat(total, parts, k) == key_seq(0, part_offset(total, parts, k)),
    decreases k,
{
    if k == 0 {
        lemma_ranges_contiguous(total, parts, 0);
        assert(keys_concat(total, parts, 0) =~= key_seq(0, part_offset(total, parts, 0)));
    } else {
        lemma_keys_concat_prefix(total, parts, k - 1);
        lemma_ranges_contiguous(total, parts, k - 1);
        lemma_partition_in_bounds(total, parts, k - 1);
        assert(key_seq(0, part_offset(total, parts, k)) =~= key_seq(
            0,
            part_offset(total, parts, k - 1),
        ) + key_seq(part_offset(total, parts, k - 1), part_limit(total, parts, k - 1)));
    }
}

/// Across all parts of one dataset, the `z_zonekey` values form the
/// contiguous integer sequence `1 .. total`, with no gap and no duplicate,
/// whichever way the parts are produced.
pub proof fn lemma_keys_contiguous(total: int, parts: int)
    requires
        total >= 0,
        parts >= 1,
    ensures
        keys_concat(total, parts, parts) == key_seq(0, total),
{
    lemma_keys_concat_prefix(total, parts, parts);
    lemma_last_range_ends_at_total(total, parts);
}

/// Output column types of the zone table: the key is a 64-bit integer, the
/// attributes are strings, the boundary is a geometry passed through
/// unchanged.
#[derive(Clone, Copy, Debug, PartialEq, Eq, Structural)]
pub enum ColumnType {
    BigInt,
    Utf8,
    Geometry,
}

/// One declarative column derivation: an output column name and the source
/// expression it is derived from; a string source that is absent or null
/// defaults to the empty string when `default_empty` is set.
pub struct ColumnMapping {
    pub output: &'static str,
    pub source: &'static str,
    pub default_empty: bool,
}

/// Maps a row source already restricted to one part's range into the
/// output schema, assigning each row its global key from this part's
/// offset.
pub struct ZoneTransformer {
    pub offset: i64,
}

impl ZoneTransformer {
    /// A transformer for the part whose range starts at global row
    /// `offset`.
    pub fn new(offset: i64) -> (r: Self)
        ensures
            r.offset == offset,
    {
        Self { offset }
    }

    /// The `z_zonekey` column of this part: rows are numbered `1 .. count`
    /// in the declared order and shifted by the part's global offset.
    pub fn zone_keys(&self, count: i64) -> (r: Vec<i64>)
        requires
            0 <= count,
            0 <= self.offset,
            self.offset + count <= i64::MAX,
        ensures
            r@.map_values(|k: i64| k as int) == key_seq(self.offset as int, count as int),
    {
        let mut keys: Vec<i64> = Vec::new();
        let mut i: i64 = 0;
        while i < count
            invariant
                0 <= i <= count,
                0 <= self.offset,
                self.offset + count <= i64::MAX,
                keys@.len() == i as int,
                forall|j: int| 0 <= j < i ==> keys@[j] as int == self.offset + j + 1,
            decreases count - i,
        {
            keys.push(self.offset + i + 1);
            i = i + 1;
        }
        proof {
            assert(keys@.map_values(|k: i64| k as int) =~= key_seq(
                self.offset as int,
                count as int,
            ));
        }
        keys
    }

    /// The declarative attribute mappings of the zone table, in output
    /// column order; the key column is assigned separately from the part's
    /// offset, and the boundary passes through unchanged.
    pub fn column_mappings(&self) -> (r: Vec<ColumnMapping>)
        ensures
            r@.len() == 6,
            r@[0].output@ == "z_gersid"@ && r@[0].source@ == "id"@ && r@[0].default_empty,
            r@[1].output@ == "z_country"@ && r@[1].source@ == "country"@ && r@[1].default_empty,
            r@[2].output@ == "z_region"@ && r@[2].source@ == "region"@ && r@[2].default_empty,
            r@[3].output@ == "z_name"@ && r@[3].source@ == "names.primary"@
                && r@[3].default_empty,
            r@[4].output@ == "z_subtype"@ && r@[4].source@ == "subtype"@ && r@[4].default_empty,
            r@[5].output@ == "z_boundary"@ && r@[5].source@ == "geometry"@
                && !r@[5].default_empty,
    {
        let mut m: Vec<ColumnMapping> = Vec::new();
        m.push(ColumnMapping { output: "z_gersid", source: "id", default_empty: true });
        m.push(ColumnMapping { output: "z_country", source: "country", default_empty: true });
        m.push(ColumnMapping { output: "z_region", source: "region", default_empty: true });
        m.push(ColumnMapping { output: "z_name", source: "names.primary", default_empty: true });
        m.push(ColumnMapping { output: "z_subtype", source: "subtype", default_empty: true });
        m.push(ColumnMapping { output: "z_boundary", source: "geometry", default_empty: false });
        m
    }

    /// The output schema of the zone table, column names and types in
    /// order, exposed without materializing any row.
    pub fn output_columns(&self) -> (r: Vec<(&'static str, ColumnType)>)
        ensures
            r@.len() == 7,
            r@[0].0@ == "z_zonekey"@ && r@[0].1 == ColumnType::BigInt,
            r@[1].0@ == "z_gersid"@ && r@[1].1 == ColumnType::Utf8,
            r@[2].0@ == "z_country"@ && r@[2].1 == ColumnType::Utf8,
            r@[3].0@ == "z_region"@ && r@[3].1 == ColumnType::Utf8,
            r@[4].0@ == "z_name"@ && r@[4].1 == ColumnType::Utf8,
            r@[5].0@ == "z_subtype"@ && r@[5].1 == ColumnType::Utf8,
            r@[6].0@ == "z_boundary"@ && r@[6].1 == ColumnType::Geometry,
    {
        let mut c: Vec<(&'static str, ColumnType)> = Vec::new();
        c.push(("z_zonekey", ColumnType::BigInt));
        c.push(("z_gersid", ColumnType::Utf8));
        c.push(("z_country", ColumnType::Utf8));
        c.push(("z_region", ColumnType::Utf8));
        c.push(("z_name", ColumnType::Utf8));
        c.push(("z_subtype", ColumnType::Utf8));
        c.push(("z_boundary", ColumnType::Geometry));
        c
    }

    /// The SQL text that realizes the mapping on an engine, over a source
    /// table named `zone_filtered` already restricted to this part's
    /// range: it numbers the rows 1-based in the stable source order,
    /// shifts them by this part's offset, and derives the attribute
    /// columns.
    pub fn sql_text(&self) -> (r: String)
        requires
            self.offset >= 0,
        ensures
            r@ == spec_sql_text(self.offset as int),
    {
        let mut s: String =
            "SELECT CAST(ROW_NUMBER() OVER (ORDER BY id) + ".to_owned();
        let off = dec_string(self.offset as u64);
        s.append(off.as_str());
        s.append(
            " AS BIGINT) AS z_zonekey, COALESCE(id, '') AS z_gersid, COALESCE(country, '') AS z_country, COALESCE(region, '') AS z_region, COALESCE(names.primary, '') AS z_name, COALESCE(subtype, '') AS z_subtype, geometry AS z_boundary FROM zone_filtered",
        );
        s
    }
}

/// The SQL text owed for a part whose range starts at global row `off`.
pub open spec fn spec_sql_text(off: int) -> Seq<char> {
    "SELECT CAST(ROW_NUMBER() OVER (ORDER BY id) + "@ + spec_dec(off)
        + " AS BIGINT) AS z_zonekey, COALESCE(id, '') AS z_gersid, COALESCE(country, '') AS z_country, COALESCE(region, '') AS z_region, COALESCE(names.primary, '') AS z_name, COALESCE(subtype, '') AS z_subtype, geometry AS z_boundary FROM zone_filtered"@
}

} // verus!
