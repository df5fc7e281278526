use spatialbench_zone::batch::RowBatch;
use spatialbench_zone::config::{Compression, ConfigError, ZoneDfArgs};
use spatialbench_zone::partition::PartitionStrategy;
use spatialbench_zone::plan::{plan_generation, GenerationMode, OutputFormat};
use spatialbench_zone::text::{dec_string, dec_string_signed};
use spatialbench_zone::transform::{ColumnType, ZoneTransformer};

fn args(output_dir: &str, parts: i32, part: i32) -> ZoneDfArgs {
    ZoneDfArgs::new(
        output_dir.to_string(),
        parts,
        part,
        128 * 1024 * 1024,
        Compression::Snappy,
    )
}

#[test]
fn test_partition_distribution() {
    let total_rows = 100i64;
    let parts = 3;

    let mut collected_rows = Vec::new();
    let mut collected_offsets = Vec::new();

    for part in 1..=parts {
        let strategy = PartitionStrategy::calculate(total_rows, parts, part);
        collected_rows.push(strategy.limit);
        collected_offsets.push(strategy.offset);
    }

    assert_eq!(collected_rows.iter().sum::<i64>(), total_rows);
    assert_eq!(collected_offsets[0], 0);

    for i in 1..parts as usize {
        let expected_offset = collected_offsets[i - 1] + collected_rows[i - 1];
        assert_eq!(collected_offsets[i], expected_offset);
    }
}

#[test]
fn test_partition_ranges_hundred_rows() {
    let expected = [(0, 34), (34, 33), (67, 33)];
    for part in 1..=3 {
        let s = PartitionStrategy::calculate(100, 3, part);
        assert_eq!((s.offset, s.limit), expected[(part - 1) as usize]);
    }
}

#[test]
fn test_partition_ranges_seven_rows() {
    let expected = [(0, 3), (3, 2), (5, 2)];
    for part in 1..=3 {
        let s = PartitionStrategy::calculate(7, 3, part);
        assert_eq!((s.offset, s.limit), expected[(part - 1) as usize]);
    }
}

#[test]
fn test_partition_fewer_rows_than_parts() {
    let expected = [(0, 1), (1, 1), (2, 0), (2, 0), (2, 0)];
    for part in 1..=5 {
        let s = PartitionStrategy::calculate(2, 5, part);
        assert_eq!((s.offset, s.limit), expected[(part - 1) as usize]);
    }
}

#[test]
fn test_partition_single_part() {
    let s = PartitionStrategy::calculate(41, 1, 1);
    assert_eq!(s.offset(), 0);
    assert_eq!(s.limit(), 41);
}

#[test]
fn test_partition_zero_rows() {
    for part in 1..=4 {
        let s = PartitionStrategy::calculate(0, 4, part);
        assert_eq!(s.offset, 0);
        assert_eq!(s.limit, 0);
    }
}

#[test]
fn test_partition_idempotent() {
    for &(n, k) in &[(100i64, 3i32), (7, 3), (0, 1), (5, 8)] {
        for part in 1..=k {
            let a = PartitionStrategy::calculate(n, k, part);
            let b = PartitionStrategy::calculate(n, k, part);
            assert_eq!(a.offset, b.offset);
            assert_eq!(a.limit, b.limit);
        }
    }
}

#[test]
fn test_limit_is_base_or_base_plus_one() {
    for &(n, k) in &[(100i64, 7i32), (13, 4), (9, 9), (3, 10), (1000, 13)] {
        let base = n / (k as i64);
        for part in 1..=k {
            let s = PartitionStrategy::calculate(n, k, part);
            assert!(s.limit == base || s.limit == base + 1);
        }
    }
}

#[test]
fn test_validate_part_zero_fails() {
    let r = args("out", 3, 0).validate();
    assert_eq!(r, Err(ConfigError::InvalidPart { part: 0, parts: 3 }));
}

#[test]
fn test_validate_part_too_large_fails() {
    let r = args("out", 3, 4).validate();
    assert_eq!(r, Err(ConfigError::InvalidPart { part: 4, parts: 3 }));
}

#[test]
fn test_validate_part_in_range_succeeds() {
    assert_eq!(args("out", 3, 2).validate(), Ok(()));
    assert_eq!(args("out", 3, 1).validate(), Ok(()));
    assert_eq!(args("out", 3, 3).validate(), Ok(()));
}

#[test]
fn test_invalid_part_message() {
    let e = args("out", 3, 0).validate().unwrap_err();
    assert_eq!(e.message(), "Invalid --part=0 for --parts=3");
}

#[test]
fn test_output_filename_single_part() {
    let a = args("/data/bench", 1, 1);
    assert_eq!(a.output_filename(), "/data/bench/zone.parquet");
}

#[test]
fn test_output_filename_multi_part() {
    let a = args("/data/bench", 4, 3);
    assert_eq!(a.output_filename(), "/data/bench/zone/zone.3.parquet");
}

#[test]
fn test_output_filename_two_digit_part() {
    let a = args("out", 15, 12);
    assert_eq!(a.output_filename(), "out/zone/zone.12.parquet");
}

#[test]
fn test_dec_string() {
    assert_eq!(dec_string(0), "0");
    assert_eq!(dec_string(7), "7");
    assert_eq!(dec_string(12345), "12345");
    assert_eq!(dec_string(1000), "1000");
    assert_eq!(dec_string_signed(-42), "-42");
    assert_eq!(dec_string_signed(42), "42");
}

fn batch_of(values: &[i64]) -> RowBatch {
    RowBatch::new_i64("id", values.to_vec())
}

fn collect_values(batches: &[RowBatch]) -> Vec<i64> {
    let mut all = Vec::new();
    for b in batches {
        let mut v = b.values_i64().expect("an integer batch");
        assert_eq!(v.len(), b.num_rows());
        all.append(&mut v);
    }
    all
}

#[test]
fn test_row_batch_roundtrip() {
    let b = batch_of(&[10, 20, 30]);
    assert_eq!(b.num_rows(), 3);
    assert_eq!(b.values_i64(), Some(vec![10, 20, 30]));
}

#[test]
fn test_row_batch_slice_is_subrange() {
    let b = batch_of(&[10, 20, 30, 40, 50]);
    let s = b.slice(1, 3);
    assert_eq!(s.num_rows(), 3);
    assert_eq!(s.values_i64(), Some(vec![20, 30, 40]));
}

#[test]
fn test_apply_to_batches_slices_middle_part() {
    let batches = vec![
        batch_of(&[100, 101, 102, 103]),
        batch_of(&[104, 105, 106]),
        batch_of(&[107, 108, 109]),
    ];
    let s = PartitionStrategy::calculate(10, 3, 2);
    assert_eq!((s.offset, s.limit), (4, 3));
    let out = s.apply_to_batches(&batches);
    assert_eq!(collect_values(&out), vec![104, 105, 106]);
}

#[test]
fn test_apply_to_batches_spans_batches() {
    let batches = vec![
        batch_of(&[100, 101, 102, 103]),
        batch_of(&[104, 105, 106]),
        batch_of(&[107, 108, 109]),
    ];
    let s = PartitionStrategy::calculate(10, 4, 2);
    assert_eq!((s.offset, s.limit), (3, 3));
    let out = s.apply_to_batches(&batches);
    assert_eq!(collect_values(&out), vec![103, 104, 105]);
}

#[test]
fn test_apply_to_batches_emits_no_empty_batch() {
    let batches = vec![
        batch_of(&[1, 2]),
        batch_of(&[]),
        batch_of(&[3, 4, 5]),
        batch_of(&[6]),
    ];
    let s = PartitionStrategy { offset: 2, limit: 3 };
    let out = s.apply_to_batches(&batches);
    assert_eq!(collect_values(&out), vec![3, 4, 5]);
    for b in &out {
        assert!(b.num_rows() > 0);
    }
}

#[test]
fn test_apply_to_batches_range_past_end_is_clamped() {
    let batches = vec![batch_of(&[1, 2, 3])];
    let s = PartitionStrategy { offset: 2, limit: 10 };
    assert_eq!(collect_values(&s.apply_to_batches(&batches)), vec![3]);
    let s = PartitionStrategy { offset: 7, limit: 2 };
    assert_eq!(collect_values(&s.apply_to_batches(&batches)), Vec::<i64>::new());
}

#[test]
fn test_apply_to_batches_empty_input() {
    let batches: Vec<RowBatch> = Vec::new();
    let s = PartitionStrategy::calculate(0, 3, 2);
    let out = s.apply_to_batches(&batches);
    assert!(out.is_empty());
}

#[test]
fn test_appliers_produce_identical_rows() {
    let rows: Vec<i64> = (0..23).map(|v| 1000 + v).collect();
    let batches = vec![
        batch_of(&rows[0..5]),
        batch_of(&rows[5..6]),
        batch_of(&rows[6..17]),
        batch_of(&rows[17..23]),
    ];
    for parts in [1, 2, 5, 23, 30] {
        for part in 1..=parts {
            let s = PartitionStrategy::calculate(rows.len() as i64, parts, part);
            let sliced = collect_values(&s.apply_to_batches(&batches));
            let pushed = s.apply_to_rows(&rows);
            assert_eq!(sliced, pushed);
        }
    }
}

#[test]
fn test_parts_reassemble_to_full_sequence() {
    let rows: Vec<i64> = (0..17).map(|v| 500 - v).collect();
    let batches = vec![
        batch_of(&rows[0..4]),
        batch_of(&rows[4..12]),
        batch_of(&rows[12..17]),
    ];
    for parts in [1, 2, 3, 6, 17, 20] {
        let mut reassembled = Vec::new();
        for part in 1..=parts {
            let s = PartitionStrategy::calculate(rows.len() as i64, parts, part);
            reassembled.extend(collect_values(&s.apply_to_batches(&batches)));
        }
        assert_eq!(reassembled, rows);
    }
}

#[test]
fn test_zone_keys_values() {
    let t = ZoneTransformer::new(34);
    assert_eq!(t.zone_keys(3), vec![35, 36, 37]);
    let t = ZoneTransformer::new(0);
    assert_eq!(t.zone_keys(4), vec![1, 2, 3, 4]);
    assert_eq!(t.zone_keys(0), Vec::<i64>::new());
}

#[test]
fn test_zone_keys_contiguous_across_parts() {
    let total = 10i64;
    for parts in [1i32, 3, 4, 10, 12] {
        let mut keys = Vec::new();
        for part in 1..=parts {
            let s = PartitionStrategy::calculate(total, parts, part);
            let t = ZoneTransformer::new(s.offset());
            keys.extend(t.zone_keys(s.limit()));
        }
        let expected: Vec<i64> = (1..=total).collect();
        assert_eq!(keys, expected);
    }
}

#[test]
fn test_sql_text() {
    let t = ZoneTransformer::new(67);
    let expected = "SELECT CAST(ROW_NUMBER() OVER (ORDER BY id) + 67 AS BIGINT) AS z_zonekey, \
        COALESCE(id, '') AS z_gersid, COALESCE(country, '') AS z_country, \
        COALESCE(region, '') AS z_region, COALESCE(names.primary, '') AS z_name, \
        COALESCE(subtype, '') AS z_subtype, geometry AS z_boundary FROM zone_filtered";
    assert_eq!(t.sql_text(), expected);
}

#[test]
fn test_column_mappings() {
    let t = ZoneTransformer::new(0);
    let m = t.column_mappings();
    let got: Vec<(&str, &str, bool)> =
        m.iter().map(|c| (c.output, c.source, c.default_empty)).collect();
    assert_eq!(
        got,
        vec![
            ("z_gersid", "id", true),
            ("z_country", "country", true),
            ("z_region", "region", true),
            ("z_name", "names.primary", true),
            ("z_subtype", "subtype", true),
            ("z_boundary", "geometry", false),
        ]
    );
}

#[test]
fn test_output_columns() {
    let t = ZoneTransformer::new(0);
    let cols = t.output_columns();
    assert_eq!(
        cols,
        vec![
            ("z_zonekey", ColumnType::BigInt),
            ("z_gersid", ColumnType::Utf8),
            ("z_country", ColumnType::Utf8),
            ("z_region", ColumnType::Utf8),
            ("z_name", ColumnType::Utf8),
            ("z_subtype", ColumnType::Utf8),
            ("z_boundary", ColumnType::Geometry),
        ]
    );
}

#[test]
fn test_plan_generation_rejects_other_formats() {
    assert_eq!(
        plan_generation(OutputFormat::Csv, Some(3), Some(1)),
        Err(ConfigError::UnsupportedFormat)
    );
    assert_eq!(
        plan_generation(OutputFormat::Tbl, None, None),
        Err(ConfigError::UnsupportedFormat)
    );
}

#[test]
fn test_plan_generation_modes() {
    assert_eq!(
        plan_generation(OutputFormat::Parquet, Some(4), Some(2)),
        Ok(GenerationMode::SinglePart { parts: 4, part: 2 })
    );
    assert_eq!(
        plan_generation(OutputFormat::Parquet, Some(4), None),
        Ok(GenerationMode::AllParts { parts: 4 })
    );
    assert_eq!(
        plan_generation(OutputFormat::Parquet, None, Some(1)),
        Ok(GenerationMode::SinglePart { parts: 1, part: 1 })
    );
    assert_eq!(
        plan_generation(OutputFormat::Parquet, None, None),
        Ok(GenerationMode::AllParts { parts: 1 })
    );
}

#[test]
fn test_unsupported_format_message() {
    let e = plan_generation(OutputFormat::Csv, None, None).unwrap_err();
    assert_eq!(e.message(), "Zone table is only supported in --format=parquet.");
}
