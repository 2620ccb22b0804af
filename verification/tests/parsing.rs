use skyrender::ingest::{decode_shard, shard_action, ShardAction};
use skyrender::manifest::{cache_file_name, parse_manifest};
use skyrender::records::StarRecord;
use skyrender::rows::{
    extract_row_fields, parse_shard_rows, records_from_parsed, split_bytes, ParsedRow,
};
use std::io::Write;

/// A shard row with 131 comma-separated columns; the columns of interest
/// get the given texts, every other column is a placeholder.
fn wide_row(ra: &str, dec: &str, mag: &str, temp: &str) -> String {
    let mut cols: Vec<String> = (0..131).map(|i| format!("c{}", i)).collect();
    cols[5] = ra.to_string();
    cols[7] = dec.to_string();
    cols[69] = mag.to_string();
    cols[130] = temp.to_string();
    cols.join(",")
}

#[test]
fn split_keeps_empty_pieces() {
    let out = split_bytes(&b"a,,b,".to_vec(), b',');
    let views: Vec<&[u8]> = out.iter().map(|v| v.as_slice()).collect();
    assert_eq!(views, vec![b"a".as_slice(), b"", b"b", b""]);
}

#[test]
fn split_of_empty_is_one_empty_piece() {
    let out = split_bytes(&Vec::new(), b',');
    assert_eq!(out.len(), 1);
    assert!(out[0].is_empty());
}

#[test]
fn row_fields_come_from_fixed_columns() {
    let row = wide_row("10.5", "-3.25", "2.0", "5800");
    let fields = extract_row_fields(&row.into_bytes()).expect("enough columns");
    assert_eq!(fields.ra, b"10.5");
    assert_eq!(fields.dec, b"-3.25");
    assert_eq!(fields.mag, b"2.0");
    assert_eq!(fields.temp, b"5800");
}

#[test]
fn short_row_is_dropped_without_panic() {
    assert!(extract_row_fields(&b"a,b,c".to_vec()).is_none());
    assert!(extract_row_fields(&Vec::new()).is_none());
}

#[test]
fn shard_walk_skips_comments_header_and_garbage() {
    let mut text = String::new();
    text.push_str("# leading comment\n");
    text.push_str(&wide_row("head", "er", "row", "here"));
    text.push('\n');
    text.push_str("# interleaved comment\n");
    text.push_str(&wide_row("1.0", "2.0", "3.0", "4000"));
    text.push('\n');
    text.push('\n');
    text.push_str("too,short,row\n");
    text.push_str(&wide_row("5.0", "6.0", "7.0", ""));
    text.push('\n');
    let rows = parse_shard_rows(&text.into_bytes());
    assert_eq!(rows.len(), 2);
    assert_eq!(rows[0].ra, b"1.0");
    assert_eq!(rows[0].temp, b"4000");
    assert_eq!(rows[1].mag, b"7.0");
    assert_eq!(rows[1].temp, b"");
}

#[test]
fn decode_shard_decompresses_and_walks() {
    let mut text = String::new();
    text.push_str("header\n");
    text.push_str(&wide_row("0.5", "0.25", "-1.0", "9000"));
    text.push('\n');
    let mut enc = flate2::write::GzEncoder::new(Vec::new(), flate2::Compression::default());
    enc.write_all(text.as_bytes()).unwrap();
    let compressed = enc.finish().unwrap();
    assert_ne!(compressed, text.as_bytes());

    let rows = decode_shard(&compressed).expect("valid gzip");
    assert_eq!(rows.len(), 1);
    assert_eq!(rows[0].dec, b"0.25");
}

#[test]
fn decode_shard_rejects_garbage_stream() {
    assert!(decode_shard(&b"this is not a gzip stream".to_vec()).is_none());
}

#[test]
fn assembly_drops_rows_missing_required_fields() {
    let parsed = vec![
        ParsedRow {
            ra: Some(1.0f32.to_bits()),
            dec: Some(2.0f32.to_bits()),
            mag: Some(3.0f32.to_bits()),
            temp: Some(5800.0f32.to_bits()),
        },
        ParsedRow { ra: None, dec: Some(0), mag: Some(0), temp: Some(0) },
        ParsedRow { ra: Some(0), dec: Some(0), mag: None, temp: None },
        ParsedRow {
            ra: Some(4.0f32.to_bits()),
            dec: Some(5.0f32.to_bits()),
            mag: Some(6.0f32.to_bits()),
            temp: None,
        },
    ];
    let records = records_from_parsed(&parsed);
    assert_eq!(
        records,
        vec![
            StarRecord {
                ra_bits: 1.0f32.to_bits(),
                dec_bits: 2.0f32.to_bits(),
                mag_bits: 3.0f32.to_bits(),
                temp_bits: 5800.0f32.to_bits(),
            },
            StarRecord {
                ra_bits: 4.0f32.to_bits(),
                dec_bits: 5.0f32.to_bits(),
                mag_bits: 6.0f32.to_bits(),
                temp_bits: 0,
            },
        ]
    );
}

#[test]
fn missing_temperature_defaults_to_zero_bits() {
    let parsed = vec![ParsedRow {
        ra: Some(0),
        dec: Some(0),
        mag: Some(0),
        temp: None,
    }];
    let records = records_from_parsed(&parsed);
    assert_eq!(records[0].temp_bits, 0.0f32.to_bits());
}

#[test]
fn manifest_lines_give_checksum_and_filename() {
    let text = b"abc123  GaiaSource_000.csv.gz\ndef456\tGaiaSource_001.csv.gz\nmalformed\n\n".to_vec();
    let entries = parse_manifest(&text);
    assert_eq!(entries.len(), 2);
    assert_eq!(entries[0].checksum, b"abc123");
    assert_eq!(entries[0].filename, b"GaiaSource_000.csv.gz");
    assert_eq!(entries[1].filename, b"GaiaSource_001.csv.gz");
}

#[test]
fn cache_file_name_appends_bin() {
    let name = cache_file_name(&b"GaiaSource_000.csv.gz".to_vec());
    assert_eq!(name, b"GaiaSource_000.csv.gz.bin");
}

#[test]
fn present_cache_is_reused_not_fetched() {
    assert_eq!(shard_action(true), ShardAction::UseCache);
    assert_eq!(shard_action(false), ShardAction::Fetch);
}
