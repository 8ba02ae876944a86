use kraken_mesh::cot::event_from_finding;
use kraken_mesh::doa::{report_data_fields, total_order_key, DoaValue, DOA_BINS};
use kraken_mesh::{finding_for_azimuth, RelayConfig, RelayError};

/// The caller-side interpretation step: each cleaned field read as an IEEE
/// single-precision number and reduced to its total-order key; the last
/// row's keys win. Mirrors what the polling shim does with the library's
/// output.
fn keys_of_last_row(rows: Vec<Vec<Vec<u8>>>) -> Option<Vec<u32>> {
    let mut last: Option<Vec<u32>> = None;
    for row in rows {
        let mut keys: Vec<u32> = Vec::new();
        for field in row {
            let text = std::str::from_utf8(&field).ok()?;
            let value: f32 = text.parse().ok()?;
            keys.push(total_order_key(value.to_bits()));
        }
        last = Some(keys);
    }
    last
}

fn report_row(vals: &[f32]) -> String {
    let mut cols: Vec<String> = Vec::new();
    for i in 0..17 {
        cols.push(format!("meta{}", i));
    }
    for v in vals {
        cols.push(format!("{}", v));
    }
    cols.join(",")
}

fn poll(report: &str) -> Result<DoaValue, RelayError> {
    let rows = report_data_fields(report.as_bytes())?;
    let keys = keys_of_last_row(rows).ok_or(RelayError::Format)?;
    assert_eq!(keys.len(), DOA_BINS);
    Ok(DoaValue { values: keys })
}

#[test]
fn max_selection_ties_resolve_to_lowest_index() {
    let mut vals = [0.0f32; 360];
    vals[0] = 1.0;
    vals[1] = 5.0;
    vals[2] = 5.0;
    vals[3] = 0.0;
    let sample = poll(&report_row(&vals)).unwrap();
    assert_eq!(sample.select_max_index(), 1);
}

#[test]
fn end_to_end_scenario_azimuth_87() {
    let mut vals = [0.0f32; 360];
    for (i, v) in vals.iter_mut().enumerate() {
        *v = (i % 7) as f32 * 0.1;
    }
    vals[87] = 9.8;
    let sample = poll(&report_row(&vals)).unwrap();
    let idx = sample.select_max_index();
    assert_eq!(idx, 87);
    let cfg = RelayConfig::default();
    let soi = finding_for_azimuth(&cfg, idx as i32);
    let e = event_from_finding(&soi, 1700000000);
    let xml = e.to_xml();
    assert!(xml.contains("azimuth=\"87\""));
    assert!(xml.contains(" fov=\"8\""));
    assert!(xml.contains(" range=\"10000\""));
    assert!(xml.contains("callsign=\"doa-alpha\""));
    assert!(xml.ends_with("\n\n"));
    assert!(!xml.ends_with("\n\n\n"));
    assert!(!xml.contains("<?xml"));
}

#[test]
fn later_rows_overwrite_earlier_ones() {
    let mut first = [0.0f32; 360];
    first[10] = 7.0;
    let mut second = [0.0f32; 360];
    second[300] = 3.5;
    let report = format!("{}\n{}\n", report_row(&first), report_row(&second));
    let sample = poll(&report).unwrap();
    assert_eq!(sample.select_max_index(), 300);
}

#[test]
fn spaces_inside_fields_are_stripped() {
    let mut cols: Vec<String> = Vec::new();
    for i in 0..17 {
        cols.push(format!("meta{}", i));
    }
    for i in 0..360 {
        if i == 42 {
            cols.push(" 9.5 ".to_string());
        } else {
            cols.push(" 0.25".to_string());
        }
    }
    let sample = poll(&cols.join(",")).unwrap();
    assert_eq!(sample.select_max_index(), 42);
}

#[test]
fn carriage_return_line_endings_are_accepted() {
    let mut vals = [0.0f32; 360];
    vals[5] = 2.0;
    let report = format!("{}\r\n", report_row(&vals));
    let sample = poll(&report).unwrap();
    assert_eq!(sample.select_max_index(), 5);
}

#[test]
fn short_row_is_a_format_error() {
    let vals = [1.0f32; 100];
    let report = report_row(&vals);
    assert_eq!(poll(&report).unwrap_err(), RelayError::Format);
}

#[test]
fn extra_field_is_a_format_error() {
    let vals = [1.0f32; 361];
    let report = report_row(&vals);
    assert_eq!(poll(&report).unwrap_err(), RelayError::Format);
}

#[test]
fn empty_report_is_a_format_error() {
    assert_eq!(poll("").unwrap_err(), RelayError::Format);
    assert_eq!(poll("\n\r\n\n").unwrap_err(), RelayError::Format);
}

#[test]
fn unparseable_field_is_a_format_error() {
    let mut cols: Vec<String> = Vec::new();
    for i in 0..17 {
        cols.push(format!("meta{}", i));
    }
    for i in 0..360 {
        if i == 9 {
            cols.push("abc".to_string());
        } else {
            cols.push("0.5".to_string());
        }
    }
    assert_eq!(poll(&cols.join(",")).unwrap_err(), RelayError::Format);
}

#[test]
fn negative_strengths_order_correctly() {
    let mut vals = [-5.0f32; 360];
    vals[10] = -1.0;
    let sample = poll(&report_row(&vals)).unwrap();
    assert_eq!(sample.select_max_index(), 10);
}

#[test]
fn negative_zero_orders_below_positive_zero() {
    let mut vals = [-0.0f32; 360];
    vals[3] = 0.0;
    let sample = poll(&report_row(&vals)).unwrap();
    assert_eq!(sample.select_max_index(), 3);
}
