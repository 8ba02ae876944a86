//! Parsing of the direction-of-arrival report and selection of the finding.
//!
//! The polled receiver answers with a headerless comma-separated report: a
//! fixed prefix of metadata columns, then one signal-strength text field per
//! compass degree. Each row overwrites the sample, so the last row wins.
//! The library validates the report's shape and hands out the cleaned value
//! fields; the caller interprets each as an IEEE single-precision number and
//! reduces it, through [`total_order_key`], to a key whose unsigned order is
//! the IEEE total order. A sample keeps one key per degree, which is all the
//! maximum selection reads.
use vstd::prelude::*;

use crate::bytes::{report_rows, split_bytes, split_on, COMMA};
use crate::{finding_for_azimuth, RDoASOI, RelayConfig, RelayError};

verus! {

/// Compass bins in one sample: one per degree.
pub const DOA_BINS: usize = 360;

/// Metadata columns preceding the per-degree values in a report row.
pub const DOA_SKIP_COLS: usize = 17;

/// A field with every space removed, as the receiver pads numeric columns.
pub open spec fn strip_spaces(s: Seq<u8>) -> Seq<u8>
    decreases s.len(),
{
    if s.len() == 0 {
        Seq::<u8>::empty()
    } else if s.last() == 32 {
        strip_spaces(s.drop_last())
    } else {
        strip_spaces(s.drop_last()).push(s.last())
    }
}

fn strip_spaces_exec(field: &[u8]) -> (r: Vec<u8>)
    ensures
        r@ == strip_spaces(field@),
{
    let mut out: Vec<u8> = Vec::new();
    let mut i: usize = 0;
    while i < field.len()
        invariant
            i <= field@.len(),
            out@ == strip_spaces(field@.subrange(0, i as int)),
        decreases field@.len() - i,
    {
        proof {
            assert(field@.subrange(0, i + 1).drop_last() =~= field@.subrange(0, i as int));
            assert(field@.subrange(0, i + 1).last() == field@[i as int]);
        }
        let b = field[i];
        if b != 32 {
            out.push(b);
        }
        i += 1;
    }
    proof {
        assert(field@.subrange(0, field@.len() as int) =~= field@);
    }
    out
}

/// The key under which a strength value is compared, given the bit pattern
/// of the IEEE single-precision value: a monotone reindexing, so that
/// unsigned key order coincides with the IEEE total order (negative values
/// reversed below, positive values above).
pub open spec fn order_key(bits: u32) -> u32 {
    if bits >= 0x8000_0000 {
        !bits
    } else {
        bits | 0x8000_0000
    }
}

/// Compute [`order_key`] for one bit pattern.
pub fn total_order_key(bits: u32) -> (r: u32)
    ensures
        r == order_key(bits),
{
    if bits >= 0x8000_0000 {
        !bits
    } else {
        bits | 0x8000_0000
    }
}

/// The comma-separated fields of one report row.
pub open spec fn fields_of(row: Seq<u8>) -> Seq<Seq<u8>> {
    split_on(row, COMMA)
}

/// A row has a valid shape when it carries exactly the metadata prefix plus
/// one value field per compass bin.
pub open spec fn valid_row_shape(row: Seq<u8>) -> bool {
    fields_of(row).len() == DOA_SKIP_COLS + DOA_BINS
}

/// The cleaned per-bin value fields of a row, metadata columns skipped and
/// spaces stripped.
pub open spec fn row_data_fields(row: Seq<u8>) -> Seq<Seq<u8>> {
    Seq::new(DOA_BINS as nat, |i: int| strip_spaces(fields_of(row)[i + DOA_SKIP_COLS]))
}

/// What a report's shape yields: the cleaned value fields of every data
/// row, provided there is at least one and each has a valid shape.
pub open spec fn data_fields_of(report: Seq<u8>) -> Option<Seq<Seq<Seq<u8>>>> {
    let rows = report_rows(report);
    if rows.len() > 0 && (forall|r: int|
        0 <= r < rows.len() ==> valid_row_shape(#[trigger] rows[r])) {
        Some(Seq::new(rows.len(), |r: int| row_data_fields(rows[r])))
    } else {
        None
    }
}

fn parse_row_fields(row: &[u8]) -> (r: Option<Vec<Vec<u8>>>)
    ensures
        match r {
            Some(fs) => valid_row_shape(row@) && fs.deep_view() == row_data_fields(row@),
            None => !valid_row_shape(row@),
        },
{
    let fields = split_bytes(row, COMMA);
    proof {
        assert(fields.deep_view() == fields_of(row@));
    }
    if fields.len() != DOA_SKIP_COLS + DOA_BINS {
        return None;
    }
    let mut out: Vec<Vec<u8>> = Vec::new();
    let mut i: usize = DOA_SKIP_COLS;
    while i < DOA_SKIP_COLS + DOA_BINS
        invariant
            DOA_SKIP_COLS <= i <= DOA_SKIP_COLS + DOA_BINS,
            fields.deep_view() == fields_of(row@),
            fields.deep_view().len() == DOA_SKIP_COLS + DOA_BINS,
            out@.len() == i - DOA_SKIP_COLS,
            forall|j: int|
                0 <= j < i - DOA_SKIP_COLS ==> out.deep_view()[j] == strip_spaces(
                    #[trigger] fields_of(row@)[j + DOA_SKIP_COLS],
                ),
        decreases DOA_SKIP_COLS + DOA_BINS - i,
    {
        proof {
            assert(fields.deep_view()[i as int] == fields@[i as int]@);
        }
        let cleaned = strip_spaces_exec(fields[i].as_slice());
        out.push(cleaned);
        i += 1;
    }
    proof {
        assert(out.deep_view() =~~= row_data_fields(row@));
    }
    Some(out)
}

/// Extract the cleaned value fields of every data row of a report. `Ok`
/// exactly when the report has at least one data row and each carries the
/// metadata prefix plus one field per compass bin; every other report is a
/// format error.
pub fn report_data_fields(report: &[u8]) -> (r: Result<Vec<Vec<Vec<u8>>>, RelayError>)
    ensures
        match r {
            Ok(rs) => data_fields_of(report@) == Some(rs.deep_view()),
            Err(e) => data_fields_of(report@) is None && e == RelayError::Format,
        },
{
    let rows = crate::bytes::split_report_rows(report);
    if rows.len() == 0 {
        return Err(RelayError::Format);
    }
    let mut out: Vec<Vec<Vec<u8>>> = Vec::new();
    let mut ri: usize = 0;
    while ri < rows.len()
        invariant
            0 <= ri <= rows@.len(),
            rows@.len() > 0,
            rows.deep_view() == report_rows(report@),
            out@.len() == ri,
            forall|j: int| 0 <= j < ri ==> valid_row_shape(#[trigger] rows.deep_view()[j]),
            forall|j: int|
                0 <= j < ri ==> out.deep_view()[j] == row_data_fields(
                    #[trigger] rows.deep_view()[j],
                ),
        decreases rows@.len() - ri,
    {
        proof {
            assert(rows.deep_view()[ri as int] == rows@[ri as int]@);
        }
        match parse_row_fields(rows[ri].as_slice()) {
            Some(fs) => {
                out.push(fs);
            },
            None => {
                return Err(RelayError::Format);
            },
        }
        ri += 1;
    }
    proof {
        assert(out.deep_view() =~~= data_fields_of(report@).unwrap());
    }
    Ok(out)
}

/// One direction-of-arrival sample: per-degree signal-strength order keys,
/// index `i` standing for bearing `i` degrees.
#[derive(Debug)]
pub struct DoaValue {
    pub values: Vec<u32>,
}

/// The polled receiver: its report endpoint.
pub struct KrakenClient {
    pub endpoint: String,
}

impl DoaValue {
    /// A sample always carries exactly one value per compass degree.
    pub open spec fn wf(self) -> bool {
        self.values@.len() == DOA_BINS
    }

    /// The bearing of the strongest signal: the index of the maximum value,
    /// ties broken by the lowest index.
    pub fn select_max_index(&self) -> (r: usize)
        requires
            self.wf(),
        ensures
            r < DOA_BINS,
            forall|j: int| 0 <= j < DOA_BINS ==> self.values@[j] <= self.values@[r as int],
            forall|j: int| 0 <= j < r ==> self.values@[j] < self.values@[r as int],
    {
        let mut best: usize = 0;
        let mut i: usize = 1;
        while i < self.values.len()
            invariant
                self.wf(),
                best < i <= DOA_BINS,
                forall|j: int| 0 <= j < i ==> self.values@[j] <= self.values@[best as int],
                forall|j: int| 0 <= j < best ==> self.values@[j] < self.values@[best as int],
            decreases self.values@.len() - i,
        {
            if self.values[i] > self.values[best] {
                best = i;
            }
            i += 1;
        }
        best
    }
}

/// The publish-mode decision: the finding a sample yields, bearing the
/// index of its strongest signal (ties to the lowest index) beside the
/// configured identity.
pub fn finding_from_sample(cfg: &RelayConfig, sample: &DoaValue) -> (soi: RDoASOI)
    requires
        sample.wf(),
    ensures
        0 <= soi.azimuth < DOA_BINS,
        forall|j: int|
            0 <= j < DOA_BINS ==> #[trigger] sample.values@[j] <= sample.values@[
                soi.azimuth as int
            ],
        forall|j: int|
            0 <= j < soi.azimuth ==> #[trigger] sample.values@[j] < sample.values@[
                soi.azimuth as int
            ],
        soi.s_contact@ == cfg.contact@,
        soi.uid@ == cfg.uid@,
        soi.s_fov == cfg.fov_degrees,
        soi.s_range == cfg.range_meters,
{
    let idx = sample.select_max_index();
    finding_for_azimuth(cfg, idx as i32)
}

} // verus!
