//! Byte-level helpers shared by the wire parsers: separator splitting and
//! report-row normalization (carriage-return stripping, empty-line skipping).
use vstd::prelude::*;

verus! {

/// Line feed byte, the row separator of the sensor report.
pub const NL: u8 = 10;

/// Carriage return byte, stripped from a row end before parsing.
pub const CR: u8 = 13;

/// Comma byte, the field separator of the sensor report.
pub const COMMA: u8 = 44;

/// The parts of `s` delimited by `sep`: always one more part than there are
/// separators, so an empty input has one empty part.
pub open spec fn split_on(s: Seq<u8>, sep: u8) -> Seq<Seq<u8>>
    decreases s.len(),
{
    if s.len() == 0 {
        seq![Seq::<u8>::empty()]
    } else {
        let rest = split_on(s.drop_last(), sep);
        if s.last() == sep {
            rest.push(Seq::<u8>::empty())
        } else {
            rest.update(rest.len() - 1, rest.last().push(s.last()))
        }
    }
}

proof fn lemma_split_on_len(s: Seq<u8>, sep: u8)
    ensures
        split_on(s, sep).len() >= 1,
    decreases s.len(),
{
    if s.len() > 0 {
        lemma_split_on_len(s.drop_last(), sep);
    }
}

/// Split a byte string at every occurrence of `sep`.
pub fn split_bytes(s: &[u8], sep: u8) -> (r: Vec<Vec<u8>>)
    ensures
        r.deep_view() == split_on(s@, sep),
{
    let mut out: Vec<Vec<u8>> = Vec::new();
    let mut cur: Vec<u8> = Vec::new();
    let mut i: usize = 0;
    while i < s.len()
        invariant
            i <= s@.len(),
            out.deep_view().push(cur@) == split_on(s@.subrange(0, i as int), sep),
        decreases s@.len() - i,
    {
        let ghost prefix = s@.subrange(0, i as int);
        let ghost prefix1 = s@.subrange(0, i + 1);
        proof {
            assert(prefix1.drop_last() =~= prefix);
            assert(prefix1.last() == s@[i as int]);
            lemma_split_on_len(prefix, sep);
        }
        let b = s[i];
        if b == sep {
            let ghost old_out = out.deep_view();
            let ghost old_cur = cur@;
            out.push(cur);
            cur = Vec::new();
            proof {
                assert(out.deep_view() =~~= old_out.push(old_cur));
                assert(out.deep_view().push(cur@) =~= split_on(prefix, sep).push(
                    Seq::<u8>::empty(),
                ));
            }
        } else {
            let ghost old_parts = out.deep_view().push(cur@);
            cur.push(b);
            proof {
                assert(old_parts.last() == old_parts[old_parts.len() - 1]);
                assert(out.deep_view().push(cur@) =~= old_parts.update(
                    old_parts.len() - 1,
                    old_parts.last().push(s@[i as int]),
                ));
            }
        }
        i += 1;
    }
    proof {
        assert(s@.subrange(0, s@.len() as int) =~= s@);
    }
    out.push(cur);
    proof {
        assert(out.deep_view() =~~= split_on(s@, sep));
    }
    out
}

/// A row with any trailing carriage return removed.
pub open spec fn strip_cr(r: Seq<u8>) -> Seq<u8> {
    if r.len() > 0 && r.last() == CR {
        r.drop_last()
    } else {
        r
    }
}

/// The rows a raw line contributes: none if it is blank, else the stripped line.
pub open spec fn emit_row(r: Seq<u8>) -> Seq<Seq<u8>> {
    if strip_cr(r).len() == 0 {
        Seq::<Seq<u8>>::empty()
    } else {
        seq![strip_cr(r)]
    }
}

/// Carriage-return stripping and blank-line skipping over a row list.
pub open spec fn clean_rows(rs: Seq<Seq<u8>>) -> Seq<Seq<u8>>
    decreases rs.len(),
{
    if rs.len() == 0 {
        Seq::<Seq<u8>>::empty()
    } else {
        clean_rows(rs.drop_last()) + emit_row(rs.last())
    }
}

/// The data rows of a textual report: lines split on line feeds, each with a
/// trailing carriage return removed, blank lines skipped.
pub open spec fn report_rows(s: Seq<u8>) -> Seq<Seq<u8>> {
    clean_rows(split_on(s, NL))
}

/// Split a report body into its non-blank rows.
pub fn split_report_rows(report: &[u8]) -> (r: Vec<Vec<u8>>)
    ensures
        r.deep_view() == report_rows(report@),
{
    let parts = split_bytes(report, NL);
    let mut rows: Vec<Vec<u8>> = Vec::new();
    let mut i: usize = 0;
    while i < parts.len()
        invariant
            i <= parts@.len(),
            parts.deep_view() == split_on(report@, NL),
            rows.deep_view() == clean_rows(parts.deep_view().subrange(0, i as int)),
        decreases parts@.len() - i,
    {
        let ghost pre = parts.deep_view().subrange(0, i as int);
        let ghost pre1 = parts.deep_view().subrange(0, i + 1);
        proof {
            assert(pre1.drop_last() =~= pre);
            assert(pre1.last() == parts.deep_view()[i as int]);
            assert(parts.deep_view()[i as int] == parts@[i as int]@);
        }
        let mut row = parts[i].clone();
        proof {
            assert(row@ =~= parts@[i as int]@);
        }
        let stripped_empty: bool = if row.len() > 0 && row[row.len() - 1] == CR {
            let _ = row.pop();
            proof {
                assert(row@ =~= strip_cr(parts@[i as int]@));
            }
            row.len() == 0
        } else {
            proof {
                assert(row@ =~= strip_cr(parts@[i as int]@));
            }
            row.len() == 0
        };
        if !stripped_empty {
            let ghost old_rows = rows.deep_view();
            rows.push(row);
            proof {
                assert(rows.deep_view() =~~= old_rows + emit_row(pre1.last()));
            }
        } else {
            proof {
                assert(rows.deep_view() =~= rows.deep_view() + emit_row(pre1.last()));
            }
        }
        i += 1;
    }
    proof {
        assert(parts.deep_view().subrange(0, parts.deep_view().len() as int) =~= parts.deep_view());
    }
    rows
}

} // verus!
