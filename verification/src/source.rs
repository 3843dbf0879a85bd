//! The endpoint source: delimited text in, scan targets out.
//!
//! Input is headerless comma-separated text, one target per record, each
//! record being an address and a port. The source is strict: the first
//! record that is no target ends the run, and nothing after it is read.

use crate::model::{Target, TargetView};
use crate::text::{chars_of, number_of, read_number};
use vstd::prelude::*;

verus! {

/// A record as the delimited-text reader hands it out: its fields, or the
/// reader's complaint about it.
pub type Row = Result<Vec<String>, String>;

/// The content of a list of fields.
pub open spec fn fields_of(fields: Seq<String>) -> Seq<Seq<char>> {
    Seq::new(fields.len(), |i: int| fields[i]@)
}

/// The content of a row.
pub open spec fn row_of(row: Row) -> Result<Seq<Seq<char>>, Seq<char>> {
    match row {
        Ok(fields) => Ok(fields_of(fields@)),
        Err(reason) => Err(reason@),
    }
}

/// The content of a list of rows.
pub open spec fn rows_of(rows: Seq<Row>) -> Seq<Result<Seq<Seq<char>>, Seq<char>>> {
    Seq::new(rows.len(), |i: int| row_of(rows[i]))
}

/// Why a record is no target.
#[derive(Debug, PartialEq, Eq)]
pub enum Fault {
    /// The reader could not make fields of the record; its words are kept.
    Unreadable(String),
    /// The record has this many fields, not two.
    FieldCount(usize),
    /// The second field is no port.
    Port,
}

/// The mathematical content of a [`Fault`].
pub enum FaultView {
    Unreadable(Seq<char>),
    FieldCount(nat),
    Port,
}

impl View for Fault {
    type V = FaultView;

    open spec fn view(&self) -> FaultView {
        match self {
            Fault::Unreadable(reason) => FaultView::Unreadable(reason@),
            Fault::FieldCount(found) => FaultView::FieldCount(*found as nat),
            Fault::Port => FaultView::Port,
        }
    }
}

/// The fatal error of the source: the record that is no target, counted
/// from zero, and why.
#[derive(Debug, PartialEq, Eq)]
pub struct SourceError {
    pub record: usize,
    pub fault: Fault,
}

/// What the source made of its input: the targets of the records before the
/// first faulty one, in input order, and the fault if there was one.
#[derive(Debug, PartialEq, Eq)]
pub struct Ingest {
    pub targets: Vec<Target>,
    pub failure: Option<SourceError>,
}

/// The port that a field writes. A port is written in decimal, or in
/// hexadecimal after `0x`; a `+` may precede the digits. There is at least
/// one digit, nothing but digits, and the number fits sixteen bits.
pub open spec fn port_of(field: Seq<char>) -> Option<u16> {
    let hex = field.len() >= 2 && field[0] == '0' && field[1] == 'x';
    let radix: nat = if hex {
        16
    } else {
        10
    };
    let body = if hex {
        field.skip(2)
    } else {
        field
    };
    let digits = if body.len() >= 1 && body[0] == '+' {
        body.skip(1)
    } else {
        body
    };
    if digits.len() == 0 {
        None
    } else {
        match number_of(digits, radix) {
            Some(v) => if v <= 0xFFFF {
                Some(v as u16)
            } else {
                None
            },
            None => None,
        }
    }
}

/// The target that a list of fields writes: exactly two fields, the address
/// as it stands and the port.
pub open spec fn target_of(fields: Seq<Seq<char>>) -> Result<TargetView, FaultView> {
    if fields.len() != 2 {
        Err(FaultView::FieldCount(fields.len()))
    } else {
        match port_of(fields[1]) {
            Some(port) => Ok(TargetView { ip: fields[0], port }),
            None => Err(FaultView::Port),
        }
    }
}

/// The target that a row writes.
pub open spec fn row_target(row: Result<Seq<Seq<char>>, Seq<char>>) -> Result<TargetView, FaultView> {
    match row {
        Ok(fields) => target_of(fields),
        Err(reason) => Err(FaultView::Unreadable(reason)),
    }
}

/// Reads a port field.
pub fn parse_port(field: &str) -> (r: Option<u16>)
    ensures
        r == port_of(field@),
{
    let chars = chars_of(field);
    let n = chars.len();
    let hex = n >= 2 && chars[0] == '0' && chars[1] == 'x';
    let radix: u32 = if hex {
        16
    } else {
        10
    };
    let body: usize = if hex {
        2
    } else {
        0
    };
    let start: usize = if body < n && chars[body] == '+' {
        body + 1
    } else {
        body
    };
    proof {
        let b = if hex {
            field@.skip(2)
        } else {
            field@
        };
        let d = if b.len() >= 1 && b[0] == '+' {
            b.skip(1)
        } else {
            b
        };
        assert(d == chars@.subrange(start as int, n as int));
    }
    if start == n {
        return None;
    }
    match read_number(&chars, start, n, radix, 0xFFFF) {
        Some(v) => Some(v as u16),
        None => None,
    }
}

/// Reads the fields of one record as a target.
pub fn parse_target(fields: &Vec<String>) -> (r: Result<Target, Fault>)
    ensures
        match r {
            Ok(target) => target_of(fields_of(fields@)) == Ok::<TargetView, FaultView>(target@),
            Err(fault) => target_of(fields_of(fields@)) == Err::<TargetView, FaultView>(fault@),
        },
{
    if fields.len() != 2 {
        return Err(Fault::FieldCount(fields.len()));
    }
    match parse_port(fields[1].as_str()) {
        Some(port) => Ok(Target { ip: fields[0].clone(), port }),
        None => Err(Fault::Port),
    }
}

/// Reads one row as a target.
pub fn parse_row(row: &Row) -> (r: Result<Target, Fault>)
    ensures
        match r {
            Ok(target) => row_target(row_of(*row)) == Ok::<TargetView, FaultView>(target@),
            Err(fault) => row_target(row_of(*row)) == Err::<TargetView, FaultView>(fault@),
        },
{
    match row {
        Ok(fields) => parse_target(fields),
        Err(reason) => Err(Fault::Unreadable(reason.clone())),
    }
}

impl Ingest {
    /// Whether `self` is what the source makes of `rows`: the targets of
    /// the rows before the first faulty one, and that row's number and
    /// fault; every row's target and no fault where no row is faulty.
    pub open spec fn is_reading_of(self, rows: Seq<Result<Seq<Seq<char>>, Seq<char>>>) -> bool {
        let n = self.targets@.len();
        &&& n <= rows.len()
        &&& forall|i: int|
            0 <= i < n ==> row_target(#[trigger] rows[i]) == Ok::<TargetView, FaultView>(
                self.targets@[i]@,
            )
        &&& match self.failure {
            None => n == rows.len(),
            Some(e) => n < rows.len() && e.record == n && row_target(rows[n as int]) == Err::<
                TargetView,
                FaultView,
            >(e.fault@),
        }
    }
}

/// Turns rows into targets, one per row and in order, up to the first row
/// that is no target. That row is reported; no row after it is looked at.
pub fn collect_targets(rows: &Vec<Row>) -> (r: Ingest)
    ensures
        r.is_reading_of(rows_of(rows@)),
{
    let mut targets: Vec<Target> = Vec::new();
    let mut i: usize = 0;
    while i < rows.len()
        invariant
            i <= rows.len(),
            targets@.len() == i,
            forall|j: int|
                0 <= j < i ==> row_target(#[trigger] rows_of(rows@)[j]) == Ok::<
                    TargetView,
                    FaultView,
                >(targets@[j]@),
        decreases rows.len() - i,
    {
        match parse_row(&rows[i]) {
            Ok(target) => {
                targets.push(target);
            },
            Err(fault) => {
                return Ingest { targets, failure: Some(SourceError { record: i, fault }) };
            },
        }
        i += 1;
    }
    Ingest { targets, failure: None }
}

/// The rows that the `csv` reader, set to read no header row, makes of
/// `input`: for each record its fields, or the reader's error as text.
pub uninterp spec fn csv_rows(input: Seq<u8>) -> Seq<Result<Seq<Seq<char>>, Seq<char>>>;

/// Splits `input` into rows with the `csv` crate: a `csv::ReaderBuilder`
/// with `has_headers(false)` and every other setting as it comes, its
/// `from_reader` on the bytes, and `Reader::into_records` to the end of the
/// input. Each `StringRecord` becomes the list of its fields, each
/// `csv::Error` the text that its `to_string` gives.
///
/// The contract claims one thing, not proved here: that the rows depend on
/// the bytes alone. It gives them the name [`csv_rows`] and says nothing of
/// what they are.
#[verifier::external_body]
fn split_rows(input: &[u8]) -> (rows: Vec<Row>)
    ensures
        rows_of(rows@) == csv_rows(input@),
{
    csv::ReaderBuilder::new()
        .has_headers(false)
        .from_reader(input)
        .into_records()
        .map(|row| match row {
            Ok(record) => Ok(record.iter().map(String::from).collect()),
            Err(e) => Err(e.to_string()),
        })
        .collect()
}

/// Reads targets from delimited text: the records are split as
/// [`csv_rows`] says, and turned into targets as [`collect_targets`] does.
pub fn read_targets(input: &[u8]) -> (r: Ingest)
    ensures
        r.is_reading_of(csv_rows(input@)),
{
    let rows = split_rows(input);
    collect_targets(&rows)
}

} // verus!
