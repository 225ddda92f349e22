//! Framing of compact pulse files: a four-byte "SSP1" header followed by
//! fixed-width records of five little-endian f64 values each.
use vstd::prelude::*;

verus! {

#[verifier::external_type_specification]
#[verifier::external_body]
pub struct ExIoError(std::io::Error);

/// The size in bytes of one compact pulse record.
pub const RECORD_BYTES: usize = 40;

/// The size in bytes of the file header.
pub const HEADER_BYTES: usize = 4;

/// Why a compact pulse file could not be read.
#[derive(Debug)]
pub enum ActivityDataError {
    Io(std::io::Error),
    InvalidHeader,
    TruncatedRecord,
}

/// The I/O error of input that ends before the bytes a read needs: kind
/// `UnexpectedEof` with the message std's `read_exact` reports, "failed to
/// fill whole buffer" (`std::io::Error::new`). Nothing of the value is
/// modelled.
#[verifier::external_body]
fn unexpected_end_of_input() -> std::io::Error {
    std::io::Error::new(std::io::ErrorKind::UnexpectedEof, "failed to fill whole buffer")
}

/// The header of a compact pulse file: the bytes of "SSP1".
pub open spec fn is_compact_header(data: Seq<u8>) -> bool {
    &&& data.len() >= 4
    &&& data[0] == 0x53u8
    &&& data[1] == 0x53u8
    &&& data[2] == 0x50u8
    &&& data[3] == 0x31u8
}

/// How many complete records follow the header.
pub open spec fn complete_records(len: nat) -> nat {
    ((len - 4) as nat) / 40
}

/// Checks the framing of (a prefix of) a compact pulse file and returns how
/// many records to decode: record `i` occupies bytes `4 + 40 i .. 4 + 40 (i + 1)`.
/// At most `max_records` are taken; a file that ends part-way through a
/// record before `max_records` complete ones is truncated.
pub fn count_compact_records(data: &[u8], max_records: usize) -> (count: Result<
    usize,
    ActivityDataError,
>)
    ensures
        data@.len() < 4 <==> count matches Err(ActivityDataError::Io(_)),
        data@.len() >= 4 && !is_compact_header(data@) <==> count matches Err(
            ActivityDataError::InvalidHeader,
        ),
        count matches Err(ActivityDataError::TruncatedRecord) <==> is_compact_header(data@)
            && complete_records(data@.len()) < max_records && (data@.len() - 4) % 40 != 0,
        count matches Ok(n) ==> n == if complete_records(data@.len()) < max_records {
            complete_records(data@.len())
        } else {
            max_records as nat
        },
{
    if data.len() < HEADER_BYTES {
        return Err(ActivityDataError::Io(unexpected_end_of_input()));
    }
    if !(data[0] == 0x53u8 && data[1] == 0x53u8 && data[2] == 0x50u8 && data[3] == 0x31u8) {
        return Err(ActivityDataError::InvalidHeader);
    }
    let body = data.len() - HEADER_BYTES;
    let available = body / RECORD_BYTES;
    if available >= max_records {
        Ok(max_records)
    } else if body % RECORD_BYTES != 0 {
        Err(ActivityDataError::TruncatedRecord)
    } else {
        Ok(available)
    }
}

/// A file of the header and `records` whole records reads back as
/// `records` records, or `max_records` of them if fewer are asked for.
pub proof fn lemma_written_file_reads_back(records: nat, max_records: nat)
    ensures
        complete_records(4 + 40 * records) == records,
        ((4 + 40 * records) - 4) % 40 == 0,
{
    assert((40 * records) / 40 == records) by (nonlinear_arith);
    assert((40 * records) % 40 == 0) by (nonlinear_arith);
}

/// The byte range of record `index`.
pub fn record_range(index: usize) -> (range: (usize, usize))
    requires
        4 + 40 * (index + 1) <= usize::MAX,
    ensures
        range.0 == 4 + 40 * index,
        range.1 == 4 + 40 * (index + 1),
{
    (HEADER_BYTES + RECORD_BYTES * index, HEADER_BYTES + RECORD_BYTES * (index + 1))
}

} // verus!
