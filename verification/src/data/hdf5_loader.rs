//! Layout checks for the TSRD HDF5 `/data` dataset of pulse descriptor words.
use vstd::prelude::*;

verus! {

/// The number of PDW columns: ToA, centre frequency, pulse width, AoA, amplitude.
pub const PDW_WIDTH: usize = 5;

/// What a bounded TSRD read found and took.
#[derive(Debug, Clone, PartialEq, Eq)]
pub struct TsrdLoadReport {
    pub source_rows: usize,
    pub loaded_rows: usize,
    pub feature_count: usize,
}

/// Why a TSRD dataset cannot be read as PDWs.
#[derive(Debug, Clone, PartialEq, Eq)]
pub enum TsrdLayoutError {
    InvalidRank,
    InvalidWidth { actual: usize, expected: usize },
    ZeroLimit,
}

/// A read must be allowed at least one record.
pub fn check_record_limit(max_records: usize) -> (checked: Result<(), TsrdLayoutError>)
    ensures
        checked is Err <==> max_records == 0,
        checked matches Err(e) ==> e == TsrdLayoutError::ZeroLimit,
{
    if max_records == 0 {
        Err(TsrdLayoutError::ZeroLimit)
    } else {
        Ok(())
    }
}

/// Plans a read of at most `max_records` rows from a dataset of the given
/// shape: it must be two-dimensional with `PDW_WIDTH` columns.
pub fn plan_tsrd_read(shape: &[usize], max_records: usize) -> (plan: Result<
    TsrdLoadReport,
    TsrdLayoutError,
>)
    ensures
        max_records == 0 ==> plan == Err::<TsrdLoadReport, TsrdLayoutError>(
            TsrdLayoutError::ZeroLimit,
        ),
        max_records > 0 && shape@.len() != 2 ==> plan == Err::<TsrdLoadReport, TsrdLayoutError>(
            TsrdLayoutError::InvalidRank,
        ),
        max_records > 0 && shape@.len() == 2 && shape@[1] != 5 ==> plan == Err::<
            TsrdLoadReport,
            TsrdLayoutError,
        >(TsrdLayoutError::InvalidWidth { actual: shape@[1], expected: 5 }),
        max_records > 0 && shape@.len() == 2 && shape@[1] == 5 ==> plan == Ok::<
            TsrdLoadReport,
            TsrdLayoutError,
        >(
            TsrdLoadReport {
                source_rows: shape@[0],
                loaded_rows: if shape@[0] < max_records {
                    shape@[0]
                } else {
                    max_records
                },
                feature_count: 5,
            },
        ),
{
    if max_records == 0 {
        return Err(TsrdLayoutError::ZeroLimit);
    }
    if shape.len() != 2 {
        return Err(TsrdLayoutError::InvalidRank);
    }
    if shape[1] != PDW_WIDTH {
        return Err(TsrdLayoutError::InvalidWidth { actual: shape[1], expected: PDW_WIDTH });
    }
    let loaded_rows = if shape[0] < max_records {
        shape[0]
    } else {
        max_records
    };
    Ok(TsrdLoadReport { source_rows: shape[0], loaded_rows, feature_count: shape[1] })
}

} // verus!
