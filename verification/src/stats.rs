//! The metric extractor: pull the ten raw counters the rate engine needs
//! out of a counter group's named-field set, failing loudly when a field
//! is absent or of the wrong kind. This is the boundary where provider
//! schema drift is caught; absence is a data-integrity error, never a
//! silent zero.

use vstd::prelude::*;

use crate::fields::{Field, FieldName, FieldValue, find_field, find_spec, read_u64};

verus! {

/// The ten raw counters behind one instance's rate metrics.
#[derive(PartialEq, Eq, Structural, Clone, Copy, Debug)]
pub struct Stats {
    pub delay_cnt: u64,
    pub delay_time: u64,
    pub reads: u64,
    pub writes: u64,
    pub nread: u64,
    pub nwritten: u64,
    pub rtime: u64,
    pub wtime: u64,
    pub rlentime: u64,
    pub wlentime: u64,
}

/// Extraction failure: a required field is absent, or present with a
/// value of the wrong kind.
#[derive(PartialEq, Eq, Structural, Clone, Copy, Debug)]
pub enum ExtractError {
    MissingField(FieldName),
    TypeMismatch(FieldName),
}

/// All counters zero: what a missing previous snapshot contributes.
pub open spec fn zero_stats() -> Stats {
    Stats {
        delay_cnt: 0,
        delay_time: 0,
        reads: 0,
        writes: 0,
        nread: 0,
        nwritten: 0,
        rtime: 0,
        wtime: 0,
        rlentime: 0,
        wlentime: 0,
    }
}

impl Default for Stats {
    /// All-zero counters.
    fn default() -> (r: Self)
        ensures
            r == zero_stats(),
    {
        Stats {
            delay_cnt: 0,
            delay_time: 0,
            reads: 0,
            writes: 0,
            nread: 0,
            nwritten: 0,
            rtime: 0,
            wtime: 0,
            rlentime: 0,
            wlentime: 0,
        }
    }
}

/// The extraction error for one numeric field, if any: absent, or not a
/// u64 counter.
pub open spec fn check_num(fields: Seq<Field>, name: FieldName) -> Option<ExtractError> {
    match find_spec(fields, name) {
        Option::None => Some(ExtractError::MissingField(name)),
        Option::Some(v) => match v {
            FieldValue::Num(_) => None,
            _ => Some(ExtractError::TypeMismatch(name)),
        },
    }
}

/// The u64 value of a numeric field; meaningful only when
/// `check_num(fields, name)` is `None`.
pub open spec fn num_at(fields: Seq<Field>, name: FieldName) -> u64 {
    find_spec(fields, name)->Some_0->Num_0
}

/// The first extraction error over the ten required numeric fields, in
/// the fixed order the extractor checks them.
pub open spec fn extract_error(fields: Seq<Field>) -> Option<ExtractError> {
    if check_num(fields, FieldName::DelayCnt) is Some {
        check_num(fields, FieldName::DelayCnt)
    } else if check_num(fields, FieldName::DelayTime) is Some {
        check_num(fields, FieldName::DelayTime)
    } else if check_num(fields, FieldName::Reads) is Some {
        check_num(fields, FieldName::Reads)
    } else if check_num(fields, FieldName::Writes) is Some {
        check_num(fields, FieldName::Writes)
    } else if check_num(fields, FieldName::Nread) is Some {
        check_num(fields, FieldName::Nread)
    } else if check_num(fields, FieldName::Nwritten) is Some {
        check_num(fields, FieldName::Nwritten)
    } else if check_num(fields, FieldName::Rtime) is Some {
        check_num(fields, FieldName::Rtime)
    } else if check_num(fields, FieldName::Wtime) is Some {
        check_num(fields, FieldName::Wtime)
    } else if check_num(fields, FieldName::Rlentime) is Some {
        check_num(fields, FieldName::Rlentime)
    } else {
        check_num(fields, FieldName::Wlentime)
    }
}

/// The ten counters of a field set on which `extract_error` is `None`.
pub open spec fn stats_of(fields: Seq<Field>) -> Stats {
    Stats {
        delay_cnt: num_at(fields, FieldName::DelayCnt),
        delay_time: num_at(fields, FieldName::DelayTime),
        reads: num_at(fields, FieldName::Reads),
        writes: num_at(fields, FieldName::Writes),
        nread: num_at(fields, FieldName::Nread),
        nwritten: num_at(fields, FieldName::Nwritten),
        rtime: num_at(fields, FieldName::Rtime),
        wtime: num_at(fields, FieldName::Wtime),
        rlentime: num_at(fields, FieldName::Rlentime),
        wlentime: num_at(fields, FieldName::Wlentime),
    }
}

/// Read one required u64 counter, reporting which field failed and how.
fn get_num(fields: &Vec<Field>, name: FieldName) -> (r: Result<u64, ExtractError>)
    ensures
        r matches Ok(v) ==> check_num(fields@, name) is None && v == num_at(fields@, name),
        r matches Err(e) ==> check_num(fields@, name) == Some(e),
        r is Err <==> check_num(fields@, name) is Some,
{
    match find_field(fields, name) {
        None => Err(ExtractError::MissingField(name)),
        Some(v) => match read_u64(v) {
            None => Err(ExtractError::TypeMismatch(name)),
            Some(x) => Ok(x),
        },
    }
}

/// Extract the ten counters the rate engine needs from a counter
/// group's field set. Returns the first failure, checking the fields in
/// a fixed order; succeeds exactly when every required field is present
/// as a u64 counter.
pub fn get_stats(fields: &Vec<Field>) -> (r: Result<Stats, ExtractError>)
    ensures
        r matches Ok(s) ==> s == stats_of(fields@),
        r matches Err(e) ==> extract_error(fields@) == Some(e),
        r is Err <==> extract_error(fields@) is Some,
{
    let delay_cnt = match get_num(fields, FieldName::DelayCnt) {
        Ok(v) => v,
        Err(e) => { return Err(e); },
    };
    let delay_time = match get_num(fields, FieldName::DelayTime) {
        Ok(v) => v,
        Err(e) => { return Err(e); },
    };
    let reads = match get_num(fields, FieldName::Reads) {
        Ok(v) => v,
        Err(e) => { return Err(e); },
    };
    let writes = match get_num(fields, FieldName::Writes) {
        Ok(v) => v,
        Err(e) => { return Err(e); },
    };
    let nread = match get_num(fields, FieldName::Nread) {
        Ok(v) => v,
        Err(e) => { return Err(e); },
    };
    let nwritten = match get_num(fields, FieldName::Nwritten) {
        Ok(v) => v,
        Err(e) => { return Err(e); },
    };
    let rtime = match get_num(fields, FieldName::Rtime) {
        Ok(v) => v,
        Err(e) => { return Err(e); },
    };
    let wtime = match get_num(fields, FieldName::Wtime) {
        Ok(v) => v,
        Err(e) => { return Err(e); },
    };
    let rlentime = match get_num(fields, FieldName::Rlentime) {
        Ok(v) => v,
        Err(e) => { return Err(e); },
    };
    let wlentime = match get_num(fields, FieldName::Wlentime) {
        Ok(v) => v,
        Err(e) => { return Err(e); },
    };
    Ok(Stats { delay_cnt, delay_time, reads, writes, nread, nwritten, rtime, wtime, rlentime, wlentime })
}

} // verus!
