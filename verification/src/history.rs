//! The history endpoint's logic: translating the two query parameters,
//! `latestID` (exclusive upper bound on ids) and `count` (maximum rows),
//! into a history query.
//!
//! A missing or non-parseable parameter is a client error, returned as a
//! value — never a panic, never a process fault. The HTTP wiring maps an
//! [`HistoryError`] to a client-error status and an `Ok` row list to a JSON
//! body; a failure of the storage engine itself is mapped by the wiring to
//! the same not-found status the endpoint has always answered with.

use vstd::prelude::*;

use crate::msg::ChatMessage;
use crate::store::Store;
use crate::store::spec_query;
use crate::wire::is_digit;
use crate::wire::spec_mag;
use vstd::string::StrSliceExecFns;

verus! {

/// A query-parameter number: optional sign, then digits only, to the end.
/// Unlike the wire grammar, leading zeros are accepted here.
pub open spec fn spec_param_i64(s: Seq<char>) -> Option<int> {
    let signed = s.len() > 0 && (s[0] == '-' || s[0] == '+');
    let d: int = if signed {
        1
    } else {
        0
    };
    if !(d < s.len() && is_digit(s[d])) {
        None
    } else {
        match spec_mag(s, d, 0) {
            Some((mag, j)) => if j != s.len() {
                None
            } else if s[0] == '-' {
                Some(-mag)
            } else if mag < 0x8000_0000_0000_0000 {
                Some(mag)
            } else {
                None
            },
            None => None,
        }
    }
}

/// An unsigned query-parameter number within `u32`: optional plus, then
/// digits only, to the end.
pub open spec fn spec_param_u32(s: Seq<char>) -> Option<int> {
    let d: int = if s.len() > 0 && s[0] == '+' {
        1
    } else {
        0
    };
    if !(d < s.len() && is_digit(s[d])) {
        None
    } else {
        match spec_mag(s, d, 0) {
            Some((mag, j)) => if j == s.len() && mag <= 0xffff_ffff {
                Some(mag)
            } else {
                None
            },
            None => None,
        }
    }
}

/// Which parameter of a history request was unusable.
pub enum HistoryError {
    MissingLatestId,
    InvalidLatestId,
    MissingCount,
    InvalidCount,
}

/// Reads an `i64` query parameter.
pub fn parse_param_i64(s: &str) -> (r: Option<i64>)
    ensures
        match spec_param_i64(s@) {
            Some(v) => r matches Some(x) && x as int == v,
            None => r is None,
        },
{
    let n = s.unicode_len();
    if n == 0 {
        return None;
    }
    let c0 = s.get_char(0);
    let neg = c0 == '-';
    let d: usize = if neg || c0 == '+' {
        1
    } else {
        0
    };
    if d >= n {
        return None;
    }
    if !crate::wire::is_digit_exec(s.get_char(d)) {
        return None;
    }
    match crate::wire::scan_mag(s, n, d) {
        Some((mag, j)) => {
            if j != n {
                None
            } else if neg {
                let v: i64 = if mag == 0x8000_0000_0000_0000u64 {
                    i64::MIN
                } else {
                    -(mag as i64)
                };
                Some(v)
            } else if mag < 0x8000_0000_0000_0000u64 {
                Some(mag as i64)
            } else {
                None
            }
        },
        None => None,
    }
}

/// Reads a `u32` query parameter.
pub fn parse_param_u32(s: &str) -> (r: Option<u32>)
    ensures
        match spec_param_u32(s@) {
            Some(v) => r matches Some(x) && x as int == v,
            None => r is None,
        },
{
    let n = s.unicode_len();
    if n == 0 {
        return None;
    }
    let d: usize = if s.get_char(0) == '+' {
        1
    } else {
        0
    };
    if d >= n {
        return None;
    }
    if !crate::wire::is_digit_exec(s.get_char(d)) {
        return None;
    }
    match crate::wire::scan_mag(s, n, d) {
        Some((mag, j)) => {
            if j == n && mag <= 0xffff_ffffu64 {
                Some(mag as u32)
            } else {
                None
            }
        },
        None => None,
    }
}

/// Handles one history request. `Ok` exactly when both parameters are
/// present and parseable, with the rows of the corresponding query, newest
/// first; otherwise the error names the first unusable parameter
/// (`latestID` checked before `count`, missing before invalid).
pub fn get_history(store: &Store, latest_id: Option<&str>, count: Option<&str>) -> (r: Result<
    Vec<ChatMessage>,
    HistoryError,
>)
    requires
        store.wf(),
    ensures
        match r {
            Ok(rows) => match (latest_id, count) {
                (Some(ls), Some(cs)) => match (spec_param_i64(ls@), spec_param_u32(cs@)) {
                    (Some(l), Some(c)) => rows@.map(|_j: int, m: ChatMessage| m@) == spec_query(
                        store.rows_view(),
                        l,
                        c,
                    ),
                    _ => false,
                },
                _ => false,
            },
            Err(e) => match e {
                HistoryError::MissingLatestId => latest_id is None,
                HistoryError::InvalidLatestId => (latest_id matches Some(ls) && spec_param_i64(
                    ls@,
                ) is None),
                HistoryError::MissingCount => (latest_id matches Some(ls) && spec_param_i64(ls@)
                    is Some) && count is None,
                HistoryError::InvalidCount => (latest_id matches Some(ls) && spec_param_i64(ls@)
                    is Some) && (count matches Some(cs) && spec_param_u32(cs@) is None),
            },
        },
{
    let ls = match latest_id {
        Some(x) => x,
        None => {
            return Err(HistoryError::MissingLatestId);
        },
    };
    let l = match parse_param_i64(ls) {
        Some(v) => v,
        None => {
            return Err(HistoryError::InvalidLatestId);
        },
    };
    let cs = match count {
        Some(x) => x,
        None => {
            return Err(HistoryError::MissingCount);
        },
    };
    let c = match parse_param_u32(cs) {
        Some(v) => v,
        None => {
            return Err(HistoryError::InvalidCount);
        },
    };
    Ok(store.query_recent_messages(l, c as usize))
}

} // verus!
