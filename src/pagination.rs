use std::collections::HashMap;
use vstd::prelude::*;

use crate::error::Error;
use crate::number::{decimal_usize, parse_usize};
use crate::query::{is_empty_query, param_value, params_empty, query_of};

verus! {

/// A half-open range `[start, end)` of positions in a listing.
#[derive(Debug)]
pub struct Pagination {
    pub start: usize,
    pub end: usize,
}

pub open spec fn start_key() -> Seq<char> {
    seq!['s', 't', 'a', 'r', 't']
}

pub open spec fn end_key() -> Seq<char> {
    seq!['e', 'n', 'd']
}

/// Both bounds are present in the query.
pub open spec fn has_bounds(q: Map<Seq<char>, Seq<char>>) -> bool {
    q.contains_key(start_key()) && q.contains_key(end_key())
}

/// Both bounds are present and both spell a `usize`.
pub open spec fn bounds_parse(q: Map<Seq<char>, Seq<char>>) -> bool {
    has_bounds(q) && decimal_usize(q[start_key()]) is Some && decimal_usize(q[end_key()]) is Some
}

/// The page `[start, end)` lies within a collection of `len` items.
pub open spec fn page_fits(start: nat, end: nat, len: nat) -> bool {
    start <= end && end <= len
}

/// Reads the `start` and `end` query parameters as unsigned integers.
pub fn extract_pagination(params: HashMap<String, String>) -> (r: Result<Pagination, Error>)
    ensures
        ({
            let q = query_of(params);
            match r {
                Ok(p) => bounds_parse(q) && decimal_usize(q[start_key()]) == Some(p.start as nat)
                    && decimal_usize(q[end_key()]) == Some(p.end as nat),
                Err(Error::MissingParameters) => !has_bounds(q),
                Err(Error::ParseError(_)) => has_bounds(q) && !bounds_parse(q),
                Err(_) => false,
            }
        }),
{
    let start = param_value(&params, "start");
    let end = param_value(&params, "end");
    proof {
        reveal_strlit("start");
        reveal_strlit("end");
        assert("start"@ =~= start_key());
        assert("end"@ =~= end_key());
    }
    match (start, end) {
        (Some(s), Some(e)) => {
            let start = match parse_usize(s.as_str()) {
                Ok(n) => n,
                Err(err) => {
                    return Err(Error::ParseError(err));
                },
            };
            let end = match parse_usize(e.as_str()) {
                Ok(n) => n,
                Err(err) => {
                    return Err(Error::ParseError(err));
                },
            };
            Ok(Pagination { start, end })
        },
        _ => Err(Error::MissingParameters),
    }
}

/// The items at positions `[start, end)`, or `RangeInvalid` where the
/// range is reversed or runs past the end.
pub fn paginate<T>(items: Vec<T>, pagination: &Pagination) -> (r: Result<Vec<T>, Error>)
    ensures
        page_fits(pagination.start as nat, pagination.end as nat, items.len() as nat) <==> r is Ok,
        r is Ok ==> r->Ok_0@ == items@.subrange(pagination.start as int, pagination.end as int),
        r is Err ==> r->Err_0 is RangeInvalid,
{
    if pagination.start > pagination.end || pagination.end > items.len() {
        return Err(Error::RangeInvalid);
    }
    let mut items = items;
    items.truncate(pagination.end);
    let page = items.split_off(pagination.start);
    Ok(page)
}

/// The part of a listing that a query selects: all of it for an empty
/// query, else the page that its `start` and `end` bounds name.
pub fn select_page<T>(params: HashMap<String, String>, items: Vec<T>) -> (r: Result<Vec<T>, Error>)
    ensures
        ({
            let q = query_of(params);
            if is_empty_query(q) {
                r is Ok && r->Ok_0@ == items@
            } else if !has_bounds(q) {
                r is Err && r->Err_0 is MissingParameters
            } else if !bounds_parse(q) {
                r is Err && r->Err_0 is ParseError
            } else {
                let s = decimal_usize(q[start_key()])->Some_0;
                let e = decimal_usize(q[end_key()])->Some_0;
                if page_fits(s, e, items.len() as nat) {
                    r is Ok && r->Ok_0@ == items@.subrange(s as int, e as int)
                } else {
                    r is Err && r->Err_0 is RangeInvalid
                }
            }
        }),
{
    if params_empty(&params) {
        return Ok(items);
    }
    let pagination = match extract_pagination(params) {
        Ok(p) => p,
        Err(e) => {
            return Err(e);
        },
    };
    paginate(items, &pagination)
}

} // verus!
