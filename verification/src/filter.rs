use crate::level::LevelFilter;
use crate::text::{eq_ignore_ascii_case, same_ignoring_ascii_case, uppercase_text};
use std::str::FromStr;
use vstd::pervasive::unreached;
use vstd::prelude::*;

verus! {

/// The place of a name among the filter names of the `log` crate, which
/// are `OFF`, `ERROR`, `WARN`, `INFO`, `DEBUG` and `TRACE` in this order,
/// counted from 0 and whatever the case of the name's letters.
pub open spec fn log_filter_index(name: Seq<char>) -> Option<u8> {
    if eq_ignore_ascii_case(name, "OFF"@) {
        Some(0u8)
    } else if eq_ignore_ascii_case(name, "ERROR"@) {
        Some(1u8)
    } else if eq_ignore_ascii_case(name, "WARN"@) {
        Some(2u8)
    } else if eq_ignore_ascii_case(name, "INFO"@) {
        Some(3u8)
    } else if eq_ignore_ascii_case(name, "DEBUG"@) {
        Some(4u8)
    } else if eq_ignore_ascii_case(name, "TRACE"@) {
        Some(5u8)
    } else {
        None
    }
}

/// The filter that a name stands for, whatever the case of its letters.
/// The names are `OFF`, `ERROR`, `WARN`, `INFO` and `DEBUG`.
pub open spec fn level_filter_named(name: Seq<char>) -> Option<LevelFilter> {
    if eq_ignore_ascii_case(name, "OFF"@) {
        Some(LevelFilter::Off)
    } else if eq_ignore_ascii_case(name, "ERROR"@) {
        Some(LevelFilter::Error)
    } else if eq_ignore_ascii_case(name, "WARN"@) {
        Some(LevelFilter::Warn)
    } else if eq_ignore_ascii_case(name, "INFO"@) {
        Some(LevelFilter::Info)
    } else if eq_ignore_ascii_case(name, "DEBUG"@) {
        Some(LevelFilter::Debug)
    } else {
        None
    }
}

/// The filter that a severity stands for: the filter of its name, with
/// `WARNING` as another name of `WARN`, whatever the case of the letters.
pub open spec fn severity_named(value: Seq<char>) -> Option<LevelFilter> {
    if eq_ignore_ascii_case(value, "WARNING"@) {
        Some(LevelFilter::Warn)
    } else {
        level_filter_named(value)
    }
}

/// The filter that an upper-cased name stands for, with `WARNING` read as
/// `WARN`.
pub open spec fn level_filter_of_upper(upper: Seq<char>) -> Option<LevelFilter> {
    if upper == "WARNING"@ {
        Some(LevelFilter::Warn)
    } else {
        level_filter_named(upper)
    }
}

/// The filter that a text stands for once it is upper-cased.
pub open spec fn level_filter_of_text(s: Seq<char>) -> Option<LevelFilter> {
    level_filter_of_upper(uppercase_text(s))
}

/// `log::LevelFilter::from_str`: it walks the names `OFF`, `ERROR`, `WARN`,
/// `INFO`, `DEBUG`, `TRACE` in this order and returns the filter of the first
/// one that equals `name` when ASCII case is ignored; it fails when none
/// does. The filters are numbered from 0 in the order of the names, and the
/// result here is the filter's number.
#[verifier::external_body]
pub(crate) fn log_filter_from_str(name: &str) -> (r: Option<u8>)
    ensures
        r == log_filter_index(name@),
{
    match log::LevelFilter::from_str(name) {
        Ok(filter) => Some(filter as u8),
        Err(_) => None,
    }
}

/// Reads a filter from its name in any case of the letters. `TRACE` names
/// no filter here.
pub fn level_filter_from_name(name: &str) -> (r: Option<LevelFilter>)
    ensures
        r == level_filter_named(name@),
{
    match log_filter_from_str(name) {
        Some(0) => Some(LevelFilter::Off),
        Some(1) => Some(LevelFilter::Error),
        Some(2) => Some(LevelFilter::Warn),
        Some(3) => Some(LevelFilter::Info),
        Some(4) => Some(LevelFilter::Debug),
        _ => None,
    }
}

/// Reads the filter that a severity stands for: a name in any case of the
/// letters, with `WARNING` as another name of `WARN`.
pub fn severity_from_str(value: &str) -> (r: Option<LevelFilter>)
    ensures
        r == severity_named(value@),
{
    if same_ignoring_ascii_case(value, "WARNING") {
        Some(LevelFilter::Warn)
    } else {
        level_filter_from_name(value)
    }
}

/// Reads a filter from a name that is already upper-cased.
pub fn level_filter_from_upper(upper: &str) -> (r: Option<LevelFilter>)
    ensures
        r == level_filter_of_upper(upper@),
{
    if upper.eq("WARNING") {
        Some(LevelFilter::Warn)
    } else {
        level_filter_from_name(upper)
    }
}

/// Reads a filter from its name in any case; `warning` counts as `warn`.
/// The text must name a filter.
pub fn parse_level_filter_str(s: &str) -> (r: LevelFilter)
    requires
        level_filter_of_text(s@) is Some,
    ensures
        Some(r) == level_filter_of_text(s@),
{
    let upper = s.to_uppercase();
    match level_filter_from_upper(upper.as_str()) {
        Some(level) => level,
        None => unreached(),
    }
}

/// Reads a filter from its name in any case, or returns `None` for a text
/// that names no filter.
pub fn try_parse_level_filter_str(s: &str) -> (r: Option<LevelFilter>)
    ensures
        r == level_filter_of_text(s@),
{
    let upper = s.to_uppercase();
    if level_filter_from_upper(upper.as_str()).is_some() {
        Some(parse_level_filter_str(s))
    } else {
        None
    }
}

} // verus!
