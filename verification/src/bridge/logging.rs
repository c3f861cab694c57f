//! Which log records reach the host, and in what form.

use crate::text::{same_ignoring_case, same_text};
use crate::level::{level_rank, Level};
use vstd::prelude::*;
use vstd::string::StrSliceExecFns;

verus! {

/// The records that a logger lets through.
#[derive(Debug, Clone, Copy, PartialEq, Eq, Structural)]
pub enum LevelFilter {
    Off,
    Error,
    Warn,
    Info,
    Debug,
    Trace,
}

/// Rank of a filter: records of at most this rank pass.
pub open spec fn filter_rank(filter: LevelFilter) -> int {
    match filter {
        LevelFilter::Off => 0,
        LevelFilter::Error => 1,
        LevelFilter::Warn => 2,
        LevelFilter::Info => 3,
        LevelFilter::Debug => 4,
        LevelFilter::Trace => 5,
    }
}

/// The filter that a text names, in letters of any case.
pub open spec fn filter_named(text: Seq<char>) -> Option<LevelFilter> {
    if same_ignoring_case(text, "OFF"@) {
        Some(LevelFilter::Off)
    } else if same_ignoring_case(text, "ERROR"@) {
        Some(LevelFilter::Error)
    } else if same_ignoring_case(text, "WARN"@) {
        Some(LevelFilter::Warn)
    } else if same_ignoring_case(text, "INFO"@) {
        Some(LevelFilter::Info)
    } else if same_ignoring_case(text, "DEBUG"@) {
        Some(LevelFilter::Debug)
    } else if same_ignoring_case(text, "TRACE"@) {
        Some(LevelFilter::Trace)
    } else {
        None
    }
}

/// Parsing a `log::LevelFilter` accepts exactly the names of the six filters,
/// in letters of any case.
#[verifier::external_body]
fn parse_level_filter(text: &str) -> (filter: Option<LevelFilter>)
    ensures
        filter == filter_named(text@),
{
    match text.parse::<log::LevelFilter>() {
        Ok(log::LevelFilter::Off) => Some(LevelFilter::Off),
        Ok(log::LevelFilter::Error) => Some(LevelFilter::Error),
        Ok(log::LevelFilter::Warn) => Some(LevelFilter::Warn),
        Ok(log::LevelFilter::Info) => Some(LevelFilter::Info),
        Ok(log::LevelFilter::Debug) => Some(LevelFilter::Debug),
        Ok(log::LevelFilter::Trace) => Some(LevelFilter::Trace),
        Err(_) => None,
    }
}

/// Whether a letter is white space, as Unicode defines it.
pub open spec fn is_space(letter: char) -> bool {
    ||| '\u{9}' <= letter && letter <= '\u{d}'
    ||| letter == ' '
    ||| letter == '\u{85}'
    ||| letter == '\u{a0}'
    ||| letter == '\u{1680}'
    ||| '\u{2000}' <= letter && letter <= '\u{200a}'
    ||| letter == '\u{2028}'
    ||| letter == '\u{2029}'
    ||| letter == '\u{202f}'
    ||| letter == '\u{205f}'
    ||| letter == '\u{3000}'
}

/// `text` without the white space at its end.
pub open spec fn trimmed_end(text: Seq<char>) -> Seq<char>
    decreases text.len(),
{
    if text.len() > 0 && is_space(text.last()) {
        trimmed_end(text.drop_last())
    } else {
        text
    }
}

/// `text` without the white space at its start.
pub open spec fn trimmed_start(text: Seq<char>) -> Seq<char>
    decreases text.len(),
{
    if text.len() > 0 && is_space(text[0]) {
        trimmed_start(text.subrange(1, text.len() as int))
    } else {
        text
    }
}

/// `text` without the white space around it.
pub open spec fn trimmed(text: Seq<char>) -> Seq<char> {
    trimmed_end(trimmed_start(text))
}

/// `text` without the line ends behind it.
pub open spec fn without_line_ends(text: Seq<char>) -> Seq<char>
    decreases text.len(),
{
    if text.len() > 0 && text.last() == '\n' {
        without_line_ends(text.drop_last())
    } else {
        text
    }
}

/// Whether a letter is white space.
fn space(letter: char) -> (result: bool)
    ensures
        result == is_space(letter),
{
    ('\u{9}' <= letter && letter <= '\u{d}') || letter == ' ' || letter == '\u{85}' || letter
        == '\u{a0}' || letter == '\u{1680}' || ('\u{2000}' <= letter && letter <= '\u{200a}')
        || letter == '\u{2028}' || letter == '\u{2029}' || letter == '\u{202f}' || letter
        == '\u{205f}' || letter == '\u{3000}'
}

/// `text` without the white space around it.
pub fn trim(text: &str) -> (result: &str)
    ensures
        result@ == trimmed(text@),
{
    let count: usize = text.unicode_len();
    let mut first: usize = 0;
    assert(text@.subrange(0, count as int) =~= text@);
    while first < count && space(text.get_char(first))
        invariant
            first <= count,
            count == text@.len(),
            trimmed_start(text@) == trimmed_start(text@.subrange(first as int, count as int)),
        decreases count - first,
    {
        let ghost rest = text@.subrange(first as int, count as int);
        assert(rest.subrange(1, rest.len() as int) =~= text@.subrange(first + 1, count as int));
        first = first + 1;
    }
    let ghost start = text@.subrange(first as int, count as int);
    assert(first < count ==> start[0] == text@[first as int]);
    assert(trimmed_start(text@) == start);
    let mut last: usize = count;
    while last > first && space(text.get_char(last - 1))
        invariant
            first <= last <= count,
            count == text@.len(),
            trimmed(text@) == trimmed_end(text@.subrange(first as int, last as int)),
        decreases last - first,
    {
        let ghost rest = text@.subrange(first as int, last as int);
        assert(rest.last() == text@[last - 1]);
        assert(rest.drop_last() =~= text@.subrange(first as int, last - 1));
        last = last - 1;
    }
    let ghost rest = text@.subrange(first as int, last as int);
    assert(last > first ==> rest.last() == text@[last - 1]);
    text.substring_char(first, last)
}

/// The level that a setting asks for: a bare level, else `info`.
pub open spec fn level_set(setting: Option<Seq<char>>) -> LevelFilter {
    match setting {
        Some(text) => match filter_named(trimmed(text)) {
            Some(named) => named,
            None => LevelFilter::Info,
        },
        None => LevelFilter::Info,
    }
}

/// The level that the host's engine logs at: a bare level in `setting`, else
/// `info`.
pub fn host_log_level(setting: Option<&str>) -> (filter: LevelFilter)
    ensures
        filter == level_set(
            match setting {
                Some(text) => Some(text@),
                None => None,
            },
        ),
{
    match setting {
        Some(text) => match parse_level_filter(trim(text)) {
            Some(filter) => filter,
            None => LevelFilter::Info,
        },
        None => LevelFilter::Info,
    }
}

/// Whether DRC diagnostics are asked for: by any setting but `0`.
pub fn drc_diag_log_enabled(setting: Option<&str>) -> (enabled: bool)
    ensures
        enabled == (setting matches Some(text) && text@ != "0"@),
{
    match setting {
        Some(text) => !same_text(text, "0"),
        None => false,
    }
}

/// Whether a record's target is of the bridge itself, and not of a decoder that
/// it links.
pub open spec fn bridge_target(target: Seq<char>) -> bool {
    let own = "harletty_bridge"@;
    let inner = "harletty_bridge::"@;
    ||| target == own
    ||| target.len() >= inner.len() && target.subrange(0, inner.len() as int) == inner
}

/// Whether a record was made by the bridge itself. The decoders log for their
/// own debugging; every failure is reported again by the pipeline that met it.
pub fn is_bridge_target(target: &str) -> (own: bool)
    ensures
        own == bridge_target(target@),
{
    let inner: &str = "harletty_bridge::";
    let count: usize = inner.unicode_len();
    if same_text(target, "harletty_bridge") {
        return true;
    }
    target.unicode_len() >= count && same_text(target.substring_char(0, count), inner)
}

/// Whether a record passes the filter and was made by the bridge itself.
pub open spec fn record_forwarded(level: Level, filter: LevelFilter, target: Seq<char>) -> bool {
    level_rank(level) <= filter_rank(filter) && bridge_target(target)
}

/// Whether a record is forwarded to the host: it passes the filter and was made
/// by the bridge itself.
pub fn is_forwarded(level: Level, filter: LevelFilter, target: &str) -> (forwarded: bool)
    ensures
        forwarded == record_forwarded(level, filter, target@),
{
    let limit: u8 = match filter {
        LevelFilter::Off => 0,
        LevelFilter::Error => 1,
        LevelFilter::Warn => 2,
        LevelFilter::Info => 3,
        LevelFilter::Debug => 4,
        LevelFilter::Trace => 5,
    };
    level.rank() <= limit && is_bridge_target(target)
}

/// A record for the host.
#[derive(Debug)]
pub struct HostRecord<'a> {
    pub level: Level,
    pub target: &'a str,
    pub message: &'a str,
}

/// A record as the host gets it: without the line ends behind the message.
pub fn bridge_external_log<'a>(level: Level, target: &'a str, message: &'a str) -> (record:
    HostRecord<'a>)
    ensures
        record.level == level,
        record.target@ == target@,
        record.message@ == without_line_ends(message@),
{
    let count: usize = message.unicode_len();
    let mut last: usize = count;
    assert(message@.subrange(0, count as int) =~= message@);
    while last > 0 && message.get_char(last - 1) == '\n'
        invariant
            last <= count,
            count == message@.len(),
            without_line_ends(message@) == without_line_ends(message@.subrange(0, last as int)),
        decreases last,
    {
        let ghost rest = message@.subrange(0, last as int);
        assert(rest.last() == message@[last - 1]);
        assert(rest.drop_last() =~= message@.subrange(0, last - 1));
        last = last - 1;
    }
    let ghost rest = message@.subrange(0, last as int);
    assert(last > 0 ==> rest.last() == message@[last - 1]);
    HostRecord { level, target, message: message.substring_char(0, last) }
}

/// A diagnostic record of the bridge.
pub fn bridge_diag_log<'a>(level: Level, message: &'a str) -> (record: HostRecord<'a>)
    ensures
        record.level == level,
        record.target@ == "harletty-bridge::diag"@,
        record.message@ == without_line_ends(message@),
{
    bridge_external_log(level, "harletty-bridge::diag", message)
}

/// What a panic carried.
#[derive(Debug)]
pub enum PanicPayload<'a> {
    Text(&'a str),
    Owned(String),
    Other,
}

/// The message of a panic.
pub fn panic_message(payload: PanicPayload) -> (message: String)
    ensures
        message@ == match payload {
            PanicPayload::Text(text) => text@,
            PanicPayload::Owned(text) => text@,
            PanicPayload::Other => "Unknown panic during frame processing"@,
        },
{
    match payload {
        PanicPayload::Text(text) => text.to_owned(),
        PanicPayload::Owned(text) => text,
        PanicPayload::Other => "Unknown panic during frame processing".to_owned(),
    }
}

/// The host gets no record of a decoder, whatever its level: only targets that
/// start with the bridge's own name pass.
pub proof fn decoder_records_stay_out(target: Seq<char>)
    requires
        bridge_target(target),
    ensures
        target.len() >= "harletty_bridge"@.len(),
        target.subrange(0, "harletty_bridge"@.len() as int) == "harletty_bridge"@,
{
    reveal_strlit("harletty_bridge");
    reveal_strlit("harletty_bridge::");
    let own = "harletty_bridge"@;
    let inner = "harletty_bridge::"@;
    assert(inner.subrange(0, own.len() as int) =~= own);
    if target != own {
        assert(target.subrange(0, own.len() as int) =~= target.subrange(
            0,
            inner.len() as int,
        ).subrange(0, own.len() as int));
    } else {
        assert(target.subrange(0, own.len() as int) =~= own);
    }
}

} // verus!
