use vstd::prelude::*;

use crate::text::{lower_code, lower_eq, str_eq_lower};

verus! {

/// The host runtime's five verbosity levels, ranked from most to least chatty.
#[derive(PartialEq, Eq, Structural, Clone, Copy, Debug)]
pub enum TraceLevel {
    Trace,
    Debug,
    Info,
    Warn,
    Error,
}

/// The breadcrumb severity scale of the error-reporting client.
#[derive(PartialEq, Eq, Structural, Clone, Copy, Debug)]
pub enum Level {
    Debug,
    Info,
    Warning,
    Error,
    Fatal,
}

/// The fixed severity correspondence: TRACE and DEBUG collapse to Debug,
/// the remaining levels map one-to-one.
pub open spec fn level_map(l: TraceLevel) -> Level {
    match l {
        TraceLevel::Trace => Level::Debug,
        TraceLevel::Debug => Level::Debug,
        TraceLevel::Info => Level::Info,
        TraceLevel::Warn => Level::Warning,
        TraceLevel::Error => Level::Error,
    }
}

/// Map a host runtime level onto the breadcrumb severity scale.
pub fn level_to_level(l: TraceLevel) -> (r: Level)
    ensures
        r == level_map(l),
{
    match l {
        TraceLevel::Trace => Level::Debug,
        TraceLevel::Debug => Level::Debug,
        TraceLevel::Info => Level::Info,
        TraceLevel::Warn => Level::Warning,
        TraceLevel::Error => Level::Error,
    }
}

/// The canonical lower-case name of a breadcrumb severity level.
pub open spec fn level_name_spec(l: Level) -> Seq<char> {
    match l {
        Level::Debug => "debug"@,
        Level::Info => "info"@,
        Level::Warning => "warning"@,
        Level::Error => "error"@,
        Level::Fatal => "fatal"@,
    }
}

/// The canonical lower-case name of a breadcrumb severity level.
pub fn level_name(l: Level) -> (r: String)
    ensures
        r@ == level_name_spec(l),
{
    match l {
        Level::Debug => "debug".to_owned(),
        Level::Info => "info".to_owned(),
        Level::Warning => "warning".to_owned(),
        Level::Error => "error".to_owned(),
        Level::Fatal => "fatal".to_owned(),
    }
}

/// The severity denoted by a level string, compared after lower-casing
/// against the breadcrumb severity vocabulary; an unknown spelling denotes
/// no severity at all.
pub open spec fn level_of_str(s: Seq<char>) -> Option<Level> {
    if lower_eq(s, "debug"@) {
        Some(Level::Debug)
    } else if lower_eq(s, "info"@) || lower_eq(s, "log"@) {
        Some(Level::Info)
    } else if lower_eq(s, "warning"@) {
        Some(Level::Warning)
    } else if lower_eq(s, "error"@) {
        Some(Level::Error)
    } else if lower_eq(s, "fatal"@) {
        Some(Level::Fatal)
    } else {
        None
    }
}

/// Parse a severity string; the match is case-insensitive, and a spelling
/// outside the vocabulary yields `None`.
pub fn parse_level(s: &str) -> (r: Option<Level>)
    ensures
        r == level_of_str(s@),
{
    if str_eq_lower(s, "debug") {
        Some(Level::Debug)
    } else if str_eq_lower(s, "info") || str_eq_lower(s, "log") {
        Some(Level::Info)
    } else if str_eq_lower(s, "warning") {
        Some(Level::Warning)
    } else if str_eq_lower(s, "error") {
        Some(Level::Error)
    } else if str_eq_lower(s, "fatal") {
        Some(Level::Fatal)
    } else {
        None
    }
}

/// The severity mapping is total and stable: every host runtime level maps
/// to exactly one breadcrumb level, none reaches Fatal, TRACE and DEBUG
/// collapse to the same level, INFO, WARN and ERROR map one-to-one, and the
/// mapping is idempotent in the sense that the canonical name of any mapped
/// level parses back to that very level.
pub proof fn lemma_severity_total_and_stable()
    ensures
        level_map(TraceLevel::Trace) == Level::Debug,
        level_map(TraceLevel::Debug) == Level::Debug,
        level_map(TraceLevel::Info) == Level::Info,
        level_map(TraceLevel::Warn) == Level::Warning,
        level_map(TraceLevel::Error) == Level::Error,
        forall|l: TraceLevel| (#[trigger] level_map(l)) != Level::Fatal,
        forall|l: Level| level_of_str(#[trigger] level_name_spec(l)) == Some(l),
{
    reveal_strlit("debug");
    reveal_strlit("info");
    reveal_strlit("log");
    reveal_strlit("warning");
    reveal_strlit("error");
    reveal_strlit("fatal");
    assert forall|l: Level| level_of_str(#[trigger] level_name_spec(l)) == Some(l) by {
        match l {
            Level::Debug => {
                assert(lower_eq("debug"@, "debug"@));
            },
            Level::Info => {
                assert(!lower_eq("info"@, "debug"@));
                assert(lower_eq("info"@, "info"@));
            },
            Level::Warning => {
                assert(!lower_eq("warning"@, "debug"@));
                assert(!lower_eq("warning"@, "info"@));
                assert(!lower_eq("warning"@, "log"@));
                assert(lower_eq("warning"@, "warning"@));
            },
            Level::Error => {
                assert(lower_code("error"@[0]) != lower_code("debug"@[0]));
                assert(!lower_eq("error"@, "debug"@));
                assert(!lower_eq("error"@, "info"@));
                assert(!lower_eq("error"@, "log"@));
                assert(!lower_eq("error"@, "warning"@));
                assert(lower_eq("error"@, "error"@));
            },
            Level::Fatal => {
                assert(lower_code("fatal"@[0]) != lower_code("debug"@[0]));
                assert(lower_code("fatal"@[0]) != lower_code("error"@[0]));
                assert(!lower_eq("fatal"@, "debug"@));
                assert(!lower_eq("fatal"@, "info"@));
                assert(!lower_eq("fatal"@, "log"@));
                assert(!lower_eq("fatal"@, "warning"@));
                assert(!lower_eq("fatal"@, "error"@));
                assert(lower_eq("fatal"@, "fatal"@));
            },
        }
    }
}

} // verus!
