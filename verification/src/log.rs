use vstd::prelude::*;
use crate::ui::{decimal, push_decimal};

verus! {

/// The kinds of log the game keeps.
#[derive(Debug, Clone, Copy, PartialEq, Eq, Structural, PartialOrd, Ord, Hash)]
pub enum LogType {
    General,
    Network,
    AudioPerformance,
}

/// Whether the log files are due to be flushed: at least `interval` has passed since the
/// last flush (all in microseconds; a clock that went back counts as no time passed).
pub fn should_flush(now: u64, last_flush: u64, interval: u64) -> (r: bool)
    ensures
        r == (now >= last_flush && now - last_flush >= interval || now < last_flush && interval
            == 0),
{
    let elapsed = if now >= last_flush {
        now - last_flush
    } else {
        0
    };
    elapsed >= interval
}

/// The name of a log kind as log lines show it.
pub open spec fn log_type_name(ty: LogType) -> Seq<char> {
    match ty {
        LogType::General => "General"@,
        LogType::Network => "Network"@,
        LogType::AudioPerformance => "AudioPerformance"@,
    }
}

/// A log line in the default format: the Unix time in seconds between slashes, the kind
/// of log in brackets, then the text.
pub open spec fn log_line_spec(secs: u64, ty: LogType, text: Seq<char>) -> Seq<char> {
    "/"@ + decimal(secs as nat) + "/ ["@ + log_type_name(ty) + "] "@ + text
}

/// Formats `text` for the log of kind `ty`, written `secs` seconds after the Unix epoch.
pub fn log_line(secs: u64, ty: LogType, text: &str) -> (r: String)
    ensures
        r@ == log_line_spec(secs, ty, text@),
{
    let mut s = "/".to_owned();
    push_decimal(&mut s, secs);
    s.append("/ [");
    let name = match ty {
        LogType::General => "General",
        LogType::Network => "Network",
        LogType::AudioPerformance => "AudioPerformance",
    };
    s.append(name);
    s.append("] ");
    s.append(text);
    s
}

} // verus!
