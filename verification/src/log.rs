//! The log of the decoding library, forwarded to ours.

use vstd::prelude::*;

use crate::text::push_text;
use crate::ui::subscriber::Level;

verus! {

/// The levels of libav.
pub const AV_LOG_FATAL: i32 = 8;
pub const AV_LOG_ERROR: i32 = 16;
pub const AV_LOG_WARNING: i32 = 24;
pub const AV_LOG_INFO: i32 = 32;
pub const AV_LOG_VERBOSE: i32 = 40;
pub const AV_LOG_DEBUG: i32 = 48;
pub const AV_LOG_TRACE: i32 = 56;

/// The level that a level of libav stands for. `None` if it is not a known one.
pub open spec fn level_of(level: i32) -> Option<Level> {
    if level == AV_LOG_ERROR || level == AV_LOG_FATAL {
        Some(Level::Error)
    } else if level == AV_LOG_WARNING {
        Some(Level::Warn)
    } else if level == AV_LOG_INFO {
        Some(Level::Info)
    } else if level == AV_LOG_DEBUG || level == AV_LOG_VERBOSE {
        Some(Level::Debug)
    } else if level == AV_LOG_TRACE {
        Some(Level::Trace)
    } else {
        None
    }
}

/// The text of a message of libav, which may be one that could not be formatted.
pub open spec fn message_of(formatted: Option<String>) -> Seq<char> {
    match formatted {
        Some(s) => s@,
        None => "FFMPEG: unknown error"@,
    }
}

/// The entry of the log that a message of libav becomes. A message of an unknown level is an
/// error, and says so.
pub fn log_entry(level: i32, formatted: Option<String>) -> (r: (Level, String))
    ensures
        match level_of(level) {
            Some(l) => r.0 == l && r.1@ == message_of(formatted),
            None => r.0 == Level::Error && r.1@ == "unknown level: "@ + message_of(formatted),
        },
{
    let message = match formatted {
        Some(s) => s,
        None => "FFMPEG: unknown error".to_owned(),
    };
    if level == AV_LOG_ERROR || level == AV_LOG_FATAL {
        (Level::Error, message)
    } else if level == AV_LOG_WARNING {
        (Level::Warn, message)
    } else if level == AV_LOG_INFO {
        (Level::Info, message)
    } else if level == AV_LOG_DEBUG || level == AV_LOG_VERBOSE {
        (Level::Debug, message)
    } else if level == AV_LOG_TRACE {
        (Level::Trace, message)
    } else {
        let mut text = "unknown level: ".to_owned();
        push_text(&mut text, message.as_str());
        (Level::Error, text)
    }
}

/// Seven levels of libav are known, from 8 to 56 in steps of eight. A higher one is never more
/// important than a lower one; errors are the first two, and the last one is the only trace.
pub proof fn known_levels(a: i32, b: i32)
    ensures
        level_of(a) is Some <==> 8 <= a <= 56 && a % 8 == 0,
        level_of(a) is Some && level_of(b) is Some && a <= b ==> level_of(a)->Some_0.verbosity()
            <= level_of(b)->Some_0.verbosity(),
        level_of(a) == Some(Level::Error) <==> a == 8 || a == 16,
        level_of(a) == Some(Level::Warn) <==> a == 24,
        level_of(a) == Some(Level::Info) <==> a == 32,
        level_of(a) == Some(Level::Trace) <==> a == 56,
{
}

/// What [`log_entry`] returns: of a known level the message as it is, and of any other one an error
/// that ends in the message.
pub proof fn messages_are_forwarded(level: i32, message: String, r: (Level, String))
    requires
        call_ensures(log_entry, (level, Some(message)), r),
    ensures
        8 <= level <= 56 && level % 8 == 0 ==> r.1@ == message@,
        !(8 <= level <= 56 && level % 8 == 0) ==> r.0 == Level::Error && r.1@ == "unknown level: "@
            + message@,
        r.0 == Level::Warn <==> level == 24,
        r.0 == Level::Info <==> level == 32,
        r.0 == Level::Debug <==> level == 40 || level == 48,
        r.0 == Level::Trace <==> level == 56,
{
}

} // verus!
