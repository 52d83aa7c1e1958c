//! What the user is told when something fails.

use vstd::prelude::*;

use crate::text::{decimal, decimal_reads_back, decimal_text, push_text, signed_number};
use crate::ui::state::UiError;
use crate::video::clips::ClipError;
use crate::video_info::sample::SampleError;
use crate::video_info::DecodeError;

verus! {

impl ClipError {
    /// What the user is told.
    pub open spec fn text(self) -> Seq<char> {
        match self {
            ClipError::NotInAnyClip { time } => "time "@ + decimal(time as int)
                + " is not in any clip"@,
        }
    }

    /// What the user is told.
    pub fn message(&self) -> (r: String)
        ensures
            r@ == self.text(),
    {
        match self {
            ClipError::NotInAnyClip { time } => {
                let mut out = "time ".to_owned();
                let number = decimal_text(*time);
                push_text(&mut out, number.as_str());
                push_text(&mut out, " is not in any clip");
                out
            },
        }
    }
}

impl UiError {
    /// What the user is told.
    pub open spec fn text(self) -> Seq<char> {
        match self {
            UiError::NotANumber { text } => "could not parse "@ + text@ + " as a float"@,
        }
    }

    /// What the user is told.
    pub fn message(&self) -> (r: String)
        ensures
            r@ == self.text(),
    {
        match self {
            UiError::NotANumber { text } => {
                let mut out = "could not parse ".to_owned();
                push_text(&mut out, text.as_str());
                push_text(&mut out, " as a float");
                out
            },
        }
    }
}

impl DecodeError {
    /// What the user is told.
    pub open spec fn text(self) -> Seq<char> {
        match self {
            DecodeError::NoVideoStream => "No video stream found"@,
            DecodeError::NoAudioStream => "No audio stream found"@,
            DecodeError::NoFrameRate => "Could not get video frame rate"@,
            DecodeError::NoImage => "Failed to create RGB image"@,
            DecodeError::NoTimestamp => "Failed to get timestamp"@,
        }
    }

    /// What the user is told.
    pub fn message(&self) -> (r: &'static str)
        ensures
            r@ == self.text(),
    {
        match self {
            DecodeError::NoVideoStream => "No video stream found",
            DecodeError::NoAudioStream => "No audio stream found",
            DecodeError::NoFrameRate => "Could not get video frame rate",
            DecodeError::NoImage => "Failed to create RGB image",
            DecodeError::NoTimestamp => "Failed to get timestamp",
        }
    }
}

impl SampleError {
    /// What the user is told.
    pub fn message(&self) -> (r: &'static str)
        ensures
            r@ == "Cannot decode samples of type `None`"@,
    {
        "Cannot decode samples of type `None`"
    }
}

/// The message about a time that lies in no clip tells that time.
pub proof fn the_message_tells_the_time(time: i64) -> (number: Seq<char>)
    ensures
        (ClipError::NotInAnyClip { time }).text() == "time "@ + number + " is not in any clip"@,
        signed_number(number) == time,
{
    decimal_reads_back(time as int);
    decimal(time as int)
}

} // verus!
