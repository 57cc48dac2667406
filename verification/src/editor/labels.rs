//! The small words and numbers the editor shows: times, channel counts, row
//! names, and the status line.

use vstd::prelude::*;

use crate::text::{padded_decimal, push_padded_decimal};

verus! {

/// `frames` at `rate` (48 kHz when the rate is zero) in whole milliseconds,
/// rounded down; the frame count times 1000 saturates at the top of `u64`.
pub open spec fn milliseconds(frames: u64, sample_rate: u32) -> nat {
    let rate: nat = if sample_rate == 0 {
        48_000
    } else {
        sample_rate as nat
    };
    let scaled: nat = if frames * 1000 > u64::MAX {
        u64::MAX as nat
    } else {
        (frames * 1000) as nat
    };
    scaled / rate
}

/// `mm:ss.mmm`: minutes (at least two digits), seconds, milliseconds.
pub open spec fn time_text(frames: u64, sample_rate: u32) -> Seq<char> {
    let ms = milliseconds(frames, sample_rate);
    padded_decimal(ms / 60_000, 2) + seq![':'] + padded_decimal((ms / 1000) % 60, 2) + seq!['.']
        + padded_decimal(ms % 1000, 3)
}

/// `frames` at `sample_rate`, as `mm:ss.mmm`. A zero rate falls back to
/// 48 kHz rather than dividing by zero.
pub fn format_time(frames: u64, sample_rate: u32) -> (text: String)
    ensures
        text@ == time_text(frames, sample_rate),
{
    let rate: u64 = if sample_rate == 0 {
        48_000
    } else {
        sample_rate as u64
    };
    let scaled = match frames.checked_mul(1000) {
        Some(v) => v,
        None => u64::MAX,
    };
    let ms = scaled / rate;
    let mut text = String::new();
    push_padded_decimal(&mut text, ms / 60_000, 2);
    crate::text::push_char(&mut text, ':');
    push_padded_decimal(&mut text, (ms / 1000) % 60, 2);
    crate::text::push_char(&mut text, '.');
    push_padded_decimal(&mut text, ms % 1000, 3);
    assert(text@ =~= time_text(frames, sample_rate));
    text
}

pub open spec fn channels_word(channels: u16) -> Seq<char> {
    if channels == 1 {
        "mono"@
    } else if channels == 2 {
        "stereo"@
    } else {
        "multi"@
    }
}

/// How the sample library describes a channel count.
pub fn channel_label(channels: u16) -> (label: &'static str)
    ensures
        label@ == channels_word(channels),
{
    if channels == 1 {
        "mono"
    } else if channels == 2 {
        "stereo"
    } else {
        "multi"
    }
}

/// The rows of the clip inspector's timing section.
#[derive(Clone, Copy, Debug, PartialEq, Eq, Structural)]
pub enum TimingRow {
    Start,
    Length,
    Offset,
}

impl TimingRow {
    pub open spec fn name(self) -> Seq<char> {
        match self {
            TimingRow::Start => "Start"@,
            TimingRow::Length => "Length"@,
            TimingRow::Offset => "Offset"@,
        }
    }

    pub fn label(self) -> (label: &'static str)
        ensures
            label@ == self.name(),
    {
        match self {
            TimingRow::Start => "Start",
            TimingRow::Length => "Length",
            TimingRow::Offset => "Offset",
        }
    }

    /// The values a row accepts, as inclusive bounds. A clip with zero length
    /// is invalid, so length starts at one frame.
    pub fn range(self) -> (bounds: (u64, u64))
        ensures
            bounds == (if self == TimingRow::Length {
                (1u64, u64::MAX)
            } else {
                (0u64, u64::MAX)
            }),
    {
        match self {
            TimingRow::Length => (1, u64::MAX),
            _ => (0, u64::MAX),
        }
    }
}

/// How a status line reads.
#[derive(Clone, Copy, Debug, PartialEq, Eq, Structural)]
pub enum Tone {
    Info,
    Working,
    Error,
}

/// The status line: a message and its tone.
#[derive(Clone, Debug)]
pub struct Status {
    pub text: String,
    pub tone: Tone,
}

impl Status {
    pub fn info(text: &str) -> (status: Self)
        ensures
            status.text@ == text@,
            status.tone == Tone::Info,
    {
        Status { text: String::from_str(text), tone: Tone::Info }
    }

    pub fn working(text: &str) -> (status: Self)
        ensures
            status.text@ == text@,
            status.tone == Tone::Working,
    {
        Status { text: String::from_str(text), tone: Tone::Working }
    }

    pub fn error(text: &str) -> (status: Self)
        ensures
            status.text@ == text@,
            status.tone == Tone::Error,
    {
        Status { text: String::from_str(text), tone: Tone::Error }
    }
}

} // verus!
