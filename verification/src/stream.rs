//! Audio stream settings: sample rates and sample formats.
use vstd::prelude::*;
use vstd::string::*;

verus! {

/// A sample rate in frames per second.
#[derive(Clone, Copy, Debug, PartialEq, Eq, Structural)]
pub struct SampleRate(pub u32);

/// The sample format of a stream.  `Other` stands for a format this host
/// does not know by name.
#[derive(Clone, Copy, Debug, PartialEq, Eq, Structural)]
pub enum SampleFormat {
    I8,
    I16,
    I32,
    I64,
    U8,
    U16,
    U32,
    U64,
    F32,
    F64,
    Other,
}

/// The sample rate a device reports, which must not be zero (a zero rate
/// is refused as a broken device configuration).
pub fn get_sample_rate(rate: u32) -> (r: u32)
    requires
        rate != 0,
    ensures
        r == rate,
        r != 0,
{
    rate
}

/// Keeps a sample rate within `[min, max]`.
pub fn clamp_rate(sample_rate: SampleRate, min: SampleRate, max: SampleRate) -> (r: SampleRate)
    requires
        min.0 <= max.0,
    ensures
        min.0 <= r.0 <= max.0,
        min.0 <= sample_rate.0 <= max.0 ==> r == sample_rate,
        sample_rate.0 < min.0 ==> r == min,
        sample_rate.0 > max.0 ==> r == max,
{
    if sample_rate.0 < min.0 {
        SampleRate(min.0)
    } else if sample_rate.0 > max.0 {
        SampleRate(max.0)
    } else {
        SampleRate(sample_rate.0)
    }
}

/// The short name of a sample format.
pub open spec fn format_name(format: SampleFormat) -> Seq<char> {
    match format {
        SampleFormat::I8 => "I8"@,
        SampleFormat::I16 => "I16"@,
        SampleFormat::I32 => "I32"@,
        SampleFormat::I64 => "I64"@,
        SampleFormat::U8 => "U8"@,
        SampleFormat::U16 => "U16"@,
        SampleFormat::U32 => "U32"@,
        SampleFormat::U64 => "U64"@,
        SampleFormat::F32 => "F32"@,
        SampleFormat::F64 => "F64"@,
        SampleFormat::Other => "Unknown"@,
    }
}

/// Names a sample format for the engine's settings.
pub fn format_to_internal(format: SampleFormat) -> (name: String)
    ensures
        name@ == format_name(format),
{
    match format {
        SampleFormat::I8 => String::from_str("I8"),
        SampleFormat::I16 => String::from_str("I16"),
        SampleFormat::I32 => String::from_str("I32"),
        SampleFormat::I64 => String::from_str("I64"),
        SampleFormat::U8 => String::from_str("U8"),
        SampleFormat::U16 => String::from_str("U16"),
        SampleFormat::U32 => String::from_str("U32"),
        SampleFormat::U64 => String::from_str("U64"),
        SampleFormat::F32 => String::from_str("F32"),
        SampleFormat::F64 => String::from_str("F64"),
        SampleFormat::Other => String::from_str("Unknown"),
    }
}

} // verus!
