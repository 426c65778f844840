//! What the arrangement view records about an audio sample besides its
//! audio data: the name it shows and the rate it plays at.
use crate::paths::{path_file_name, path_file_name_of};
use vstd::prelude::*;

verus! {

/// The rate a sample is shown at when the decoder reported none.
pub const FALLBACK_SAMPLE_RATE: u32 = 44100;

/// The sample rate the view uses: the decoded rate, or 44100 Hz when the
/// decoder reported zero.
pub fn sample_rate_or_default(rate: u32) -> (r: u32)
    ensures
        r == (if rate == 0 {
            FALLBACK_SAMPLE_RATE
        } else {
            rate
        }),
        r != 0,
{
    if rate == 0 {
        FALLBACK_SAMPLE_RATE
    } else {
        rate
    }
}

/// The name a sample is shown under: the file name of its path.  A path
/// without a file name (such as `/` or one ending in `..`) gives no sample.
pub fn sample_display_name(path: &String) -> (name: Option<String>)
    ensures
        match name {
            Some(n) => path_file_name_of(path@) == Some(n@),
            None => path_file_name_of(path@) is None,
        },
{
    path_file_name(path)
}

} // verus!
