//! What the tool checks of the WAV files yt-dlp/ffmpeg produce: that they
//! landed at CD-audio spec, and how long they really are (more accurate
//! than YouTube's reported duration for capacity math).

use vstd::prelude::*;
use crate::text::{decimal, push_decimal};

verus! {

/// The format fields of a WAV header that the checks read.
#[derive(Debug, Clone, Copy, PartialEq, Eq, Structural)]
pub struct WavSpec {
    pub channels: u16,
    pub sample_rate: u32,
    pub bits_per_sample: u16,
}

/// Red Book CD audio: 44.1 kHz, 16-bit, stereo.
pub open spec fn is_cd_spec(s: WavSpec) -> bool {
    s.sample_rate == 44100 && s.channels == 2 && s.bits_per_sample == 16
}

/// The description of a format that misses CD spec.
pub open spec fn cd_spec_mismatch(path: Seq<char>, s: WavSpec) -> Seq<char> {
    path + " is "@ + decimal(s.sample_rate as nat) + "Hz/"@ + decimal(s.bits_per_sample as nat)
        + "-bit/"@ + decimal(s.channels as nat) + "ch, expected 44100Hz/16-bit/stereo (CD spec)"@
}

/// Whether a header describes CD audio.
pub fn meets_cd_spec(spec: &WavSpec) -> (b: bool)
    ensures
        b == is_cd_spec(*spec),
{
    spec.sample_rate == 44100 && spec.channels == 2 && spec.bits_per_sample == 16
}

/// Accepts a file whose header is at CD spec; otherwise says what it is
/// instead. `path` is the file's name as displayed.
pub fn verify_cd_spec(path: &str, spec: &WavSpec) -> (res: Result<(), String>)
    ensures
        res is Ok <==> is_cd_spec(*spec),
        res matches Err(m) ==> m@ == cd_spec_mismatch(path@, *spec),
{
    if meets_cd_spec(spec) {
        return Ok(());
    }
    let mut m = path.to_owned();
    m.append(" is ");
    push_decimal(&mut m, spec.sample_rate as u64);
    m.append("Hz/");
    push_decimal(&mut m, spec.bits_per_sample as u64);
    m.append("-bit/");
    push_decimal(&mut m, spec.channels as u64);
    m.append("ch, expected 44100Hz/16-bit/stereo (CD spec)");
    Err(m)
}

/// Whole seconds of audio in `frames` samples per channel; zero when the
/// header gives no sample rate.
pub fn wav_duration_seconds(spec: &WavSpec, frames: u32) -> (secs: u64)
    ensures
        secs == if spec.sample_rate == 0 { 0 } else { frames as int / spec.sample_rate as int },
{
    if spec.sample_rate == 0 {
        return 0;
    }
    frames as u64 / spec.sample_rate as u64
}

} // verus!
