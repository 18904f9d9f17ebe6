//! What the environment configures.

#[allow(unused_imports)]
use crate::text::{parse_decimal, parsed_decimal, trim, trimmed};
use vstd::prelude::*;
#[allow(unused_imports)]
use vstd::string::*;

verus! {

/// The port that the server listens on by default.
pub const DEFAULT_PORT: u16 = 3000;

/// How many samples at 16 kHz an upload may hold by default: 30 minutes.
pub const DEFAULT_MAX_AUDIO_SAMPLES: usize = 28800000;

/// The port to listen on, given what is configured.
pub fn server_port(raw: Option<&str>) -> (r: u16)
    ensures
        match raw {
            Some(raw) => match parsed_decimal(raw@, u16::MAX as nat) {
                Some(port) => r == port,
                None => r == DEFAULT_PORT,
            },
            None => r == DEFAULT_PORT,
        },
{
    match raw {
        Some(raw) => match parse_decimal(raw, u16::MAX as u64) {
            Some(port) => port as u16,
            None => DEFAULT_PORT,
        },
        None => DEFAULT_PORT,
    }
}

/// How many samples an upload may hold, given what is configured: a positive number, with white
/// space around it or not.
pub fn max_audio_samples(raw: Option<&str>) -> (r: usize)
    ensures
        r == limit_of(
            match raw {
                Some(raw) => Some(raw@),
                None => None,
            },
        ),
        r > 0,
{
    match raw {
        Some(raw) => match parse_decimal(trim(raw), usize::MAX as u64) {
            Some(samples) => if samples > 0 {
                samples as usize
            } else {
                DEFAULT_MAX_AUDIO_SAMPLES
            },
            None => DEFAULT_MAX_AUDIO_SAMPLES,
        },
        None => DEFAULT_MAX_AUDIO_SAMPLES,
    }
}

/// The limit on the samples of an upload, once it has been read.
#[derive(Debug)]
pub struct SampleLimit {
    pub read: Option<usize>,
}

/// The limit that a setting stands for.
pub open spec fn limit_of(raw: Option<Seq<char>>) -> nat {
    match raw {
        Some(raw) => match parsed_decimal(trimmed(raw), usize::MAX as nat) {
            Some(samples) => if samples > 0 {
                samples
            } else {
                DEFAULT_MAX_AUDIO_SAMPLES as nat
            },
            None => DEFAULT_MAX_AUDIO_SAMPLES as nat,
        },
        None => DEFAULT_MAX_AUDIO_SAMPLES as nat,
    }
}

impl SampleLimit {
    /// A limit that has not been read.
    pub fn new() -> (r: SampleLimit)
        ensures
            r.read is None,
    {
        SampleLimit { read: None }
    }

    /// The limit, given what is configured now: that of the first time it was asked for.
    pub fn get(&mut self, raw: Option<&str>) -> (r: usize)
        ensures
            r == match old(self).read {
                Some(limit) => limit as nat,
                None => limit_of(
                    match raw {
                        Some(raw) => Some(raw@),
                        None => None,
                    },
                ),
            },
            final(self).read == Some(r),
    {
        match self.read {
            Some(limit) => limit,
            None => {
                let limit: usize = max_audio_samples(raw);
                self.read = Some(limit);
                limit
            },
        }
    }
}

/// Once the limit has been read, it stays the same whatever is configured later.
pub proof fn law_limit_is_read_once(limits: Seq<usize>, states: Seq<SampleLimit>, i: int, j: int)
    requires
        states.len() == limits.len() + 1,
        forall|k: int|
            0 <= k < limits.len() ==> {
                &&& states[k].read matches Some(limit) ==> #[trigger] limits[k] == limit
                &&& states[k + 1].read == Some(limits[k])
            },
        0 <= i <= j < limits.len(),
    ensures
        limits[i] == limits[j],
    decreases j - i,
{
    if i < j {
        law_limit_is_read_once(limits, states, i, j - 1);
        assert(states[j - 1 + 1].read == Some(limits[j - 1]));
    }
}

/// Where the recognition model is, given what is configured.
pub fn whisper_model_path(raw: Option<String>) -> (r: String)
    ensures
        match raw {
            Some(path) => r@ == path@,
            None => r@ == "./models/ggml-base.bin"@,
        },
{
    match raw {
        Some(path) => path,
        None => "./models/ggml-base.bin".to_string(),
    }
}

/// Where the speech detection model is, given what is configured.
pub fn vad_model_path(raw: Option<String>) -> (r: String)
    ensures
        match raw {
            Some(path) => r@ == path@,
            None => r@ == "./models/silero_vad.onnx"@,
        },
{
    match raw {
        Some(path) => path,
        None => "./models/silero_vad.onnx".to_string(),
    }
}

} // verus!
