//! Taking in an upload, from the fields of its form to the start of a job.

use crate::audio::{
    encoding_of, is_too_deep, parse_raw_pcm, parse_wav, readable, sample_value, wav_header, wav_samples,
    PcmAudio, SampleEncoding, WavAudio, WavError, FULL_SCALE_16,
};
use crate::handlers::reply::{
    refuse, refuse_with, started, started_body, Reply, ACCEPTED, BAD_REQUEST, CONFLICT,
    INTERNAL_SERVER_ERROR, PAYLOAD_TOO_LARGE,
};
use crate::handlers::{filename_problem, validate_filename};
use crate::services::transcription::{ServiceView, TranscriptionService};
use crate::text::{
    decimal_digits, decimal_text, parse_decimal, parsed_decimal, same_text, trimmed,
};
use vstd::prelude::*;
#[allow(unused_imports)]
use vstd::string::*;

verus! {

/// The sample rate of an upload that does not tell one, and of everything that is transcribed.
pub const TARGET_SAMPLE_RATE: u32 = 16000;

pub const MIN_SAMPLE_RATE: u32 = 8000;

pub const MAX_SAMPLE_RATE: u32 = 192000;

/// What a field of the form is for.
#[derive(Debug, Clone, Copy, PartialEq, Eq, Structural)]
pub enum FieldKind {
    Audio,
    SampleRate,
    Filename,
    Other,
}

/// What the field of this name is for.
pub fn field_kind(name: &str) -> (r: FieldKind)
    ensures
        r == if name@ == "audio"@ {
            FieldKind::Audio
        } else if name@ == "sample_rate"@ {
            FieldKind::SampleRate
        } else if name@ == "filename"@ {
            FieldKind::Filename
        } else {
            FieldKind::Other
        },
{
    if same_text(name, "audio") {
        FieldKind::Audio
    } else if same_text(name, "sample_rate") {
        FieldKind::SampleRate
    } else if same_text(name, "filename") {
        FieldKind::Filename
    } else {
        FieldKind::Other
    }
}

/// Uploaded audio.
#[derive(Debug)]
pub enum UploadAudio {
    Pcm(PcmAudio),
    /// A WAV file of floating-point samples.
    FloatWav(Vec<u8>),
}

/// What the form has told so far.
#[derive(Debug)]
pub struct UploadForm {
    pub audio: Option<UploadAudio>,
    pub sample_rate: u32,
    /// The file name field.
    pub filename: Option<String>,
    /// The name of the uploaded file.
    pub file_name: Option<String>,
}

/// A text that may be missing.
pub open spec fn optional_text(text: Option<String>) -> Option<Seq<char>> {
    match text {
        Some(text) => Some(text@),
        None => None,
    }
}

impl UploadForm {
    /// The name that the form tells: the file name field, or else the name of the uploaded file.
    pub open spec fn name(self) -> Option<Seq<char>> {
        match self.filename {
            Some(name) => Some(name@),
            None => optional_text(self.file_name),
        }
    }

    /// A form of which nothing has been read.
    pub fn new() -> (r: UploadForm)
        ensures
            r.audio is None,
            r.sample_rate == TARGET_SAMPLE_RATE,
            r.filename is None,
            r.file_name is None,
    {
        UploadForm {
            audio: None,
            sample_rate: TARGET_SAMPLE_RATE,
            filename: None,
            file_name: None,
        }
    }

    /// Takes the audio field, whose bytes were read as `wav`: what is no WAV file is raw samples,
    /// at the rate that is known otherwise.
    pub fn receive_audio(
        self,
        file_name: Option<String>,
        data: Vec<u8>,
        wav: Result<WavAudio, WavError>,
    ) -> (r: UploadForm)
        ensures
            match wav {
                Err(_) => {
                    &&& r.audio matches Some(UploadAudio::Pcm(audio))
                    &&& audio.full_scale == FULL_SCALE_16
                    &&& audio.samples@ == Seq::new(
                        data@.len() / 2,
                        |i: int| sample_value(data@[2 * i], data@[2 * i + 1]) as i32,
                    )
                    &&& r.sample_rate == self.sample_rate
                },
                Ok(WavAudio::Float { sample_rate }) => {
                    &&& r.audio == Some(UploadAudio::FloatWav(data))
                    &&& r.sample_rate == sample_rate
                },
                Ok(WavAudio::Pcm { audio, sample_rate }) => {
                    &&& r.audio == Some(UploadAudio::Pcm(audio))
                    &&& r.sample_rate == sample_rate
                },
            },
            r.filename == self.filename,
            optional_text(r.file_name) == match file_name {
                Some(name) => Some(name@),
                None => optional_text(self.file_name),
            },
    {
        let file_name: Option<String> = match file_name {
            Some(name) => Some(name),
            None => self.file_name,
        };
        let filename = self.filename;
        match wav {
            Ok(WavAudio::Pcm { audio, sample_rate }) => UploadForm {
                audio: Some(UploadAudio::Pcm(audio)),
                sample_rate,
                filename,
                file_name,
            },
            Ok(WavAudio::Float { sample_rate }) => UploadForm {
                audio: Some(UploadAudio::FloatWav(data)),
                sample_rate,
                filename,
                file_name,
            },
            Err(_) => {
                let audio = parse_raw_pcm(data.as_slice());
                UploadForm {
                    audio: Some(UploadAudio::Pcm(audio)),
                    sample_rate: self.sample_rate,
                    filename,
                    file_name,
                }
            },
        }
    }
}

/// How far an upload has come.
#[allow(inconsistent_fields)]
#[derive(Debug)]
pub enum UploadStage {
    /// The form is being read.
    Reading(UploadForm),
    /// The samples are being made ready: so many of them, where that is known.
    Decoding { sample_rate: u32, filename: Option<String>, samples: Option<usize> },
    /// The samples are being brought to the target rate.
    Resampling { filename: String },
    /// The audio is being stored.
    Saving { filename: String },
    /// The request is answered.
    Over,
}

/// What happened in an upload.
#[derive(Debug)]
pub enum UploadEvent {
    /// The audio field came in, with the name of the uploaded file if it has one.
    Audio { file_name: Option<String>, data: Vec<u8> },
    /// The audio field broke off.
    AudioFailed { error: String },
    /// The sample rate field came in.
    SampleRate { text: String },
    /// The file name field came in.
    Filename { text: String },
    /// The form is at its end.
    EndOfForm,
    /// The samples are ready, so many of them. `now` is the time in seconds.
    Decoded { samples: usize, now: u64 },
    /// The samples have the target rate, so many of them.
    Resampled { samples: usize },
    /// The audio is stored.
    Saved,
    /// The audio could not be stored.
    SaveFailed { error: String },
}

/// What is to be done next in an upload.
#[derive(Debug)]
pub enum UploadAction {
    /// Read the next field of the form.
    ReadOn,
    /// Make the samples ready.
    Decode(UploadAudio),
    /// Bring the samples from this rate to the target rate.
    Resample { from: u32 },
    /// Store the audio under this name.
    Save { filename: String },
    /// Start the job of this name, and answer.
    Start { filename: String, reply: Reply },
    /// Answer.
    Answer(Reply),
}

/// Whether this can happen at this stage.
pub open spec fn can_happen(stage: UploadStage, event: UploadEvent) -> bool {
    match stage {
        UploadStage::Reading(_) => event is Audio || event is AudioFailed || event is SampleRate
            || event is Filename || event is EndOfForm,
        UploadStage::Decoding { samples: known, .. } => {
            &&& event matches UploadEvent::Decoded { samples, .. }
            &&& known is Some ==> known == Some(samples)
        },
        UploadStage::Resampling { .. } => event is Resampled,
        UploadStage::Saving { .. } => event is Saved || event is SaveFailed,
        UploadStage::Over => false,
    }
}

/// Whether the request is answered with this error.
pub open spec fn answered(r: (UploadStage, UploadAction), status: u16, error: Seq<char>) -> bool {
    &&& r.0 is Over
    &&& r.1 matches UploadAction::Answer(reply)
    &&& reply.tells(status, error)
}

/// Whether the reading goes on with a form of this rate and these names.
pub open spec fn reading_on(
    r: (UploadStage, UploadAction),
    sample_rate: u32,
    filename: Option<Seq<char>>,
    file_name: Option<Seq<char>>,
) -> bool {
    &&& r.0 matches UploadStage::Reading(form)
    &&& r.1 is ReadOn
    &&& form.sample_rate == sample_rate
    &&& optional_text(form.filename) == filename
    &&& optional_text(form.file_name) == file_name
}

/// How many samples audio has, where that is known before it is decoded.
pub open spec fn known_samples(audio: UploadAudio) -> Option<usize> {
    match audio {
        UploadAudio::Pcm(pcm) => Some(pcm.samples@.len() as usize),
        UploadAudio::FloatWav(_) => None,
    }
}

/// The audio of the form at a stage of reading.
pub open spec fn audio_at(stage: UploadStage) -> Option<UploadAudio> {
    match stage {
        UploadStage::Reading(form) => form.audio,
        _ => None,
    }
}

/// What the audio field leads to.
pub open spec fn audio_step(
    form: UploadForm,
    file_name: Option<Seq<char>>,
    data: Seq<u8>,
    r: (UploadStage, UploadAction),
) -> bool {
    let filename = optional_text(form.filename);
    let latest = match file_name {
        Some(name) => Some(name),
        None => optional_text(form.file_name),
    };
    match wav_header(data) {
        None => {
            &&& reading_on(r, form.sample_rate, filename, latest)
            &&& audio_at(r.0) matches Some(UploadAudio::Pcm(audio))
            &&& audio.full_scale == FULL_SCALE_16
            &&& audio.samples@ == Seq::new(
                data.len() / 2,
                |i: int| sample_value(data[2 * i], data[2 * i + 1]) as i32,
            )
        },
        Some(header) => match encoding_of(header) {
            SampleEncoding::Float => {
                &&& reading_on(r, header.sample_rate, filename, latest)
                &&& audio_at(r.0) matches Some(UploadAudio::FloatWav(file))
                &&& file@ == data
            },
            SampleEncoding::Int { full_scale } => {
                &&& reading_on(r, header.sample_rate, filename, latest)
                &&& audio_at(r.0) matches Some(UploadAudio::Pcm(audio))
                &&& audio.full_scale == full_scale
                &&& audio.samples@ == readable(wav_samples(data))
                &&& is_too_deep(Some(header)) ==> audio.samples@.len() == 0
            },
        },
    }
}

/// What the sample rate field leads to.
pub open spec fn sample_rate_step(
    form: UploadForm,
    text: Seq<char>,
    r: (UploadStage, UploadAction),
) -> bool {
    match parsed_decimal(text, u32::MAX as nat) {
        None => answered(r, BAD_REQUEST, "sample_rate must be a valid integer"@),
        Some(rate) => if MIN_SAMPLE_RATE <= rate <= MAX_SAMPLE_RATE {
            &&& reading_on(
                r,
                rate as u32,
                optional_text(form.filename),
                optional_text(form.file_name),
            )
            &&& audio_at(r.0) == form.audio
        } else {
            answered(r, BAD_REQUEST, "sample_rate must be between 8000 and 192000"@)
        },
    }
}

/// The name of an upload that does not tell one.
pub open spec fn generated_filename(now: u64) -> Seq<char> {
    "audio_"@ + decimal_digits(now as nat)
}

/// The error for audio that is too long.
pub open spec fn too_long(max: usize) -> Seq<char> {
    "Audio is too long (max "@ + decimal_digits(max as nat) + " samples at 16kHz)"@
}

/// What the number of samples at the target rate leads to.
pub open spec fn length_step(
    filename: Seq<char>,
    samples: usize,
    max: usize,
    r: (UploadStage, UploadAction),
) -> bool {
    if samples == 0 {
        answered(r, BAD_REQUEST, "Audio data is empty after preprocessing"@)
    } else if samples > max {
        answered(r, PAYLOAD_TOO_LARGE, too_long(max))
    } else {
        &&& r.0 matches UploadStage::Saving { filename: stored }
        &&& stored@ == filename
        &&& r.1 matches UploadAction::Save { filename: wanted }
        &&& wanted@ == filename
    }
}

/// What the number of decoded samples leads to.
pub open spec fn decoded_step(
    sample_rate: u32,
    filename: Option<Seq<char>>,
    samples: usize,
    now: u64,
    max: usize,
    r: (UploadStage, UploadAction),
) -> bool {
    let name = trimmed(
        match filename {
            Some(name) => name,
            None => generated_filename(now),
        },
    );
    if samples == 0 {
        answered(r, BAD_REQUEST, "Audio data is empty"@)
    } else {
        match filename_problem(name) {
            Some(problem) => answered(r, BAD_REQUEST, "Invalid filename: "@ + problem),
            None => if sample_rate != TARGET_SAMPLE_RATE {
                &&& r.0 matches UploadStage::Resampling { filename: kept }
                &&& kept@ == name
                &&& r.1 == (UploadAction::Resample { from: sample_rate })
            } else {
                length_step(name, samples, max, r)
            },
        }
    }
}

/// Whether `r` and the jobs `after` are what the event leads to at this stage.
pub open spec fn upload_step(
    before: ServiceView,
    max: usize,
    stage: UploadStage,
    event: UploadEvent,
    r: (UploadStage, UploadAction),
    after: ServiceView,
) -> bool {
    match (stage, event) {
        (UploadStage::Reading(form), UploadEvent::Audio { file_name, data }) => {
            &&& after == before
            &&& audio_step(form, optional_text(file_name), data@, r)
        },
        (UploadStage::Reading(_), UploadEvent::AudioFailed { error }) => {
            &&& after == before
            &&& answered(r, BAD_REQUEST, "Failed to read audio data: "@ + error@)
        },
        (UploadStage::Reading(form), UploadEvent::SampleRate { text }) => {
            &&& after == before
            &&& sample_rate_step(form, text@, r)
        },
        (UploadStage::Reading(form), UploadEvent::Filename { text }) => {
            &&& after == before
            &&& reading_on(r, form.sample_rate, Some(text@), optional_text(form.file_name))
            &&& audio_at(r.0) == form.audio
        },
        (UploadStage::Reading(form), UploadEvent::EndOfForm) => {
            &&& after == before
            &&& match form.audio {
                Some(audio) => {
                    &&& r.0 matches UploadStage::Decoding { sample_rate, filename, samples }
                    &&& sample_rate == form.sample_rate
                    &&& optional_text(filename) == form.name()
                    &&& samples == known_samples(audio)
                    &&& r.1 == UploadAction::Decode(audio)
                },
                None => answered(r, BAD_REQUEST, "No audio data provided"@),
            }
        },
        (
            UploadStage::Decoding { sample_rate, filename, .. },
            UploadEvent::Decoded { samples, now },
        ) => {
            &&& after == before
            &&& decoded_step(sample_rate, optional_text(filename), samples, now, max, r)
        },
        (UploadStage::Resampling { filename }, UploadEvent::Resampled { samples }) => {
            &&& after == before
            &&& length_step(filename@, samples, max, r)
        },
        (UploadStage::Saving { filename }, UploadEvent::Saved) => {
            if before.jobs.contains_key(filename@) {
                &&& after == before
                &&& answered(r, CONFLICT, "Failed to create job: Job already exists"@)
            } else {
                &&& after == before.created(filename@)
                &&& r.0 is Over
                &&& r.1 matches UploadAction::Start { filename: name, reply }
                &&& name@ == filename@
                &&& reply.status == ACCEPTED
                &&& reply.body@ == started_body(filename@)
            }
        },
        (UploadStage::Saving { .. }, UploadEvent::SaveFailed { error }) => {
            &&& after == before
            &&& answered(r, INTERNAL_SERVER_ERROR, "Failed to save audio file: "@ + error@)
        },
        _ => true,
    }
}

fn answer(reply: Reply) -> (r: (UploadStage, UploadAction))
    ensures
        r.0 is Over,
        r.1 == UploadAction::Answer(reply),
{
    (UploadStage::Over, UploadAction::Answer(reply))
}

fn take_sample_rate(form: UploadForm, text: &str) -> (r: (UploadStage, UploadAction))
    ensures
        sample_rate_step(form, text@, r),
{
    match parse_decimal(text, u32::MAX as u64) {
        Some(rate) => if rate >= MIN_SAMPLE_RATE as u64 && rate <= MAX_SAMPLE_RATE as u64 {
            let next = UploadForm {
                audio: form.audio,
                sample_rate: rate as u32,
                filename: form.filename,
                file_name: form.file_name,
            };
            (UploadStage::Reading(next), UploadAction::ReadOn)
        } else {
            answer(refuse(BAD_REQUEST, "sample_rate must be between 8000 and 192000"))
        },
        None => answer(refuse(BAD_REQUEST, "sample_rate must be a valid integer")),
    }
}

fn take_length(filename: String, samples: usize, max: usize) -> (r: (UploadStage, UploadAction))
    ensures
        length_step(filename@, samples, max, r),
{
    if samples == 0 {
        return answer(refuse(BAD_REQUEST, "Audio data is empty after preprocessing"));
    }
    if samples > max {
        let mut text = "Audio is too long (max ".to_string();
        text.append(decimal_text(max as u64).as_str());
        text.append(" samples at 16kHz)");
        return answer(refuse(PAYLOAD_TOO_LARGE, text.as_str()));
    }
    (UploadStage::Saving { filename: filename.clone() }, UploadAction::Save { filename })
}

fn take_decoded(
    sample_rate: u32,
    filename: Option<String>,
    samples: usize,
    now: u64,
    max: usize,
) -> (r: (UploadStage, UploadAction))
    ensures
        decoded_step(sample_rate, optional_text(filename), samples, now, max, r),
{
    if samples == 0 {
        return answer(refuse(BAD_REQUEST, "Audio data is empty"));
    }
    let raw = match filename {
        Some(name) => name,
        None => {
            let mut name = "audio_".to_string();
            name.append(decimal_text(now).as_str());
            name
        },
    };
    let name = match validate_filename(raw.as_str()) {
        Ok(name) => name,
        Err(e) => {
            return answer(refuse_with(BAD_REQUEST, "Invalid filename: ", e.as_str()));
        },
    };
    if sample_rate != TARGET_SAMPLE_RATE {
        (UploadStage::Resampling { filename: name }, UploadAction::Resample { from: sample_rate })
    } else {
        take_length(name, samples, max)
    }
}

fn take_saved(service: &mut TranscriptionService, filename: String) -> (r: (
    UploadStage,
    UploadAction,
))
    ensures
        upload_step(
            old(service)@,
            0,
            UploadStage::Saving { filename },
            UploadEvent::Saved,
            r,
            final(service)@,
        ),
        final(service).vad_service == old(service).vad_service,
{
    match service.create_job(filename.clone()) {
        Ok(_) => {
            let reply = started(filename.as_str());
            (UploadStage::Over, UploadAction::Start { filename, reply })
        },
        Err(e) => {
            let reply = refuse_with(CONFLICT, "Failed to create job: ", e.as_str());
            proof {
                reveal_strlit("Failed to create job: ");
                reveal_strlit("Job already exists");
                reveal_strlit("Failed to create job: Job already exists");
                assert("Failed to create job: "@ + "Job already exists"@
                    =~= "Failed to create job: Job already exists"@);
            }
            answer(reply)
        },
    }
}

/// Takes an upload one event further, and tells what is to be done next.
pub fn upload_handler(
    service: &mut TranscriptionService,
    max_audio_samples: usize,
    stage: UploadStage,
    event: UploadEvent,
) -> (r: (UploadStage, UploadAction))
    requires
        can_happen(stage, event),
    ensures
        upload_step(old(service)@, max_audio_samples, stage, event, r, final(service)@),
        final(service).vad_service == old(service).vad_service,
{
    match (stage, event) {
        (UploadStage::Reading(form), UploadEvent::Audio { file_name, data }) => {
            let wav = parse_wav(data.as_slice());
            let next = form.receive_audio(file_name, data, wav);
            (UploadStage::Reading(next), UploadAction::ReadOn)
        },
        (UploadStage::Reading(_), UploadEvent::AudioFailed { error }) => answer(
            refuse_with(BAD_REQUEST, "Failed to read audio data: ", error.as_str()),
        ),
        (UploadStage::Reading(form), UploadEvent::SampleRate { text }) => take_sample_rate(
            form,
            text.as_str(),
        ),
        (UploadStage::Reading(form), UploadEvent::Filename { text }) => {
            let next = UploadForm {
                audio: form.audio,
                sample_rate: form.sample_rate,
                filename: Some(text),
                file_name: form.file_name,
            };
            (UploadStage::Reading(next), UploadAction::ReadOn)
        },
        (UploadStage::Reading(form), UploadEvent::EndOfForm) => match form.audio {
            Some(audio) => {
                let filename: Option<String> = match form.filename {
                    Some(name) => Some(name),
                    None => form.file_name,
                };
                let samples: Option<usize> = match &audio {
                    UploadAudio::Pcm(pcm) => Some(pcm.samples.len()),
                    UploadAudio::FloatWav(_) => None,
                };
                (
                    UploadStage::Decoding { sample_rate: form.sample_rate, filename, samples },
                    UploadAction::Decode(audio),
                )
            },
            None => answer(refuse(BAD_REQUEST, "No audio data provided")),
        },
        (
            UploadStage::Decoding { sample_rate, filename, .. },
            UploadEvent::Decoded { samples, now },
        ) => take_decoded(sample_rate, filename, samples, now, max_audio_samples),
        (UploadStage::Resampling { filename }, UploadEvent::Resampled { samples }) => take_length(
            filename,
            samples,
            max_audio_samples,
        ),
        (UploadStage::Saving { filename }, UploadEvent::Saved) => take_saved(service, filename),
        (UploadStage::Saving { .. }, UploadEvent::SaveFailed { error }) => answer(
            refuse_with(INTERNAL_SERVER_ERROR, "Failed to save audio file: ", error.as_str()),
        ),
        _ => (UploadStage::Over, UploadAction::ReadOn),
    }
}

} // verus!
