//! What each step of an upload leads to.

use crate::audio::{is_too_deep, readable, wav_header, wav_samples, WavAudio, WavError};
use crate::audio_laws::{are_raw_samples, lemma_raw_samples};
use crate::handlers::answer_laws::{is_file_name, is_name_problem, lemma_problem_of_name, says};
use crate::handlers::upload::{
    field_kind, generated_filename, upload_handler, FieldKind, UploadAction, UploadAudio,
    UploadEvent, UploadForm, UploadStage,
};
use crate::json::object_text;
use crate::services::store_laws::{
    is_new, lemma_touches_nothing, lemma_touches_only, lemma_view_of_service, touches_nothing,
};
use crate::services::transcription::TranscriptionService;
use crate::text::{decimal_digits, parsed_decimal, trimmed};
use vstd::arithmetic::power2::pow2;
use vstd::prelude::*;
#[allow(unused_imports)]
use vstd::string::*;

verus! {

/// Whether the request is refused with this status code and error.
pub open spec fn refused(r: (UploadStage, UploadAction), status: int, error: Seq<char>) -> bool {
    &&& r.0 is Over
    &&& r.1 matches UploadAction::Answer(reply)
    &&& says(reply, status, error)
}

/// Whether the audio is stored under this name next.
pub open spec fn stores(r: (UploadStage, UploadAction), name: Seq<char>) -> bool {
    &&& r.1 matches UploadAction::Save { filename }
    &&& filename@ == name
    &&& r.0 matches UploadStage::Saving { filename: kept }
    &&& kept@ == name
}

/// The name of an upload: what it was given, or a made-up one with the time, without the white
/// space around it.
pub open spec fn name_of_upload(filename: Option<String>, now: u64) -> Seq<char> {
    trimmed(
        match filename {
            Some(name) => name@,
            None => "audio_"@ + decimal_digits(now as nat),
        },
    )
}

/// Nothing is stored that has not 16 kHz: decoded audio is stored only where it has that rate, and
/// otherwise, with a file name and at least one sample, it is resampled from its own rate.
pub proof fn law_only_audio_at_16_khz_is_stored(
    service: &mut TranscriptionService,
    max: usize,
    sample_rate: u32,
    filename: Option<String>,
    known: Option<usize>,
    samples: usize,
    now: u64,
    r: (UploadStage, UploadAction),
)
    requires
        call_ensures(
            upload_handler,
            (service, max, UploadStage::Decoding { sample_rate, filename, samples: known }, UploadEvent::Decoded { samples, now }),
            r,
        ),
    ensures
        r.1 is Save ==> sample_rate == 16000,
        r.0 is Saving ==> sample_rate == 16000,
        sample_rate != 16000 && samples > 0 && is_file_name(name_of_upload(filename, now)) ==> {
            &&& r.1 == (UploadAction::Resample { from: sample_rate })
            &&& r.0 matches UploadStage::Resampling { filename: name }
            &&& name@ == name_of_upload(filename, now)
        },
        r.1 matches UploadAction::Resample { from } ==> from == sample_rate && from != 16000,
{
    lemma_touches_nothing(*old(service), *final(service));
    lemma_problem_of_name(name_of_upload(filename, now));
}

/// Decoded audio goes on just where it holds samples and its name is a file name; otherwise it is
/// told what is missing, the samples first.
pub proof fn law_decoded_audio_is_checked(
    service: &mut TranscriptionService,
    max: usize,
    sample_rate: u32,
    filename: Option<String>,
    known: Option<usize>,
    samples: usize,
    now: u64,
    r: (UploadStage, UploadAction),
)
    requires
        call_ensures(
            upload_handler,
            (service, max, UploadStage::Decoding { sample_rate, filename, samples: known }, UploadEvent::Decoded { samples, now }),
            r,
        ),
    ensures
        touches_nothing(*old(service), *final(service)),
        ({
            let name = name_of_upload(filename, now);
            if samples == 0 {
                refused(r, 400, "Audio data is empty"@)
            } else if !is_file_name(name) {
                exists|problem: Seq<char>| #[trigger]
                    is_name_problem(name, problem) && refused(
                        r,
                        400,
                        "Invalid filename: "@ + problem,
                    )
            } else if sample_rate == 16000 {
                if samples > max {
                    refused(
                        r,
                        413,
                        "Audio is too long (max "@ + decimal_digits(max as nat)
                            + " samples at 16kHz)"@,
                    )
                } else {
                    stores(r, name)
                }
            } else {
                r.1 is Resample
            }
        }),
{
    lemma_touches_nothing(*old(service), *final(service));
    lemma_problem_of_name(name_of_upload(filename, now));
}

/// Resampled audio is stored under its name just where it holds samples and no more than the limit.
pub proof fn law_stored_audio_is_within_the_limit(
    service: &mut TranscriptionService,
    max: usize,
    filename: String,
    samples: usize,
    r: (UploadStage, UploadAction),
)
    requires
        call_ensures(
            upload_handler,
            (service, max, UploadStage::Resampling { filename }, UploadEvent::Resampled { samples }),
            r,
        ),
    ensures
        touches_nothing(*old(service), *final(service)),
        samples == 0 ==> refused(r, 400, "Audio data is empty after preprocessing"@),
        samples > max ==> refused(
            r,
            413,
            "Audio is too long (max "@ + decimal_digits(max as nat) + " samples at 16kHz)"@,
        ),
        0 < samples <= max ==> stores(r, filename@),
        r.1 is Save ==> 0 < samples <= max,
{
    lemma_touches_nothing(*old(service), *final(service));
}

/// A sample rate is taken as it is told where it is a number from 8000 to 192000, and leaves the
/// audio and the names alone; otherwise the request is refused.
pub proof fn law_sample_rate_is_taken(
    service: &mut TranscriptionService,
    max: usize,
    form: UploadForm,
    text: String,
    r: (UploadStage, UploadAction),
)
    requires
        call_ensures(
            upload_handler,
            (service, max, UploadStage::Reading(form), UploadEvent::SampleRate { text }),
            r,
        ),
    ensures
        touches_nothing(*old(service), *final(service)),
        match parsed_decimal(text@, u32::MAX as nat) {
            None => refused(r, 400, "sample_rate must be a valid integer"@),
            Some(n) => if 8000 <= n <= 192000 {
                &&& r.1 is ReadOn
                &&& r.0 matches UploadStage::Reading(next)
                &&& next.sample_rate == n
                &&& next.audio == form.audio
                &&& next.filename is Some <==> form.filename is Some
                &&& next.filename is Some ==> next.filename->0@ == form.filename->0@
                &&& next.file_name is Some <==> form.file_name is Some
                &&& next.file_name is Some ==> next.file_name->0@ == form.file_name->0@
            } else {
                refused(r, 400, "sample_rate must be between 8000 and 192000"@)
            },
        },
{
    lemma_touches_nothing(*old(service), *final(service));
}

/// A file name is taken as it is told and leaves the audio and the rate alone.
pub proof fn law_filename_is_taken(
    service: &mut TranscriptionService,
    max: usize,
    form: UploadForm,
    text: String,
    r: (UploadStage, UploadAction),
)
    requires
        call_ensures(
            upload_handler,
            (service, max, UploadStage::Reading(form), UploadEvent::Filename { text }),
            r,
        ),
    ensures
        touches_nothing(*old(service), *final(service)),
        r.1 is ReadOn,
        r.0 matches UploadStage::Reading(next) && {
            &&& next.filename is Some
            &&& next.filename->0@ == text@
            &&& next.sample_rate == form.sample_rate
            &&& next.audio == form.audio
            &&& next.file_name is Some <==> form.file_name is Some
            &&& next.file_name is Some ==> next.file_name->0@ == form.file_name->0@
        },
{
    lemma_touches_nothing(*old(service), *final(service));
}

/// Audio that is no WAV file is taken as raw samples at the rate that is known otherwise; a WAV
/// file is taken with the rate of its header, integers with the full scale of their depth, and
/// floating-point samples as the file itself. The file name field stays as it is.
pub proof fn law_audio_is_taken(
    service: &mut TranscriptionService,
    max: usize,
    form: UploadForm,
    file_name: Option<String>,
    data: Vec<u8>,
    r: (UploadStage, UploadAction),
)
    requires
        call_ensures(
            upload_handler,
            (service, max, UploadStage::Reading(form), UploadEvent::Audio { file_name, data }),
            r,
        ),
        wav_header(data@) matches Some(header) ==> header.bits_per_sample > 0,
    ensures
        touches_nothing(*old(service), *final(service)),
        r.1 is ReadOn,
        r.0 matches UploadStage::Reading(next) && {
            &&& next.filename is Some <==> form.filename is Some
            &&& next.filename is Some ==> next.filename->0@ == form.filename->0@
            &&& match file_name {
                Some(name) => next.file_name is Some && next.file_name->0@ == name@,
                None => {
                    &&& next.file_name is Some <==> form.file_name is Some
                    &&& next.file_name is Some ==> next.file_name->0@ == form.file_name->0@
                },
            }
            &&& match wav_header(data@) {
                None => {
                    &&& next.sample_rate == form.sample_rate
                    &&& next.audio matches Some(UploadAudio::Pcm(pcm))
                    &&& are_raw_samples(data@, pcm.samples@)
                    &&& pcm.full_scale == 32768
                },
                Some(header) => {
                    &&& next.sample_rate == header.sample_rate
                    &&& if header.float {
                        &&& next.audio matches Some(UploadAudio::FloatWav(file))
                        &&& file@ == data@
                    } else {
                        &&& next.audio matches Some(UploadAudio::Pcm(pcm))
                        &&& pcm.samples@ == readable(wav_samples(data@))
                        &&& header.bits_per_sample <= 32 ==> pcm.full_scale == pow2(
                            (header.bits_per_sample - 1) as nat,
                        )
                        &&& header.bits_per_sample > 32 ==> pcm.samples@.len() == 0
                            && pcm.full_scale == 2147483648
                    }
                },
            }
        },
{
    lemma_touches_nothing(*old(service), *final(service));
    vstd::arithmetic::power2::lemma2_to64();
    if let UploadStage::Reading(next) = r.0 {
        if let Some(header) = wav_header(data@) {
            assert(is_too_deep(Some(header)) == (!header.float && header.bits_per_sample > 32));
            if header.bits_per_sample < 32 {
                vstd::arithmetic::power2::lemma_pow2_strictly_increases(
                    (header.bits_per_sample - 1) as nat,
                    31,
                );
            }
        } else if let Some(UploadAudio::Pcm(pcm)) = next.audio {
            lemma_raw_samples(data@, pcm.samples@);
        }
    }
}

/// A form takes the audio as it was read, with its own rate, and keeps its names: that of the file
/// name field, and that of the uploaded file unless a new one comes.
pub proof fn law_form_takes_what_was_read(
    form: UploadForm,
    file_name: Option<String>,
    data: Vec<u8>,
    wav: Result<WavAudio, WavError>,
    r: UploadForm,
)
    requires
        call_ensures(UploadForm::receive_audio, (form, file_name, data, wav), r),
    ensures
        match wav {
            Ok(WavAudio::Pcm { audio, sample_rate }) => {
                &&& r.audio == Some(UploadAudio::Pcm(audio))
                &&& r.sample_rate == sample_rate
            },
            Ok(WavAudio::Float { sample_rate }) => {
                &&& r.audio matches Some(UploadAudio::FloatWav(file))
                &&& file@ == data@
                &&& r.sample_rate == sample_rate
            },
            Err(_) => {
                &&& r.audio matches Some(UploadAudio::Pcm(pcm))
                &&& are_raw_samples(data@, pcm.samples@)
                &&& pcm.full_scale == 32768
                &&& r.sample_rate == form.sample_rate
            },
        },
        r.filename is Some <==> form.filename is Some,
        r.filename is Some ==> r.filename->0@ == form.filename->0@,
        match file_name {
            Some(name) => r.file_name is Some && r.file_name->0@ == name@,
            None => {
                &&& r.file_name is Some <==> form.file_name is Some
                &&& r.file_name is Some ==> r.file_name->0@ == form.file_name->0@
            },
        },
{
    if wav is Err {
        if let Some(UploadAudio::Pcm(pcm)) = r.audio {
            lemma_raw_samples(data@, pcm.samples@);
        }
    }
}

/// At its end a form is refused where it held no audio. Otherwise its audio is decoded, at its
/// rate, under the name of the file name field, or else that of the uploaded file, or else none.
pub proof fn law_form_is_complete_with_audio(
    service: &mut TranscriptionService,
    max: usize,
    form: UploadForm,
    r: (UploadStage, UploadAction),
)
    requires
        call_ensures(
            upload_handler,
            (service, max, UploadStage::Reading(form), UploadEvent::EndOfForm),
            r,
        ),
    ensures
        touches_nothing(*old(service), *final(service)),
        match form.audio {
            None => refused(r, 400, "No audio data provided"@),
            Some(audio) => {
                &&& r.1 == UploadAction::Decode(audio)
                &&& r.0 matches UploadStage::Decoding { sample_rate, filename, samples }
                &&& sample_rate == form.sample_rate
                &&& match (form.filename, form.file_name) {
                    (Some(name), _) => filename is Some && filename->0@ == name@,
                    (None, Some(name)) => filename is Some && filename->0@ == name@,
                    (None, None) => filename is None,
                }
                &&& match audio {
                    UploadAudio::Pcm(pcm) => samples is Some && (pcm.samples@.len() <= usize::MAX
                        ==> samples->0 == pcm.samples@.len()),
                    UploadAudio::FloatWav(_) => samples is None,
                }
            },
        },
{
    lemma_touches_nothing(*old(service), *final(service));
}

/// A form starts without audio and names, at 16 kHz.
pub proof fn law_form_starts_empty(r: UploadForm)
    requires
        call_ensures(UploadForm::new, (), r),
    ensures
        r.audio is None,
        r.sample_rate == 16000,
        r.filename is None,
        r.file_name is None,
{
}

/// Once the audio is stored, a job of its name is created and started, and the name is answered,
/// unless there is a job of that name: then that is a conflict, and no job is changed.
pub proof fn law_stored_audio_starts_a_job(
    service: &mut TranscriptionService,
    max: usize,
    filename: String,
    r: (UploadStage, UploadAction),
)
    requires
        call_ensures(
            upload_handler,
            (service, max, UploadStage::Saving { filename }, UploadEvent::Saved),
            r,
        ),
    ensures
        if old(service).jobs@.contains_key(filename@) {
            &&& touches_nothing(*old(service), *final(service))
            &&& refused(r, 409, "Failed to create job: Job already exists"@)
        } else {
            &&& is_new(*old(service), *final(service), filename@)
            &&& r.0 is Over
            &&& r.1 matches UploadAction::Start { filename: name, reply }
            &&& name@ == filename@
            &&& reply.status == 202
            &&& reply.body@ == object_text(
                seq![("filename"@, filename@), ("message"@, "Transcription started"@)],
                0,
                false,
            )
        },
{
    lemma_view_of_service(*old(service));
    lemma_view_of_service(*final(service));
    if old(service).jobs@.contains_key(filename@) {
        lemma_touches_nothing(*old(service), *final(service));
    } else {
        lemma_touches_only(*old(service), *final(service), filename@);
    }
}

/// Audio that cannot be read or stored starts no job, and what went wrong is told.
pub proof fn law_failures_are_told(
    service: &mut TranscriptionService,
    max: usize,
    form: UploadForm,
    filename: String,
    error: String,
    unread: (UploadStage, UploadAction),
    unstored: (UploadStage, UploadAction),
)
    requires
        call_ensures(
            upload_handler,
            (service, max, UploadStage::Reading(form), UploadEvent::AudioFailed { error }),
            unread,
        ),
        call_ensures(
            upload_handler,
            (service, max, UploadStage::Saving { filename }, UploadEvent::SaveFailed { error }),
            unstored,
        ),
    ensures
        touches_nothing(*old(service), *final(service)),
        refused(unread, 400, "Failed to read audio data: "@ + error@),
        refused(unstored, 500, "Failed to save audio file: "@ + error@),
{
    lemma_touches_nothing(*old(service), *final(service));
}

/// The fields of the form are told by their names.
pub proof fn law_fields_are_told_by_name(name: &str, r: FieldKind)
    requires
        call_ensures(field_kind, (name,), r),
    ensures
        r is Audio <==> name@ == "audio"@,
        r is SampleRate <==> name@ == "sample_rate"@,
        r is Filename <==> name@ == "filename"@,
{
    reveal_strlit("audio");
    reveal_strlit("sample_rate");
    reveal_strlit("filename");
    assert("audio"@.len() == 5 && "sample_rate"@.len() == 11 && "filename"@.len() == 8);
}

/// A name is made up of the time: different times give different names.
pub proof fn law_generated_names_differ(a: u64, b: u64)
    ensures
        generated_filename(a) == "audio_"@ + decimal_digits(a as nat),
        generated_filename(a) == generated_filename(b) ==> a == b,
{
    if generated_filename(a) == generated_filename(b) {
        let n = "audio_"@.len() as int;
        assert(generated_filename(a).skip(n) =~= decimal_digits(a as nat));
        assert(generated_filename(b).skip(n) =~= decimal_digits(b as nat));
        crate::text::law_decimal_round_trip(a as nat, u64::MAX as nat);
        crate::text::law_decimal_round_trip(b as nat, u64::MAX as nat);
    }
}

} // verus!
