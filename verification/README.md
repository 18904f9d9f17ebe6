# Whisper Server HTTP

A server that transcribes uploaded audio. Clients upload a WAV file or raw samples, poll the
status of the job, and fetch the result. Where a speech detection model is at hand, only the
stretches of audio that hold speech are transcribed.

The rules of the server are written and proved in [Verus](https://github.com/verus-lang/verus).

## Layout

- `src/` is the verified library.
  - `text`, `config`, `audio`, `json`: texts and numbers, settings, uploaded audio, JSON texts.
  - `models`, `documents`: jobs, results, and what the JSON documents about them hold.
  - `handlers`: file names, answers, and the requests `/upload`, `/status` and `/finish`.
  - `services::transcription`: the jobs, their results, and which of them are kept.
  - `services::run`: carrying out a job, event by event.
  - `services::ranges`, `services::transcriber`: what is transcribed, block by block.
  - `services::vad`: model inputs, windows, the detection over them, and speech segments.
  - `job_laws`, `run_laws`, `walk_laws`, `upload_laws`, `segment_laws`: what holds of every job,
    run, transcription, upload and speech segment.
  - `history`: what holds of a job over the whole life of a server.
- `tests/` runs the library.
- `app/` is the server around it: HTTP, files, the models, and everything in floating point.

Times and amplitudes are kept exactly in the library: as samples at 16 kHz, as hundredths of a
second, and as integers with a full scale. Where a time in seconds is rounded to a sample, `app/`
tells the library which way it went.

## Requests

- `GET /` tells that the server is running.
- `POST /upload` takes a form with `audio` and, if wanted, `sample_rate` and `filename`. Without
  a `filename` the name of the uploaded file counts, or else a name is made up.
- `GET /status?filename=<filename>` tells where a job stands.
- `GET /finish?filename=<filename>` hands out the result of a completed job.

The audio of a job is stored as `data/<filename>.wav`, its result as `data/<filename>.json`. The
last 200 jobs that are over are kept; older ones are forgotten, and their files removed.

## Settings

| Variable             | Default                    |
|----------------------|----------------------------|
| `PORT`               | `3000`                     |
| `WHISPER_MODEL_PATH` | `./models/ggml-base.bin`   |
| `VAD_MODEL_PATH`     | `./models/silero_vad.onnx` |
| `MAX_AUDIO_SAMPLES`  | `28800000`                 |
