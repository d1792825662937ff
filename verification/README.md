# whisper_app

A speech-to-text note taker: recorded audio is transcribed by a Whisper model
and each transcribed piece of text is appended, with the time of day, to the
active document.

The crate is written in Verus. `src/` is the verified library:

- `text` — character helpers (trimming, line splitting, searching) with their specifications;
- `document` — documents and their transcripts: parsing `[HH:MM:SS] text`
  lines, file names, titles;
- `workspace` — the set of documents, the active one, loading and saving plans;
- `models` — the catalogue of Whisper models and where they are downloaded from;
- `backend` — the transcription context kept between audio chunks, model file
  checks, worker reports;
- `app_state` — the application as a state machine: each message or outcome of
  outside work gives the next state and the effects to carry out;
- `presentation` — what each screen shows;
- `config`, `ids`, `clock`, `paths` — directories, document identifiers,
  clocks and paths.

`app/` holds the parts that touch the outside world: the iced window, files,
the microphone, the Whisper model, downloads, and the loop that carries out
the library's effects. `tests/` exercises the library on concrete values.
