# opensuperwhisper

The verified core of a desktop dictation tool that records the microphone,
transcribes the recording with whisper.cpp and pastes the text.

- `src/` is the library, written in Verus and verified:
  - `paths`: path joining and the layout of the data directory (`models`,
    `recordings`);
  - `settings`: the preferences, their defaults, and where they are kept;
  - `transcript`: the steps of a transcription (the audio is decoded and
    checked before the model cache is consulted, which takes the model stage
    as proof of that), the language handed to the model, how WAV samples are
    read, and the clean-up of the transcript text
    (joining, Unicode trimming, CJK spacing through `autocorrect`);
  - `text`: Unicode white space, trimming, decimal rendering;
  - `catalogue`: which files are models, their order, model path resolution;
  - `downloads`: model URLs, the reaction of a download to what happens to
    it, and the register of cancellable downloads;
  - `recording`: the recording session and recording file names;
  - `history`: the history database location and row handling;
  - `playback`: laying sound out for output channels and feeding buffers;
  - `tray`: the tray menu commands.
- `app/` is the Tauri application around it: devices, files, SQLite, the
  network, floating-point signal processing and the user interface glue.
- `tests/` exercises the library.
