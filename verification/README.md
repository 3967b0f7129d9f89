# tts_tool

Verified core of a desktop tool that transcribes audio and video files
locally with a Whisper speech recogniser.

- `src/` is the library, checked by Verus: job cancellation (`state`), the
  model catalogue and where models live (`catalog`), model downloads and the
  SHA-256 pinned next to a downloaded model (`download`, `digest`), subtitle
  export to SubRip and WebVTT (`export`), transcript assembly and the
  decisions around a recognition run (`transcript`), the audio converter's
  arguments and outcome rules (`audio`), the course of a transcription
  request (`pipeline`), the error type (`error`) and the text primitives
  they share (`text`).
- `app/` is the Tauri desktop shell: commands, file and network I/O, the
  ffmpeg converter and the whisper.cpp recogniser, which works on floating
  point samples.
- `tests/` exercises the library on concrete values.
