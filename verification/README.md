# AuralFlow core

The verified core of AuralFlow, a desktop dictation tool that records the
microphone, transcribes locally with Whisper (or online with Groq) and pastes
the text into the active application.

- `src/` — the library, verified with Verus:
  - `text`: Unicode whitespace, trimming and whitespace collapsing.
  - `error`: the application's error type and its messages.
  - `config`: user settings, their rules and their defaults.
  - `model`: the model catalogue, file names, download address and checks.
  - `audio`: the recorder's state machine and the sizes of captured,
    down-mixed and resampled audio.
  - `online`: the uploaded WAV file and the Groq request/reply decisions.
  - `credentials`: the Groq API key in the system keychain (through `keyring`).
  - `transcribe`: input checks, thread count, language, model cache and the
    transcript built from Whisper's segments.
  - `session`, `push_to_talk`, `paste`: the dictation result, the Fn-key
    events and the outcome of the paste shortcut.
- `app/` — the Tauri application around the library: microphone capture,
  files, network, clipboard and keyboard, Whisper inference, and the
  floating-point signal processing.
- `tests/` — tests of the library.
