# SmartBC

A desktop voice assistant that remembers what it is told: a wake word starts
a listening window, sentences are transcribed, memories (people,
preferences, events, reminders) are extracted and stored, questions are
answered from them, and reminders are announced when they fall due.

- `src/` is the library, verified with Verus: wake-word matching on pinyin,
  the dialog state machine, spoken-time parsing, reminder scheduling rules,
  system-command recognition, URL checking, prompts and the texts the
  assistant says. Calls into `chrono` and `pinyin` go through small trusted
  wrappers whose contracts name what those crates compute.
- `app/` is the desktop program around it: Tauri commands, SQLite,
  the microphone, whisper transcription, the language-model client,
  notifications and speech.
- `tests/` runs the library on concrete inputs.
