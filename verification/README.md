# Flow

Hold a key, talk, let go, and the text is there: local dictation for Windows and for
Wayland desktops. What Flow decides is written in Verus and proved against its contracts.
What touches the system, and the arithmetic on audio samples and on the pill's meter, which
is floating point, stand around it in ordinary Rust and are not proved.

## Layout

- `src/` is the library. Every function in it is verified.
  - `format`, `phrases`, `words`, `dictionary`, `dictionary_text`: from what was recognised
    to what is inserted.
  - `asr_service`, `asr`, `audio`, `audio_convert`, `audio_sink`: the recogniser's thread
    and the microphone's, as machines that say what to do next and take in what came of it.
  - `session`, `control`, `hotkey`, `tray`, `inject`, `paste`, `target_app`: the dictation
    under way, the key that is held, the menu, and how a text goes into an application.
  - `overlay_model`, `overlay`, `platform`: the pill, and what differs between the desktops.
  - `settings`, `settings_ui`: the settings and the window that edits them.
  - `trace`, `stats`, `reports`, `cli`, `args`, `bench`, `wav`, `wer`: latency, accuracy and
    the tools that measure them.
  - `*_laws`: what holds across several functions. Smaller laws stand beside the functions
    they are about. All of them are named `law_...`.
- `tests/` runs the library from outside.
- `app/` is the shell: threads, files, the recogniser's C interface, system calls, drawing,
  and everything in floating point. It performs what the library asks for and hands back
  what came of it; that it does so faithfully is not proved.

## What is believed

A few functions of the standard library have contracts that are stated and not proved:
`String::push` and the classification and case mapping of characters in `src/chars.rs`, and
`char::from_u32` in `src/utf16.rs`. Nothing else is.
