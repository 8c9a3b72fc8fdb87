//! Local dictation: hold a key, talk, let go, the text is there.

pub mod account_laws;
pub mod args;
pub mod asr;
pub mod asr_service;
pub mod asr_service_laws;
pub mod audio;
pub mod audio_convert;
pub mod audio_laws;
pub mod audio_sink;
pub mod bench;
pub mod call_laws;
pub mod chars;
pub mod cli;
pub mod command_laws;
pub mod control;
pub mod desktop_laws;
pub mod dictation_laws;
pub mod dictionary;
pub mod dictionary_line_laws;
pub mod dictionary_text;
pub mod dictionary_text_laws;
pub mod figure_laws;
pub mod format;
pub mod format_laws;
pub mod geometry;
pub mod hotkey;
pub mod inject;
pub mod number;
pub mod overlay;
pub mod overlay_model;
pub mod paste;
pub mod phrase_laws;
pub mod phrases;
pub mod pill_laws;
pub mod platform;
pub mod reports;
pub mod screen_laws;
pub mod search;
pub mod sentence_laws;
pub mod session;
pub mod session_laws;
pub mod settings;
pub mod settings_laws;
pub mod settings_ui;
pub mod settings_ui_laws;
pub mod speech_laws;
pub mod stats;
pub mod step_laws;
pub mod target_app;
pub mod trace;
pub mod tray;
pub mod utf16;
pub mod wav;
pub mod wer;
pub mod words;
pub mod words_laws;
