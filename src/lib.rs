//! Romaji-to-kana input method engine: an incremental transliterator, SKK-style
//! dictionaries with learning, a candidate cursor and the conversion state machine.

pub mod text;
pub mod romaji;
pub mod input_state;
pub mod candidate;
pub mod dictionary;
pub mod reading_map;
pub mod user_dictionary;
pub mod engine;
pub mod key_mapping;
pub mod katakana;
pub mod config;
pub mod composition;
