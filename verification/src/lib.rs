//! Extraction and reconstruction of dialogue text from the binary script
//! files of a 2D action game.
//!
//! The pipeline has three verified stages: a reversible byte cipher
//! ([`cipher`]), a total tokenizer over the decoded script text ([`lexer`]),
//! and a state machine that groups text tokens into speaker-attributed
//! dialogue ([`extract`]). The recorded byte spans let edited text be spliced
//! back into the original script without disturbing any other byte
//! ([`data`]).

pub mod cipher;
pub mod data;
pub mod extract;
pub mod lexer;
pub mod token;
