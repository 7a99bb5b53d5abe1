//! An interactive terminal file browser's verified core: the directory
//! model with its sorted listing, the file classifier, the selection
//! cursor, and the modal session state machine that turns abstract input
//! intents into state changes and requested host actions.

pub mod classify;
pub mod cursor;
pub mod directory;
pub mod seqs;
pub mod session;
pub mod text;
