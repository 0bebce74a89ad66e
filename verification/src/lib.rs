//! The logic of a reading library for language learners: recognising and
//! decoding imported books, parsing plain-text books into reading
//! documents, the crash-safe preparation state machine, the SQL of the
//! book and lookup lists, the requests sent to the AI assistant and the
//! checks of its replies, learning cards, language assessments, and the
//! edits of a book's synced fields with the events that publish them.

pub mod assessments;
pub mod catalog;
pub mod chat;
pub mod document;
pub mod edits;
pub mod error;
pub mod headings;
pub mod import;
pub mod jobs;
pub mod json;
pub mod learning;
pub mod lines;
pub mod media;
pub mod naming;
pub mod numbers;
pub mod overview;
pub mod preparation;
pub mod prompt;
pub mod records;
pub mod requests;
pub mod scores;
pub mod source;
pub mod text;
pub mod word_forms;
