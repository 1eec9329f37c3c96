//! Verified core of a DVD catalogue: text normalisation, CSV import and
//! export rules, keyword search and entity extraction, catalogue
//! statistics, the rules of the chat, retrieval and title-generation flows,
//! web context for titles, the cast-reordering tool and the desktop client's
//! state machine.

pub mod text;
pub mod normalize;
pub mod json_extract;
pub mod models;
pub mod search;
pub mod entities;
pub mod web_context;
pub mod tools;
pub mod categorizer;
pub mod catalog;
pub mod chat;
pub mod rag;
pub mod prompts;
pub mod stats;
pub mod catalog_csv;
pub mod store;
pub mod queries;
pub mod reorder;
pub mod dates;
pub mod colors;
