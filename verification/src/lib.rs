//! A plain-text task and note organiser: the document model.
//!
//! Every grammar has a specification function over `Seq<char>` that says what
//! a text means, and an executable reader and writer that agree with it.

pub mod autocompletion;
pub mod config;
pub mod dates;
pub mod document;
pub mod drafts;
pub mod error;
pub mod keys;
pub mod layout;
pub mod note;
pub mod numbers;
pub mod priority;
pub mod session;
pub mod suggestions;
pub mod tags;
pub mod task;
pub mod text;

pub use autocompletion::AutocompletionWidget;
pub use config::Configuration;
pub use dates::Date;
pub use document::OrgDocument;
pub use error::{FormatError, InvariantViolation};
pub use note::Note;
pub use priority::Priority;
pub use session::{SessionManager, SessionState};
pub use suggestions::TagSuggestions;
pub use tags::collection::TagCollection;
pub use tags::Tag;
pub use task::Task;
