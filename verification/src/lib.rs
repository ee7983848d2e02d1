//! Aggregate statistics over an exported chat archive.
//!
//! The archive is a JSON file of conversation trees plus a JSON file of
//! feedback ratings.  This crate models the documents, decodes them
//! tolerantly from a JSON document model, folds every conversation tree
//! into one aggregate record, and tallies the feedback list.  Reading the
//! files and rendering the results belong to the calling program.

pub mod analyze;
pub mod decode;
pub mod encode;
pub mod ext;
pub mod feedback;
pub mod fmt;
pub mod laws;
pub mod hist;
pub mod json;
pub mod model;
pub mod text;

pub use analyze::AnalyzeError;
pub use analyze::analyze_conversations;
pub use feedback::count_feedback;
pub use fmt::hashmap_to_ordered_vec;
pub use hist::Hist;
pub use json::Json;
pub use json::JsonNum;
pub use json::JsonView;
pub use model::Analysis;
pub use model::AsyncStatus;
pub use model::Author;
pub use model::CitationMetadata;
pub use model::ContentInner;
pub use model::ConversationRoot;
pub use model::Feedback;
pub use model::FeedbackEntry;
pub use model::Message;
pub use model::MessageContent;
pub use model::MessageMetadata;
pub use model::MessageNode;
pub use model::MetadataCitationExtra;
pub use model::MetadataListItem;
pub use model::Rating;
pub use model::UserContextData;
