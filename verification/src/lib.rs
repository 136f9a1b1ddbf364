//! Profile synchronisation for a guide reader: the rules by which local progress and the copy kept
//! by the server are reconciled, and the decisions taken around each exchange with the server.

pub mod base;
pub mod changes;
pub mod conf;
pub mod error;
pub mod exchange;
pub mod exchange_laws;
pub mod merge;
pub mod merge_content_laws;
pub mod merge_laws;
pub mod payload;
pub mod payload_laws;
pub mod procedure;
pub mod procedure_laws;
pub mod push;
pub mod push_content_laws;
pub mod push_laws;
pub mod remote;
pub mod steps;
pub mod steps_laws;
pub mod sync;
pub mod sync_laws;
pub mod text;
pub mod text_laws;
pub mod timestamp;
pub mod upload;
pub mod view_laws;
