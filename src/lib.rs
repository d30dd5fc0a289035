//! Builds the course database of the Suwon Mate app from two exports of the
//! university's course catalog: the open-class listing and the syllabus
//! listing.
//!
//! - [`json`] holds JSON values as the library reads and writes them.
//! - [`model`] holds the records the merge reads and writes, with their views.
//! - [`source`] reads the two JSON exports into those records through serde_json.
//! - [`merge`] matches open classes with syllabus entries and groups them by
//!   department.
//! - [`render`] writes the merged database as JSON text.
//! - [`database`] builds the database text from the contents of the two
//!   exports.
//! - [`laws`] states and proves what holds of every merge.
pub mod json;
pub mod model;
pub mod source;
pub mod merge;
pub mod render;
pub mod database;
pub mod laws;

pub use database::{make_db_content, DbError, SourceKind};
pub use model::{ClassTodo, ProgramArgument};
