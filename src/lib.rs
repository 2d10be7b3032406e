//! Rewrites root-relative link and image destinations in a book's chapters
//! into paths relative to each chapter's own location.
pub mod prefix;
pub mod destination;
pub mod markup;
pub mod preprocessor;
pub mod version;
