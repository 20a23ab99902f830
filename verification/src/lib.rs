//! Classify verbose browser/runtime error text and re-render it compactly.
//!
//! The library takes an arbitrary pasted error text, assigns it one of a
//! fixed, ordered set of categories, extracts the salient fields (file
//! location, one-line issue summary, up to three application stack frames),
//! and renders the result either as a line-oriented plain record or as a
//! compact tabular form.  Every detection and extraction rule is stated as a
//! spec-level grammar over character sequences and proved against it.

use vstd::prelude::*;

pub mod category;
pub mod classify;
pub mod extract;
pub mod laws;
pub mod lines;
pub mod record;
pub mod render;
pub mod text;

pub use category::ErrorType;
pub use classify::detect_error_type;
pub use extract::{
    extract_file_location, extract_issue, extract_user_frames, find_line_containing,
    find_line_starting_with,
};
pub use record::{ToonifiedError, MAX_TEXT_BYTES};
pub use render::{escape_commas, parse_frame, simplify_location};
pub use text::truncate;

verus! {

} // verus!
