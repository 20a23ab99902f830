//! The immutable classification result: category, extracted fields, and
//! the original input's byte length.

use vstd::prelude::*;

use crate::category::ErrorType;
use crate::extract::{
    extract_file_location, extract_issue, extract_user_frames, lemma_frames_of_len, opt_view,
    spec_extract_file_location, spec_extract_issue, spec_user_frames,
};
use crate::lines::spec_lines;
use crate::text::blen;

verus! {

/// Largest input byte length the library accepts.  The renderers multiply
/// and add small constants to lengths; staying well under the machine word
/// keeps all of that arithmetic exact.
pub const MAX_TEXT_BYTES: usize = usize::MAX / 256;

/// The structured result of classifying and extracting one input text.
/// Built once per input; only read afterwards.
pub struct ToonifiedError {
    pub error_type: ErrorType,
    pub file_location: Option<String>,
    pub issue: Option<String>,
    pub frames: Vec<String>,
    pub original_len: usize,
}

impl ToonifiedError {
    /// Well-formedness: the original length and every extracted field stay
    /// within the size bound, and at most three frames are held.
    pub open spec fn wf(&self) -> bool {
        &&& self.original_len <= MAX_TEXT_BYTES
        &&& (match self.file_location {
            Some(f) => blen(f@) <= MAX_TEXT_BYTES + 3,
            None => true,
        })
        &&& (match self.issue {
            Some(s) => blen(s@) <= MAX_TEXT_BYTES + 3,
            None => true,
        })
        &&& self.frames@.len() <= 3
        &&& forall|k: int|
            0 <= k < self.frames@.len() ==> blen((#[trigger] self.frames@[k])@) <= MAX_TEXT_BYTES
                + 3
    }

    /// Assemble category, file location, issue, frames and the original
    /// byte length into one record.  Classification happens before this
    /// call: a text that matched no rule never reaches the builder, and is
    /// passed through unchanged by the caller instead.
    pub fn new(input: &str, error_type: ErrorType) -> (r: Self)
        requires
            blen(input@) <= MAX_TEXT_BYTES,
        ensures
            r.wf(),
            r.error_type == error_type,
            r.original_len == blen(input@),
            opt_view(r.file_location) == spec_extract_file_location(input@),
            opt_view(r.issue) == spec_extract_issue(error_type, input@),
            r.frames@.len() == spec_user_frames(input@).len(),
            forall|k: int|
                0 <= k < r.frames@.len() ==> (#[trigger] r.frames@[k])@ == spec_user_frames(
                    input@,
                )[k],
    {
        let file_location = extract_file_location(input);
        let issue = extract_issue(input, error_type);
        let frames = extract_user_frames(input);
        let original_len: usize = input.len();
        proof {
            lemma_frames_of_len(spec_lines(input@), 0, 3);
        }
        ToonifiedError { error_type, file_location, issue, frames, original_len }
    }
}

} // verus!
