//! The file-blob collaborator's configuration. Reading, saving and deleting
//! blobs is I/O at the serving edge; the core only owns the base location
//! and the access decisions made before any blob is touched.

use vstd::prelude::*;
use vstd::string::StringSliceAdditionalSpecFns;
use vstd::string::StrSliceExecFns;

use crate::utility::ApiError;

verus! {

/// Where file blobs live locally.
pub struct LocalReader {
    pub base_url: String,
}

impl LocalReader {
    /// A reader rooted at this base location.
    pub fn new(base_url: &str) -> (r: Self)
        ensures
            r.base_url@ == base_url@,
    {
        Self { base_url: base_url.to_owned() }
    }
}

/// Longest accepted file name, in characters.
pub const MAXIMUM_FILE_NAME_LENGTH: usize = 120;

/// What an upload request must satisfy before any blob is touched: a
/// bounded file name and a content type.
pub open spec fn valid_file_upload(file_name: Seq<char>, content_type: Seq<char>) -> bool {
    file_name.len() <= MAXIMUM_FILE_NAME_LENGTH && content_type.len() > 0
}

/// Decides an upload request's validity, with the exact rejection each
/// violation maps to.
pub fn validate_file_upload(file_name: &str, content_type: &str) -> (r: Result<(), ApiError>)
    ensures
        match r {
            Ok(_) => valid_file_upload(file_name@, content_type@),
            Err(e) => (file_name@.len() > MAXIMUM_FILE_NAME_LENGTH && e.status == 400 && e.detail@
                == "File name cannot be over 120 characters long"@) || (file_name@.len()
                <= MAXIMUM_FILE_NAME_LENGTH && content_type@.len() == 0 && e.status == 400
                && e.detail@ == "Missing content type header"@),
        },
{
    if file_name.unicode_len() > MAXIMUM_FILE_NAME_LENGTH {
        return Err(crate::utility::single_error(
            400,
            "File name cannot be over 120 characters long",
        ));
    }
    if content_type.unicode_len() == 0 {
        return Err(crate::utility::single_error(400, "Missing content type header"));
    }
    Ok(())
}

} // verus!
