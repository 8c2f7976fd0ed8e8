//! Decisions behind the interactive prompts: what a trimmed reply line
//! means. Reading the lines themselves is the driving loop's business.

use crate::models::Status;
use crate::pages::{parse_u32, parsed_u32, parses_as_u32};
use vstd::prelude::*;
use vstd::string::StrSliceExecFns;

verus! {

/// The status a reply line picks: a numeral denoting one through four picks
/// the status in display order, anything else picks none.
pub open spec fn status_choice(input: Seq<char>) -> Option<Status> {
    if parses_as_u32(input) {
        if parsed_u32(input) == 1 {
            Some(Status::Open)
        } else if parsed_u32(input) == 2 {
            Some(Status::InProgress)
        } else if parsed_u32(input) == 3 {
            Some(Status::Resolved)
        } else if parsed_u32(input) == 4 {
            Some(Status::Closed)
        } else {
            None
        }
    } else {
        None
    }
}

/// Turn a status-prompt reply into the chosen status, as [`status_choice`]
/// describes.
pub fn status_from_input(input: &str) -> (r: Option<Status>)
    ensures
        r == status_choice(input@),
{
    match parse_u32(input) {
        Some(1u32) => Some(Status::Open),
        Some(2u32) => Some(Status::InProgress),
        Some(3u32) => Some(Status::Resolved),
        Some(4u32) => Some(Status::Closed),
        _ => None,
    }
}

/// A deletion is confirmed only by the exact reply `Y`; anything else —
/// including `y` — declines.
pub open spec fn confirms(input: Seq<char>) -> bool {
    input == seq!['Y']
}

/// Whether a confirmation-prompt reply is the explicit affirmative, as
/// [`confirms`] describes.
pub fn confirm_from_input(input: &str) -> (r: bool)
    ensures
        r == confirms(input@),
{
    if input.unicode_len() == 1 && input.get_char(0) == 'Y' {
        proof {
            assert(input@ =~= seq!['Y']);
        }
        true
    } else {
        false
    }
}

} // verus!
