//! What to do with a response: how its status is classed, and what a run
//! does once the status and the body are known.

use vstd::prelude::*;
use crate::json::Json;
use crate::mapper::{decode_search_response, search_response_of};
use crate::model::{track_views, Track, TrackView};
use crate::store::{flatten_tracks, flattened_all, row_views, TrackRow};

verus! {

/// The three classes of a response status.
#[derive(Debug, Clone, Copy, PartialEq, Eq, Structural)]
pub enum StatusClass {
    /// 200: the body holds the answer.
    Success,
    /// 401: the token was not accepted.
    Unauthorized,
    /// Any other status, which the run has no answer to.
    Unexpected(u16),
}

/// The class of a status.
pub open spec fn status_class(status: u16) -> StatusClass {
    if status == 200 {
        StatusClass::Success
    } else if status == 401 {
        StatusClass::Unauthorized
    } else {
        StatusClass::Unexpected(status)
    }
}

/// Classes a status: 200 is a success, 401 a rejected token, and any other
/// status is unexpected and carried along.
pub fn classify_status(status: u16) -> (class: StatusClass)
    ensures
        class == status_class(status),
{
    if status == 200 {
        StatusClass::Success
    } else if status == 401 {
        StatusClass::Unauthorized
    } else {
        StatusClass::Unexpected(status)
    }
}

/// A condition that ends a run in good order, with a message and nothing
/// written.
#[derive(Debug, Clone, Copy, PartialEq, Eq, Structural)]
pub enum Notice {
    /// The token is invalid or has expired.
    TokenRejected,
    /// The body does not have the shape of a search response.
    ShapeMismatch,
}

/// The message of a notice.
pub open spec fn notice_text(notice: Notice) -> Seq<char> {
    match notice {
        Notice::TokenRejected => "Need to grab a new token"@,
        Notice::ShapeMismatch => "Hm, the response didn't match the shape we expected."@,
    }
}

impl Notice {
    /// The message to show for this notice.
    pub fn message(&self) -> (text: &'static str)
        ensures
            text@ == notice_text(*self),
    {
        match self {
            Notice::TokenRejected => "Need to grab a new token",
            Notice::ShapeMismatch => "Hm, the response didn't match the shape we expected.",
        }
    }
}

/// What a run does after the response.
#[derive(Debug, Clone, PartialEq, Eq)]
pub enum Plan {
    /// Write `rows`, one after the other, then report `tracks`.
    Persist { tracks: Vec<Track>, rows: Vec<TrackRow> },
    /// Show the notice and end; nothing is written.
    Report(Notice),
    /// Stop at once with the status; nothing is written.
    Abort(u16),
}

/// The tracks of a body, if there is a body and it has the shape of a
/// search response.
pub open spec fn body_tracks(body: Option<&Json>) -> Option<Seq<TrackView>> {
    match body {
        Some(json) => search_response_of(*json),
        None => None,
    }
}

/// Decides a run from the status and the body of the response; `body` is
/// absent where none was read or what was read is no JSON document.
///
/// On 200 the body decides: with the shape of a search response its tracks
/// are written, one row for each track and in the tracks' order, and
/// otherwise the mismatch is reported. On 401 the rejected token is
/// reported. Any other status stops the run. The body is looked at on 200
/// only.
pub fn plan_run(status: u16, body: Option<&Json>) -> (plan: Plan)
    ensures
        match status_class(status) {
            StatusClass::Success => match body_tracks(body) {
                Some(found) => plan matches Plan::Persist { tracks, rows } && track_views(tracks@)
                    == found && row_views(rows@) == flattened_all(found),
                None => plan == Plan::Report(Notice::ShapeMismatch),
            },
            StatusClass::Unauthorized => plan == Plan::Report(Notice::TokenRejected),
            StatusClass::Unexpected(code) => plan == Plan::Abort(code),
        },
{
    match classify_status(status) {
        StatusClass::Success => {
            let decoded = match body {
                Some(json) => decode_search_response(json),
                None => { return Plan::Report(Notice::ShapeMismatch); },
            };
            match decoded {
                Ok(response) => {
                    let rows = flatten_tracks(&response.tracks);
                    Plan::Persist { tracks: response.tracks, rows }
                },
                Err(_) => Plan::Report(Notice::ShapeMismatch),
            }
        },
        StatusClass::Unauthorized => Plan::Report(Notice::TokenRejected),
        StatusClass::Unexpected(code) => Plan::Abort(code),
    }
}

} // verus!
