//! What the relay answers to a plain request that is no handshake for the
//! relay itself.

use crate::text::same_text;
use vstd::prelude::*;

verus! {

/// The path on which connections to the relay are upgraded.
pub const UPGRADE_PATH: &'static str = "/ws";

/// The path of the page for trying the relay by hand.
pub const PAGE_PATH: &'static str = "/";

/// The status of the answer to an unknown path.
pub const NOT_FOUND_STATUS: u16 = 404;

/// The reason of the answer to an unknown path.
pub const NOT_FOUND_REASON: &'static str = "Not Found";

/// The body of the answer to an unknown path.
pub const NOT_FOUND_BODY: &'static str = "404 - Not Found";

/// How a request is answered.
#[derive(Clone, Copy, Debug, PartialEq, Eq, Structural)]
pub enum Answer {
    /// The request proceeds as the upgrade of a connection.
    Upgrade,
    /// The page for trying the relay by hand is served.
    Page,
    /// The path is unknown.
    NotFound,
}

/// The answer to a request for the path `resource`.
pub open spec fn answer_to(resource: Seq<char>) -> Answer {
    if resource == UPGRADE_PATH@ {
        Answer::Upgrade
    } else if resource == PAGE_PATH@ {
        Answer::Page
    } else {
        Answer::NotFound
    }
}

/// Decides how a request for the path `resource` is answered.
pub fn on_request(resource: &str) -> (answer: Answer)
    ensures
        answer == answer_to(resource@),
{
    if same_text(resource, UPGRADE_PATH) {
        Answer::Upgrade
    } else if same_text(resource, PAGE_PATH) {
        Answer::Page
    } else {
        Answer::NotFound
    }
}

} // verus!
