//! The plain records that the sweep works on: rooms, messages, and the
//! read-status counters that come back from acknowledging a message.

use vstd::prelude::*;

verus! {

/// One chat room as the rooms listing reports it: an opaque numeric
/// identifier and the current unread / mention counters.
#[derive(Debug, Clone, Copy)]
pub struct Room {
    /// Unique, stable identifier of the room.
    pub room_id: i32,
    /// Number of unread messages in the room.
    pub unread_num: i32,
    /// Number of unread mentions addressed to the authenticated account.
    pub mention_num: i32,
}

/// One message of a room's history. Message lists are ordered oldest first,
/// as the upstream API returns them.
#[derive(Debug)]
pub struct Message {
    /// Opaque string identifier of the message.
    pub message_id: String,
    /// The message text, possibly holding mention or broadcast markers.
    pub body: String,
}

/// The counters that the "mark as read" endpoint returns after an
/// acknowledgement. Used for observability only, never for control flow.
#[derive(Debug, Clone, Copy)]
pub struct ReadStatus {
    /// Unread messages left after the acknowledgement.
    pub unread_num: i32,
    /// Unread mentions left after the acknowledgement.
    pub mention_num: i32,
}

} // verus!
