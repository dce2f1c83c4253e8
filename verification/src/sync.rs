use vstd::prelude::*;

verus! {

/// The presence hint attached to a sync request.
pub enum PresenceState {
    Online,
    Offline,
    Unavailable,
}

/// The settings of one bounded sync pass: a long-poll timeout in seconds,
/// a presence hint, and the cursor to resume from, if one is stored.
pub struct SyncSettings {
    pub timeout_secs: u64,
    pub presence: PresenceState,
    pub token: Option<String>,
}

/// The long-poll timeout of every sync pass, in seconds.
pub const SYNC_TIMEOUT_SECS: u64 = 600;

/// The settings of the next sync pass, given the cursor read from the local
/// store's sync-token slot.
///
/// A stored cursor is reused verbatim as the resume token; with none stored
/// the pass is a full initial sync (no token).  The pass always uses the
/// fixed long-poll timeout and reports presence `Unavailable`: a background
/// sync must not make the account appear actively present.
pub fn sync_settings_for(stored_cursor: Option<String>) -> (r: SyncSettings)
    ensures
        r.timeout_secs == SYNC_TIMEOUT_SECS,
        r.presence is Unavailable,
        r.token == stored_cursor,
{
    SyncSettings { timeout_secs: SYNC_TIMEOUT_SECS, presence: PresenceState::Unavailable, token: stored_cursor }
}

} // verus!
