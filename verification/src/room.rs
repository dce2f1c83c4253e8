use vstd::prelude::*;

verus! {

/// What the display resolver reads of a room: its canonical alias, when one
/// is set, and its raw room identifier.
pub struct ShowRoom {
    pub canonical_alias: Option<String>,
    pub room_id: String,
}

impl ShowRoom {
    /// The human-readable label: the canonical alias if the room has one,
    /// else the raw room identifier.  No further fallback.
    pub fn display(&self) -> (r: String)
        ensures
            (match self.canonical_alias {
                Some(a) => r@ == a@,
                None => r@ == self.room_id@,
            }),
    {
        match &self.canonical_alias {
            Some(a) => a.clone(),
            None => self.room_id.clone(),
        }
    }
}

} // verus!
