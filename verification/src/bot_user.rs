//! Who sent a command: the member's identifier and the names they show.

use vstd::prelude::*;

verus! {

/// A member as the chat reports them.
#[derive(Debug)]
pub struct BotUser {
    pub display_name: String,
    pub nickname: Option<String>,
    pub id: u64,
}

impl BotUser {
    /// A member known only by identifier, with an empty display name.
    pub fn from_id(id: u64) -> (r: Self)
        ensures
            r.id == id,
            r.display_name@ == Seq::<char>::empty(),
            r.nickname is None,
    {
        Self { display_name: String::new(), nickname: None, id }
    }
}

} // verus!
