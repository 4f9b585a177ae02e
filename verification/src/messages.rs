//! Canned replies and the random choice among them.

use vstd::prelude::*;
use crate::chance::random_from;
use crate::text::str_views;

verus! {

/// A reply text, either a literal or one built at run time.
pub enum MessageType {
    S(&'static str),
    O(String),
}

impl MessageType {
    /// The text the message carries.
    pub open spec fn text(self) -> Seq<char> {
        match self {
            MessageType::S(s) => s@,
            MessageType::O(s) => s@,
        }
    }

    /// The message as an owned string.
    pub fn format(&self) -> (r: String)
        ensures
            r@ == self.text(),
    {
        match self {
            MessageType::O(val) => val.clone(),
            MessageType::S(val) => String::from_str(val),
        }
    }
}

impl From<&'static str> for MessageType {
    fn from(value: &'static str) -> (r: Self) {
        MessageType::S(value)
    }
}

impl vstd::std_specs::convert::FromSpecImpl<&'static str> for MessageType {
    open spec fn obeys_from_spec() -> bool {
        true
    }

    open spec fn from_spec(v: &'static str) -> Self {
        MessageType::S(v)
    }
}

impl From<String> for MessageType {
    fn from(value: String) -> (r: Self) {
        MessageType::O(value)
    }
}

impl vstd::std_specs::convert::FromSpecImpl<String> for MessageType {
    open spec fn obeys_from_spec() -> bool {
        true
    }

    open spec fn from_spec(v: String) -> Self {
        MessageType::O(v)
    }
}

/// The texts of a list of messages.
pub open spec fn message_texts(options: Seq<MessageType>) -> Seq<Seq<char>> {
    options.map_values(|m: MessageType| m.text())
}

/// One of the given messages, chosen at random.
pub fn choose_message(options: &Vec<MessageType>) -> (r: String)
    requires
        options.len() > 0,
    ensures
        message_texts(options@).contains(r@),
{
    let m = random_from(options);
    let r = m.format();
    proof {
        let i = choose|i: int| 0 <= i < options.len() && *m == options@[i];
        assert(message_texts(options@)[i] == r@);
    }
    r
}

/// One of the given literals, chosen at random.
pub fn choose_text(options: &Vec<&'static str>) -> (r: &'static str)
    requires
        options.len() > 0,
    ensures
        str_views(options@).contains(r@),
{
    let m = random_from(options);
    proof {
        let i = choose|i: int| 0 <= i < options.len() && *m == options@[i];
        assert(str_views(options@)[i] == m@);
    }
    *m
}

} // verus!
