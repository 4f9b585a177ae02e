//! Replies of several kinds that pass between the chat and the server.

use vstd::prelude::*;
use crate::coin::Coin;
use crate::rarity::Rarity;

verus! {

/// Possible errors for the ResponseType enum
#[derive(Debug, Clone, Copy, PartialEq, Eq, Structural)]
pub enum ResponseTypeError {
    InvalidTypeConversion,
    UnhandledResponseType,
}

impl ResponseTypeError {
    /// How the error is displayed.
    pub open spec fn message_view(self) -> Seq<char> {
        match self {
            ResponseTypeError::InvalidTypeConversion => "Invalid ResponseType Conversion"@,
            _ => "Not Implemented Error"@,
        }
    }

    /// How the error is displayed.
    pub fn message(&self) -> (r: &'static str)
        ensures
            r@ == self.message_view(),
    {
        match self {
            ResponseTypeError::InvalidTypeConversion => "Invalid ResponseType Conversion",
            _ => "Not Implemented Error",
        }
    }
}

/// A reply that holds a text, a coin, or a rarity.
pub enum ResponseType {
    MsgText(String),
    MsgCoin(Coin),
    MsgRarity(Rarity),
}

impl ResponseType {
    /// How the reply is displayed: the text itself, or the name of the
    /// coin's rarity or of the rarity.
    pub open spec fn text_view(self) -> Seq<char> {
        match self {
            ResponseType::MsgText(s) => s@,
            ResponseType::MsgCoin(c) => c.rarity.name_view(),
            ResponseType::MsgRarity(r) => r.name_view(),
        }
    }

    /// How the reply is displayed.
    pub fn text(&self) -> (r: String)
        ensures
            r@ == self.text_view(),
    {
        match self {
            ResponseType::MsgText(s) => s.clone(),
            ResponseType::MsgCoin(c) => String::from_str(c.rarity.name()),
            ResponseType::MsgRarity(r) => String::from_str(r.name()),
        }
    }
}

impl From<String> for ResponseType {
    fn from(value: String) -> (r: Self) {
        ResponseType::MsgText(value)
    }
}

impl vstd::std_specs::convert::FromSpecImpl<String> for ResponseType {
    open spec fn obeys_from_spec() -> bool {
        true
    }

    open spec fn from_spec(v: String) -> Self {
        ResponseType::MsgText(v)
    }
}

} // verus!
