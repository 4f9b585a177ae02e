//! A coin waiting in the channel for someone to grab it.

use vstd::prelude::*;
use crate::chance::random_index;
use crate::rarity::{Rarity, rarity_for_draw};
use crate::text::{decimal, int_text, plural, s_if, str_views};

verus! {

/// Struct for handling coins
#[derive(Debug, Default)]
pub struct Coin {
    pub value: i64,
    pub rarity: Rarity,
}

/// The faces of a coin running away.
pub open spec fn runner_faces() -> Seq<Seq<char>> {
    seq![
        "🏃‍♂️"@,
        "🏃‍♂️‍➡️"@,
        "🏃"@,
        "🏃‍➡️"@,
        "🏃‍♀️"@,
        "🏃‍♀️‍➡️"@,
        "<a:baaulpSpin:1059203066018156675>"@,
        "<a:cainedansandpemaneleLOL:751118345335603264>"@,
        "<a:violence:726858564509106216>"@,
    ]
}

/// How a coin can get away.
pub open spec fn escape_endings() -> Seq<Seq<char>> {
    seq![
        "ran away..."@,
        "escaped!"@,
        "made a dramatic getaway."@,
        "climbs in a car and drives away!"@,
        "saw weakness in you, and leaves."@,
        "catches on fire, and dies!"@,
    ]
}

fn runner_list() -> (v: Vec<&'static str>)
    ensures
        str_views(v@) == runner_faces(),
{
    let v = vec![
        "🏃‍♂️",
        "🏃‍♂️‍➡️",
        "🏃",
        "🏃‍➡️",
        "🏃‍♀️",
        "🏃‍♀️‍➡️",
        "<a:baaulpSpin:1059203066018156675>",
        "<a:cainedansandpemaneleLOL:751118345335603264>",
        "<a:violence:726858564509106216>",
    ];
    assert(str_views(v@) =~= runner_faces());
    v
}

fn ending_list() -> (v: Vec<&'static str>)
    ensures
        str_views(v@) == escape_endings(),
{
    let v = vec![
        "ran away...",
        "escaped!",
        "made a dramatic getaway.",
        "climbs in a car and drives away!",
        "saw weakness in you, and leaves.",
        "catches on fire, and dies!",
    ];
    assert(str_views(v@) =~= escape_endings());
    v
}

impl Coin {
    /// The coin's worth as the announcements put it.
    pub open spec fn worth_view(self) -> Seq<char> {
        if self.rarity == Rarity::GNOME { "probably infinite"@ } else { decimal(self.value as int) }
    }

    /// The announcement made when the coin appears.
    pub open spec fn arrival_view(self) -> Seq<char> {
        let r = self.rarity;
        let prefix = match r {
            Rarity::UNCOMMON => "An"@,
            Rarity::GNOME => "A bell tolls in the distance.\nThe"@,
            Rarity::RARE | Rarity::LEGENDARY | Rarity::MYTHICAL => "**WOW**! A"@,
            _ => "A"@,
        };
        let suffix = if r == Rarity::GNOME { "makes his entrance..."@ } else { "coin appeared!"@ };
        let count = if r == Rarity::COMMON {
            Seq::empty()
        } else {
            "\n"@ + r.emoji_view() + " | "@
                + (if r == Rarity::GNOME { "He's worth"@ } else { "It's worth"@ }) + " "@
                + self.worth_view() + " "@
                + (if r == Rarity::GNOME { "coins lol"@ } else { "coin"@ + plural(self.value as int) + "!"@ })
        };
        r.emoji_view() + " | "@ + prefix + " "@ + r.name_view() + suffix + count
    }

    /// The edit made to the announcement when the coin gets away, given the
    /// running face and the way it escapes.
    pub open spec fn escape_view(self, runner: Seq<char>, ending: Seq<char>) -> Seq<char> {
        let r = self.rarity;
        runner + " The "@ + r.emoji_view() + " "@ + r.name_view()
            + (if r == Rarity::GNOME { Seq::empty() } else { "coin "@ })
            + (if r == Rarity::COMMON {
                Seq::empty()
            } else {
                "(worth "@ + self.worth_view() + " coin"@ + plural(self.value as int) + ") "@
            })
            + ending
    }

    /// The value a coin of the given rarity may have.
    pub open spec fn fair_value(rarity: Rarity, value: int) -> bool {
        ||| rarity == Rarity::COMMON && value == 1
        ||| rarity == Rarity::GNOME && value == -50
        ||| rarity != Rarity::COMMON && rarity != Rarity::GNOME && rarity != Rarity::NONE
            && exists|d: int| rarity.draw_low() <= d < rarity.draw_high() && value == rarity.value_for_draw(d)
    }

    /// A fresh coin of random rarity and value.
    pub fn new() -> (c: Coin)
        ensures
            c.rarity != Rarity::NONE,
            exists|x: int| 1 <= x < 1_000_000 && c.rarity == rarity_for_draw(x),
            Coin::fair_value(c.rarity, c.value as int),
    {
        let rarity = Rarity::generate();
        Coin { rarity, value: rarity.calculate_value() }
    }

    /// The absence of a coin.
    pub fn none() -> (c: Coin)
        ensures
            c.rarity == Rarity::NONE,
            c.value == 0,
    {
        Coin { rarity: Rarity::NONE, value: 0 }
    }

    /// Whether this stands for no coin at all.
    pub fn is_none(&self) -> (b: bool)
        ensures
            b == (self.rarity == Rarity::NONE),
    {
        self.rarity == Rarity::NONE
    }

    fn worth(&self) -> (r: String)
        ensures
            r@ == self.worth_view(),
    {
        if self.rarity == Rarity::GNOME {
            String::from_str("probably infinite")
        } else {
            int_text(self.value)
        }
    }

    /// The announcement made when the coin appears.
    pub fn arrival_message(&self) -> (r: String)
        ensures
            r@ == self.arrival_view(),
    {
        let rarity = self.rarity;
        let mut r = String::from_str(rarity.emoji());
        r.append(" | ");
        r.append(match rarity {
            Rarity::UNCOMMON => "An",
            Rarity::GNOME => "A bell tolls in the distance.\nThe",
            Rarity::RARE | Rarity::LEGENDARY | Rarity::MYTHICAL => "**WOW**! A",
            _ => "A",
        });
        r.append(" ");
        r.append(rarity.name());
        r.append(if rarity == Rarity::GNOME { "makes his entrance..." } else { "coin appeared!" });
        if rarity != Rarity::COMMON {
            r.append("\n");
            r.append(rarity.emoji());
            r.append(" | ");
            r.append(if rarity == Rarity::GNOME { "He's worth" } else { "It's worth" });
            r.append(" ");
            r.append(self.worth().as_str());
            r.append(" ");
            if rarity == Rarity::GNOME {
                r.append("coins lol");
            } else {
                r.append("coin");
                r.append(s_if(self.value).as_str());
                r.append("!");
            }
        }
        r
    }

    /// The escape edit for a chosen face (of the nine) and ending (of the
    /// six).
    pub fn escape_message_with(&self, runner: usize, ending: usize) -> (r: String)
        requires
            runner < 9,
            ending < 6,
        ensures
            r@ == self.escape_view(runner_faces()[runner as int], escape_endings()[ending as int]),
    {
        let runners = runner_list();
        let endings = ending_list();
        assert(runners@.len() == 9 && endings@.len() == 6) by {
            assert(runner_faces().len() == 9);
            assert(escape_endings().len() == 6);
            assert(str_views(runners@).len() == runners@.len());
            assert(str_views(endings@).len() == endings@.len());
        }
        assert(runners@[runner as int]@ == runner_faces()[runner as int]);
        assert(endings@[ending as int]@ == escape_endings()[ending as int]);
        let rarity = self.rarity;
        let mut r = String::from_str(runners[runner]);
        r.append(" The ");
        r.append(rarity.emoji());
        r.append(" ");
        r.append(rarity.name());
        if rarity != Rarity::GNOME {
            r.append("coin ");
        }
        if rarity != Rarity::COMMON {
            r.append("(worth ");
            r.append(self.worth().as_str());
            r.append(" coin");
            r.append(s_if(self.value).as_str());
            r.append(") ");
        }
        r.append(endings[ending]);
        r
    }

    /// The edit made to the announcement when the coin gets away, with a
    /// random face and ending.
    pub fn escape_message(&self) -> (r: String)
        ensures
            exists|i: int, j: int|
                0 <= i < 9 && 0 <= j < 6
                    && r@ == self.escape_view(runner_faces()[i], escape_endings()[j]),
    {
        let i = random_index(9);
        let j = random_index(6);
        self.escape_message_with(i, j)
    }
}

} // verus!
