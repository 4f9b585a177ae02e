//! A member's account: coins, style, and progress in the arena.

use vstd::prelude::*;
use crate::text::{decimal, int_text, plural, s_if, tdiv};

verus! {

/// A member of the server and everything the game knows of them.
/// Timestamps are nanoseconds since the Unix epoch.
#[derive(Debug, Clone)]
pub struct CoinUser {
    pub id: u64,
    pub nickname: Option<String>,
    pub display_name: String,
    pub coins: i64,
    pub style_points: i64,
    pub xp: i64,
    pub level: i64,
    pub time_of_last_trick: u64,
    pub time_of_last_investment: u64,
}

/// The title the arena gives a member of the given level.
#[verifier::opaque]
pub open spec fn title_view(level: int) -> Seq<char> {
    if 0 <= level <= 4 { "Harmless"@ }
    else if 5 <= level <= 9 { "Mostly Harmless"@ }
    else if 10 <= level <= 14 { "Gambling Addict(?)"@ }
    else if 15 <= level <= 19 { "Gambling Addict(!)"@ }
    else if 20 <= level <= 24 { "Biggest Clown at the Circus"@ }
    else if 25 <= level <= 49 { "Lost All Their Money On The Horse Races"@ }
    else if level == 50 { "Top Of The Bell Curve"@ }
    else if 51 <= level <= 74 { "Please Stop"@ }
    else if 75 <= level <= 79 { "I Will Pay You One United States Dollar To Stop Gambling"@ }
    else if 80 <= level <= 89 { "I Will Pay You Two United States Dollars To Stop Gambling"@ }
    else if 90 <= level <= 94 { "Okay Deal's Off I Ran Out Of Money"@ }
    else if 95 <= level <= 97 { "You Can Stop At 100"@ }
    else if level == 98 { "Please Stop At 100"@ }
    else if level == 99 { "One More Level"@ }
    else if level == 100 { "SUPREME COIN CHAMPION FOREVER"@ }
    else if level == 101 { "for fucks sake"@ }
    else if level == 102 { "okay fuck it"@ }
    else if level == 103 { "this next one's the last one"@ }
    else if 104 <= level <= 149 { "BEARER OF THE GAMBLING CROWN OF SHAME"@ }
    else if 150 <= level <= 199 { "*BEARER OF THE GAMBLING CROWN OF SHAME*"@ }
    else if 200 <= level <= 249 { "**BEARER OF THE GAMBLING CROWN OF SHAME**"@ }
    else if 250 <= level <= 499 { "**B E A R E R  O F  T H E  G A M B L I N G  C R O W N  O F  S H A M E**"@ }
    else if 500 <= level <= 999 { "Gambled Your Crown Away"@ }
    else if level == 1000 { "won it back?"@ }
    else if level == 1001 { "lost it again"@ }
    else if 1002 <= level <= 4999 { "Gambled Your Crown Away"@ }
    else if 5000 <= level <= 9999 { "I'll give you another supreme coin champion trophy at level 10,000. Will you stop then?"@ }
    else if level == 10000 { "I WAS LYING. WELCOME TO THE COIN ASCENDANCY, FUCKER. HOW HIGH WILL YOU GO?"@ }
    else if 10001 <= level <= 99999 { "Coin Ascendancy Hopeful"@ }
    else if 100000 <= level <= 999999 { "Coin Ascendancy Initiate"@ }
    else if 1000000 <= level <= 9999999 { "Member of the Coin Ascendancy"@ }
    else if 10000000 <= level <= 99999999 { "Coin Ascendancy Nobility"@ }
    else if 100000000 <= level <= 999999999 { "Coin Ascendancy Royalty"@ }
    else if 1000000000 <= level <= 9999999999 { "Supreme Ruler of the Coin Ascendancy"@ }
    else if 10000000000 <= level <= 99999999999 { "Deity of the Coin Ascendancy"@ }
    else if level == 100000000000 { "Betrayed by the Coin Ascendancy"@ }
    else { "Buried in a Hole"@ }
}

/// `n` copies of a text, one after the other.
pub open spec fn repeat_view(s: Seq<char>, n: nat) -> Seq<char>
    decreases n,
{
    if n == 0 { Seq::empty() } else { repeat_view(s, (n - 1) as nat) + s }
}

/// `n` copies of a text.
pub fn repeat_text(s: &str, n: usize) -> (r: String)
    ensures
        r@ == repeat_view(s@, n as nat),
{
    let mut r = String::new();
    let mut i: usize = 0;
    while i < n
        invariant
            i <= n,
            r@ == repeat_view(s@, i as nat),
        decreases n - i,
    {
        r.append(s);
        i = i + 1;
    }
    r
}

/// The level and experience reached after gaining `amount` experience:
/// every hundred points of experience become one level.
pub open spec fn after_xp(xp: int, level: int, amount: int) -> (int, int) {
    let t = xp + amount;
    if t >= 100 { (t % 100, level + t / 100) } else { (t, level) }
}

/// Whether gaining `amount` experience stays within the integer range.
pub open spec fn xp_gain_fits(xp: int, level: int, amount: int) -> bool {
    &&& i64::MIN <= xp + amount <= i64::MAX
    &&& (xp + amount >= 100 ==> level + (xp + amount) / 100 <= i64::MAX)
}

impl CoinUser {
    /// A fresh account at level one with nothing in it.
    pub open spec fn fresh(id: u64, nickname: Option<String>, display_name: String) -> CoinUser {
        CoinUser {
            id,
            nickname,
            display_name,
            coins: 0,
            style_points: 0,
            xp: 0,
            level: 1,
            time_of_last_trick: 0,
            time_of_last_investment: 0,
        }
    }

    /// The name the member goes by: the nickname where there is one.
    pub open spec fn shown_name(self) -> Seq<char> {
        match self.nickname {
            Some(n) => n@,
            None => self.display_name@,
        }
    }

    /// Whether the member has started training in the arena.
    pub open spec fn has_trained(self) -> bool {
        self.xp > 0 || self.level > 1
    }

    /// The experience bar for an experience cap.
    pub open spec fn bar_view(self, xp_cap: int) -> Seq<char> {
        let n = tdiv(self.xp as int, xp_cap) * 10;
        repeat_view("▓"@, n as nat) + repeat_view("░"@, (10 - n) as nat)
    }

    /// Whether the bar can be drawn: a positive cap, and experience of less
    /// than twice the cap (a longer bar than ten cells cannot be drawn).
    pub open spec fn bar_drawable(self, xp_cap: int) -> bool {
        xp_cap > 0 && 0 <= tdiv(self.xp as int, xp_cap) <= 1
    }

    /// The title in front of a trained member's name.
    pub open spec fn count_title_view(self) -> Seq<char> {
        if self.has_trained() { title_view(self.level as int) + " "@ } else { Seq::empty() }
    }

    /// The level behind a trained member's name.
    pub open spec fn count_level_view(self) -> Seq<char> {
        if self.has_trained() { "(Lv. "@ + decimal(self.level as int) + ")"@ } else { Seq::empty() }
    }

    /// The line with the member's coins.
    pub open spec fn count_coins_view(self) -> Seq<char> {
        "\n> - "@ + decimal(self.coins as int) + " coin"@ + plural(self.coins as int)
    }

    /// The line with the member's style points, when they have any.
    pub open spec fn count_style_view(self) -> Seq<char> {
        if self.style_points > 0 {
            "\n> - "@ + decimal(self.style_points as int) + " StylePoint"@
                + plural(self.style_points as int) + "™"@
        } else {
            Seq::empty()
        }
    }

    /// The line with a trained member's experience bar.
    pub open spec fn count_bar_view(self, xp_cap: int) -> Seq<char> {
        if self.has_trained() {
            "\n> - ["@ + self.bar_view(xp_cap) + "] - "@ + decimal(self.xp as int) + "/"@ + decimal(xp_cap)
        } else {
            Seq::empty()
        }
    }

    /// The member's entry in `coin count`.
    pub open spec fn count_view(self, xp_cap: int) -> Seq<char> {
        self.count_title_view() + "**"@ + self.shown_name() + "** "@ + self.count_level_view()
            + self.count_coins_view() + self.count_style_view() + self.count_bar_view(xp_cap)
    }

    /// A fresh account at level one with nothing in it.
    pub fn new(id: u64, nickname: Option<String>, display_name: String) -> (r: Self)
        ensures
            r == CoinUser::fresh(id, nickname, display_name),
    {
        Self {
            id,
            display_name,
            nickname,
            coins: 0,
            style_points: 0,
            xp: 0,
            level: 1,
            time_of_last_trick: 0,
            time_of_last_investment: 0,
        }
    }

    /// Gains experience; every hundred points become a level.
    pub fn add_xp(&mut self, amount: i64)
        requires
            xp_gain_fits(old(self).xp as int, old(self).level as int, amount as int),
        ensures
            (final(self).xp as int, final(self).level as int)
                == after_xp(old(self).xp as int, old(self).level as int, amount as int),
            final(self).id == old(self).id,
            final(self).nickname == old(self).nickname,
            final(self).display_name == old(self).display_name,
            final(self).coins == old(self).coins,
            final(self).style_points == old(self).style_points,
            final(self).time_of_last_trick == old(self).time_of_last_trick,
            final(self).time_of_last_investment == old(self).time_of_last_investment,
    {
        self.xp = self.xp + amount;
        if self.xp >= 100 {
            let levels = self.xp / 100;
            self.level = self.level + levels;
            self.xp = self.xp % 100;
        }
    }

    /// Gains experience and announces a new level if one was reached.
    pub fn add_xp_with_response(&mut self, amount: i64) -> (r: String)
        requires
            xp_gain_fits(old(self).xp as int, old(self).level as int, amount as int),
        ensures
            (final(self).xp as int, final(self).level as int)
                == after_xp(old(self).xp as int, old(self).level as int, amount as int),
            final(self).id == old(self).id,
            final(self).nickname == old(self).nickname,
            final(self).display_name == old(self).display_name,
            final(self).coins == old(self).coins,
            final(self).style_points == old(self).style_points,
            final(self).time_of_last_trick == old(self).time_of_last_trick,
            final(self).time_of_last_investment == old(self).time_of_last_investment,
            r@ == (if final(self).level > old(self).level {
                "\nYou are now Level "@ + decimal(final(self).level as int) + "!"@
            } else {
                Seq::empty()
            }),
    {
        let level = self.level;
        self.add_xp(amount);
        if self.level > level {
            let mut r = String::from_str("\nYou are now Level ");
            r.append(int_text(self.level).as_str());
            r.append("!");
            r
        } else {
            String::new()
        }
    }

    /// The title the arena gives this member.
    pub fn arena_title(&self) -> (r: String)
        ensures
            r@ == title_view(self.level as int),
    {
        proof { reveal(title_view); }
        let level = self.level;
        let t = if 0 <= level && level <= 4 { "Harmless" }
        else if 5 <= level && level <= 9 { "Mostly Harmless" }
        else if 10 <= level && level <= 14 { "Gambling Addict(?)" }
        else if 15 <= level && level <= 19 { "Gambling Addict(!)" }
        else if 20 <= level && level <= 24 { "Biggest Clown at the Circus" }
        else if 25 <= level && level <= 49 { "Lost All Their Money On The Horse Races" }
        else if level == 50 { "Top Of The Bell Curve" }
        else if 51 <= level && level <= 74 { "Please Stop" }
        else if 75 <= level && level <= 79 { "I Will Pay You One United States Dollar To Stop Gambling" }
        else if 80 <= level && level <= 89 { "I Will Pay You Two United States Dollars To Stop Gambling" }
        else if 90 <= level && level <= 94 { "Okay Deal's Off I Ran Out Of Money" }
        else if 95 <= level && level <= 97 { "You Can Stop At 100" }
        else if level == 98 { "Please Stop At 100" }
        else if level == 99 { "One More Level" }
        else if level == 100 { "SUPREME COIN CHAMPION FOREVER" }
        else if level == 101 { "for fucks sake" }
        else if level == 102 { "okay fuck it" }
        else if level == 103 { "this next one's the last one" }
        else if 104 <= level && level <= 149 { "BEARER OF THE GAMBLING CROWN OF SHAME" }
        else if 150 <= level && level <= 199 { "*BEARER OF THE GAMBLING CROWN OF SHAME*" }
        else if 200 <= level && level <= 249 { "**BEARER OF THE GAMBLING CROWN OF SHAME**" }
        else if 250 <= level && level <= 499 { "**B E A R E R  O F  T H E  G A M B L I N G  C R O W N  O F  S H A M E**" }
        else if 500 <= level && level <= 999 { "Gambled Your Crown Away" }
        else if level == 1000 { "won it back?" }
        else if level == 1001 { "lost it again" }
        else if 1002 <= level && level <= 4999 { "Gambled Your Crown Away" }
        else if 5000 <= level && level <= 9999 { "I'll give you another supreme coin champion trophy at level 10,000. Will you stop then?" }
        else if level == 10000 { "I WAS LYING. WELCOME TO THE COIN ASCENDANCY, FUCKER. HOW HIGH WILL YOU GO?" }
        else if 10001 <= level && level <= 99999 { "Coin Ascendancy Hopeful" }
        else if 100000 <= level && level <= 999999 { "Coin Ascendancy Initiate" }
        else if 1000000 <= level && level <= 9999999 { "Member of the Coin Ascendancy" }
        else if 10000000 <= level && level <= 99999999 { "Coin Ascendancy Nobility" }
        else if 100000000 <= level && level <= 999999999 { "Coin Ascendancy Royalty" }
        else if 1000000000 <= level && level <= 9999999999 { "Supreme Ruler of the Coin Ascendancy" }
        else if 10000000000 <= level && level <= 99999999999 { "Deity of the Coin Ascendancy" }
        else if level == 100000000000 { "Betrayed by the Coin Ascendancy" }
        else { "Buried in a Hole" };
        String::from_str(t)
    }

    /// The experience bar: ten cells, filled once the experience reaches the
    /// cap for the member's level.
    pub fn xp_bar(&self, xp_cap: i64) -> (r: String)
        requires
            self.bar_drawable(xp_cap as int),
        ensures
            r@ == self.bar_view(xp_cap as int),
    {
        let q = self.xp / xp_cap;
        assert(q == tdiv(self.xp as int, xp_cap as int));
        let n: usize = if q == 0 { 0 } else { 10 };
        let mut r = repeat_text("▓", n);
        r.append(repeat_text("░", 10 - n).as_str());
        r
    }

    fn count_title(&self) -> (r: String)
        ensures
            r@ == self.count_title_view(),
    {
        if self.xp > 0 || self.level > 1 {
            let mut r = self.arena_title();
            r.append(" ");
            r
        } else {
            String::new()
        }
    }

    fn count_level(&self) -> (r: String)
        ensures
            r@ == self.count_level_view(),
    {
        if self.xp > 0 || self.level > 1 {
            let mut r = String::from_str("(Lv. ");
            r.append(int_text(self.level).as_str());
            r.append(")");
            r
        } else {
            String::new()
        }
    }

    fn count_coins(&self) -> (r: String)
        ensures
            r@ == self.count_coins_view(),
    {
        let mut r = String::from_str("\n> - ");
        r.append(int_text(self.coins).as_str());
        r.append(" coin");
        r.append(s_if(self.coins).as_str());
        r
    }

    fn count_style(&self) -> (r: String)
        ensures
            r@ == self.count_style_view(),
    {
        if self.style_points > 0 {
            let mut r = String::from_str("\n> - ");
            r.append(int_text(self.style_points).as_str());
            r.append(" StylePoint");
            r.append(s_if(self.style_points).as_str());
            r.append("™");
            r
        } else {
            String::new()
        }
    }

    fn count_bar(&self, xp_cap: i64) -> (r: String)
        requires
            self.has_trained() ==> self.bar_drawable(xp_cap as int),
        ensures
            r@ == self.count_bar_view(xp_cap as int),
    {
        if self.xp > 0 || self.level > 1 {
            let mut r = String::from_str("\n> - [");
            r.append(self.xp_bar(xp_cap).as_str());
            r.append("] - ");
            r.append(int_text(self.xp).as_str());
            r.append("/");
            r.append(int_text(xp_cap).as_str());
            r
        } else {
            String::new()
        }
    }

    /// The name the member goes by.
    pub fn shown_name_text(&self) -> (r: String)
        ensures
            r@ == self.shown_name(),
    {
        match &self.nickname {
            Some(n) => n.clone(),
            None => self.display_name.clone(),
        }
    }

    /// The member's entry in `coin count`, for the cap of their level.
    pub fn coin_count_message(&self, xp_cap: i64) -> (r: String)
        requires
            self.has_trained() ==> self.bar_drawable(xp_cap as int),
        ensures
            r@ == self.count_view(xp_cap as int),
    {
        let mut r = self.count_title();
        r.append("**");
        r.append(self.shown_name_text().as_str());
        r.append("** ");
        r.append(self.count_level().as_str());
        r.append(self.count_coins().as_str());
        r.append(self.count_style().as_str());
        r.append(self.count_bar(xp_cap).as_str());
        r
    }
}

} // verus!
