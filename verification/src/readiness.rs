//! Whether a command can be run: the checks an application makes before it
//! hands a command to `Server::run_command`.

use vstd::prelude::*;
use crate::bot_user::BotUser;
use crate::commands::{Measure, coins_of, countable};
use crate::communication::Command;
use crate::dispatch::{Step, command_post, command_ready};
use crate::environment::BOT_ID;
use crate::games::{
    arena_ready, asks_training, gift_ready_users, give_ready, intro_ready, invest_fits, invest_ready, invest_ready_users,
    trick_fits, trick_ready, trick_ready_users,
};
use crate::server::{Server, has_user, lemma_touch, lookup, record_or_fresh, touch_seq, with_user};
use crate::text::{lowercase_of, parse_i64, parse_i64_spec, string_views, tdiv, to_lowercase};
use crate::user::{CoinUser, xp_gain_fits};

verus! {

/// Whether training the arena's stake keeps experience in range, for the
/// member's record as it would be seen.
pub open spec fn arena_numbers_fit(s: Seq<CoinUser>, user: BotUser, input: Seq<Seq<char>>) -> bool {
    let u = record_or_fresh(s, user);
    &&& asks_training(input) && input.len() > 3 ==> (forall|a: i64|
        parse_i64_spec(input[3]) == Some(a) && 0 <= a <= u.coins ==> #[trigger] xp_gain_fits(u.xp as int, u.level as int, a as int))
    &&& !asks_training(input) ==> 100 - u.xp <= i64::MAX
}

/// What running a command needs of the records and the clock: room in the
/// integers, a clock no earlier than the stamps it compares with, and, for
/// the leaderboard, the asker on record.  `NoCommand` is never run.
pub open spec fn record_ready<M>(before: Server<M>, command: Command<M>, now: u64) -> bool {
    match command {
        Command::GetCoin(user) => before.coin.rarity != crate::rarity::Rarity::NONE
            ==> i64::MIN <= coins_of(before.users@, user.id) + before.coin.value <= i64::MAX,
        Command::CoinLeaderboard(user) => has_user(before.users@, user.id),
        Command::GiveCoin(sender, recipient, amount) => if sender.id == recipient.id {
            trick_ready_users(before.users@, sender, amount, now)
        } else {
            gift_ready_users(touch_seq(before.users@, sender), sender, recipient, amount, now)
        },
        Command::Invest(user, amount) => invest_ready_users(before.users@, user, amount, now),
        Command::Arena(user, words) => arena_numbers_fit(before.users@, user, string_views(words@)),
        Command::Trick(user, amount) => trick_ready_users(before.users@, user, amount, now),
        Command::UpdateCoins => now >= before.time_of_last_interest,
        Command::NoCommand => false,
        _ => true,
    }
}

/// A member's experience bar can be drawn for any cap of a hundred or more.
pub open spec fn bar_safe(u: CoinUser) -> bool {
    -100 < u.xp < 200
}

/// Every experience bar the command draws can be drawn for any cap of a
/// hundred or more: the bars of trained members it counts, and the bar of
/// the arena's welcome.
pub open spec fn bars_drawable<M>(before: Server<M>, command: Command<M>) -> bool {
    match command {
        Command::CoinCount(user) => record_or_fresh(before.users@, user).has_trained()
            ==> bar_safe(record_or_fresh(before.users@, user)),
        Command::CoinCountMultiple(users) => forall|k: int| 0 <= k < users@.len()
            ==> (#[trigger] record_or_fresh(before.users@, users@[k])).has_trained()
            ==> bar_safe(record_or_fresh(before.users@, users@[k])),
        Command::Arena(user, words) => !asks_training(string_views(words@))
            ==> bar_safe(record_or_fresh(before.users@, user)),
        _ => true,
    }
}

/// The application's experience caps are a hundred or more.
pub open spec fn caps_from_hundred<F: Fn(Measure) -> i64>(measure: F) -> bool {
    forall|level: i64, cap: i64| #[trigger] measure.ensures((Measure::XpCap { level },), cap) ==> cap >= 100
}

/// A bar that is safe can be drawn for a cap of a hundred or more.
proof fn lemma_bar_safe(u: CoinUser, cap: int)
    requires
        bar_safe(u),
        cap >= 100,
    ensures
        u.bar_drawable(cap),
{
    let x = u.xp as int;
    if x >= 0 {
        assert(0 <= x / cap <= 1) by (nonlinear_arith)
            requires
                0 <= x < 200,
                cap >= 100;
    } else {
        assert((-x) / cap == 0) by (nonlinear_arith)
            requires
                0 < -x < 100,
                cap >= 100;
    }
}

/// What is found under a member's identifier once they are seen or added.
proof fn lemma_seen_lookup(s: Seq<CoinUser>, b: BotUser)
    requires
        crate::server::ids_ascending(s),
    ensures
        lookup(with_user(s, b), b.id) == Some(record_or_fresh(s, b)),
        lookup(touch_seq(s, b), b.id).unwrap().coins == record_or_fresh(s, b).coins,
        lookup(touch_seq(s, b), b.id).unwrap().xp == record_or_fresh(s, b).xp,
        lookup(touch_seq(s, b), b.id).unwrap().level == record_or_fresh(s, b).level,
        lookup(touch_seq(s, b), b.id).unwrap().style_points == record_or_fresh(s, b).style_points,
        lookup(touch_seq(s, b), b.id).unwrap().time_of_last_trick == record_or_fresh(s, b).time_of_last_trick,
        lookup(touch_seq(s, b), b.id).unwrap().time_of_last_investment == record_or_fresh(s, b).time_of_last_investment,
        lookup(touch_seq(s, b), b.id) is Some,
        forall|id: u64| id != b.id ==> #[trigger] lookup(touch_seq(s, b), id) == lookup(s, id),
{
    lemma_touch(s, b);
}

/// The numbers on a member's record as it would be seen: coins, style
/// points, experience, level, and the times of the last trick and
/// investment.
struct Standing {
    coins: i64,
    style_points: i64,
    xp: i64,
    level: i64,
    last_trick: u64,
    last_investment: u64,
}

impl<M> Server<M> {
    fn standing(&self, user: &BotUser) -> (r: Standing)
        requires
            self.wf(),
        ensures
            r.coins == record_or_fresh(self.users@, *user).coins,
            r.style_points == record_or_fresh(self.users@, *user).style_points,
            r.xp == record_or_fresh(self.users@, *user).xp,
            r.level == record_or_fresh(self.users@, *user).level,
            r.last_trick == record_or_fresh(self.users@, *user).time_of_last_trick,
            r.last_investment == record_or_fresh(self.users@, *user).time_of_last_investment,
    {
        match self.find_user(user.id) {
            Ok(i) => {
                proof { crate::server::lemma_index_of_user(self.users@, user.id, i as int); }
                let u = &self.users[i];
                Standing {
                    coins: u.coins,
                    style_points: u.style_points,
                    xp: u.xp,
                    level: u.level,
                    last_trick: u.time_of_last_trick,
                    last_investment: u.time_of_last_investment,
                }
            },
            Err(_) => Standing { coins: 0, style_points: 0, xp: 0, level: 1, last_trick: 0, last_investment: 0 },
        }
    }
}

/// Whether a trick's arithmetic stays in range for these numbers.
fn trick_numbers_fit(st: &Standing, amount: i64) -> (r: bool)
    ensures
        r == (st.style_points + 99 <= i64::MAX && i64::MIN <= st.coins - amount <= i64::MAX
            && i64::MIN <= st.coins + amount <= i64::MAX),
{
    let sp = st.style_points as i128;
    let c = st.coins as i128;
    let a = amount as i128;
    sp + 99 <= 0x7fff_ffff_ffff_ffff && -0x8000_0000_0000_0000 <= c - a && c - a <= 0x7fff_ffff_ffff_ffff
        && -0x8000_0000_0000_0000 <= c + a && c + a <= 0x7fff_ffff_ffff_ffff
}

/// Whether an investment's arithmetic stays in range for these numbers.
fn invest_numbers_fit(coins: i64, bank: i64, amount: i64) -> (r: bool)
    ensures
        r == (i64::MIN <= coins - amount <= i64::MAX && i64::MIN <= amount * 5 <= i64::MAX
            && i64::MIN <= bank + amount * 5 <= i64::MAX
            && i64::MIN <= coins - amount + tdiv(bank + amount * 5, 2) <= i64::MAX),
{
    let c = coins as i128;
    let b = bank as i128;
    let a = amount as i128;
    let five = a * 5;
    let total = b + five;
    let half = total / 2;
    assert(half == tdiv(total as int, 2));
    let lo: i128 = -0x8000_0000_0000_0000;
    let hi: i128 = 0x7fff_ffff_ffff_ffff;
    lo <= c - a && c - a <= hi && lo <= five && five <= hi && lo <= total && total <= hi && lo <= c - a + half
        && c - a + half <= hi
}

impl<M> Server<M> {
    /// The coins on record for an identifier, or none.
    fn coins_on_record(&self, id: u64) -> (r: i64)
        requires
            self.wf(),
        ensures
            r == coins_of(self.users@, id),
    {
        match self.find_user(id) {
            Ok(i) => {
                proof { crate::server::lemma_index_of_user(self.users@, id, i as int); }
                self.users[i].coins
            },
            Err(_) => 0,
        }
    }

    /// Whether an investment of `amount` by `user` at `now` can be made.
    fn invest_fits_now(&self, user: &BotUser, amount: i64, now: u64) -> (r: bool)
        requires
            self.wf(),
        ensures
            r == invest_ready_users(self.users@, *user, amount, now),
    {
        proof { lemma_seen_lookup(self.users@, *user); }
        let st = self.standing(user);
        let bank = self.coins_on_record(BOT_ID);
        user.id != BOT_ID && now >= st.last_investment && invest_numbers_fit(st.coins, bank, amount)
    }

    /// Whether the bar of every trained member among `users` can be drawn
    /// for any cap of a hundred or more.
    fn bars_fit(&self, users: &Vec<BotUser>) -> (r: bool)
        requires
            self.wf(),
        ensures
            r == forall|k: int| 0 <= k < users@.len()
                ==> (#[trigger] record_or_fresh(self.users@, users@[k])).has_trained()
                ==> bar_safe(record_or_fresh(self.users@, users@[k])),
    {
        let mut k: usize = 0;
        while k < users.len()
            invariant
                k <= users@.len(),
                self.wf(),
                forall|j: int| 0 <= j < k ==> (#[trigger] record_or_fresh(self.users@, users@[j])).has_trained()
                    ==> bar_safe(record_or_fresh(self.users@, users@[j])),
            decreases users@.len() - k,
        {
            let st = self.standing(&users[k]);
            if (st.xp > 0 || st.level > 1) && !(-100 < st.xp && st.xp < 200) {
                assert((#[trigger] record_or_fresh(self.users@, users@[k as int])).has_trained());
                return false;
            }
            k = k + 1;
        }
        true
    }

    /// Whether the records and the clock allow a command at `now`, and
    /// whether every bar it draws can be drawn for caps of a hundred or
    /// more.  With an application whose caps are a hundred or more, a
    /// command that passes can be given to `run_command`.
    pub fn command_fits(&self, command: &Command<M>, now: u64) -> (r: bool)
        requires
            self.wf(),
        ensures
            r == (record_ready(*self, *command, now) && bars_drawable(*self, *command)),
    {
        let ghost s = self.users@;
        match command {
            Command::GetCoin(user) => {
                let c = self.coins_on_record(user.id) as i128 + self.coin.value as i128;
                self.coin.is_none() || (-0x8000_0000_0000_0000 <= c && c <= 0x7fff_ffff_ffff_ffff)
            },
            Command::CoinCount(user) => {
                let st = self.standing(user);
                !(st.xp > 0 || st.level > 1) || (-100 < st.xp && st.xp < 200)
            },
            Command::CoinCountMultiple(users) => self.bars_fit(users),
            Command::CoinLeaderboard(user) => self.find_user(user.id).is_ok(),
            Command::GiveCoin(sender, recipient, amount) => {
                let ghost t = touch_seq(s, *sender);
                proof { lemma_seen_lookup(s, *sender); }
                let st = self.standing(sender);
                if sender.id == recipient.id {
                    now >= st.last_trick && trick_numbers_fit(&st, *amount)
                } else if st.coins < *amount {
                    true
                } else if recipient.id == BOT_ID {
                    proof {
                        lemma_touch(s, *sender);
                        lemma_seen_lookup(t, *sender);
                    }
                    assert(coins_of(t, BOT_ID) == coins_of(s, BOT_ID));
                    self.invest_fits_now(sender, *amount, now)
                } else {
                    let rc = self.standing(recipient);
                    assert(record_or_fresh(t, *recipient) == record_or_fresh(s, *recipient));
                    let c = st.coins as i128 - *amount as i128;
                    let d = rc.coins as i128 + *amount as i128;
                    c <= 0x7fff_ffff_ffff_ffff && -0x8000_0000_0000_0000 <= d && d <= 0x7fff_ffff_ffff_ffff
                }
            },
            Command::Invest(user, amount) => self.invest_fits_now(user, *amount, now),
            Command::Arena(user, words) => {
                let ghost input = string_views(words@);
                proof { lemma_seen_lookup(s, *user); }
                let st = self.standing(user);
                let asks = words.len() > 2 && to_lowercase(words[2].as_str()) == String::from_str("train");
                proof {
                    if words@.len() > 2 {
                        assert(input[2] == words@[2]@);
                    }
                }
                if asks {
                    if words.len() > 3 {
                        assert(input[3] == words@[3]@);
                        match parse_i64(words[3].as_str()) {
                            Some(a) => {
                                if 0 <= a && a <= st.coins {
                                    let t = st.xp as i128 + a as i128;
                                    let fits_xp = -0x8000_0000_0000_0000 <= t && t <= 0x7fff_ffff_ffff_ffff;
                                    let fits = fits_xp && (t < 100 || st.level as i128 + t / 100 <= 0x7fff_ffff_ffff_ffff);
                                    assert(fits == xp_gain_fits(st.xp as int, st.level as int, a as int));
                                    fits
                                } else {
                                    true
                                }
                            },
                            None => true,
                        }
                    } else {
                        true
                    }
                } else {
                    -100 < st.xp && st.xp < 200
                }
            },
            Command::Trick(user, amount) => {
                proof { lemma_seen_lookup(s, *user); }
                let st = self.standing(user);
                now >= st.last_trick && trick_numbers_fit(&st, *amount)
            },
            Command::UpdateCoins => now >= self.time_of_last_interest,
            Command::NoCommand => false,
            _ => true,
        }
    }
}

impl<M> Server<M> {
    /// Runs a command at time `now` if the records, the clock and the bars
    /// it draws allow it (see `command_fits`); `None`, with nothing changed,
    /// where they do not.
    pub fn run_command_checked<F: Fn(Measure) -> i64>(&mut self, command: Command<M>, now: u64, measure: &F) -> (r: Option<Step<M>>)
        requires
            old(self).wf(),
            forall|q: Measure| measure.requires((q,)),
            caps_from_hundred(*measure),
        ensures
            r is None <==> !(record_ready(*old(self), command, now) && bars_drawable(*old(self), command)),
            r is None ==> *final(self) == *old(self),
            r is Some ==> command_post(*old(self), *final(self), command, now, *measure, r.unwrap()),
    {
        if !self.command_fits(&command, now) {
            return None;
        }
        proof {
            lemma_fits_is_ready(*self, command, now, *measure);
        }
        Some(self.run_command(command, now, measure))
    }
}

/// A command whose records, clock and bars fit, given to an application
/// whose caps are a hundred or more and whose measure is defined
/// everywhere, meets what `run_command` needs.
pub proof fn lemma_fits_is_ready<M, F: Fn(Measure) -> i64>(before: Server<M>, command: Command<M>, now: u64, measure: F)
    requires
        before.wf(),
        forall|q: Measure| measure.requires((q,)),
        caps_from_hundred(measure),
        record_ready(before, command, now),
        bars_drawable(before, command),
    ensures
        command_ready(before, command, now, measure),
{
    let s = before.users@;
    match command {
        Command::CoinCount(user) => {
            assert(countable(s, user, measure)) by {
                if let Some(u) = lookup(s, user.id) {
                    assert(record_or_fresh(s, user) == u);
                    if u.has_trained() {
                        assert forall|cap: i64| #[trigger] measure.ensures((Measure::XpCap { level: u.level },), cap)
                            implies u.bar_drawable(cap as int) by {
                            lemma_bar_safe(u, cap as int);
                        }
                    }
                }
            }
        },
        Command::CoinCountMultiple(users) => {
            assert forall|k: int| 0 <= k < users@.len() implies countable(s, #[trigger] users@[k], measure) by {
                let b = users@[k];
                if let Some(u) = lookup(s, b.id) {
                    assert(record_or_fresh(s, b) == u);
                    if u.has_trained() {
                        assert forall|cap: i64| #[trigger] measure.ensures((Measure::XpCap { level: u.level },), cap)
                            implies u.bar_drawable(cap as int) by {
                            lemma_bar_safe(u, cap as int);
                        }
                    }
                }
            }
        },
        Command::Arena(user, words) => {
            lemma_seen_lookup(s, user);
            let u = lookup(with_user(s, user), user.id).unwrap();
            if !asks_training(string_views(words@)) {
                assert forall|cap: i64| #[trigger] measure.ensures((Measure::XpCap { level: u.level },), cap)
                    implies u.bar_drawable(cap as int) by {
                    lemma_bar_safe(u, cap as int);
                }
                assert(intro_ready(u, measure));
            }
        },
        Command::Trick(user, amount) => {},
        _ => {},
    }
}

} // verus!
