//! The games: coin tricks, the arena, and the CowardCoin Bank.

use vstd::prelude::*;
use crate::bot_user::BotUser;
use crate::chance::random_between;
use crate::commands::Measure;
use crate::environment::{MARKET_CHANGE_TIMER, BOT_ID, INVESTMENT_TIMER, NANOS_PER_SECOND, TIME_BETWEEN_TRICKS};
use crate::flavor::{
    distractions, hazards, is_crowd, is_opening, is_outcome, pick_distractions, pick_hazards,
    pick_thrown_items, thrown_items, trick_crowd, trick_opening, trick_outcome,
};
use crate::server::{
    Server, has_user, index_of_user, touch_seq, renamed, lemma_index_of_user, lemma_lookup_update, lemma_touch, lookup, with_user,
    record_or_fresh, total_coins, lemma_total_touch, lemma_total_with_user, lemma_total_coins_update,
};
use crate::text::{decimal, tdiv, lowercase_of, to_lowercase, parse_i64, parse_i64_spec, string_views, duration_text, int_text, plural, s_if, seconds_to_string};
use crate::user::{CoinUser, title_view, xp_gain_fits, after_xp};
use crate::flavor::{pick_training_places, training_places};
use crate::commands::{save_error_view, save_error_message};

verus! {

/// How well a coin trick went, from the style points it scored.
#[derive(PartialEq, Eq, Structural, Clone, Copy, Debug)]
pub enum TrickState {
    ERR,
    FAIL,
    BAD,
    GOOD,
    CRIT,
}

/// How a trick with the given style points went: outside 0 to 100 it
/// glitches, from 85 it is brilliant, above 60 good, from 20 bad, and
/// below that a failure.
pub open spec fn trick_state_of(value: int) -> TrickState {
    if value > 100 || value < 0 {
        TrickState::ERR
    } else if value >= 85 {
        TrickState::CRIT
    } else if value > 60 {
        TrickState::GOOD
    } else if value >= 20 {
        TrickState::BAD
    } else {
        TrickState::FAIL
    }
}

impl From<i64> for TrickState {
    fn from(value: i64) -> (r: Self) {
        if value > 100 || value < 0 {
            TrickState::ERR
        } else if value >= 85 {
            TrickState::CRIT
        } else if value > 60 {
            TrickState::GOOD
        } else if value >= 20 {
            TrickState::BAD
        } else {
            TrickState::FAIL
        }
    }
}

impl vstd::std_specs::convert::FromSpecImpl<i64> for TrickState {
    open spec fn obeys_from_spec() -> bool {
        true
    }

    open spec fn from_spec(v: i64) -> Self {
        trick_state_of(v as int)
    }
}


/// The member's coins after a trick that went as `state`: a failure costs
/// the stake and a brilliant trick doubles it back; other tricks leave the
/// coins alone.
pub open spec fn coins_after_trick(state: TrickState, coins: int, amount: int) -> int {
    match state {
        TrickState::FAIL => coins - amount,
        TrickState::CRIT => coins + amount,
        _ => coins,
    }
}

/// The member's record after a trick scored `points` at time `now`.
pub open spec fn after_trick(u: CoinUser, amount: int, now: u64, points: int) -> CoinUser {
    CoinUser {
        style_points: (u.style_points + points) as i64,
        time_of_last_trick: now,
        coins: coins_after_trick(trick_state_of(points), u.coins as int, amount) as i64,
        ..u
    }
}

/// The line about coins won or lost.
pub open spec fn trick_coin_line(state: TrickState, amount: int, coins: int) -> Seq<char> {
    match state {
        TrickState::FAIL => "You lose "@ + decimal(amount) + " coin"@ + plural(amount) + "...\nYou now have "@
            + decimal(coins) + " coins.\n"@,
        TrickState::CRIT => "You gain "@ + decimal(amount) + " coin"@ + plural(amount) + "!!\nYou now have "@
            + decimal(coins) + " coins.\n"@,
        _ => Seq::empty(),
    }
}

/// The story of a trick.
pub open spec fn trick_view(opening: Seq<char>, outcome: Seq<char>, crowd: Seq<char>, line: Seq<char>, points: int) -> Seq<char> {
    "You "@ + opening + ", and "@ + outcome + "\n"@ + crowd + "\n"@ + line + "You gained "@ + decimal(points)
        + " StylePoints™."@
}

/// The reply to a member with no coins.
pub open spec fn no_coins_view() -> Seq<char> {
    "You need to have at least 1 coin to do a trick."@
}

/// The reply to a member too low in level for the stake.
pub open spec fn too_weak_view(required: int) -> Seq<char> {
    "You aren't powerful enough for a trick as dangerous as that!\nTry getting to level "@ + decimal(required)
        + " in the **COIN ARENA** first..."@
}

/// The reply to a member still resting, with the whole seconds left.
pub open spec fn resting_view(seconds: int) -> Seq<char> {
    "You're too weak after your last trick! Try again in "@ + duration_text(seconds) + "."@
}

/// The style points a stake may score: none for a stake of nothing, and
/// from 1 to 99 otherwise.
pub open spec fn points_allowed(amount: int, points: int) -> bool {
    if amount == 0 { points == 0 } else { 1 <= points < 100 }
}

/// Whether a trick's arithmetic stays in range whatever it scores.
pub open spec fn trick_fits(u: CoinUser, amount: int) -> bool {
    &&& u.style_points + 99 <= i64::MAX
    &&& i64::MIN <= u.coins - amount <= i64::MAX
    &&& i64::MIN <= u.coins + amount <= i64::MAX
}

/// Whether a flavour is one the story of a trick that scored `points` may
/// be told with.
pub open spec fn flavour_fits(points: int, opening: Seq<char>, outcome: Seq<char>, crowd: Seq<char>) -> bool {
    exists|d: Seq<char>, h: Seq<char>, x: Seq<char>|
        #![trigger distractions().contains(d), hazards().contains(h), thrown_items().contains(x)]
        distractions().contains(d) && hazards().contains(h) && thrown_items().contains(x)
            && is_opening(opening) && is_outcome(trick_state_of(points), d, h, outcome)
            && is_crowd(trick_state_of(points), x, crowd)
}

/// What a trick at time `now` needs: the clock no earlier than the
/// member's last trick, and room in the integers for whatever it scores.
pub open spec fn trick_ready<M, F: Fn(Measure) -> i64>(before: Server<M>, user: BotUser, amount: i64, now: u64, measure: F) -> bool {
    &&& before.wf()
    &&& forall|q: Measure| measure.requires((q,))
    &&& trick_ready_users(before.users@, user, amount, now)
}

/// What a trick needs of the records.
pub open spec fn trick_ready_users(s: Seq<CoinUser>, user: BotUser, amount: i64, now: u64) -> bool {
    let u = lookup(with_user(s, user), user.id).unwrap();
    &&& now >= u.time_of_last_trick
    &&& trick_fits(u, amount as int)
}

/// What a trick at time `now` does (see `Server::trick`).
pub open spec fn trick_post<M, F: Fn(Measure) -> i64>(
    before: Server<M>,
    after: Server<M>,
    user: BotUser,
    amount: i64,
    now: u64,
    measure: F,
    reply: Seq<char>,
) -> bool {
    &&& after.wf()
    &&& after.coin == before.coin
    &&& after.coin_message == before.coin_message
    &&& after.time_of_last_interest == before.time_of_last_interest
    &&& trick_post_users(before.users@, after.users@, user, amount, now, measure, reply)
}

/// What a trick does to the records, and its reply.
pub open spec fn trick_post_users<F: Fn(Measure) -> i64>(
    before: Seq<CoinUser>,
    after: Seq<CoinUser>,
    user: BotUser,
    amount: i64,
    now: u64,
    measure: F,
    reply: Seq<char>,
) -> bool {
    let s1 = with_user(before, user);
    let i = index_of_user(s1, user.id);
    let u = s1[i];
    if u.coins == 0 {
        after == s1 && reply == no_coins_view()
    } else {
        exists|req: i64| {
            &&& #[trigger] measure.ensures((Measure::RequiredLevel { amount, coins: u.coins },), req)
            &&& if u.level < req - 1 {
                after == s1 && reply == too_weak_view(req as int)
            } else if now - u.time_of_last_trick < TIME_BETWEEN_TRICKS {
                &&& after == s1
                &&& reply == resting_view((TIME_BETWEEN_TRICKS - (now - u.time_of_last_trick)) / NANOS_PER_SECOND as int)
            } else {
                exists|points: int, opening: Seq<char>, outcome: Seq<char>, crowd: Seq<char>| {
                    &&& points_allowed(amount as int, points)
                    &&& #[trigger] flavour_fits(points, opening, outcome, crowd)
                    &&& after == s1.update(i, after_trick(u, amount as int, now, points))
                    &&& reply == trick_view(opening, outcome, crowd, trick_coin_line(
                        trick_state_of(points),
                        amount as int,
                        coins_after_trick(trick_state_of(points), u.coins as int, amount as int),
                    ), points)
                }
            }
        }
    }
}

impl<M> Server<M> {
    /// Carries out a trick for the member at `idx` that scored `points`,
    /// told with the given flavour.
    pub fn perform_trick(
        &mut self,
        idx: usize,
        amount: i64,
        now: u64,
        points: i64,
        opening: &str,
        outcome: &str,
        crowd: &str,
    ) -> (r: String)
        requires
            old(self).wf(),
            idx < old(self).users@.len(),
            0 <= points < 100,
            trick_fits(old(self).users@[idx as int], amount as int),
        ensures
            final(self).wf(),
            final(self).users@ == old(self).users@.update(
                idx as int,
                after_trick(old(self).users@[idx as int], amount as int, now, points as int),
            ),
            r@ == trick_view(opening@, outcome@, crowd@, trick_coin_line(
                trick_state_of(points as int),
                amount as int,
                coins_after_trick(trick_state_of(points as int), old(self).users@[idx as int].coins as int, amount as int),
            ), points as int),
            final(self).coin == old(self).coin,
            final(self).coin_message == old(self).coin_message,
            final(self).time_of_last_interest == old(self).time_of_last_interest,
    {
        let mut u = self.users.remove(idx);
        let ghost before = u;
        u.style_points = u.style_points + points;
        u.time_of_last_trick = now;
        let state = TrickState::from(points);
        let line = match state {
            TrickState::FAIL => {
                u.coins = u.coins - amount;
                let mut l = String::from_str("You lose ");
                l.append(int_text(amount).as_str());
                l.append(" coin");
                l.append(s_if(amount).as_str());
                l.append("...\nYou now have ");
                l.append(int_text(u.coins).as_str());
                l.append(" coins.\n");
                l
            },
            TrickState::CRIT => {
                u.coins = u.coins + amount;
                let mut l = String::from_str("You gain ");
                l.append(int_text(amount).as_str());
                l.append(" coin");
                l.append(s_if(amount).as_str());
                l.append("!!\nYou now have ");
                l.append(int_text(u.coins).as_str());
                l.append(" coins.\n");
                l
            },
            _ => String::new(),
        };
        assert(u == after_trick(before, amount as int, now, points as int));
        self.users.insert(idx, u);
        proof {
            lemma_lookup_update(old(self).users@, idx as int, u);
        }
        let mut r = String::from_str("You ");
        r.append(opening);
        r.append(", and ");
        r.append(outcome);
        r.append("\n");
        r.append(crowd);
        r.append("\n");
        r.append(line.as_str());
        r.append("You gained ");
        r.append(int_text(points).as_str());
        r.append(" StylePoints™.");
        r
    }

    /// A member stakes `amount` coins on a trick at time `now`.  Members
    /// with no coins cannot play; members whose level is short of what the
    /// stake needs are told the level to reach; members who tricked less
    /// than four hours ago are told how long to rest.  Otherwise the trick
    /// scores random style points, which decide whether the stake is lost,
    /// kept or doubled.
    pub fn trick<F: Fn(Measure) -> i64>(&mut self, user: &BotUser, amount: i64, now: u64, measure: &F) -> (r: String)
        requires
            trick_ready(*old(self), *user, amount, now, *measure),
        ensures
            trick_post(*old(self), *final(self), *user, amount, now, *measure, r@),
    {
        let ghost s0 = self.users@;
        let idx = self.get_mut_user_from_id(user);
        proof {
            lemma_touch(s0, *user);
            lemma_index_of_user(self.users@, user.id, idx as int);
        }
        let coins = self.users[idx].coins;
        if coins == 0 {
            return String::from_str("You need to have at least 1 coin to do a trick.");
        }
        let required = measure(Measure::RequiredLevel { amount, coins });
        let level = self.users[idx].level;
        if (level as i128) < (required as i128) - 1 {
            let mut r = String::from_str(
                "You aren't powerful enough for a trick as dangerous as that!\nTry getting to level ",
            );
            r.append(int_text(required).as_str());
            r.append(" in the **COIN ARENA** first...");
            return r;
        }
        let elapsed = now - self.users[idx].time_of_last_trick;
        if elapsed < TIME_BETWEEN_TRICKS {
            let seconds = ((TIME_BETWEEN_TRICKS - elapsed) / NANOS_PER_SECOND) as i64;
            let mut r = String::from_str("You're too weak after your last trick! Try again in ");
            r.append(seconds_to_string(seconds).as_str());
            r.append(".");
            return r;
        }
        let points: i64 = if amount == 0 { 0 } else { random_between(1, 100) };
        let state = TrickState::from(points);
        let thrown = pick_thrown_items();
        let distraction = pick_distractions();
        let hazard = pick_hazards();
        let opening = trick_opening();
        let outcome = trick_outcome(state, distraction, hazard);
        let crowd = trick_crowd(state, thrown);
        let r = self.perform_trick(idx, amount, now, points, opening.as_str(), outcome.as_str(), crowd.as_str());
        assert(points_allowed(amount as int, points as int));
        assert(flavour_fits(points as int, opening@, outcome@, crowd@));
        r
    }
}


/// A fresh record for the bank: the bot's identifier, no names, nothing
/// held, level one.
pub open spec fn is_fresh_bank(u: CoinUser) -> bool {
    &&& u.id == BOT_ID
    &&& u.nickname is None
    &&& u.display_name@ == Seq::<char>::empty()
    &&& u.coins == 0
    &&& u.style_points == 0
    &&& u.xp == 0
    &&& u.level == 1
    &&& u.time_of_last_trick == 0
    &&& u.time_of_last_investment == 0
}

/// The bank's record before an investment: as on record, or fresh.
pub open spec fn bank_before(s: Seq<CoinUser>, b: CoinUser) -> bool {
    match lookup(s, BOT_ID) {
        Some(u) => b == u,
        None => is_fresh_bank(b),
    }
}

/// The reply to an investment made.
pub open spec fn invested_view(amount: int, user_coins: int, bank_coins: int) -> Seq<char> {
    "You have invested "@ + decimal(amount) + " coin"@ + plural(amount) + " in the CowardCoin Bank™.\nYou now have "@
        + decimal(user_coins) + " coin"@ + plural(user_coins) + ".\nThere are now "@ + decimal(bank_coins)
        + " coin"@ + plural(bank_coins) + " in the CowardCoin Bank™."@
}

/// The reply to an investment that paid dividends.
pub open spec fn dividends_view(d: int) -> Seq<char> {
    "Congratulations! Your investments have paid off! \nYou receive "@ + decimal(d) + " coin"@ + plural(d)
        + " in dividends from the CowardCoin Bank™."@
}

/// The reply to an investment made too soon after the last one.
pub open spec fn market_shifting_view(seconds: int) -> Seq<char> {
    "The stock market's still shifting... You can't make any more investments for another "@
        + duration_text(seconds) + "."@
}

/// Whether an investment's arithmetic stays in range whatever it pays.
pub open spec fn invest_fits(u: CoinUser, bank_coins: int, amount: int) -> bool {
    &&& i64::MIN <= u.coins - amount <= i64::MAX
    &&& i64::MIN <= amount * 5 <= i64::MAX
    &&& i64::MIN <= bank_coins + amount * 5 <= i64::MAX
    &&& i64::MIN <= u.coins - amount + tdiv(bank_coins + amount * 5, 2) <= i64::MAX
}

/// What an investment at time `now` needs: someone other than the bank,
/// the clock no earlier than their last investment, and room in the
/// integers for whatever it pays.
pub open spec fn invest_ready<M>(before: Server<M>, user: BotUser, amount: i64, now: u64) -> bool {
    &&& before.wf()
    &&& invest_ready_users(before.users@, user, amount, now)
}

/// What an investment needs of the records.
pub open spec fn invest_ready_users(s: Seq<CoinUser>, user: BotUser, amount: i64, now: u64) -> bool {
    let u = lookup(with_user(s, user), user.id).unwrap();
    &&& user.id != BOT_ID
    &&& now >= u.time_of_last_investment
    &&& invest_fits(u, crate::commands::coins_of(s, BOT_ID), amount as int)
}

/// What an investment at time `now` does (see `Server::invest`).
pub open spec fn invest_post<M>(before: Server<M>, after: Server<M>, user: BotUser, amount: i64, now: u64, reply: Seq<char>) -> bool {
    &&& after.wf()
    &&& after.coin == before.coin
    &&& after.coin_message == before.coin_message
    &&& after.time_of_last_interest == before.time_of_last_interest
    &&& invest_post_users(before.users@, after.users@, user, amount, now, reply)
}

/// What an investment does to the records, and its reply.
pub open spec fn invest_post_users(before: Seq<CoinUser>, after: Seq<CoinUser>, user: BotUser, amount: i64, now: u64, reply: Seq<char>) -> bool {
    let u = lookup(with_user(before, user), user.id).unwrap();
    let bank0 = crate::commands::coins_of(before, BOT_ID);
    let user_coins = u.coins - amount;
    let bank_coins = bank0 + amount * 5;
    &&& forall|id: u64| id != user.id && id != BOT_ID ==> #[trigger] lookup(after, id)
        == lookup(before, id)
    &&& exists|b: CoinUser| bank_before(before, b)
        && lookup(after, BOT_ID) == Some(CoinUser { coins: bank_coins as i64, ..b })
    &&& if now - u.time_of_last_investment < INVESTMENT_TIMER {
        &&& lookup(after, user.id) == Some(CoinUser { coins: user_coins as i64, ..u })
        &&& reply == market_shifting_view((INVESTMENT_TIMER - (now - u.time_of_last_investment)) / NANOS_PER_SECOND as int)
    } else {
        exists|chance: int| 0 <= chance < 100 && #[trigger] settled_with(chance, after, user, amount, now, u, user_coins, bank_coins, reply)
    }
}

/// The bank pays dividends for a draw of 80 or more (of `0..100`).
pub open spec fn pays_dividends(chance: int) -> bool {
    chance >= 80
}

/// How an investment past the market's wait settles for the draw `chance`:
/// with dividends of half the bank's holdings when it pays them, as a plain
/// investment otherwise; the time of the investment is noted either way.
pub open spec fn settled_with(
    chance: int,
    after: Seq<CoinUser>,
    user: BotUser,
    amount: i64,
    now: u64,
    u: CoinUser,
    user_coins: int,
    bank_coins: int,
    reply: Seq<char>,
) -> bool {
    if pays_dividends(chance) {
        &&& lookup(after, user.id) == Some(CoinUser {
            coins: (user_coins + tdiv(bank_coins, 2)) as i64,
            time_of_last_investment: now,
            ..u
        })
        &&& reply == dividends_view(tdiv(bank_coins, 2))
    } else {
        &&& lookup(after, user.id) == Some(CoinUser {
            coins: user_coins as i64,
            time_of_last_investment: now,
            ..u
        })
        &&& reply == invested_view(amount as int, user_coins, bank_coins)
    }
}

impl<M> Server<M> {
    /// A member puts `amount` coins in the CowardCoin Bank at time `now`:
    /// the stake leaves them and five times it joins the bank.  Within ten
    /// minutes of their last investment that is all, and they are told how
    /// long the market needs; otherwise the time is noted and, one time in
    /// five, the bank pays them half its holdings in dividends.
    pub fn invest(&mut self, user: &BotUser, amount: i64, now: u64) -> (r: String)
        requires
            invest_ready(*old(self), *user, amount, now),
        ensures
            invest_post(*old(self), *final(self), *user, amount, now, r@),
    {
        let ghost s0 = self.users@;
        let bank_user = BotUser::from_id(BOT_ID);
        let (i, b) = self.get_two_mut_users(user, &bank_user);
        let ghost u0 = lookup(with_user(s0, *user), user.id).unwrap();
        proof {
            lemma_touch(s0, *user);
            lemma_index_of_user(self.users@, user.id, i as int);
            lemma_index_of_user(self.users@, BOT_ID, b as int);
            assert(self.users@[i as int] == u0);
        }
        let ghost b0 = self.users@[b as int];
        proof {
            if has_user(s0, BOT_ID) {
                assert(bank_before(s0, b0));
            } else {
                assert(bank_before(s0, b0));
            }
            assert(b0.coins == crate::commands::coins_of(s0, BOT_ID));
        }
        let user_coins = self.users[i].coins - amount;
        self.set_coins(i, user_coins);
        let bank_coins = self.users[b].coins + amount * 5;
        self.set_coins(b, bank_coins);
        let last = self.users[i].time_of_last_investment;
        let elapsed = now - last;
        if elapsed < INVESTMENT_TIMER {
            let seconds = ((INVESTMENT_TIMER - elapsed) / NANOS_PER_SECOND) as i64;
            let mut r = String::from_str(
                "The stock market's still shifting... You can't make any more investments for another ",
            );
            r.append(seconds_to_string(seconds).as_str());
            r.append(".");
            return r;
        }
        self.stamp_investment(i, now);
        let chance = random_between(0, 100);
        let ghost stamped = self.users@;
        let r = self.settle_investment(i, b, amount, chance);
        proof {
            if pays_dividends(chance as int) {
                lemma_lookup_update(stamped, i as int, self.users@[i as int]);
            }
            assert(settled_with(chance as int, self.users@, *user, amount, now, u0, user_coins as int, bank_coins as int, r@));
        }
        r
    }

    /// Settles an investment by the member at `i` in the bank at `b` for the
    /// draw `chance` of `0..100`: from 80 the bank pays the member half its
    /// holdings in dividends (which stay in the bank as well); below that the
    /// investment stands as made.
    pub fn settle_investment(&mut self, i: usize, b: usize, amount: i64, chance: i64) -> (r: String)
        requires
            old(self).wf(),
            i < old(self).users@.len(),
            b < old(self).users@.len(),
            i64::MIN <= old(self).users@[i as int].coins + tdiv(old(self).users@[b as int].coins as int, 2) <= i64::MAX,
        ensures
            final(self).wf(),
            final(self).coin == old(self).coin,
            final(self).coin_message == old(self).coin_message,
            final(self).time_of_last_interest == old(self).time_of_last_interest,
            pays_dividends(chance as int) ==> {
                let d = tdiv(old(self).users@[b as int].coins as int, 2);
                &&& final(self).users@ == old(self).users@.update(
                    i as int,
                    CoinUser { coins: (old(self).users@[i as int].coins + d) as i64, ..old(self).users@[i as int] },
                )
                &&& r@ == dividends_view(d)
            },
            !pays_dividends(chance as int) ==> {
                &&& final(self).users@ == old(self).users@
                &&& r@ == invested_view(
                    amount as int,
                    old(self).users@[i as int].coins as int,
                    old(self).users@[b as int].coins as int,
                )
            },
    {
        if chance >= 80 {
            let diff = self.users[b].coins / 2;
            let new_coins = self.users[i].coins + diff;
            self.set_coins(i, new_coins);
            let mut r = String::from_str("Congratulations! Your investments have paid off! \nYou receive ");
            r.append(int_text(diff).as_str());
            r.append(" coin");
            r.append(s_if(diff).as_str());
            r.append(" in dividends from the CowardCoin Bank™.");
            r
        } else {
            let user_coins = self.users[i].coins;
            let bank_coins = self.users[b].coins;
            let mut r = String::from_str("You have invested ");
            r.append(int_text(amount).as_str());
            r.append(" coin");
            r.append(s_if(amount).as_str());
            r.append(" in the CowardCoin Bank™.\nYou now have ");
            r.append(int_text(user_coins).as_str());
            r.append(" coin");
            r.append(s_if(user_coins).as_str());
            r.append(".\nThere are now ");
            r.append(int_text(bank_coins).as_str());
            r.append(" coin");
            r.append(s_if(bank_coins).as_str());
            r.append(" in the CowardCoin Bank™.");
            r
        }
    }
}


/// The arena's welcome for a member, given the experience cap of their level
/// and the largest trick they can afford.
pub open spec fn intro_view(u: CoinUser, cap: int, allowance: int) -> Seq<char> {
    intro_head_view(u) + intro_bar_view(u, cap) + intro_tail_view(u, allowance)
}

/// The welcome and the member's standing.
pub open spec fn intro_head_view(u: CoinUser) -> Seq<char> {
    "\nWelcome to the **COIN ARENA**!\n\n"@ + title_view(u.level as int) + " "@ + u.shown_name() + " - Lv. "@
        + decimal(u.level as int) + " - "@ + decimal(u.coins as int) + " Coin"@ + plural(u.coins as int)
}

/// The experience bar line.
pub open spec fn intro_bar_view(u: CoinUser, cap: int) -> Seq<char> {
    "\n["@ + u.bar_view(cap) + "] - "@ + decimal(u.xp as int) + "/"@ + decimal(cap)
}

/// How to level up, and the largest trick the member can afford.
pub open spec fn intro_tail_view(u: CoinUser, allowance: int) -> Seq<char> {
    "\nGive "@ + decimal(100 - u.xp) + " more coin"@ + plural(100 - u.xp)
        + " to reach the next level.\nTo train, use `coin arena train [number]`.\n\nYour current strength allows you to perform a **Coin Trick** worth "@
        + decimal(allowance) + " coin"@ + plural(allowance) + ".\n\t"@
}

/// The reply to training that was paid for and saved.
pub open spec fn trained_view(amount: int, place: Seq<char>, response: Seq<char>) -> Seq<char> {
    "You pay "@ + decimal(amount) + " CowardCoin"@ + plural(amount) + " to "@ + place + ". You gain "@
        + decimal(amount) + " XP."@ + response
}

/// The reply to an arena command whose stake is missing or unreadable.
pub open spec fn train_format_view() -> Seq<char> {
    "Please format your message `coin arena train <number>`."@
}

/// What an arena command leads to: a reply at once, or training that is
/// to be saved before it is announced.
pub enum ArenaStep {
    Reply(String),
    Trained { amount: i64, response: String },
}

/// A member's record once they are on record.
pub open spec fn seen_record(s: Seq<CoinUser>, user: BotUser) -> CoinUser {
    lookup(with_user(s, user), user.id).unwrap()
}

/// The step is a reply with the given text.
pub open spec fn replies(r: ArenaStep, t: Seq<char>) -> bool {
    match r {
        ArenaStep::Reply(x) => x@ == t,
        _ => false,
    }
}

/// The step is paid training of `a` with the given response.
pub open spec fn trains(r: ArenaStep, a: i64, response: Seq<char>) -> bool {
    match r {
        ArenaStep::Trained { amount, response: x } => amount == a && x@ == response,
        _ => false,
    }
}

/// What the arena's welcome needs: a drawable bar for every cap the
/// application may give, and room for the experience still to gain.
pub open spec fn intro_ready<F: Fn(Measure) -> i64>(u: CoinUser, measure: F) -> bool {
    &&& forall|cap: i64| #[trigger] measure.ensures((Measure::XpCap { level: u.level },), cap) ==> u.bar_drawable(cap as int)
    &&& 100 - u.xp <= i64::MAX
}

/// The member's record after paying `amount` for training.
pub open spec fn after_training(u: CoinUser, amount: int) -> CoinUser {
    CoinUser {
        coins: (u.coins - amount) as i64,
        xp: after_xp(u.xp as int, u.level as int, amount).0 as i64,
        level: after_xp(u.xp as int, u.level as int, amount).1 as i64,
        ..u
    }
}

/// The response to gaining a level.
pub open spec fn level_up_view(before: CoinUser, after: CoinUser) -> Seq<char> {
    if after.level > before.level {
        "\nYou are now Level "@ + decimal(after.level as int) + "!"@
    } else {
        Seq::empty()
    }
}

/// Whether the words ask to train: a third word that reads `train` in
/// lower case.
pub open spec fn asks_training(input: Seq<Seq<char>>) -> bool {
    input.len() > 2 && lowercase_of(input[2]) == "train"@
}

/// What an arena command needs: whatever stake it names fits, and the
/// welcome can be drawn.
pub open spec fn arena_ready<M, F: Fn(Measure) -> i64>(before: Server<M>, user: BotUser, input: Seq<Seq<char>>, measure: F) -> bool {
    let u = lookup(with_user(before.users@, user), user.id).unwrap();
    &&& before.wf()
    &&& forall|q: Measure| measure.requires((q,))
    &&& asks_training(input) && input.len() > 3 ==> (forall|a: i64|
        parse_i64_spec(input[3]) == Some(a) && 0 <= a <= u.coins ==> #[trigger] xp_gain_fits(u.xp as int, u.level as int, a as int))
    &&& !asks_training(input) ==> intro_ready(u, measure)
}

/// What an arena command does (see `Server::arena`).
pub open spec fn arena_post<M, F: Fn(Measure) -> i64>(
    before: Server<M>,
    after: Server<M>,
    user: BotUser,
    input: Seq<Seq<char>>,
    measure: F,
    r: ArenaStep,
) -> bool {
    let s1 = with_user(before.users@, user);
    let i = index_of_user(s1, user.id);
    let u = s1[i];
    &&& after.wf()
    &&& after.coin == before.coin
    &&& after.coin_message == before.coin_message
    &&& after.time_of_last_interest == before.time_of_last_interest
    &&& if !asks_training(input) {
        exists|cap: i64, allowance: i64| {
            &&& #[trigger] measure.ensures((Measure::XpCap { level: u.level },), cap)
            &&& #[trigger] measure.ensures((Measure::TrickAllowance { coins: u.coins, level: u.level },), allowance)
            &&& after.users@ == touch_seq(before.users@, user)
            &&& replies(r, intro_view(renamed(u, user), cap as int, allowance as int))
        }
    } else if input.len() <= 3 || parse_i64_spec(input[3]) is None {
        after.users@ == s1 && replies(r, train_format_view())
    } else {
        let a = parse_i64_spec(input[3]).unwrap();
        if a > u.coins {
            after.users@ == s1 && replies(r, "You can't afford to train _that_ hard in the arena."@)
        } else if a < 0 {
            after.users@ == s1 && replies(r, "Nice try..."@)
        } else {
            &&& after.users@ == s1.update(i, after_training(u, a as int))
            &&& trains(r, a, level_up_view(u, after_training(u, a as int)))
        }
    }
}

impl<M> Server<M> {
    fn intro_head(u: &CoinUser) -> (r: String)
        ensures
            r@ == intro_head_view(*u),
    {
        let mut r = String::from_str("\nWelcome to the **COIN ARENA**!\n\n");
        r.append(u.arena_title().as_str());
        r.append(" ");
        r.append(u.shown_name_text().as_str());
        r.append(" - Lv. ");
        r.append(int_text(u.level).as_str());
        r.append(" - ");
        r.append(int_text(u.coins).as_str());
        r.append(" Coin");
        r.append(s_if(u.coins).as_str());
        r
    }

    fn intro_bar(u: &CoinUser, cap: i64) -> (r: String)
        requires
            u.bar_drawable(cap as int),
        ensures
            r@ == intro_bar_view(*u, cap as int),
    {
        let mut r = String::from_str("\n[");
        r.append(u.xp_bar(cap).as_str());
        r.append("] - ");
        r.append(int_text(u.xp).as_str());
        r.append("/");
        r.append(int_text(cap).as_str());
        r
    }

    fn intro_tail(u: &CoinUser, allowance: i64) -> (r: String)
        requires
            100 - u.xp <= i64::MAX,
        ensures
            r@ == intro_tail_view(*u, allowance as int),
    {
        let rest = 100 - u.xp;
        let mut r = String::from_str("\nGive ");
        r.append(int_text(rest).as_str());
        r.append(" more coin");
        r.append(s_if(rest).as_str());
        r.append(" to reach the next level.\nTo train, use `coin arena train [number]`.\n\nYour current strength allows you to perform a **Coin Trick** worth ");
        r.append(int_text(allowance).as_str());
        r.append(" coin");
        r.append(s_if(allowance).as_str());
        r.append(".\n\t");
        r
    }

    /// The arena's welcome for a member (who is seen, and added if new),
    /// with the given experience cap and trick allowance.
    pub fn arena_intro_with(&mut self, user: &BotUser, cap: i64, allowance: i64) -> (r: String)
        requires
            old(self).wf(),
            ({
                let u = lookup(with_user(old(self).users@, *user), user.id).unwrap();
                &&& u.bar_drawable(cap as int)
                &&& 100 - u.xp <= i64::MAX
            }),
        ensures
            final(self).wf(),
            final(self).users@ == touch_seq(old(self).users@, *user),
            r@ == intro_view(lookup(touch_seq(old(self).users@, *user), user.id).unwrap(), cap as int, allowance as int),
            final(self).coin == old(self).coin,
            final(self).coin_message == old(self).coin_message,
            final(self).time_of_last_interest == old(self).time_of_last_interest,
    {
        let ghost s0 = self.users@;
        let idx = self.get_user_from_id(user);
        proof {
            lemma_touch(s0, *user);
            lemma_index_of_user(self.users@, user.id, idx as int);
        }
        let u = &self.users[idx];
        let mut r = Self::intro_head(u);
        r.append(Self::intro_bar(u, cap).as_str());
        r.append(Self::intro_tail(u, allowance).as_str());
        r
    }

    /// The arena's welcome for a member, with the cap and allowance the
    /// application computes for them.
    pub fn arena_intro<F: Fn(Measure) -> i64>(&mut self, user: &BotUser, measure: &F) -> (r: String)
        requires
            old(self).wf(),
            forall|q: Measure| measure.requires((q,)),
            intro_ready(lookup(with_user(old(self).users@, *user), user.id).unwrap(), *measure),
        ensures
            final(self).wf(),
            final(self).users@ == touch_seq(old(self).users@, *user),
            exists|cap: i64, allowance: i64| {
                &&& #[trigger] measure.ensures((Measure::XpCap { level: seen_record(old(self).users@, *user).level },), cap)
                &&& #[trigger] measure.ensures((Measure::TrickAllowance {
                    coins: seen_record(old(self).users@, *user).coins,
                    level: seen_record(old(self).users@, *user).level,
                },), allowance)
                &&& r@ == intro_view(lookup(touch_seq(old(self).users@, *user), user.id).unwrap(), cap as int, allowance as int)
            },
            final(self).coin == old(self).coin,
            final(self).coin_message == old(self).coin_message,
            final(self).time_of_last_interest == old(self).time_of_last_interest,
    {
        let ghost s0 = self.users@;
        proof { lemma_touch(s0, *user); }
        let (level, coins) = match self.find_user(user.id) {
            Ok(i) => {
                proof { lemma_index_of_user(s0, user.id, i as int); }
                (self.users[i].level, self.users[i].coins)
            },
            Err(_) => (1, 0),
        };
        assert(level == seen_record(s0, *user).level && coins == seen_record(s0, *user).coins);
        let cap = measure(Measure::XpCap { level });
        let allowance = measure(Measure::TrickAllowance { coins, level });
        self.arena_intro_with(user, cap, allowance)
    }

    /// An arena command from the words of a message: `coin arena train N`
    /// pays N coins for N experience; anything else shows the welcome.
    pub fn arena<F: Fn(Measure) -> i64>(&mut self, user: &BotUser, input: Vec<String>, measure: &F) -> (r: ArenaStep)
        requires
            arena_ready(*old(self), *user, string_views(input@), *measure),
        ensures
            arena_post(*old(self), *final(self), *user, string_views(input@), *measure, r),
    {
        let ghost s0 = self.users@;
        let ghost words = string_views(input@);
        let idx = self.get_mut_user_from_id(user);
        proof {
            lemma_touch(s0, *user);
            lemma_index_of_user(self.users@, user.id, idx as int);
        }
        if input.len() > 2 {
            let command = to_lowercase(input[2].as_str());
            assert(input@[2]@ == words[2]);
            if command == String::from_str("train") {
                if input.len() > 3 {
                    assert(input@[3]@ == words[3]);
                    match parse_i64(input[3].as_str()) {
                        Some(amount) => {
                            let coins = self.users[idx].coins;
                            if amount > coins {
                                return ArenaStep::Reply(
                                    String::from_str("You can't afford to train _that_ hard in the arena."),
                                );
                            } else if amount < 0 {
                                return ArenaStep::Reply(String::from_str("Nice try..."));
                            } else {
                                let ghost u0 = self.users@[idx as int];
                                let mut u = self.users.remove(idx);
                                u.coins = coins - amount;
                                let response = u.add_xp_with_response(amount);
                                assert(u == after_training(u0, amount as int));
                                self.users.insert(idx, u);
                                assert(self.users@ =~= with_user(s0, *user).update(idx as int, u));
                                proof {
                                    crate::server::lemma_lookup_update(with_user(s0, *user), idx as int, u);
                                }
                                return ArenaStep::Trained { amount, response };
                            }
                        },
                        None => {
                            return ArenaStep::Reply(
                                String::from_str("Please format your message `coin arena train <number>`."),
                            );
                        },
                    }
                } else {
                    return ArenaStep::Reply(
                        String::from_str("Please format your message `coin arena train <number>`."),
                    );
                }
            }
        }
        let ghost s1 = self.users@;
        let t = self.arena_intro(user, measure);
        assert(touch_seq(s1, *user) == touch_seq(s0, *user)) by {
            let i = index_of_user(s1, user.id);
            lemma_index_of_user(s1, user.id, idx as int);
            if has_user(s0, user.id) {
                let k = index_of_user(s0, user.id);
                lemma_index_of_user(s0, user.id, k);
            } else {
                crate::server::lemma_insertion_point_exists(s0, user.id);
            }
        }
        ArenaStep::Reply(t)
    }

    /// Announces paid training once the save is done, or reports the save's
    /// failure.
    pub fn finish_training(amount: i64, response: &str, saved: Result<(), String>) -> (r: String)
        ensures
            saved is Ok ==> exists|place: Seq<char>| #[trigger] training_places().contains(place)
                && r@ == trained_view(amount as int, place, response@),
            saved is Err ==> r@ == save_error_view(saved->Err_0@),
    {
        match saved {
            Err(why) => save_error_message(why.as_str()),
            Ok(()) => {
                let place = pick_training_places();
                let mut r = String::from_str("You pay ");
                r.append(int_text(amount).as_str());
                r.append(" CowardCoin");
                r.append(s_if(amount).as_str());
                r.append(" to ");
                r.append(place);
                r.append(". You gain ");
                r.append(int_text(amount).as_str());
                r.append(" XP.");
                r.append(response);
                r
            },
        }
    }
}


/// The reply to a gift from one member to another.
pub open spec fn gave_view(amount: int, name: Seq<char>, sender_coins: int, recipient_coins: int) -> Seq<char> {
    "You gave "@ + decimal(amount) + " coin"@ + plural(amount) + " to "@ + name + "!\nYou now have "@
        + decimal(sender_coins) + " coin"@ + plural(sender_coins) + ".\n"@ + name + " now has "@
        + decimal(recipient_coins) + " coin"@ + plural(recipient_coins) + "."@
}

/// The reply to a gift larger than the giver's holdings.
pub open spec fn cannot_afford_view() -> Seq<char> {
    "You can't afford to give that many coins!"@
}

/// What a gift needs of the records once the giver is seen: if they can
/// afford it, either what an investment needs (a gift to the bank) or room
/// in the integers for both new holdings.
pub open spec fn gift_ready_users(s: Seq<CoinUser>, sender: BotUser, recipient: BotUser, amount: i64, now: u64) -> bool {
    let u = lookup(s, sender.id).unwrap();
    u.coins >= amount ==> if recipient.id == BOT_ID {
        invest_ready_users(s, sender, amount, now)
    } else {
        &&& u.coins - amount <= i64::MAX
        &&& i64::MIN <= record_or_fresh(s, recipient).coins + amount <= i64::MAX
    }
}

/// What a gift of `amount` coins at time `now` needs: a gift to oneself is
/// a trick, and needs what a trick needs.
pub open spec fn give_ready<M, F: Fn(Measure) -> i64>(
    before: Server<M>,
    sender: BotUser,
    recipient: BotUser,
    amount: i64,
    now: u64,
    measure: F,
) -> bool {
    &&& before.wf()
    &&& forall|q: Measure| measure.requires((q,))
    &&& if sender.id == recipient.id {
        trick_ready_users(before.users@, sender, amount, now)
    } else {
        gift_ready_users(touch_seq(before.users@, sender), sender, recipient, amount, now)
    }
}

/// What a gift between two members does to the records (in which the giver
/// is on record), and its reply: the coins leave the giver and reach the
/// recipient, who is added if new, and nobody else changes.
pub open spec fn transfer_post_users(
    s: Seq<CoinUser>,
    after: Seq<CoinUser>,
    sender: BotUser,
    recipient: BotUser,
    amount: int,
    reply: Seq<char>,
) -> bool {
    let u = lookup(s, sender.id).unwrap();
    let v = record_or_fresh(s, recipient);
    &&& forall|id: u64| id != sender.id && id != recipient.id ==> #[trigger] lookup(after, id) == lookup(s, id)
    &&& lookup(after, sender.id) == Some(CoinUser { coins: (u.coins - amount) as i64, ..u })
    &&& lookup(after, recipient.id) == Some(CoinUser { coins: (v.coins + amount) as i64, ..v })
    &&& reply == gave_view(amount, v.shown_name(), u.coins - amount, v.coins + amount)
}

/// What a gift does (see `Server::give_coin`).
pub open spec fn give_post<M, F: Fn(Measure) -> i64>(
    before: Server<M>,
    after: Server<M>,
    sender: BotUser,
    recipient: BotUser,
    amount: i64,
    now: u64,
    measure: F,
    reply: Seq<char>,
) -> bool {
    if sender.id == recipient.id {
        trick_post(before, after, sender, amount, now, measure, reply)
    } else {
        let s1 = touch_seq(before.users@, sender);
        let u = lookup(s1, sender.id).unwrap();
        &&& after.wf()
        &&& after.coin == before.coin
        &&& after.coin_message == before.coin_message
        &&& after.time_of_last_interest == before.time_of_last_interest
        &&& if u.coins < amount {
            after.users@ == s1 && reply == cannot_afford_view()
        } else if recipient.id == BOT_ID {
            invest_post_users(s1, after.users@, sender, amount, now, reply)
        } else {
            &&& transfer_post_users(s1, after.users@, sender, recipient, amount as int, reply)
            &&& total_coins(after.users@) == total_coins(before.users@)
        }
    }
}

impl<M> Server<M> {
    /// Moves `amount` coins from one member on record to another.
    fn transfer(&mut self, sender: &BotUser, recipient: &BotUser, amount: i64) -> (r: String)
        requires
            old(self).wf(),
            sender.id != recipient.id,
            has_user(old(self).users@, sender.id),
            lookup(old(self).users@, sender.id).unwrap().coins - amount <= i64::MAX,
            lookup(old(self).users@, sender.id).unwrap().coins >= amount,
            i64::MIN <= record_or_fresh(old(self).users@, *recipient).coins + amount <= i64::MAX,
        ensures
            final(self).wf(),
            transfer_post_users(old(self).users@, final(self).users@, *sender, *recipient, amount as int, r@),
            total_coins(final(self).users@) == total_coins(old(self).users@),
            final(self).coin == old(self).coin,
            final(self).coin_message == old(self).coin_message,
            final(self).time_of_last_interest == old(self).time_of_last_interest,
    {
        let ghost s0 = self.users@;
        let (i, j) = self.get_two_mut_users(sender, recipient);
        let ghost s1 = self.users@;
        proof {
            let k = index_of_user(s0, sender.id);
            lemma_index_of_user(s0, sender.id, k);
            assert(with_user(s0, *sender) == s0);
            lemma_total_with_user(s0, *recipient);
            lemma_index_of_user(s1, sender.id, i as int);
            lemma_index_of_user(s1, recipient.id, j as int);
            if has_user(s0, recipient.id) {
                let m = index_of_user(s0, recipient.id);
                lemma_index_of_user(s0, recipient.id, m);
            }
            assert(s1[j as int] == record_or_fresh(s0, *recipient));
            assert(s1[i as int] == lookup(s0, sender.id).unwrap());
        }
        let sender_coins = self.users[i].coins - amount;
        let recipient_coins = self.users[j].coins + amount;
        self.set_coins(i, sender_coins);
        let ghost s2 = self.users@;
        self.set_coins(j, recipient_coins);
        proof {
            lemma_total_coins_update(s1, i as int, CoinUser { coins: sender_coins, ..s1[i as int] });
            lemma_total_coins_update(s2, j as int, CoinUser { coins: recipient_coins, ..s2[j as int] });
        }
        let name = self.users[j].shown_name_text();
        let mut r = String::from_str("You gave ");
        r.append(int_text(amount).as_str());
        r.append(" coin");
        r.append(s_if(amount).as_str());
        r.append(" to ");
        r.append(name.as_str());
        r.append("!\nYou now have ");
        r.append(int_text(sender_coins).as_str());
        r.append(" coin");
        r.append(s_if(sender_coins).as_str());
        r.append(".\n");
        r.append(name.as_str());
        r.append(" now has ");
        r.append(int_text(recipient_coins).as_str());
        r.append(" coin");
        r.append(s_if(recipient_coins).as_str());
        r.append(".");
        r
    }

    /// One member gives `amount` coins to another at time `now`.  A gift to
    /// oneself is a trick; a giver who cannot afford it is told so; a gift
    /// to the bank is an investment; otherwise the coins change hands.
    pub fn give_coin<F: Fn(Measure) -> i64>(
        &mut self,
        sender: &BotUser,
        recipient: &BotUser,
        amount: i64,
        now: u64,
        measure: &F,
    ) -> (r: String)
        requires
            give_ready(*old(self), *sender, *recipient, amount, now, *measure),
        ensures
            give_post(*old(self), *final(self), *sender, *recipient, amount, now, *measure, r@),
    {
        if sender.id == recipient.id {
            return self.trick(sender, amount, now, measure);
        }
        let ghost s0 = self.users@;
        let idx = self.get_user_from_id(sender);
        proof {
            lemma_touch(s0, *sender);
            lemma_total_touch(s0, *sender);
            lemma_index_of_user(self.users@, sender.id, idx as int);
        }
        if self.users[idx].coins < amount {
            return String::from_str("You can't afford to give that many coins!");
        }
        if recipient.id == BOT_ID {
            return self.invest(sender, amount, now);
        }
        self.transfer(sender, recipient, amount)
    }
}

} // verus!
