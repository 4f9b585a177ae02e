//! Running the commands the chat sends: each command changes the server's
//! state and says what to reply and what to do with the coin's
//! announcement.  Commands that must be saved before they are announced
//! come back as pending work, finished once the application has saved.

use vstd::prelude::*;
use crate::bot_user::BotUser;
use crate::coin::{Coin, escape_endings, runner_faces};
use crate::commands::{CoinClaim, Measure, caps_given, claim_view, coins_of, count_run, countable, board_lines, is_ranking, save_error_view};
use crate::communication::Command;
use crate::flavor::training_places;
use crate::games::{
    ArenaStep, arena_post, arena_ready, give_post, give_ready, invest_post, invest_ready, trained_view, trick_post, trick_ready,
};
use crate::rarity::{Rarity, rarity_for_draw};
use crate::server::{Server, has_user, index_of_user, lookup, touch_seq, with_user};
use crate::text::{join_view, string_views};
use crate::user::CoinUser;
use crate::environment::{BOT_ID, MARKET_CHANGE_TIMER};

verus! {

/// What the application does with the message that announced the coin.
pub enum Announcement<M> {
    /// Leave it as it is.
    Keep,
    /// Delete this message, which the server no longer holds.
    Delete(M),
    /// Delete the message the server still holds.
    DeleteStored,
    /// Replace the text of this message, which the server no longer holds.
    Edit(M, String),
}

/// What a command leads to: an optional reply, and what becomes of the
/// announcement.
pub struct Outcome<M> {
    pub reply: Option<String>,
    pub announcement: Announcement<M>,
}

/// Work that waits for the records to be saved.
pub enum Pending {
    /// A coin claimed (see `Server::claim_coin`).
    Claim(CoinClaim),
    /// Training paid for in the arena, with the level-up response.
    Training { amount: i64, response: String },
}

/// What running a command leads to: an outcome at once, or work to finish
/// once the records are saved.
pub enum Step<M> {
    Done(Outcome<M>),
    Save(Pending),
}

/// The step is an outcome with no reply that leaves the announcement.
pub open spec fn is_silent<M>(r: Step<M>) -> bool {
    r matches Step::Done(o) && o.reply is None && o.announcement is Keep
}

/// The step is an outcome with a reply that leaves the announcement.
pub open spec fn answers<M>(r: Step<M>) -> bool {
    r matches Step::Done(o) && o.reply is Some && o.announcement is Keep
}

/// The text of the step's reply, if it has one.
pub open spec fn reply_text<M>(r: Step<M>) -> Seq<char> {
    match r {
        Step::Done(o) => match o.reply {
            Some(t) => t@,
            None => Seq::empty(),
        },
        _ => Seq::empty(),
    }
}

/// What running a command at time `now` needs: well-formed records, a
/// measure defined everywhere, and what the command's own operation needs.
/// `NoCommand` is never run.
pub open spec fn command_ready<M, F: Fn(Measure) -> i64>(before: Server<M>, command: Command<M>, now: u64, measure: F) -> bool {
    &&& before.wf()
    &&& forall|q: Measure| measure.requires((q,))
    &&& match command {
        Command::GetCoin(user) => before.coin.rarity != Rarity::NONE
            ==> i64::MIN <= coins_of(before.users@, user.id) + before.coin.value <= i64::MAX,
        Command::CoinCount(user) => countable(before.users@, user, measure),
        Command::CoinCountMultiple(users) => forall|k: int|
            0 <= k < users@.len() ==> countable(before.users@, #[trigger] users@[k], measure),
        Command::CoinLeaderboard(user) => has_user(before.users@, user.id),
        Command::GiveCoin(sender, recipient, amount) => give_ready(before, sender, recipient, amount, now, measure),
        Command::Invest(user, amount) => invest_ready(before, user, amount, now),
        Command::Arena(user, words) => arena_ready(before, user, string_views(words@), measure),
        Command::Trick(user, amount) => trick_ready(before, user, amount, now, measure),
        Command::UpdateCoins => now >= before.time_of_last_interest,
        Command::NoCommand => false,
        _ => true,
    }
}

/// What claiming the coin does (see `Server::claim_coin`).
pub open spec fn claim_post<M>(before: Server<M>, after: Server<M>, user: BotUser, r: Step<M>) -> bool {
    if before.coin.rarity == Rarity::NONE {
        is_silent(r) && after == before
    } else {
        let s1 = with_user(before.users@, user);
        let i = index_of_user(s1, user.id);
        &&& after.wf()
        &&& after.coin == before.coin
        &&& after.coin_message == before.coin_message
        &&& after.time_of_last_interest == before.time_of_last_interest
        &&& r matches Step::Save(Pending::Claim(c)) && {
            &&& c.rarity == before.coin.rarity
            &&& c.value == before.coin.value
            &&& c.coins == coins_of(before.users@, user.id) + before.coin.value
            &&& after.users@ == s1.update(i, CoinUser { coins: c.coins, ..s1[i] })
        }
    }
}

/// Nothing but the records changed.
pub open spec fn only_users_change<M>(before: Server<M>, after: Server<M>) -> bool {
    &&& after.wf()
    &&& after.coin == before.coin
    &&& after.coin_message == before.coin_message
    &&& after.time_of_last_interest == before.time_of_last_interest
}

/// What counting one member does (see `Server::count_one`).
pub open spec fn count_one_post<M, F: Fn(Measure) -> i64>(before: Server<M>, after: Server<M>, user: BotUser, measure: F, r: Step<M>) -> bool {
    let u = lookup(touch_seq(before.users@, user), user.id).unwrap();
    &&& only_users_change(before, after)
    &&& after.users@ == touch_seq(before.users@, user)
    &&& answers(r)
    &&& exists|cap: i64| #[trigger] measure.ensures((Measure::XpCap { level: u.level },), cap)
        && reply_text(r) == u.count_view(cap as int)
}

/// What counting several members does (see `Server::coin_count`).
pub open spec fn count_many_post<M, F: Fn(Measure) -> i64>(before: Server<M>, after: Server<M>, users: Seq<BotUser>, measure: F, r: Step<M>) -> bool {
    &&& only_users_change(before, after)
    &&& answers(r)
    &&& exists|caps: Seq<i64>| {
        &&& caps_given(before.users@, users, caps, measure)
        &&& after.users@ == #[trigger] count_run(before.users@, users, caps).0
        &&& reply_text(r) == join_view(count_run(before.users@, users, caps).1, "\n"@)
    }
}

/// What showing the leaderboard does (see `Server::coin_leaderboard`).
pub open spec fn leaderboard_post<M>(before: Server<M>, after: Server<M>, user: BotUser, r: Step<M>) -> bool {
    &&& only_users_change(before, after)
    &&& after.users@ == touch_seq(before.users@, user)
    &&& answers(r)
    &&& exists|ord: Seq<usize>, place: int| {
        &&& is_ranking(before.users@, ord)
        &&& 0 <= place - 1 < ord.len()
        &&& before.users@[ord[place - 1] as int].id == user.id
        &&& reply_text(r) == join_view(#[trigger] board_lines(before.users@, ord, user.id, place), "\n"@)
    }
}

/// What an arena command does, by the step it leads to (see `Server::arena`).
pub open spec fn arena_step_post<M, F: Fn(Measure) -> i64>(
    before: Server<M>,
    after: Server<M>,
    user: BotUser,
    words: Seq<Seq<char>>,
    measure: F,
    r: Step<M>,
) -> bool {
    exists|a: ArenaStep| {
        &&& #[trigger] arena_post(before, after, user, words, measure, a)
        &&& match a {
            ArenaStep::Reply(t) => answers(r) && reply_text(r) == t@,
            ArenaStep::Trained { amount, response } => r matches Step::Save(Pending::Training { amount: a2, response: x })
                && a2 == amount && x@ == response@,
        }
    }
}

/// What announcing a new coin does (see `Server::create_coin`).
pub open spec fn create_post<M>(before: Server<M>, after: Server<M>, r: Step<M>) -> bool {
    &&& after.users == before.users
    &&& after.coin_message == before.coin_message
    &&& after.time_of_last_interest == before.time_of_last_interest
    &&& if before.coin_message is Some || before.coin.rarity != Rarity::NONE {
        is_silent(r) && after.coin == before.coin
    } else {
        &&& answers(r)
        &&& reply_text(r) == after.coin.arrival_view()
        &&& after.coin.rarity != Rarity::NONE
        &&& exists|x: int| 1 <= x < 1_000_000 && after.coin.rarity == rarity_for_draw(x)
        &&& Coin::fair_value(after.coin.rarity, after.coin.value as int)
    }
}

/// What moving the market does (see `Server::update_coins`).
pub open spec fn update_post<M, F: Fn(Measure) -> i64>(before: Server<M>, after: Server<M>, now: u64, measure: F) -> bool {
    &&& after.wf()
    &&& after.coin == before.coin
    &&& after.coin_message == before.coin_message
    &&& if now - before.time_of_last_interest <= MARKET_CHANGE_TIMER {
        after.users == before.users && after.time_of_last_interest == before.time_of_last_interest
    } else {
        &&& after.time_of_last_interest == now
        &&& !has_user(before.users@, BOT_ID) ==> after.users == before.users
        &&& has_user(before.users@, BOT_ID) ==> {
            let i = index_of_user(before.users@, BOT_ID);
            let bank = before.users@[i];
            exists|permille: i64, coins: i64| {
                &&& 850 <= permille < 1150
                &&& #[trigger] measure.ensures((Measure::MarketShift { coins: bank.coins, permille },), coins)
                &&& after.users@ == before.users@.update(i, CoinUser { coins, ..bank })
            }
        }
    }
}

/// The step hands back the announcement `m` with no reply, to be edited to
/// one of the coin's escape texts.
pub open spec fn edits_with<M>(r: Step<M>, m: M, coin: Coin) -> bool {
    match r {
        Step::Done(o) => o.reply is None && match o.announcement {
            Announcement::Edit(m2, t) => m2 == m && exists|i: int, j: int| 0 <= i < 9 && 0 <= j < 6
                && t@ == coin.escape_view(runner_faces()[i], escape_endings()[j]),
            _ => false,
        },
        _ => false,
    }
}

/// What the coin getting away does: the announcement, if there is one, is
/// handed back with the escape text, and the coin is gone.
pub open spec fn escape_post<M>(before: Server<M>, after: Server<M>, r: Step<M>) -> bool {
    &&& after.users == before.users
    &&& after.time_of_last_interest == before.time_of_last_interest
    &&& after.coin.rarity == Rarity::NONE
    &&& after.coin.value == 0
    &&& after.coin_message is None
    &&& match before.coin_message {
        Some(m) => edits_with(r, m, before.coin),
        None => is_silent(r),
    }
}

/// What running a command at time `now` does (see `Server::run_command`).
pub open spec fn command_post<M, F: Fn(Measure) -> i64>(
    before: Server<M>,
    after: Server<M>,
    command: Command<M>,
    now: u64,
    measure: F,
    r: Step<M>,
) -> bool {
    match command {
        Command::GetCoin(user) => claim_post(before, after, user, r),
        Command::CoinCount(user) => count_one_post(before, after, user, measure, r),
        Command::CoinCountMultiple(users) => count_many_post(before, after, users@, measure, r),
        Command::CoinLeaderboard(user) => leaderboard_post(before, after, user, r),
        Command::GiveCoin(sender, recipient, amount) => answers(r)
            && give_post(before, after, sender, recipient, amount, now, measure, reply_text(r)),
        Command::Invest(user, amount) => answers(r) && invest_post(before, after, user, amount, now, reply_text(r)),
        Command::Arena(user, words) => arena_step_post(before, after, user, string_views(words@), measure, r),
        Command::Trick(user, amount) => answers(r) && trick_post(before, after, user, amount, now, measure, reply_text(r)),
        Command::EatCoin(..) => is_silent(r) && after == before,
        Command::TrickMax(..) => is_silent(r) && after == before,
        Command::CreateCoin => create_post(before, after, r),
        Command::CoinCreateNotification(m) => {
            &&& is_silent(r)
            &&& after.users == before.users
            &&& after.coin == before.coin
            &&& after.time_of_last_interest == before.time_of_last_interest
            &&& after.coin_message == Some(m)
        },
        Command::UpdateCoins => is_silent(r) && update_post(before, after, now, measure),
        Command::ClearCoin => after == before && if before.coin_message is Some {
            r matches Step::Done(o) && o.reply is None && o.announcement is DeleteStored
        } else {
            is_silent(r)
        },
        Command::CoinEscape => escape_post(before, after, r),
        Command::Error(t) => answers(r) && reply_text(r) == t@ && after == before,
        Command::NoCommand => false,
    }
}

/// What finishing saved work does: a claim is settled (see
/// `Server::settle_claim`), training announced (see
/// `Server::finish_training`).
pub open spec fn resume_post<M>(before: Server<M>, after: Server<M>, pending: Pending, saved: Result<(), String>, r: Outcome<M>) -> bool {
    &&& after.users == before.users
    &&& after.time_of_last_interest == before.time_of_last_interest
    &&& r.reply is Some
    &&& match pending {
        Pending::Claim(c) => match saved {
            Ok(_) => {
                &&& r.reply.unwrap()@ == claim_view(c)
                &&& (match before.coin_message {
                    Some(m) => r.announcement == Announcement::Delete(m),
                    None => r.announcement is Keep,
                })
                &&& after.coin.rarity == Rarity::NONE
                &&& after.coin.value == 0
                &&& after.coin_message is None
            },
            Err(why) => {
                &&& r.reply.unwrap()@ == save_error_view(why@)
                &&& r.announcement is Keep
                &&& after.coin == before.coin
                &&& after.coin_message == before.coin_message
            },
        },
        Pending::Training { amount, response } => {
            &&& r.announcement is Keep
            &&& after.coin == before.coin
            &&& after.coin_message == before.coin_message
            &&& match saved {
                Ok(_) => exists|place: Seq<char>| #[trigger] training_places().contains(place)
                    && r.reply.unwrap()@ == trained_view(amount as int, place, response@),
                Err(why) => r.reply.unwrap()@ == save_error_view(why@),
            }
        },
    }
}

/// An outcome with a reply that leaves the announcement.
fn say<M>(text: String) -> (r: Step<M>)
    ensures
        answers(r),
        reply_text(r) == text@,
{
    Step::Done(Outcome { reply: Some(text), announcement: Announcement::Keep })
}

/// An outcome with no reply that leaves the announcement.
fn quiet<M>() -> (r: Step<M>)
    ensures
        is_silent(r),
{
    Step::Done(Outcome { reply: None, announcement: Announcement::Keep })
}

impl<M> Server<M> {
    /// Runs a command at time `now`, with the application's measure for
    /// what the game computes in floating point.  Claims and paid training
    /// wait for the save before they are announced.  `Invest` and `Trick` run
    /// the investment and the trick; eating coins and the largest trick are
    /// not offered yet, and do nothing.
    pub fn run_command<F: Fn(Measure) -> i64>(&mut self, command: Command<M>, now: u64, measure: &F) -> (r: Step<M>)
        requires
            command_ready(*old(self), command, now, *measure),
        ensures
            command_post(*old(self), *final(self), command, now, *measure, r),
    {
        match command {
            Command::GetCoin(user) => match self.claim_coin(&user) {
                Some(c) => Step::Save(Pending::Claim(c)),
                None => quiet(),
            },
            Command::CoinCount(user) => say(self.count_one(&user, measure)),
            Command::CoinCountMultiple(users) => say(self.coin_count(users, measure)),
            Command::CoinLeaderboard(user) => say(self.coin_leaderboard(&user)),
            Command::GiveCoin(sender, recipient, amount) => say(
                self.give_coin(&sender, &recipient, amount, now, measure),
            ),
            Command::Invest(user, amount) => say(self.invest(&user, amount, now)),
            Command::Arena(user, words) => {
                let ghost before = *self;
                let ghost views = string_views(words@);
                let a = self.arena(&user, words, measure);
                let ghost a2 = a;
                let r = match a {
                    ArenaStep::Reply(t) => say(t),
                    ArenaStep::Trained { amount, response } => Step::Save(Pending::Training { amount, response }),
                };
                assert(arena_post(before, *self, user, views, *measure, a2));
                r
            },
            Command::Trick(user, amount) => say(self.trick(&user, amount, now, measure)),
            Command::EatCoin(..) => quiet(),
            Command::TrickMax(..) => quiet(),
            Command::CreateCoin => match self.create_coin() {
                Some(t) => say(t),
                None => quiet(),
            },
            Command::CoinCreateNotification(m) => {
                self.set_coin_message(m);
                quiet()
            },
            Command::UpdateCoins => {
                self.update_coins(now, measure);
                quiet()
            },
            Command::ClearCoin => {
                if self.coin_message.is_some() {
                    Step::Done(Outcome { reply: None, announcement: Announcement::DeleteStored })
                } else {
                    quiet()
                }
            },
            Command::CoinEscape => {
                let r = match self.coin_message.take() {
                    Some(m) => {
                        let text = self.coin.escape_message();
                        Step::Done(Outcome { reply: None, announcement: Announcement::Edit(m, text) })
                    },
                    None => quiet(),
                };
                self.coin = Coin::none();
                r
            },
            Command::Error(text) => say(String::from_str(text)),
            Command::NoCommand => quiet(),
        }
    }

    /// Finishes work that waited for the save, given how the save went.
    pub fn resume(&mut self, pending: Pending, saved: Result<(), String>) -> (r: Outcome<M>)
        ensures
            resume_post(*old(self), *final(self), pending, saved, r),
    {
        match pending {
            Pending::Claim(c) => {
                let (text, message) = self.settle_claim(&c, saved);
                let announcement = match message {
                    Some(m) => Announcement::Delete(m),
                    None => Announcement::Keep,
                };
                Outcome { reply: Some(text), announcement }
            },
            Pending::Training { amount, response } => {
                Outcome { reply: Some(Self::finish_training(amount, response.as_str(), saved)), announcement: Announcement::Keep }
            },
        }
    }
}

} // verus!
