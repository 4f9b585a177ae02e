//! The coin commands: claiming, counting, ranking, and the coin's coming
//! and going.

use vstd::prelude::*;
use crate::bot_user::BotUser;
use crate::coin::Coin;
use crate::environment::{BOT_ID, MARKET_CHANGE_TIMER};
use crate::chance::random_between;
use crate::rarity::{Rarity, rarity_for_draw};
use crate::server::{
    Server, ids_ascending, has_user, index_of_user, lemma_index_of_user, lemma_lookup_insert, lemma_lookup_update, lookup,
    touch_seq, with_user, lemma_touch, renamed,
};
use crate::text::{decimal, int_text, usize_text, join_strings, join_view, plural, s_if, string_views};
use crate::user::CoinUser;

verus! {

/// A quantity the game computes in floating point, which the application
/// supplies: the experience cap of a level, the largest trick a member can
/// afford, the level a trick needs, and the bank's holdings after the
/// market moves by a factor of `permille / 1000`.
pub enum Measure {
    XpCap { level: i64 },
    TrickAllowance { coins: i64, level: i64 },
    RequiredLevel { amount: i64, coins: i64 },
    MarketShift { coins: i64, permille: i64 },
}

/// A coin that a member has taken, awaiting the save that makes it theirs.
pub struct CoinClaim {
    pub rarity: Rarity,
    pub value: i64,
    pub coins: i64,
}

/// The reply to a successful claim.
pub open spec fn claim_view(claim: CoinClaim) -> Seq<char> {
    let e = claim.rarity.emoji_view();
    e + " | You got "@ + claim.rarity.a_name_view() + "coin!"@
        + "\n"@ + e + " | You gained "@ + decimal(claim.value as int) + " coin"@ + plural(claim.value as int) + "!"@
        + "\n"@ + e + " | You now have "@ + decimal(claim.coins as int) + " coin"@ + plural(claim.coins as int) + "."@
}

/// The reply when the save after a change failed.
pub open spec fn save_error_view(why: Seq<char>) -> Seq<char> {
    "Error saving to file: "@ + why
}

/// The reply when the save after a change failed.
pub fn save_error_message(why: &str) -> (r: String)
    ensures
        r@ == save_error_view(why@),
{
    let mut r = String::from_str("Error saving to file: ");
    r.append(why);
    r
}

/// The coins a member holds, or none for someone not on record.
pub open spec fn coins_of(s: Seq<CoinUser>, id: u64) -> int {
    match lookup(s, id) {
        Some(u) => u.coins as int,
        None => 0,
    }
}

/// Whether counting a member can draw their experience bar for every cap
/// the application may give for their level.
pub open spec fn countable<F: Fn(Measure) -> i64>(s: Seq<CoinUser>, b: BotUser, measure: F) -> bool {
    match lookup(s, b.id) {
        Some(u) => u.has_trained() ==> forall|cap: i64|
            #[trigger] measure.ensures((Measure::XpCap { level: u.level },), cap) ==> u.bar_drawable(cap as int),
        None => true,
    }
}

/// The record and the entries after counting the given members in turn,
/// with the given caps.
pub open spec fn count_run(s: Seq<CoinUser>, users: Seq<BotUser>, caps: Seq<i64>) -> (Seq<CoinUser>, Seq<Seq<char>>)
    decreases users.len(),
{
    if users.len() == 0 {
        (s, Seq::empty())
    } else {
        let (s1, texts) = count_run(s, users.drop_last(), caps.drop_last());
        let s2 = touch_seq(s1, users.last());
        let u = lookup(s2, users.last().id).unwrap();
        (s2, texts.push(u.count_view(caps.last() as int)))
    }
}

/// The caps the application may give for the members counted in turn.
pub open spec fn caps_given<F: Fn(Measure) -> i64>(s: Seq<CoinUser>, users: Seq<BotUser>, caps: Seq<i64>, measure: F) -> bool {
    &&& caps.len() == users.len()
    &&& forall|k: int| 0 <= k < users.len() ==> {
        let u = lookup(count_run(s, users.take(k + 1), caps.take(k + 1)).0, users[k].id).unwrap();
        measure.ensures((Measure::XpCap { level: u.level },), #[trigger] caps[k])
    }
}

impl<M> Server<M> {
    /// Announces a new coin unless one is already on offer or announced.
    pub fn create_coin(&mut self) -> (r: Option<String>)
        ensures
            final(self).users == old(self).users,
            final(self).coin_message == old(self).coin_message,
            final(self).time_of_last_interest == old(self).time_of_last_interest,
            old(self).coin_message is Some || old(self).coin.rarity != Rarity::NONE ==> {
                &&& r is None
                &&& final(self).coin == old(self).coin
            },
            old(self).coin_message is None && old(self).coin.rarity == Rarity::NONE ==> {
                &&& r is Some
                &&& r.unwrap()@ == final(self).coin.arrival_view()
                &&& final(self).coin.rarity != Rarity::NONE
                &&& exists|x: int| 1 <= x < 1_000_000 && final(self).coin.rarity == rarity_for_draw(x)
                &&& Coin::fair_value(final(self).coin.rarity, final(self).coin.value as int)
            },
    {
        if self.coin_message.is_some() || !self.coin.is_none() {
            None
        } else {
            self.coin = Coin::new();
            Some(self.coin.arrival_message())
        }
    }

    /// Remembers the message that announced the current coin.
    pub fn set_coin_message(&mut self, message: M)
        ensures
            final(self).users == old(self).users,
            final(self).coin == old(self).coin,
            final(self).coin_message == Some(message),
            final(self).time_of_last_interest == old(self).time_of_last_interest,
    {
        self.coin_message = Some(message);
    }

    /// Takes the coin off offer; the announcement it gives back is to be
    /// deleted.
    pub fn clear_coin(&mut self) -> (r: Option<M>)
        ensures
            r == old(self).coin_message,
            final(self).users == old(self).users,
            final(self).coin.rarity == Rarity::NONE,
            final(self).coin.value == 0,
            final(self).coin_message is None,
            final(self).time_of_last_interest == old(self).time_of_last_interest,
    {
        let message = self.coin_message.take();
        self.coin = Coin::none();
        message
    }

    /// A member grabs the coin on offer: its value goes to them at once,
    /// and the coin stays on offer until the claim is settled.
    pub fn claim_coin(&mut self, user: &BotUser) -> (r: Option<CoinClaim>)
        requires
            old(self).wf(),
            old(self).coin.rarity != Rarity::NONE ==>
                i64::MIN <= coins_of(old(self).users@, user.id) + old(self).coin.value <= i64::MAX,
        ensures
            final(self).wf(),
            final(self).coin == old(self).coin,
            final(self).coin_message == old(self).coin_message,
            final(self).time_of_last_interest == old(self).time_of_last_interest,
            old(self).coin.rarity == Rarity::NONE ==> r is None && final(self).users == old(self).users,
            old(self).coin.rarity != Rarity::NONE ==> {
                let s1 = with_user(old(self).users@, *user);
                let i = index_of_user(s1, user.id);
                &&& r is Some
                &&& r.unwrap().rarity == old(self).coin.rarity
                &&& r.unwrap().value == old(self).coin.value
                &&& r.unwrap().coins == coins_of(old(self).users@, user.id) + old(self).coin.value
                &&& final(self).users@ == s1.update(i, CoinUser { coins: r.unwrap().coins, ..s1[i] })
            },
    {
        if self.coin.is_none() {
            return None;
        }
        let ghost s0 = self.users@;
        let idx = self.get_mut_user_from_id(user);
        proof {
            lemma_index_of_user(self.users@, user.id, idx as int);
            if has_user(s0, user.id) {
                lemma_index_of_user(s0, user.id, idx as int);
            } else {
                lemma_lookup_insert(s0, idx as int, CoinUser::fresh(user.id, user.nickname, user.display_name));
            }
        }
        let mut u = self.users.remove(idx);
        u.coins = u.coins + self.coin.value;
        let coins = u.coins;
        self.users.insert(idx, u);
        proof {
            lemma_lookup_update(with_user(s0, *user), idx as int, u);
        }
        Some(CoinClaim { rarity: self.coin.rarity, value: self.coin.value, coins })
    }

    /// Settles a claim once the save is done: on success the coin leaves
    /// the channel and the member is told what they got; on failure the coin
    /// stays on offer and the member is told of the error.
    pub fn settle_claim(&mut self, claim: &CoinClaim, saved: Result<(), String>) -> (r: (String, Option<M>))
        ensures
            final(self).users == old(self).users,
            final(self).time_of_last_interest == old(self).time_of_last_interest,
            saved is Ok ==> {
                &&& r.0@ == claim_view(*claim)
                &&& r.1 == old(self).coin_message
                &&& final(self).coin.rarity == Rarity::NONE
                &&& final(self).coin.value == 0
                &&& final(self).coin_message is None
            },
            saved is Err ==> {
                &&& r.0@ == save_error_view(saved->Err_0@)
                &&& r.1 is None
                &&& final(self).coin == old(self).coin
                &&& final(self).coin_message == old(self).coin_message
            },
    {
        match saved {
            Err(why) => (save_error_message(why.as_str()), None),
            Ok(()) => {
                let message = self.clear_coin();
                let e = claim.rarity.emoji();
                let mut r = String::from_str(e);
                r.append(" | You got ");
                r.append(claim.rarity.a_name().as_str());
                r.append("coin!");
                r.append("\n");
                r.append(e);
                r.append(" | You gained ");
                r.append(int_text(claim.value).as_str());
                r.append(" coin");
                r.append(s_if(claim.value).as_str());
                r.append("!");
                r.append("\n");
                r.append(e);
                r.append(" | You now have ");
                r.append(int_text(claim.coins).as_str());
                r.append(" coin");
                r.append(s_if(claim.coins).as_str());
                r.append(".");
                (r, message)
            },
        }
    }

    /// One member's entry in `coin count`.  The member is seen (and added
    /// if new) before the entry is written.
    pub fn count_one<F: Fn(Measure) -> i64>(&mut self, user: &BotUser, measure: &F) -> (r: String)
        requires
            old(self).wf(),
            forall|q: Measure| measure.requires((q,)),
            countable(old(self).users@, *user, *measure),
        ensures
            final(self).wf(),
            final(self).users@ == touch_seq(old(self).users@, *user),
            final(self).coin == old(self).coin,
            final(self).coin_message == old(self).coin_message,
            final(self).time_of_last_interest == old(self).time_of_last_interest,
            exists|cap: i64| {
                &&& #[trigger] measure.ensures((Measure::XpCap {
                    level: lookup(touch_seq(old(self).users@, *user), user.id).unwrap().level,
                },), cap)
                &&& r@ == lookup(touch_seq(old(self).users@, *user), user.id).unwrap().count_view(cap as int)
            },
    {
        let ghost s0 = self.users@;
        let idx = self.get_user_from_id(user);
        proof {
            lemma_touch(s0, *user);
            lemma_index_of_user(self.users@, user.id, idx as int);
        }
        let level = self.users[idx].level;
        let cap = measure(Measure::XpCap { level });
        self.users[idx].coin_count_message(cap)
    }

    /// Each listed member's entry in `coin count`, one per line.  Each
    /// member is seen (and added if new) before their entry is written.
    pub fn coin_count<F: Fn(Measure) -> i64>(&mut self, users: Vec<BotUser>, measure: &F) -> (r: String)
        requires
            old(self).wf(),
            forall|q: Measure| measure.requires((q,)),
            forall|k: int| 0 <= k < users@.len() ==> countable(old(self).users@, #[trigger] users@[k], *measure),
        ensures
            final(self).wf(),
            final(self).coin == old(self).coin,
            final(self).coin_message == old(self).coin_message,
            final(self).time_of_last_interest == old(self).time_of_last_interest,
            exists|caps: Seq<i64>| {
                &&& caps_given(old(self).users@, users@, caps, *measure)
                &&& final(self).users@ == count_run(old(self).users@, users@, caps).0
                &&& r@ == join_view(count_run(old(self).users@, users@, caps).1, "\n"@)
            },
    {
        let ghost s0 = self.users@;
        let ghost mut caps: Seq<i64> = Seq::empty();
        let mut texts: Vec<String> = Vec::new();
        let mut i: usize = 0;
        assert(users@.take(0) =~= Seq::<BotUser>::empty());
        assert(string_views(texts@) =~= Seq::<Seq<char>>::empty());
        while i < users.len()
            invariant
                i <= users@.len(),
                self.wf(),
                forall|q: Measure| measure.requires((q,)),
                caps.len() == i,
                caps_given(s0, users@.take(i as int), caps, *measure),
                self.users@ == count_run(s0, users@.take(i as int), caps).0,
                string_views(texts@) == count_run(s0, users@.take(i as int), caps).1,
                forall|k: int| i <= k < users@.len() ==> countable(self.users@, #[trigger] users@[k], *measure),
                self.coin == old(self).coin,
                self.coin_message == old(self).coin_message,
                self.time_of_last_interest == old(self).time_of_last_interest,
            decreases users@.len() - i,
        {
            let ghost before = self.users@;
            let b = &users[i];
            let idx = self.get_user_from_id(b);
            proof {
                lemma_touch(before, *b);
                lemma_index_of_user(self.users@, b.id, idx as int);
                assert(countable(before, *b, *measure));
            }
            let level = self.users[idx].level;
            let cap = measure(Measure::XpCap { level });
            let text = self.users[idx].coin_count_message(cap);
            let ghost old_texts = string_views(texts@);
            texts.push(text);
            proof {
                let caps2 = caps.push(cap);
                let us = users@.take(i + 1);
                assert(us.drop_last() =~= users@.take(i as int));
                assert(caps2.drop_last() =~= caps);
                assert(us.last() == *b);
                assert(string_views(texts@) =~= old_texts.push(text@));
                assert(count_run(s0, us, caps2).0 == self.users@);
                assert(string_views(texts@) == count_run(s0, us, caps2).1);
                assert(caps_given(s0, us, caps2, *measure)) by {
                    assert forall|k: int| 0 <= k < us.len() implies {
                        let u = lookup(count_run(s0, us.take(k + 1), caps2.take(k + 1)).0, us[k].id).unwrap();
                        measure.ensures((Measure::XpCap { level: u.level },), #[trigger] caps2[k])
                    } by {
                        if k < i {
                            assert(us.take(k + 1) =~= users@.take(i as int).take(k + 1));
                            assert(caps2.take(k + 1) =~= caps.take(k + 1));
                            assert(caps2[k] == caps[k]);
                            assert(us[k] == users@.take(i as int)[k]);
                        } else {
                            assert(us.take(k + 1) =~= us);
                            assert(caps2.take(k + 1) =~= caps2);
                        }
                    }
                }
                assert forall|k: int| i + 1 <= k < users@.len() implies countable(self.users@, #[trigger] users@[k], *measure) by {
                    assert(countable(before, users@[k], *measure));
                }
                caps = caps2;
            }
            i = i + 1;
        }
        assert(users@.take(users@.len() as int) =~= users@);
        join_strings(&texts, "\n")
    }
}



/// `a` ranks ahead of `b` on the leaderboard: more coins, or as many and a
/// larger identifier (the order a stable sort by coins, reversed, leaves
/// members who are listed by identifier).
pub open spec fn ranks_ahead(a: CoinUser, b: CoinUser) -> bool {
    a.coins > b.coins || (a.coins == b.coins && a.id > b.id)
}

/// `ord` lists every position of `s` once, best ranked first.
pub open spec fn is_ranking(s: Seq<CoinUser>, ord: Seq<usize>) -> bool {
    &&& ord.len() == s.len()
    &&& forall|k: int| 0 <= k < ord.len() ==> #[trigger] ord[k] < s.len()
    &&& forall|j: int| 0 <= j < s.len() ==> #[trigger] ord.contains(j as usize)
    &&& forall|j: int, k: int| 0 <= j < k < ord.len() ==> ranks_ahead(s[ord[j] as int], s[ord[k] as int])
}

/// The name the leaderboard shows for a member.
pub open spec fn board_name(u: CoinUser) -> Seq<char> {
    if u.id == BOT_ID { "_The CowardCoin™ Bank_"@ } else { u.shown_name() }
}

/// The leaderboard line for the member at place `n` (from zero), in bold
/// for the member who asked.
pub open spec fn board_line(n: int, u: CoinUser, viewer: u64) -> Seq<char> {
    let bold = if u.id == viewer { "**"@ } else { Seq::empty() };
    decimal(n + 1) + ". "@ + bold + board_name(u) + bold + " - "@ + decimal(u.coins as int) + " coin"@
        + plural(u.coins as int)
}

/// The closing line with the asker's place.
pub open spec fn board_position(place: int) -> Seq<char> {
    "> You are at position "@ + decimal(place) + " on the leaderboard."@
}

/// The lines of the leaderboard: the ten best (or everyone, if fewer), then
/// the asker's place.
pub open spec fn board_lines(s: Seq<CoinUser>, ord: Seq<usize>, viewer: u64, place: int) -> Seq<Seq<char>> {
    let shown = if s.len() < 10 { s.len() } else { 10 };
    Seq::new(shown as nat, |k: int| board_line(k, s[ord[k] as int], viewer)).push(board_position(place))
}

fn ranks_ahead_exec(a: &CoinUser, b: &CoinUser) -> (r: bool)
    ensures
        r == ranks_ahead(*a, *b),
{
    a.coins > b.coins || (a.coins == b.coins && a.id > b.id)
}

impl<M> Server<M> {
    /// The positions of the members, best ranked first.
    pub fn rank_order(&self) -> (ord: Vec<usize>)
        requires
            self.wf(),
        ensures
            is_ranking(self.users@, ord@),
    {
        let s = &self.users;
        let n = s.len();
        let mut ord: Vec<usize> = Vec::new();
        let mut i: usize = 0;
        while i < n
            invariant
                n == s@.len(),
                ids_ascending(s@),
                i <= n,
                ord@.len() == i,
                forall|k: int| 0 <= k < ord@.len() ==> #[trigger] ord@[k] < i,
                forall|j: int| 0 <= j < i ==> #[trigger] ord@.contains(j as usize),
                forall|j: int, k: int| 0 <= j < k < ord@.len() ==> ranks_ahead(s@[ord@[j] as int], s@[ord@[k] as int]),
            decreases n - i,
        {
            let mut p: usize = ord.len();
            while p > 0 && !ranks_ahead_exec(&s[ord[p - 1]], &s[i])
                invariant
                    n == s@.len(),
                    ids_ascending(s@),
                    i < n,
                    p <= ord@.len(),
                    forall|k: int| 0 <= k < ord@.len() ==> #[trigger] ord@[k] < i,
                    forall|k: int| p <= k < ord@.len() ==> ranks_ahead(s@[i as int], s@[ord@[k] as int]),
                decreases p,
            {
                assert(ord@[p - 1] < i);
                assert(s@[ord@[p - 1] as int].id < s@[i as int].id);
                p = p - 1;
            }
            let ghost before = ord@;
            ord.insert(p, i);
            proof {
                assert forall|k: int| 0 <= k < ord@.len() implies #[trigger] ord@[k] < i + 1 by {
                    if k < p { assert(ord@[k] == before[k]); }
                    else if k > p { assert(ord@[k] == before[k - 1]); }
                }
                assert forall|j: int| 0 <= j < i + 1 implies #[trigger] ord@.contains(j as usize) by {
                    if j == i {
                        assert(ord@[p as int] == i);
                    } else {
                        assert(before.contains(j as usize));
                        let k = choose|k: int| 0 <= k < before.len() && before[k] == j as usize;
                        if k < p { assert(ord@[k] == before[k]); }
                        else { assert(ord@[k + 1] == before[k]); }
                    }
                }
                assert forall|a: int, b: int| 0 <= a < b < ord@.len() implies
                    ranks_ahead(s@[ord@[a] as int], s@[ord@[b] as int]) by {
                    if b < p {
                        assert(ord@[a] == before[a] && ord@[b] == before[b]);
                    } else if b == p {
                        assert(ord@[a] == before[a]);
                        assert(ranks_ahead(s@[before[p - 1] as int], s@[i as int]));
                        if a < p - 1 {
                            assert(ranks_ahead(s@[before[a] as int], s@[before[p - 1] as int]));
                        }
                    } else if a < p {
                        assert(ord@[a] == before[a] && ord@[b] == before[b - 1]);
                    } else if a == p {
                        assert(ord@[b] == before[b - 1]);
                    } else {
                        assert(ord@[a] == before[a - 1] && ord@[b] == before[b - 1]);
                    }
                }
            }
            i = i + 1;
        }
        ord
    }

    /// The leaderboard as the asker sees it: the ten richest members, then
    /// the asker's place.  The asker is then seen (their names updated).
    pub fn coin_leaderboard(&mut self, user: &BotUser) -> (r: String)
        requires
            old(self).wf(),
            has_user(old(self).users@, user.id),
        ensures
            final(self).wf(),
            final(self).users@ == touch_seq(old(self).users@, *user),
            final(self).coin == old(self).coin,
            final(self).coin_message == old(self).coin_message,
            final(self).time_of_last_interest == old(self).time_of_last_interest,
            exists|ord: Seq<usize>, place: int| {
                &&& is_ranking(old(self).users@, ord)
                &&& 0 <= place - 1 < ord.len()
                &&& old(self).users@[ord[place - 1] as int].id == user.id
                &&& r@ == join_view(board_lines(old(self).users@, ord, user.id, place), "\n"@)
            },
    {
        let ghost s0 = self.users@;
        let order = self.rank_order();
        let n = self.users.len();
        let shown: usize = if n < 10 { n } else { 10 };
        let mut lines: Vec<String> = Vec::new();
        let mut k: usize = 0;
        while k < shown
            invariant
                k <= shown,
                shown <= n,
                n == self.users@.len(),
                self.users@ == s0,
                shown == (if s0.len() < 10 { s0.len() } else { 10 }),
                is_ranking(s0, order@),
                string_views(lines@) == Seq::new(k as nat, |j: int| board_line(j, s0[order@[j] as int], user.id)),
            decreases shown - k,
        {
            let u = &self.users[order[k]];
            let bold = if u.id == user.id { "**" } else { "" };
            let mut line = usize_text(k + 1);
            line.append(". ");
            line.append(bold);
            if u.id == BOT_ID {
                line.append("_The CowardCoin™ Bank_");
            } else {
                line.append(u.shown_name_text().as_str());
            }
            line.append(bold);
            line.append(" - ");
            line.append(int_text(u.coins).as_str());
            line.append(" coin");
            line.append(s_if(u.coins).as_str());
            let ghost prev = string_views(lines@);
            proof {
                if u.id == user.id { reveal_strlit("**"); } else { reveal_strlit(""); }
                assert(bold@ == (if u.id == user.id { "**"@ } else { Seq::<char>::empty() }));
            }
            assert(*u == s0[order@[k as int] as int]);
            assert(line@ == board_line(k as int, *u, user.id));
            lines.push(line);
            assert(string_views(lines@) =~= prev.push(line@));
            assert(string_views(lines@) =~= Seq::new((k + 1) as nat, |j: int| board_line(j, s0[order@[j] as int], user.id)));
            k = k + 1;
        }
        let mut pos: usize = 0;
        while pos < n && self.users[order[pos]].id != user.id
            invariant
                pos <= n,
                n == self.users@.len(),
                self.users@ == s0,
                is_ranking(s0, order@),
                has_user(s0, user.id),
                forall|j: int| 0 <= j < pos ==> s0[order@[j] as int].id != user.id,
            decreases n - pos,
        {
            pos = pos + 1;
        }
        if pos == n {
            proof {
                let i = choose|i: int| 0 <= i < s0.len() && s0[i].id == user.id;
                assert(order@.contains(i as usize));
                let j = choose|j: int| 0 <= j < order@.len() && order@[j] == i as usize;
                assert(s0[order@[j] as int].id == user.id);
            }
            pos = 0;
        }
        let mut last = String::from_str("> You are at position ");
        last.append(usize_text(pos + 1).as_str());
        last.append(" on the leaderboard.");
        let ghost prev = string_views(lines@);
        lines.push(last);
        assert(string_views(lines@) =~= board_lines(s0, order@, user.id, (pos + 1) as int));
        let r = join_strings(&lines, "\n");
        self.get_user_from_id(user);
        r
    }
}


impl<M> Server<M> {
    /// The market moves at time `now`, at most once an hour: when more than
    /// an hour has passed since it last moved, the time is noted and the
    /// bank's holdings, if the bank is on record, become what the
    /// application computes for a random factor from 850 to 1149 thousandths.
    pub fn update_coins<F: Fn(Measure) -> i64>(&mut self, now: u64, measure: &F)
        requires
            old(self).wf(),
            forall|q: Measure| measure.requires((q,)),
            now >= old(self).time_of_last_interest,
        ensures
            final(self).wf(),
            final(self).coin == old(self).coin,
            final(self).coin_message == old(self).coin_message,
            now - old(self).time_of_last_interest <= MARKET_CHANGE_TIMER ==> {
                &&& final(self).users == old(self).users
                &&& final(self).time_of_last_interest == old(self).time_of_last_interest
            },
            now - old(self).time_of_last_interest > MARKET_CHANGE_TIMER ==> {
                &&& final(self).time_of_last_interest == now
                &&& !has_user(old(self).users@, BOT_ID) ==> final(self).users == old(self).users
                &&& has_user(old(self).users@, BOT_ID) ==> {
                    let i = index_of_user(old(self).users@, BOT_ID);
                    let bank = old(self).users@[i];
                    exists|permille: i64, coins: i64| {
                        &&& 850 <= permille < 1150
                        &&& #[trigger] measure.ensures((Measure::MarketShift { coins: bank.coins, permille },), coins)
                        &&& final(self).users@ == old(self).users@.update(i, CoinUser { coins, ..bank })
                    }
                }
            },
    {
        if now - self.time_of_last_interest > MARKET_CHANGE_TIMER {
            self.time_of_last_interest = now;
            match self.find_user(BOT_ID) {
                Ok(i) => {
                    proof { lemma_index_of_user(self.users@, BOT_ID, i as int); }
                    let permille = random_between(850, 1150);
                    let coins = measure(Measure::MarketShift { coins: self.users[i].coins, permille });
                    self.set_coins(i, coins);
                },
                Err(_) => {},
            }
        }
    }
}

} // verus!
