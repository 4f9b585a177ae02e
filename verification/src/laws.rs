//! Properties of the game that span several operations.

use vstd::prelude::*;
use crate::bot_user::BotUser;
use crate::coin_type::{CoinType, coin_type_of};
use crate::commands::Measure;
use crate::communication::{Command, adds_numbers, reads_as, total_fits};
use crate::dispatch::{Outcome, Pending, Step, claim_post, is_silent, resume_post, update_post};
use crate::environment::MARKET_CHANGE_TIMER;
use crate::rarity::{Rarity, rarity_of};
use crate::server::{Server, ids_ascending, has_user, index_of_user, lemma_index_of_user, lemma_touch, renamed, touch_seq, with_user, name_view};
use crate::user::{CoinUser, after_xp};
use crate::commands::{board_line, board_lines, board_position, is_ranking};
use crate::environment::BOT_ID;
use crate::games::{
    ArenaStep, after_trick, arena_post, asks_training, cannot_afford_view, dividends_view, gave_view, give_post,
    invested_view, pays_dividends, settled_with,
};
use crate::server::{lookup, record_or_fresh, lemma_lookup_update};
use crate::text::{parse_i64_spec, tdiv};

verus! {

/// A rarity's identifier names that rarity again, and each identifier from
/// 1 to 6 is the identifier of the rarity it names.
pub proof fn lemma_rarity_id_round_trip(r: Rarity, id: int)
    ensures
        rarity_of(r.id_of()) == r,
        1 <= id <= 6 ==> rarity_of(id).id_of() == id,
{
}

/// A coin kind's value names that kind again, and each value from 1 to 6
/// is the value of the kind it names.
pub proof fn lemma_coin_type_value_round_trip(t: CoinType, val: int)
    ensures
        coin_type_of(t.value_of()) == t,
        1 <= val <= 6 ==> coin_type_of(val).value_of() == val,
{
}

/// Experience is never lost: after gaining `amount`, experience plus a
/// hundred per level grows by exactly `amount`, what is left over is below
/// a hundred, and it is not negative when the gain leaves none owing.
pub proof fn lemma_xp_conserved(xp: int, level: int, amount: int)
    ensures
        after_xp(xp, level, amount).0 + 100 * after_xp(xp, level, amount).1 == xp + 100 * level + amount,
        after_xp(xp, level, amount).0 < 100,
        xp + amount >= 0 ==> after_xp(xp, level, amount).0 >= 0,
        after_xp(xp, level, amount).1 >= level,
{
    let t = xp + amount;
    if t >= 100 {
        assert(t % 100 + 100 * (t / 100) == t) by (nonlinear_arith);
        assert(t / 100 >= 1) by (nonlinear_arith)
            requires
                t >= 100;
    }
}

/// Seeing a member a second time changes nothing more: adding them where
/// missing, and taking their current names, are both done once.
pub proof fn lemma_seen_twice(s: Seq<CoinUser>, b: BotUser)
    requires
        ids_ascending(s),
    ensures
        with_user(with_user(s, b), b) == with_user(s, b),
        touch_seq(touch_seq(s, b), b) == touch_seq(s, b),
{
    lemma_touch(s, b);
    let t = touch_seq(s, b);
    let w = with_user(s, b);
    assert(has_user(w, b.id)) by {
        assert(crate::server::lookup(w, b.id) is Some);
    }
    assert(has_user(t, b.id)) by {
        assert(crate::server::lookup(t, b.id) is Some);
    }
    let i = index_of_user(t, b.id);
    lemma_index_of_user(t, b.id, i);
    let u = t[i];
    assert(renamed(u, b) == u) by {
        if has_user(s, b.id) {
            let k = index_of_user(s, b.id);
            lemma_index_of_user(s, b.id, k);
            assert(u == renamed(s[k], b));
        } else {
            assert(u == CoinUser::fresh(b.id, b.nickname, b.display_name));
        }
        if b.nickname is Some {
            assert(name_view(u.nickname) == name_view(b.nickname));
        }
    }
    assert(t.update(i, renamed(u, b)) =~= t);
}

/// The coin goes to one member only: once a claim on it is settled, the
/// next claim, by anyone, gets nothing and changes nothing.
pub proof fn lemma_claimed_once<M>(
    before: Server<M>,
    mid: Server<M>,
    after: Server<M>,
    last: Server<M>,
    first: BotUser,
    second: BotUser,
    step: Step<M>,
    claim: crate::commands::CoinClaim,
    outcome: Outcome<M>,
    next: Step<M>,
)
    requires
        claim_post(before, mid, first, step),
        step == Step::<M>::Save(Pending::Claim(claim)),
        resume_post(mid, after, Pending::Claim(claim), Ok(()), outcome),
        claim_post(after, last, second, next),
    ensures
        is_silent(next),
        last == after,
{
}

/// The market moves at most once an hour: right after it has moved, a
/// second move within the hour changes nothing.
pub proof fn lemma_market_moves_hourly<M, F: Fn(Measure) -> i64>(
    before: Server<M>,
    mid: Server<M>,
    after: Server<M>,
    first: u64,
    second: u64,
    measure: F,
)
    requires
        update_post(before, mid, first, measure),
        first - before.time_of_last_interest > MARKET_CHANGE_TIMER,
        first <= second,
        second - first <= MARKET_CHANGE_TIMER,
        update_post(mid, after, second, measure),
    ensures
        after.users == mid.users,
        after.time_of_last_interest == mid.time_of_last_interest,
{
}

/// A gift or an investment read from a message always carries a positive
/// amount.
pub proof fn lemma_gifts_positive<M>(words: Seq<Seq<char>>, mentions: Seq<BotUser>, user: BotUser, r: Command<M>)
    requires
        adds_numbers(words, mentions.len() as int) ==> total_fits(words),
        reads_as(words, mentions, user, r),
    ensures
        r matches Command::GiveCoin(_, _, amount) ==> amount > 0,
        r matches Command::Invest(_, amount) ==> amount > 0,
{
    assert(words.take(words.len() as int) =~= words);
}


/// The leaderboard lists the ten best-ranked members, or every member if
/// there are fewer than ten, from the richest down, and ends with the line
/// giving the asker's place: `min(10, n) + 1` lines for `n` members.
pub proof fn lemma_leaderboard_lists_ten(s: Seq<CoinUser>, ord: Seq<usize>, viewer: u64, place: int)
    requires
        is_ranking(s, ord),
    ensures
        board_lines(s, ord, viewer, place).len() == (if s.len() < 10 { s.len() } else { 10 }) + 1,
        board_lines(s, ord, viewer, place).last() == board_position(place),
        forall|k: int| 0 <= k < board_lines(s, ord, viewer, place).len() - 1
            ==> #[trigger] board_lines(s, ord, viewer, place)[k] == board_line(k, s[ord[k] as int], viewer),
        forall|j: int, k: int| 0 <= j < k < board_lines(s, ord, viewer, place).len() - 1
            ==> s[ord[j] as int].coins >= s[ord[k] as int].coins,
{
    assert forall|j: int, k: int| 0 <= j < k < board_lines(s, ord, viewer, place).len() - 1
        implies s[ord[j] as int].coins >= s[ord[k] as int].coins by {
        assert(crate::commands::ranks_ahead(s[ord[j] as int], s[ord[k] as int]));
    }
}

/// The bank pays dividends on an investment exactly for draws from 80 up:
/// no draw below 80 pays.
pub proof fn lemma_dividends_from_eighty(chance: int)
    ensures
        chance < 80 ==> !pays_dividends(chance),
        chance >= 80 ==> pays_dividends(chance),
{
}

/// How an investment past the market's wait settles, by the draw: below 80
/// the member keeps only what the stake left them and is told of the
/// investment; from 80 they also receive half the bank's holdings.
pub proof fn lemma_investment_by_draw(
    chance: int,
    after: Seq<CoinUser>,
    user: BotUser,
    amount: i64,
    now: u64,
    u: CoinUser,
    user_coins: int,
    bank_coins: int,
    reply: Seq<char>,
)
    requires
        0 <= chance < 100,
        settled_with(chance, after, user, amount, now, u, user_coins, bank_coins, reply),
        i64::MIN <= user_coins <= i64::MAX,
        i64::MIN <= user_coins + tdiv(bank_coins, 2) <= i64::MAX,
    ensures
        chance < 80 ==> lookup(after, user.id).unwrap().coins == user_coins
            && reply == invested_view(amount as int, user_coins, bank_coins),
        chance >= 80 ==> lookup(after, user.id).unwrap().coins == user_coins + tdiv(bank_coins, 2)
            && reply == dividends_view(tdiv(bank_coins, 2)),
        lookup(after, user.id).unwrap().time_of_last_investment == now,
{
}

/// A trick that scores `points` adds them to the member's style points,
/// notes the time, costs the stake below 20 points, wins it from 85
/// points, leaves the coins alone in between, and changes nothing else.
pub proof fn lemma_trick_scores(u: CoinUser, amount: int, now: u64, points: int)
    requires
        0 <= points < 100,
        u.style_points + points <= i64::MAX,
        i64::MIN <= u.coins - amount <= i64::MAX,
        i64::MIN <= u.coins + amount <= i64::MAX,
    ensures
        after_trick(u, amount, now, points).style_points == u.style_points + points,
        after_trick(u, amount, now, points).time_of_last_trick == now,
        points < 20 ==> after_trick(u, amount, now, points).coins == u.coins - amount,
        points >= 85 ==> after_trick(u, amount, now, points).coins == u.coins + amount,
        20 <= points < 85 ==> after_trick(u, amount, now, points).coins == u.coins,
        after_trick(u, amount, now, points).id == u.id,
        after_trick(u, amount, now, points).xp == u.xp,
        after_trick(u, amount, now, points).level == u.level,
        after_trick(u, amount, now, points).nickname == u.nickname,
        after_trick(u, amount, now, points).display_name == u.display_name,
        after_trick(u, amount, now, points).time_of_last_investment == u.time_of_last_investment,
{
}

/// Training that the member can afford (a stake from 0 up to their coins)
/// is always carried out: the stake leaves their coins, and their
/// experience plus a hundred per level grows by exactly the stake.
pub proof fn lemma_affordable_training_goes_ahead<M, F: Fn(Measure) -> i64>(
    before: Server<M>,
    after: Server<M>,
    user: BotUser,
    input: Seq<Seq<char>>,
    measure: F,
    r: ArenaStep,
    a: i64,
)
    requires
        before.wf(),
        arena_post(before, after, user, input, measure, r),
        asks_training(input),
        input.len() > 3,
        parse_i64_spec(input[3]) == Some(a),
        0 <= a <= record_or_fresh(before.users@, user).coins,
        crate::user::xp_gain_fits(record_or_fresh(before.users@, user).xp as int,
            record_or_fresh(before.users@, user).level as int, a as int),
    ensures
        r matches ArenaStep::Trained { amount, .. } && amount == a,
        lookup(after.users@, user.id).unwrap().coins == record_or_fresh(before.users@, user).coins - a,
        lookup(after.users@, user.id).unwrap().xp + 100 * lookup(after.users@, user.id).unwrap().level
            == record_or_fresh(before.users@, user).xp + 100 * record_or_fresh(before.users@, user).level + a,
{
    let s = before.users@;
    lemma_touch(s, user);
    let s1 = with_user(s, user);
    assert(has_user(s1, user.id)) by {
        assert(lookup(s1, user.id) is Some);
    }
    let i = index_of_user(s1, user.id);
    lemma_index_of_user(s1, user.id, i);
    let u = s1[i];
    assert(u == record_or_fresh(s, user));
    let t = crate::games::after_training(u, a as int);
    lemma_lookup_update(s1, i, t);
    lemma_xp_conserved(u.xp as int, u.level as int, a as int);
}

/// A gift to another member (not the bank) that the giver can afford
/// always goes ahead: the amount leaves the giver and reaches the
/// recipient, and the reply reports both new holdings.
pub proof fn lemma_affordable_gift_goes_ahead<M, F: Fn(Measure) -> i64>(
    before: Server<M>,
    after: Server<M>,
    sender: BotUser,
    recipient: BotUser,
    amount: i64,
    now: u64,
    measure: F,
    reply: Seq<char>,
)
    requires
        before.wf(),
        give_post(before, after, sender, recipient, amount, now, measure, reply),
        sender.id != recipient.id,
        recipient.id != BOT_ID,
        amount <= record_or_fresh(before.users@, sender).coins,
        record_or_fresh(before.users@, sender).coins - amount <= i64::MAX,
        i64::MIN <= record_or_fresh(before.users@, recipient).coins + amount <= i64::MAX,
    ensures
        lookup(after.users@, sender.id).unwrap().coins == record_or_fresh(before.users@, sender).coins - amount,
        lookup(after.users@, recipient.id).unwrap().coins == record_or_fresh(before.users@, recipient).coins + amount,
        reply == gave_view(
            amount as int,
            record_or_fresh(before.users@, recipient).shown_name(),
            record_or_fresh(before.users@, sender).coins - amount,
            record_or_fresh(before.users@, recipient).coins + amount,
        ),
        reply != cannot_afford_view(),
{
    let s = before.users@;
    lemma_touch(s, sender);
    let t = touch_seq(s, sender);
    assert(record_or_fresh(t, recipient) == record_or_fresh(s, recipient));
    assert(lookup(t, sender.id).unwrap().coins == record_or_fresh(s, sender).coins);
    reveal_strlit("You can't afford to give that many coins!");
    reveal_strlit("You gave ");
    assert(reply[0] == 'Y' && reply[4] == 'g');
}

/// A gift to another member is refused exactly when the giver holds fewer
/// coins than it: then nobody's coins change.
pub proof fn lemma_unaffordable_gift_refused<M, F: Fn(Measure) -> i64>(
    before: Server<M>,
    after: Server<M>,
    sender: BotUser,
    recipient: BotUser,
    amount: i64,
    now: u64,
    measure: F,
    reply: Seq<char>,
)
    requires
        before.wf(),
        give_post(before, after, sender, recipient, amount, now, measure, reply),
        sender.id != recipient.id,
        record_or_fresh(before.users@, sender).coins < amount,
    ensures
        reply == cannot_afford_view(),
        forall|id: u64| #[trigger] lookup(after.users@, id) is Some ==> lookup(after.users@, id).unwrap().coins
            == record_or_fresh(before.users@, BotUser { id, ..sender }).coins,
{
    let s = before.users@;
    lemma_touch(s, sender);
    assert forall|id: u64| #[trigger] lookup(after.users@, id) is Some implies lookup(after.users@, id).unwrap().coins
        == record_or_fresh(before.users@, BotUser { id, ..sender }).coins by {
        if id == sender.id {
        } else {
        }
    }
}


/// An affordable gift to the bank is an investment: five times the stake
/// joins the bank's holdings, whatever the draw.
pub proof fn lemma_gift_to_bank_invests<M, F: Fn(Measure) -> i64>(
    before: Server<M>,
    after: Server<M>,
    sender: BotUser,
    amount: i64,
    now: u64,
    measure: F,
    reply: Seq<char>,
)
    requires
        before.wf(),
        give_post(before, after, sender, BotUser { id: BOT_ID, ..sender }, amount, now, measure, reply),
        sender.id != BOT_ID,
        amount <= record_or_fresh(before.users@, sender).coins,
        i64::MIN <= crate::commands::coins_of(before.users@, BOT_ID) + 5 * amount <= i64::MAX,
    ensures
        lookup(after.users@, BOT_ID).unwrap().coins == crate::commands::coins_of(before.users@, BOT_ID) + 5 * amount,
{
    let s = before.users@;
    lemma_touch(s, sender);
    let t = touch_seq(s, sender);
    assert(lookup(t, sender.id).unwrap().coins == record_or_fresh(s, sender).coins);
    assert(crate::commands::coins_of(t, BOT_ID) == crate::commands::coins_of(s, BOT_ID));
}

} // verus!
