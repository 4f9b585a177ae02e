use cowardcoin::bot_user::BotUser;
use cowardcoin::coin::Coin;
use cowardcoin::commands::Measure;
use cowardcoin::communication::{read_message, read_text, Command};
use cowardcoin::dispatch::{Announcement, Pending, Step};
use cowardcoin::environment::BOT_ID;
use cowardcoin::games::ArenaStep;
use cowardcoin::rarity::Rarity;
use cowardcoin::server::Server;
use cowardcoin::user::CoinUser;

const HOUR: u64 = 3_600_000_000_000;
const MINUTE: u64 = 60_000_000_000;
const NOW: u64 = 1_700_000_000_000_000_000;

fn who(id: u64, name: &str) -> BotUser {
    BotUser { display_name: name.to_string(), nickname: None, id }
}

fn measure(q: Measure) -> i64 {
    match q {
        Measure::XpCap { level } => 100 + 10 * (level - 1),
        Measure::TrickAllowance { coins, .. } => coins,
        Measure::RequiredLevel { amount, coins } => amount / coins.abs().max(1) + 1,
        Measure::MarketShift { coins, permille } => coins * permille / 1000,
    }
}

fn record(id: u64, name: &str, coins: i64) -> CoinUser {
    let mut u = CoinUser::new(id, None, name.to_string());
    u.coins = coins;
    u
}

fn server(records: Vec<CoinUser>) -> Server<u32> {
    Server::from_records(records, 0)
}

fn coins_of(s: &Server<u32>, id: u64) -> i64 {
    s.users.iter().find(|u| u.id == id).map(|u| u.coins).unwrap_or(0)
}

fn total(s: &Server<u32>) -> i64 {
    s.users.iter().map(|u| u.coins).sum()
}

#[test]
fn records_are_kept_sorted_and_unique() {
    let mut s = server(vec![record(5, "E", 1), record(2, "B", 2), record(5, "E2", 3), record(9, "I", 4)]);
    let ids: Vec<u64> = s.users.iter().map(|u| u.id).collect();
    assert_eq!(ids, vec![2, 5, 9]);
    assert_eq!(s.users[1].display_name, "E");
    assert_eq!(s.users[1].coins, 1);
    let (a, b) = s.get_mut_users_from_ids(&who(9, "I"), &who(2, "B"));
    assert_eq!((a, b), (2, 0));
    let i = s.get_mut_user_from_id(&who(7, "G"));
    assert_eq!(s.users[i].id, 7);
    assert_eq!(s.users[i].display_name, "G");
    let ids: Vec<u64> = s.users.iter().map(|u| u.id).collect();
    assert_eq!(ids, vec![2, 5, 7, 9]);
    let again = s.get_mut_user_from_id(&who(7, "Other"));
    assert_eq!(again, i);
    assert_eq!(s.users.len(), 4);
    assert_eq!(s.users[i].display_name, "G");
    assert_eq!(s.find_user(9), Ok(3));
    assert_eq!(s.find_user(3), Err(1));
}

#[test]
fn seeing_a_member_renames_them() {
    let mut s = server(vec![record(2, "Old", 6)]);
    let mut b = who(2, "New");
    b.nickname = Some("Nicky".to_string());
    let i = s.get_user_from_id(&b);
    assert_eq!(s.users[i].display_name, "New");
    assert_eq!(s.users[i].nickname.as_deref(), Some("Nicky"));
    assert_eq!(s.users[i].coins, 6);
    let i = s.get_user_from_id(&who(2, "Newer"));
    assert_eq!(s.users[i].display_name, "Newer");
    assert_eq!(s.users[i].nickname.as_deref(), Some("Nicky"));
}

#[test]
fn two_members_at_once() {
    let mut s = server(vec![record(4, "D", 1)]);
    let (a, b) = s.get_two_mut_users(&who(4, "D"), &who(1, "A"));
    assert_eq!(s.users[a].id, 4);
    assert_eq!(s.users[b].id, 1);
    assert_eq!(s.users.len(), 2);
    s.sort_by_ids();
    assert_eq!(s.users[0].id, 1);
}

#[test]
fn tricks_need_coins_level_and_rest() {
    let mut s = server(vec![record(1, "A", 0)]);
    assert_eq!(
        s.trick(&who(1, "A"), 5, NOW, &measure),
        "You need to have at least 1 coin to do a trick."
    );
    let mut s = server(vec![record(1, "A", 10)]);
    assert_eq!(
        s.trick(&who(1, "A"), 40, NOW, &measure),
        "You aren't powerful enough for a trick as dangerous as that!\nTry getting to level 5 in the **COIN ARENA** first..."
    );
    let mut rested = record(1, "A", 10);
    rested.time_of_last_trick = NOW - HOUR;
    let mut s = server(vec![rested]);
    assert_eq!(
        s.trick(&who(1, "A"), 5, NOW, &measure),
        "You're too weak after your last trick! Try again in 3 hours, and 0 seconds."
    );
    assert_eq!(coins_of(&s, 1), 10);
}

#[test]
fn a_trick_for_nothing_scores_nothing() {
    let mut s = server(vec![record(1, "A", 10)]);
    let r = s.trick(&who(1, "A"), 0, NOW, &measure);
    assert!(r.starts_with("You "));
    assert!(r.contains("You lose 0 coins...\nYou now have 10 coins.\n"));
    assert!(r.ends_with("You gained 0 StylePoints™."));
    assert_eq!(s.users[0].time_of_last_trick, NOW);
    assert_eq!(s.users[0].style_points, 0);
}

#[test]
fn a_trick_wins_loses_or_keeps_the_stake() {
    for _ in 0..20 {
        let mut s = server(vec![record(1, "A", 10)]);
        let r = s.trick(&who(1, "A"), 4, NOW, &measure);
        let u = &s.users[0];
        assert!((1..100).contains(&u.style_points));
        assert!(r.ends_with(&format!("You gained {} StylePoints™.", u.style_points)));
        if u.style_points >= 85 {
            assert_eq!(u.coins, 14);
            assert!(r.contains("You gain 4 coins!!\nYou now have 14 coins.\n"));
        } else if u.style_points < 20 {
            assert_eq!(u.coins, 6);
            assert!(r.contains("You lose 4 coins...\nYou now have 6 coins.\n"));
        } else {
            assert_eq!(u.coins, 10);
        }
    }
}

#[test]
fn gifts_move_coins_between_members() {
    let mut s = server(vec![record(1, "A", 20)]);
    let before = total(&s);
    let r = s.give_coin(&who(1, "A"), &who(2, "Bob"), 5, NOW, &measure);
    assert_eq!(r, "You gave 5 coins to Bob!\nYou now have 15 coins.\nBob now has 5 coins.");
    assert_eq!(coins_of(&s, 1), 15);
    assert_eq!(coins_of(&s, 2), 5);
    assert_eq!(total(&s), before);
    let r = s.give_coin(&who(2, "Bob"), &who(1, "A"), 1, NOW, &measure);
    assert_eq!(r, "You gave 1 coin to A!\nYou now have 4 coins.\nA now has 16 coins.");
    assert_eq!(total(&s), before);
}

#[test]
fn gifts_beyond_means_are_refused() {
    let mut s = server(vec![record(1, "A", 3)]);
    let r = s.give_coin(&who(1, "A"), &who(2, "Bob"), 5, NOW, &measure);
    assert_eq!(r, "You can't afford to give that many coins!");
    assert_eq!(coins_of(&s, 1), 3);
    assert_eq!(s.users.len(), 1);
}

#[test]
fn a_gift_to_oneself_is_a_trick() {
    let mut s = server(vec![record(1, "A", 0)]);
    let r = s.give_coin(&who(1, "A"), &who(1, "A"), 5, NOW, &measure);
    assert_eq!(r, "You need to have at least 1 coin to do a trick.");
}

#[test]
fn investments_feed_the_bank() {
    let mut s = server(vec![record(1, "A", 100)]);
    let r = s.give_coin(&who(1, "A"), &who(BOT_ID, ""), 10, NOW, &measure);
    assert_eq!(coins_of(&s, BOT_ID), 50);
    if coins_of(&s, 1) == 90 {
        assert_eq!(
            r,
            "You have invested 10 coins in the CowardCoin Bank™.\nYou now have 90 coins.\nThere are now 50 coins in the CowardCoin Bank™."
        );
    } else {
        assert_eq!(coins_of(&s, 1), 115);
        assert_eq!(
            r,
            "Congratulations! Your investments have paid off! \nYou receive 25 coins in dividends from the CowardCoin Bank™."
        );
    }
    let i = s.find_user(1).unwrap();
    assert_eq!(s.users[i].time_of_last_investment, NOW);
}

#[test]
fn investments_wait_for_the_market() {
    let mut early = record(1, "A", 100);
    early.time_of_last_investment = NOW - MINUTE;
    let mut s = server(vec![early]);
    let r = s.invest(&who(1, "A"), 10, NOW);
    assert_eq!(
        r,
        "The stock market's still shifting... You can't make any more investments for another 9 minutes, and 0 seconds."
    );
    assert_eq!(coins_of(&s, 1), 90);
    assert_eq!(coins_of(&s, BOT_ID), 50);
}

#[test]
fn the_arena_trains_for_coins() {
    let mut s = server(vec![record(1, "A", 20)]);
    let words = vec!["coin".to_string(), "arena".to_string(), "TRAIN".to_string(), "10".to_string()];
    match s.arena(&who(1, "A"), words, &measure) {
        ArenaStep::Trained { amount, response } => {
            assert_eq!(amount, 10);
            assert_eq!(response, "");
        }
        ArenaStep::Reply(t) => panic!("unexpected reply {t}"),
    }
    assert_eq!(s.users[0].coins, 10);
    assert_eq!(s.users[0].xp, 10);
    let done = Server::<u32>::finish_training(10, "", Ok(()));
    assert!(done.starts_with("You pay 10 CowardCoins to "));
    assert!(done.ends_with(". You gain 10 XP."));
    assert_eq!(
        Server::<u32>::finish_training(10, "", Err("disk full".to_string())),
        "Error saving to file: disk full"
    );
}

#[test]
fn the_arena_refuses_bad_training() {
    let cases: Vec<(Vec<&str>, &str)> = vec![
        (vec!["coin", "arena", "train"], "Please format your message `coin arena train <number>`."),
        (vec!["coin", "arena", "train", "x"], "Please format your message `coin arena train <number>`."),
        (vec!["coin", "arena", "train", "50"], "You can't afford to train _that_ hard in the arena."),
        (vec!["coin", "arena", "train", "-5"], "Nice try..."),
    ];
    for (words, expected) in cases {
        let mut s = server(vec![record(1, "A", 20)]);
        let words: Vec<String> = words.iter().map(|w| w.to_string()).collect();
        match s.arena(&who(1, "A"), words, &measure) {
            ArenaStep::Reply(t) => assert_eq!(t, expected),
            ArenaStep::Trained { .. } => panic!("should not train"),
        }
        assert_eq!(s.users[0].coins, 20);
    }
}

#[test]
fn the_arena_welcomes_newcomers() {
    let mut s = server(vec![]);
    let words = vec!["coin".to_string(), "arena".to_string()];
    match s.arena(&who(3, "Al"), words, &measure) {
        ArenaStep::Reply(t) => assert_eq!(
            t,
            "\nWelcome to the **COIN ARENA**!\n\nHarmless Al - Lv. 1 - 0 Coins\n[░░░░░░░░░░] - 0/100\nGive 100 more coins to reach the next level.\nTo train, use `coin arena train [number]`.\n\nYour current strength allows you to perform a **Coin Trick** worth 0 coins.\n\t"
        ),
        ArenaStep::Trained { .. } => panic!("should not train"),
    }
    assert_eq!(s.users.len(), 1);
}

#[test]
fn coins_appear_once_and_are_claimed_once() {
    let mut s = server(vec![]);
    let arrival = s.create_coin().expect("a coin should appear");
    assert_eq!(arrival, s.coin.arrival_message());
    assert!(s.create_coin().is_none());
    s.coin = Coin { value: 1, rarity: Rarity::COMMON };
    let claim = s.claim_coin(&who(1, "A")).expect("the coin is there");
    assert_eq!(coins_of(&s, 1), 1);
    s.set_coin_message(42);
    let (text, message) = s.settle_claim(&claim, Ok(()));
    assert_eq!(
        text,
        "<a:bronzecoin:844545666201288755> | You got a coin!\n<a:bronzecoin:844545666201288755> | You gained 1 coin!\n<a:bronzecoin:844545666201288755> | You now have 1 coin."
    );
    assert_eq!(message, Some(42));
    assert!(s.coin.is_none());
    assert!(s.claim_coin(&who(2, "B")).is_none());
}

#[test]
fn a_failed_save_keeps_the_coin() {
    let mut s = server(vec![]);
    s.coin = Coin { value: 30, rarity: Rarity::RARE };
    let claim = s.claim_coin(&who(1, "A")).unwrap();
    let (text, message) = s.settle_claim(&claim, Err("no space".to_string()));
    assert_eq!(text, "Error saving to file: no space");
    assert_eq!(message, None);
    assert_eq!(s.coin.rarity, Rarity::RARE);
}

#[test]
fn coin_counts_and_leaderboard() {
    let mut s = server(vec![record(1, "A", 5), record(2, "B", 10), record(BOT_ID, "", 7), record(3, "C", 5)]);
    assert_eq!(s.count_one(&who(1, "A"), &measure), "**A** \n> - 5 coins");
    assert_eq!(
        s.coin_count(vec![who(2, "B"), who(9, "New")], &measure),
        "**B** \n> - 10 coins\n**New** \n> - 0 coins"
    );
    let mut s = server(vec![record(1, "A", 5), record(2, "B", 10), record(BOT_ID, "", 7), record(3, "C", 5)]);
    assert_eq!(
        s.coin_leaderboard(&who(1, "A")),
        "1. B - 10 coins\n2. _The CowardCoin™ Bank_ - 7 coins\n3. C - 5 coins\n4. **A** - 5 coins\n> You are at position 4 on the leaderboard."
    );
}

#[test]
fn the_market_moves_hourly() {
    let mut s = server(vec![record(BOT_ID, "", 1000)]);
    s.update_coins(NOW, &measure);
    assert_eq!(s.time_of_last_interest, NOW);
    let moved = coins_of(&s, BOT_ID);
    assert!((850..1150).contains(&moved));
    s.update_coins(NOW + HOUR, &measure);
    assert_eq!(coins_of(&s, BOT_ID), moved);
    assert_eq!(s.time_of_last_interest, NOW);
}

#[test]
fn messages_are_read_as_commands() {
    let me = || who(1, "Me");
    let r: Command<u32> = read_message(vec!["get"], vec![], me());
    assert!(matches!(r, Command::GetCoin(u) if u.id == 1));
    let r: Command<u32> = read_message(vec!["hello", "coin"], vec![], me());
    assert!(matches!(r, Command::NoCommand));
    let r: Command<u32> = read_message(vec![], vec![], me());
    assert!(matches!(r, Command::NoCommand));
    let r: Command<u32> = read_message(vec!["coin"], vec![], me());
    assert!(matches!(r, Command::GetCoin(_)));
    let r: Command<u32> = read_message(vec!["coin", "count"], vec![], me());
    assert!(matches!(r, Command::CoinCount(u) if u.id == 1));
    let r: Command<u32> = read_message(vec!["coin", "count"], vec![who(4, "D"), who(5, "E")], me());
    assert!(matches!(r, Command::CoinCountMultiple(v) if v.len() == 2 && v[1].id == 5));
    let r: Command<u32> = read_message(vec!["coin", "leaderboard"], vec![], me());
    assert!(matches!(r, Command::CoinLeaderboard(_)));
    let r: Command<u32> = read_message(vec!["coin", "give", "5", "and", "3"], vec![who(4, "D")], me());
    assert!(matches!(r, Command::GiveCoin(a, b, 8) if a.id == 1 && b.id == 4));
    let r: Command<u32> = read_message(vec!["coin", "give", "5"], vec![], me());
    assert!(matches!(r, Command::Error("You haven't mentioned anyone to give coins to.")));
    let r: Command<u32> = read_message(vec!["coin", "give", "5"], vec![who(4, "D"), who(5, "E")], me());
    assert!(matches!(r, Command::Error("You can only give coins to one person.")));
    let r: Command<u32> = read_message(vec!["coin", "give", "0"], vec![who(4, "D")], me());
    assert!(matches!(r, Command::Error("Please make sure you're giving at least one coin.")));
    let r: Command<u32> = read_message(vec!["coin", "give", "-3"], vec![who(4, "D")], me());
    assert!(matches!(r, Command::Error("You can't give negative coins!")));
    let r: Command<u32> = read_message(vec!["coin", "invest", "10"], vec![], me());
    assert!(matches!(r, Command::Invest(_, 10)));
    let r: Command<u32> = read_message(vec!["coin", "invest"], vec![], me());
    assert!(matches!(r, Command::Error("Please make sure you're giving at least one coin.")));
    let r: Command<u32> = read_message(vec!["coin", "arena", "train", "5"], vec![], me());
    assert!(matches!(r, Command::Arena(_, w) if w == vec!["coin", "arena", "train", "5"]));
    let r: Command<u32> = read_message(vec!["coin", "eat"], vec![], me());
    assert!(matches!(r, Command::EatCoin(_, 1)));
    let r: Command<u32> = read_message(vec!["coin", "eat", "3"], vec![], me());
    assert!(matches!(r, Command::EatCoin(_, 3)));
    let r: Command<u32> = read_message(vec!["coin", "dance"], vec![], me());
    assert!(matches!(r, Command::GetCoin(_)));
}

#[test]
fn chat_text_is_lowered_and_split() {
    let r: Option<Command<u32>> = read_text("COIN LeaderBoard", vec![], who(1, "Me"));
    assert!(matches!(r, Some(Command::CoinLeaderboard(_))));
    let r: Option<Command<u32>> = read_text("Coin Give 2 2", vec![who(4, "D")], who(1, "Me"));
    assert!(matches!(r, Some(Command::GiveCoin(_, _, 4))));
    let r: Option<Command<u32>> = read_text("coin invest 9223372036854775807 1", vec![], who(1, "Me"));
    assert!(r.is_none());
    let r: Option<Command<u32>> = read_text("coin count 9223372036854775807 1", vec![], who(1, "Me"));
    assert!(matches!(r, Some(Command::CoinCount(_))));
}

#[test]
fn saving_commands() {
    let me = || who(1, "Me");
    assert!(Command::<u32>::GetCoin(me()).should_save());
    assert!(Command::<u32>::Trick(me(), 1).should_save());
    assert!(Command::<u32>::Arena(me(), vec![]).should_save());
    assert!(!Command::<u32>::CoinCount(me()).should_save());
    assert!(!Command::<u32>::CreateCoin.should_save());
    assert!(!Command::<u32>::Error("x").should_save());
}

#[test]
fn running_commands() {
    let mut s = server(vec![record(1, "A", 2)]);
    assert!(matches!(
        s.run_command(Command::GetCoin(who(1, "A")), NOW, &measure),
        Step::Done(o) if o.reply.is_none() && matches!(o.announcement, Announcement::Keep)
    ));
    match s.run_command(Command::CreateCoin, NOW, &measure) {
        Step::Done(o) => assert_eq!(o.reply, Some(s.coin.arrival_message())),
        Step::Save(_) => panic!("nothing to save"),
    }
    s.run_command(Command::CoinCreateNotification(7), NOW, &measure);
    assert_eq!(s.coin_message, Some(7));
    let value = s.coin.value;
    let pending = match s.run_command(Command::GetCoin(who(1, "A")), NOW, &measure) {
        Step::Save(p) => p,
        Step::Done(_) => panic!("the claim must be saved first"),
    };
    assert!(matches!(pending, Pending::Claim(_)));
    assert_eq!(coins_of(&s, 1), 2 + value);
    let out = s.resume(pending, Ok(()));
    assert!(out.reply.unwrap().contains("You now have"));
    assert!(matches!(out.announcement, Announcement::Delete(7)));
    assert!(s.coin.is_none());
    assert!(s.coin_message.is_none());

    match s.run_command(Command::Error("Oops"), NOW, &measure) {
        Step::Done(o) => assert_eq!(o.reply.as_deref(), Some("Oops")),
        Step::Save(_) => panic!(),
    }
    assert!(matches!(
        s.run_command(Command::EatCoin(who(1, "A"), 1), NOW, &measure),
        Step::Done(o) if o.reply.is_none()
    ));
}

#[test]
fn coins_escape_and_messages_clear() {
    let mut s = server(vec![]);
    s.coin = Coin { value: 1, rarity: Rarity::COMMON };
    s.set_coin_message(9);
    assert!(matches!(
        s.run_command(Command::ClearCoin, NOW, &measure),
        Step::Done(o) if matches!(o.announcement, Announcement::DeleteStored)
    ));
    assert_eq!(s.coin_message, Some(9));
    match s.run_command(Command::CoinEscape, NOW, &measure) {
        Step::Done(o) => match o.announcement {
            Announcement::Edit(m, text) => {
                assert_eq!(m, 9);
                assert!(text.contains(" The <a:bronzecoin:844545666201288755> coin "));
            }
            _ => panic!("the announcement should be edited"),
        },
        Step::Save(_) => panic!(),
    }
    assert!(s.coin.is_none());
    assert!(s.coin_message.is_none());
    assert!(matches!(
        s.run_command(Command::CoinEscape, NOW, &measure),
        Step::Done(o) if matches!(o.announcement, Announcement::Keep)
    ));
}

#[test]
fn arena_training_through_commands() {
    let mut s = server(vec![record(1, "A", 20)]);
    let words = vec!["coin".to_string(), "arena".to_string(), "train".to_string(), "150".to_string()];
    match s.run_command(Command::Arena(who(1, "A"), words), NOW, &measure) {
        Step::Done(o) => assert_eq!(o.reply.as_deref(), Some("You can't afford to train _that_ hard in the arena.")),
        Step::Save(_) => panic!(),
    }
    let mut s = server(vec![record(1, "A", 200)]);
    let words = vec!["coin".to_string(), "arena".to_string(), "train".to_string(), "150".to_string()];
    let pending = match s.run_command(Command::Arena(who(1, "A"), words), NOW, &measure) {
        Step::Save(p) => p,
        Step::Done(_) => panic!("training must be saved first"),
    };
    assert!(matches!(&pending, Pending::Training { amount: 150, response } if response == "\nYou are now Level 2!"));
    let out = s.resume(pending, Ok(()));
    assert!(out.reply.unwrap().ends_with(". You gain 150 XP.\nYou are now Level 2!"));
}

#[test]
fn seeing_twice_is_seeing_once() {
    let mut s = server(vec![record(2, "Old", 6), record(4, "D", 1)]);
    let mut b = who(3, "New");
    b.nickname = Some("Nicky".to_string());
    s.get_user_from_id(&b);
    let once: Vec<(u64, Option<String>, String, i64)> =
        s.users.iter().map(|u| (u.id, u.nickname.clone(), u.display_name.clone(), u.coins)).collect();
    s.get_user_from_id(&b);
    let twice: Vec<(u64, Option<String>, String, i64)> =
        s.users.iter().map(|u| (u.id, u.nickname.clone(), u.display_name.clone(), u.coins)).collect();
    assert_eq!(once, twice);
    assert_eq!(once.len(), 3);
}

#[test]
fn commands_are_checked_before_they_run() {
    let mut late = record(1, "A", 10);
    late.time_of_last_trick = NOW + HOUR;
    let mut trained = record(2, "B", 10);
    trained.level = 3;
    trained.xp = 300;
    let mut s = server(vec![late, trained]);
    s.time_of_last_interest = NOW;
    assert!(s.command_fits(&Command::GetCoin(who(1, "A")), NOW));
    assert!(!s.command_fits(&Command::CoinLeaderboard(who(7, "G")), NOW));
    assert!(s.command_fits(&Command::CoinLeaderboard(who(1, "A")), NOW));
    assert!(!s.command_fits(&Command::Trick(who(1, "A"), 1), NOW));
    assert!(s.command_fits(&Command::Trick(who(1, "A"), 1), NOW + HOUR));
    assert!(!s.command_fits(&Command::UpdateCoins, NOW - 1));
    assert!(s.command_fits(&Command::UpdateCoins, NOW));
    assert!(!s.command_fits(&Command::CoinCount(who(2, "B")), NOW));
    assert!(s.command_fits(&Command::CoinCount(who(1, "A")), NOW));
    assert!(!s.command_fits(&Command::CoinCountMultiple(vec![who(1, "A"), who(2, "B")]), NOW));
    assert!(!s.command_fits(&Command::Invest(who(BOT_ID, ""), 5), NOW));
    assert!(!s.command_fits(&Command::Invest(who(1, "A"), i64::MAX), NOW));
    assert!(s.command_fits(&Command::Invest(who(1, "A"), 5), NOW));
    assert!(!s.command_fits(&Command::<u32>::NoCommand, NOW));
    assert!(s.command_fits(&Command::GiveCoin(who(1, "A"), who(3, "C"), 5), NOW));
    assert!(s.command_fits(&Command::GiveCoin(who(1, "A"), who(3, "C"), 500), NOW));
}

#[test]
fn checked_runs_refuse_what_cannot_run() {
    let mut s = server(vec![record(1, "A", 10)]);
    assert!(s.run_command_checked(Command::CoinLeaderboard(who(7, "G")), NOW, &measure).is_none());
    assert_eq!(s.users.len(), 1);
    match s.run_command_checked(Command::CoinLeaderboard(who(1, "A")), NOW, &measure) {
        Some(Step::Done(o)) => assert_eq!(
            o.reply.as_deref(),
            Some("1. **A** - 10 coins\n> You are at position 1 on the leaderboard.")
        ),
        _ => panic!("the leaderboard should be shown"),
    }
}

#[test]
fn investments_settle_by_the_draw() {
    let mut s = server(vec![record(1, "A", 90), record(2, "Bank", 50)]);
    let r = s.settle_investment(0, 1, 10, 79);
    assert_eq!(
        r,
        "You have invested 10 coins in the CowardCoin Bank™.\nYou now have 90 coins.\nThere are now 50 coins in the CowardCoin Bank™."
    );
    assert_eq!((s.users[0].coins, s.users[1].coins), (90, 50));
    let r = s.settle_investment(0, 1, 10, 80);
    assert_eq!(
        r,
        "Congratulations! Your investments have paid off! \nYou receive 25 coins in dividends from the CowardCoin Bank™."
    );
    assert_eq!((s.users[0].coins, s.users[1].coins), (115, 50));
}

#[test]
fn gifts_are_answered_at_once() {
    let mut s = server(vec![record(1, "A", 3)]);
    match s.run_command(Command::GiveCoin(who(1, "A"), who(2, "Bob"), 5), NOW, &measure) {
        Step::Done(o) => assert_eq!(o.reply.as_deref(), Some("You can't afford to give that many coins!")),
        Step::Save(_) => panic!("gifts are not saved first"),
    }
    match s.run_command(Command::GiveCoin(who(1, "A"), who(2, "Bob"), 2), NOW, &measure) {
        Step::Done(o) => assert_eq!(
            o.reply.as_deref(),
            Some("You gave 2 coins to Bob!\nYou now have 1 coin.\nBob now has 2 coins.")
        ),
        Step::Save(_) => panic!("gifts are not saved first"),
    }
}

#[test]
fn a_claim_without_a_coin_needs_nothing() {
    let s = server(vec![record(1, "A", i64::MAX)]);
    assert!(s.command_fits(&Command::GetCoin(who(1, "A")), NOW));
}

#[test]
fn only_coin_and_get_messages_are_read() {
    assert!(cowardcoin::communication::may_be_command("Coin count"));
    assert!(cowardcoin::communication::may_be_command("GET"));
    assert!(cowardcoin::communication::may_be_command("getaway"));
    assert!(!cowardcoin::communication::may_be_command("hello coin"));
    assert!(!cowardcoin::communication::may_be_command("co"));
}
