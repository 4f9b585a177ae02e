use cowardcoin::user::CoinUser;

fn member(level: i64, xp: i64, coins: i64, style_points: i64) -> CoinUser {
    let mut u = CoinUser::new(7, Some("Nick".to_string()), "Disp".to_string());
    u.level = level;
    u.xp = xp;
    u.coins = coins;
    u.style_points = style_points;
    u
}

#[test]
fn new_members_start_at_level_one() {
    let u = CoinUser::new(3, None, "Someone".to_string());
    assert_eq!(u.id, 3);
    assert_eq!(u.nickname, None);
    assert_eq!(u.display_name, "Someone");
    assert_eq!((u.coins, u.style_points, u.xp, u.level), (0, 0, 0, 1));
    assert_eq!((u.time_of_last_trick, u.time_of_last_investment), (0, 0));
    assert_eq!(u.shown_name_text(), "Someone");
    assert_eq!(member(1, 0, 0, 0).shown_name_text(), "Nick");
}

#[test]
fn experience_turns_into_levels() {
    let mut u = member(1, 90, 0, 0);
    u.add_xp(25);
    assert_eq!((u.xp, u.level), (15, 2));
    let mut u = member(1, 0, 0, 0);
    u.add_xp(250);
    assert_eq!((u.xp, u.level), (50, 3));
    let mut u = member(4, 10, 0, 0);
    u.add_xp(89);
    assert_eq!((u.xp, u.level), (99, 4));
    let mut u = member(4, 10, 0, 0);
    u.add_xp(-30);
    assert_eq!((u.xp, u.level), (-20, 4));
}

#[test]
fn experience_total_is_conserved() {
    for (xp, amount) in [(0, 0), (99, 1), (50, 1234), (0, 100), (37, 963)] {
        let mut u = member(2, xp, 0, 0);
        u.add_xp(amount);
        assert_eq!(u.xp + 100 * u.level, xp + 100 * 2 + amount);
        assert!((0..100).contains(&u.xp));
    }
}

#[test]
fn level_up_is_announced() {
    let mut u = member(2, 50, 0, 0);
    assert_eq!(u.add_xp_with_response(160), "\nYou are now Level 4!");
    assert_eq!(u.xp, 10);
    assert_eq!(u.add_xp_with_response(5), "");
}

#[test]
fn arena_titles() {
    assert_eq!(member(0, 0, 0, 0).arena_title(), "Harmless");
    assert_eq!(member(4, 0, 0, 0).arena_title(), "Harmless");
    assert_eq!(member(5, 0, 0, 0).arena_title(), "Mostly Harmless");
    assert_eq!(member(50, 0, 0, 0).arena_title(), "Top Of The Bell Curve");
    assert_eq!(member(100, 0, 0, 0).arena_title(), "SUPREME COIN CHAMPION FOREVER");
    assert_eq!(member(1000, 0, 0, 0).arena_title(), "won it back?");
    assert_eq!(member(100_000_000_000, 0, 0, 0).arena_title(), "Betrayed by the Coin Ascendancy");
    assert_eq!(member(100_000_000_001, 0, 0, 0).arena_title(), "Buried in a Hole");
    assert_eq!(member(-1, 0, 0, 0).arena_title(), "Buried in a Hole");
}

#[test]
fn experience_bars() {
    assert_eq!(member(1, 50, 0, 0).xp_bar(100), "░░░░░░░░░░");
    assert_eq!(member(1, 150, 0, 0).xp_bar(100), "▓▓▓▓▓▓▓▓▓▓");
    assert_eq!(member(1, 0, 0, 0).xp_bar(100), "░░░░░░░░░░");
}

#[test]
fn coin_count_entries() {
    let u = member(5, 20, 3, 2);
    assert_eq!(
        u.coin_count_message(140),
        "Mostly Harmless **Nick** (Lv. 5)\n> - 3 coins\n> - 2 StylePoints™\n> - [░░░░░░░░░░] - 20/140"
    );
    let fresh = CoinUser::new(1, None, "Disp".to_string());
    assert_eq!(fresh.coin_count_message(100), "**Disp** \n> - 0 coins");
    let one = member(1, 0, 1, 1);
    assert_eq!(one.coin_count_message(100), "**Nick** \n> - 1 coin\n> - 1 StylePoint™");
}

#[test]
fn members_compare_by_identifier() {
    let a = member(1, 0, 5, 0);
    let mut b = member(9, 9, 9, 9);
    assert!(a == b);
    b.id = 8;
    assert!(a < b);
    assert_eq!(a.partial_cmp(&b), Some(std::cmp::Ordering::Less));
}
