use cowardcoin::coin::Coin;
use cowardcoin::coin_type::CoinType;
use cowardcoin::messages::{choose_message, choose_text, MessageType};
use cowardcoin::rarity::Rarity;
use cowardcoin::responses::{ResponseType, ResponseTypeError};
use cowardcoin::schedule::CoinSchedule;

const ALL: [Rarity; 7] = [
    Rarity::NONE,
    Rarity::COMMON,
    Rarity::UNCOMMON,
    Rarity::RARE,
    Rarity::LEGENDARY,
    Rarity::MYTHICAL,
    Rarity::GNOME,
];

#[test]
fn rarity_ids_round_trip() {
    for (i, r) in ALL.iter().enumerate() {
        assert_eq!(r.id(), i as i64);
        assert_eq!(Rarity::from_id(r.id()), *r);
    }
    assert_eq!(Rarity::from_id(7), Rarity::NONE);
    assert_eq!(Rarity::from_id(-1), Rarity::NONE);
    assert_eq!(Rarity::max_id(), 6);
    assert_eq!(Rarity::max_rarity(), Rarity::GNOME);
}

#[test]
fn rarity_words() {
    assert_eq!(Rarity::COMMON.name(), "");
    assert_eq!(Rarity::RARE.name(), "_rare_ ");
    assert_eq!(Rarity::UNCOMMON.a_name(), "an uncommon ");
    assert_eq!(Rarity::GNOME.a_name(), "a gnome ");
    assert_eq!(Rarity::COMMON.a_name(), "a ");
    assert_eq!(Rarity::NONE.a_name(), "none ");
    assert_eq!(Rarity::COMMON.emoji(), "<a:bronzecoin:844545666201288755>");
    assert_eq!(Rarity::NONE.emoji(), "<:mastergirBubby:757618593725808710>");
}

#[test]
fn rarity_exponents() {
    assert_eq!(Rarity::NONE.get_exponent(), 1);
    assert_eq!(Rarity::COMMON.get_exponent(), 10);
    assert_eq!(Rarity::GNOME.get_exponent(), 1_000_000);
}

#[test]
fn rarity_for_draw_follows_the_digits() {
    assert_eq!(Rarity::for_draw(5382), Rarity::RARE);
    assert_eq!(Rarity::for_draw(1), Rarity::GNOME);
    assert_eq!(Rarity::for_draw(42), Rarity::MYTHICAL);
    assert_eq!(Rarity::for_draw(999), Rarity::LEGENDARY);
    assert_eq!(Rarity::for_draw(10000), Rarity::UNCOMMON);
    assert_eq!(Rarity::for_draw(999_999), Rarity::COMMON);
}

#[test]
fn rarity_values() {
    assert_eq!(Rarity::COMMON.calculate_value(), 1);
    assert_eq!(Rarity::GNOME.calculate_value(), -50);
    for _ in 0..50 {
        let v = Rarity::RARE.calculate_value();
        assert!((25..250).contains(&v), "{v}");
        let v = Rarity::UNCOMMON.calculate_value();
        assert!((2..25).contains(&v), "{v}");
    }
    assert_eq!(Rarity::LEGENDARY.value_with_draw(1001), 500);
    assert_eq!(Rarity::COMMON.value_with_draw(1001), 1);
}

#[test]
fn rarity_arithmetic() {
    assert_eq!(Rarity::RARE + 1, Rarity::LEGENDARY);
    assert_eq!(Rarity::GNOME + 1, Rarity::NONE);
    assert_eq!(Rarity::RARE + Rarity::UNCOMMON, Rarity::MYTHICAL);
    assert_eq!(Rarity::LEGENDARY - Rarity::UNCOMMON, Rarity::UNCOMMON);
    assert_eq!(Rarity::COMMON - Rarity::RARE, Rarity::NONE);
}

#[test]
fn generated_rarity_is_a_coin() {
    for _ in 0..5 {
        assert_ne!(Rarity::generate(), Rarity::NONE);
    }
}

#[test]
fn coin_kind_values() {
    assert_eq!(CoinType::NONE.value(), 0);
    assert_eq!(CoinType::GNOME.value(), 6);
    assert_eq!(CoinType::max(), 6);
    for v in 0..8 {
        let t = CoinType::from_value(v);
        if (1..=6).contains(&v) {
            assert_eq!(t.value(), v);
        } else {
            assert_eq!(t, CoinType::NONE);
        }
    }
    assert_eq!(CoinType::NONE.power_zeros(), 1);
    assert_eq!(CoinType::RARE.power_zeros(), 1000);
}

#[test]
fn coin_kind_ranges() {
    assert_eq!(CoinType::COMMON.value_range(), 1..2);
    assert_eq!(CoinType::UNCOMMON.value_range(), 5..30);
    assert_eq!(CoinType::RARE.value_range(), 50..300);
    assert_eq!(CoinType::LEGENDARY.value_range(), 500..3000);
    assert_eq!(CoinType::MYTHICAL.value_range(), 5000..30000);
    assert_eq!(CoinType::GNOME.value_range(), 50000..300000);
    for _ in 0..20 {
        let v = CoinType::RARE.generate_value();
        assert!((50..300).contains(&v));
    }
    assert_eq!(CoinType::COMMON.generate_value(), 1);
}

#[test]
fn coin_kind_choice() {
    assert_eq!(CoinType::coin_for_draw(5382), CoinType::RARE);
    assert_eq!(CoinType::coin_for_draw(7), CoinType::GNOME);
    assert_eq!(CoinType::coin_for_draw(123_456), CoinType::COMMON);
    assert_eq!(CoinType::coin_for_draw(2_000_000_000), CoinType::NONE);
    for _ in 0..3 {
        assert_ne!(CoinType::choose_coin(), CoinType::NONE);
    }
}

#[test]
fn coin_kind_words() {
    assert_eq!(CoinType::NONE.coin_descriptor(), "NO COIN !?!?!?!?!?!?");
    assert_eq!(CoinType::UNCOMMON.coin_descriptor(), "an *Uncommon Coin*");
    assert_eq!(CoinType::GNOME.coin_descriptor(), "the GNOME from GAMES");
    assert_eq!(CoinType::COMMON.to_string(), "coin");
    assert_eq!(CoinType::MYTHICAL.to_string(), "mythical coin");
    assert_eq!(CoinType::GNOME.to_string(), "gnome");
}

#[test]
fn coins_arrive_and_escape() {
    let common = Coin { value: 1, rarity: Rarity::COMMON };
    assert_eq!(
        common.arrival_message(),
        "<a:bronzecoin:844545666201288755> | A coin appeared!"
    );
    let rare = Coin { value: 120, rarity: Rarity::RARE };
    assert_eq!(
        rare.arrival_message(),
        "<a:gold:1038495846074941440> | **WOW**! A _rare_ coin appeared!\n<a:gold:1038495846074941440> | It's worth 120 coins!"
    );
    let gnome = Coin { value: -50, rarity: Rarity::GNOME };
    assert_eq!(
        gnome.arrival_message(),
        "<:gnomeZoom:1079734801831047248> | A bell tolls in the distance.\nThe gnome makes his entrance...\n<:gnomeZoom:1079734801831047248> | He's worth probably infinite coins lol"
    );
    assert_eq!(
        common.escape_message_with(2, 1),
        "🏃 The <a:bronzecoin:844545666201288755> coin escaped!"
    );
    let one = Coin { value: 1, rarity: Rarity::UNCOMMON };
    assert_eq!(
        one.escape_message_with(0, 0),
        "🏃‍♂️ The <a:silvercoin:844545665911881788> uncommon coin (worth 1 coin) ran away..."
    );
    assert_eq!(
        gnome.escape_message_with(8, 5),
        "<a:violence:726858564509106216> The <:gnomeZoom:1079734801831047248> gnome (worth probably infinite coins) catches on fire, and dies!"
    );
    let e = rare.escape_message();
    assert!(e.contains("The <a:gold:1038495846074941440> _rare_ coin (worth 120 coins) "));
}

#[test]
fn new_coins_have_fair_values() {
    assert!(Coin::none().is_none());
    for _ in 0..5 {
        let c = Coin::new();
        assert!(!c.is_none());
        match c.rarity {
            Rarity::COMMON => assert_eq!(c.value, 1),
            Rarity::GNOME => assert_eq!(c.value, -50),
            _ => assert!(c.value >= 2),
        }
    }
}

#[test]
fn response_texts() {
    assert_eq!(ResponseTypeError::InvalidTypeConversion.message(), "Invalid ResponseType Conversion");
    assert_eq!(ResponseTypeError::UnhandledResponseType.message(), "Not Implemented Error");
    assert_eq!(ResponseType::from("hello".to_string()).text(), "hello");
    assert_eq!(ResponseType::MsgRarity(Rarity::RARE).text(), "_rare_ ");
    assert_eq!(ResponseType::MsgCoin(Coin { value: 3, rarity: Rarity::UNCOMMON }).text(), "uncommon ");
}

#[test]
fn messages_are_chosen_from_their_list() {
    let options = vec![MessageType::from("one"), MessageType::from("two".to_string())];
    for _ in 0..10 {
        let m = choose_message(&options);
        assert!(m == "one" || m == "two");
    }
    assert_eq!(choose_message(&vec![MessageType::from("only")]), "only");
    assert_eq!(MessageType::from("x").format(), "x");
    assert_eq!(choose_text(&vec!["just this"]), "just this");
}

#[test]
fn coin_schedule_waits_fifteen_to_twenty_five_minutes() {
    let mut s = CoinSchedule::start(1_000);
    assert_eq!(s.started, 1_000);
    assert_eq!(s.wait % 1_000_000_000, 0);
    assert!(s.wait >= 900_000_000_000 && s.wait < 1_500_000_000_000);
    assert!(!s.due(1_000 + s.wait));
    assert!(s.due(1_001 + s.wait));
    s.restart(5_000);
    assert_eq!(s.started, 5_000);
    assert!(s.wait >= 900_000_000_000 && s.wait < 1_500_000_000_000);
}
