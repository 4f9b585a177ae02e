use cowardcoin::ledger::{ledger_text, read_ledger, Serialisable, User};

#[test]
fn test_serialise() {
    let to_deserialise: String = "1;2".into();
    let deserialised = User::deserialise(to_deserialise.clone());
    let reserialised = deserialised.serialise();
    println!("{}", to_deserialise);
    println!("{}", reserialised);
    assert!(to_deserialise == reserialised, "Serialisation failed");
    assert!(User::deserialise("1".into()).serialise() == "1;0");
}

#[test]
fn negative_fields_round_trip() {
    let u = User { user_id: -7, coin_count: -2147483648 };
    let line = u.serialise();
    assert_eq!(line, "-7;-2147483648");
    let back = User::deserialise(line);
    assert_eq!(back.user_id, -7);
    assert_eq!(back.coin_count, -2147483648);
}

#[test]
fn signed_fields_are_read() {
    let u = User::deserialise("+12;-3".to_string());
    assert_eq!(u.user_id, 12);
    assert_eq!(u.coin_count, -3);
    assert_eq!(u.get_id(), 12);
}

#[test]
fn split_string_gives_fields() {
    let line = "4;5".to_string();
    let parts = User::split_string(&line);
    assert_eq!(parts, vec!["4", "5"]);
    let single = "4".to_string();
    assert_eq!(User::split_string(&single), vec!["4"]);
}

#[test]
fn username_is_fixed() {
    let u = User { user_id: 1, coin_count: 2 };
    assert_eq!(u.get_username(), "username");
}

#[test]
fn ledger_saves_and_loads_the_same_users() {
    let users = vec![
        User { user_id: 1, coin_count: 2 },
        User { user_id: 30, coin_count: -4 },
        User { user_id: 500, coin_count: 0 },
    ];
    let text = ledger_text(&users);
    assert_eq!(text, "1;2\n30;-4\n500;0\n");
    let lines: Vec<String> = text.lines().map(|l| l.to_string()).collect();
    let back: Vec<User> = read_ledger(lines);
    assert_eq!(back.len(), 3);
    for (a, b) in users.iter().zip(back.iter()) {
        assert_eq!(a.user_id, b.user_id);
        assert_eq!(a.coin_count, b.coin_count);
    }
}

#[test]
fn empty_ledger_is_empty_text() {
    let users: Vec<User> = vec![];
    assert_eq!(ledger_text(&users), "");
    let back: Vec<User> = read_ledger(vec![]);
    assert!(back.is_empty());
}
