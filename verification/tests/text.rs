use cowardcoin::chance::{default_timestamp, random_between, random_from, random_from_owned, random_index};
use cowardcoin::text::{int_text, join_strings, parse_i32, parse_i64, s_if, seconds_to_string, split_on, usize_text};

#[test]
fn plural_suffix() {
    assert_eq!(s_if(1), "");
    assert_eq!(s_if(0), "s");
    assert_eq!(s_if(2), "s");
    assert_eq!(s_if(-1), "s");
}

#[test]
fn durations_in_words() {
    assert_eq!(seconds_to_string(0), "0 seconds");
    assert_eq!(seconds_to_string(1), "1 second");
    assert_eq!(seconds_to_string(59), "59 seconds");
    assert_eq!(seconds_to_string(60), "1 minute, and 0 seconds");
    assert_eq!(seconds_to_string(3661), "1 hour, 1 minute, and 1 second");
    assert_eq!(seconds_to_string(14_399), "3 hours, 59 minutes, and 59 seconds");
    assert_eq!(seconds_to_string(7200), "2 hours, and 0 seconds");
    assert_eq!(seconds_to_string(-5), "-5 seconds");
}

#[test]
fn numbers_in_words() {
    assert_eq!(int_text(0), "0");
    assert_eq!(int_text(-42), "-42");
    assert_eq!(int_text(i64::MIN), "-9223372036854775808");
    assert_eq!(int_text(i64::MAX), "9223372036854775807");
    assert_eq!(usize_text(1234), "1234");
}

#[test]
fn numbers_read_like_from_str() {
    assert_eq!(parse_i64("17"), Some(17));
    assert_eq!(parse_i64("+17"), Some(17));
    assert_eq!(parse_i64("-17"), Some(-17));
    assert_eq!(parse_i64("9223372036854775807"), Some(i64::MAX));
    assert_eq!(parse_i64("-9223372036854775808"), Some(i64::MIN));
    assert_eq!(parse_i64("9223372036854775808"), None);
    assert_eq!(parse_i64(""), None);
    assert_eq!(parse_i64("-"), None);
    assert_eq!(parse_i64("12a"), None);
    assert_eq!(parse_i64(" 1"), None);
    assert_eq!(parse_i32("2147483647"), Some(i32::MAX));
    assert_eq!(parse_i32("2147483648"), None);
    for n in [0i64, 5, -5, 123456789, i64::MIN, i64::MAX] {
        assert_eq!(parse_i64(&int_text(n)), Some(n));
        assert_eq!(parse_i64(&int_text(n)), n.to_string().parse::<i64>().ok());
    }
}

#[test]
fn splitting_and_joining() {
    assert_eq!(split_on("coin give 5", ' '), vec!["coin", "give", "5"]);
    assert_eq!(split_on("", ' '), vec![""]);
    assert_eq!(split_on("a  b", ' '), vec!["a", "", "b"]);
    assert_eq!(split_on("a;", ';'), vec!["a", ""]);
    let parts = vec!["x".to_string(), "y".to_string(), "z".to_string()];
    assert_eq!(join_strings(&parts, "\n"), "x\ny\nz");
    assert_eq!(join_strings(&vec![], ", "), "");
}

#[test]
fn random_picks_stay_in_range() {
    for _ in 0..50 {
        let x = random_between(850, 1150);
        assert!((850..1150).contains(&x));
        assert!(random_index(3) < 3);
    }
    assert_eq!(random_between(5, 6), 5);
    let v = vec![7, 8];
    let picked = *random_from(&v);
    assert!(picked == 7 || picked == 8);
    assert_eq!(random_from_owned(&vec!["only".to_string()]), "only");
    assert_eq!(default_timestamp(), 0);
}
