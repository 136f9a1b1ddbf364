use std::collections::HashMap;

use ganymede::conf::ConfStep;
use ganymede::steps::{deserialize_steps, same_steps, SentSteps, StepsBuilder};
use ganymede::text::{
    chars_of, contains, is_before, parse_index, replace_first, starts_with, to_decimal,
};
use ganymede::timestamp::{
    is_newer_given, is_remote_newer, now_text, parse_timestamp, Timestamp,
};

fn step(checkboxes: Vec<u32>) -> ConfStep {
    ConfStep { checkboxes }
}

#[test]
fn characters_come_in_order() {
    assert_eq!(chars_of("aé\n"), vec!['a', 'é', '\n']);
    assert_eq!(chars_of(""), Vec::<char>::new());
}

#[test]
fn prefixes_and_parts_are_found() {
    assert!(starts_with("/Applications/A.app", "/Applications/"));
    assert!(!starts_with("/Applications", "/Applications/"));
    assert!(starts_with("abc", ""));
    assert!(contains("/private/AppTranslocation/x", "/AppTranslocation/"));
    assert!(!contains("/AppTranslocation", "/AppTranslocation/"));
    assert!(contains("abc", "c"));
    assert!(contains("", ""));
    assert!(!contains("aab", "ba"));
}

#[test]
fn texts_are_ordered_like_strings() {
    let texts = ["", "a", "aa", "ab", "b", "é", "z", "Z", "\u{10000}", "\u{ffff}"];
    for left in texts {
        for right in texts {
            assert_eq!(is_before(left, right), left < right, "{left:?} {right:?}");
        }
    }
}

#[test]
fn indices_are_parsed_like_numbers() {
    let keys = [
        "", "+", "-", "0", "7", "+7", "-7", "007", "1 ", " 1", "1_0", "0x1", "12a", "++1", "-0",
        "4294967295", "4294967296", "99999999999999999999", "٣",
    ];
    for key in keys {
        assert_eq!(parse_index(key), key.parse::<u32>().ok(), "{key:?}");
    }
}

#[test]
fn numbers_are_written_in_decimal() {
    for n in [0, 7, 10, 42, 1000, 4294967295] {
        assert_eq!(to_decimal(n), n.to_string());
        assert_eq!(parse_index(&to_decimal(n)), Some(n));
    }
}

#[test]
fn only_the_first_occurrences_are_replaced() {
    assert_eq!(replace_first("a\nb\nc\n", '\n', ' ', 2), "a b c\n");
    assert_eq!(replace_first("a\nb", '\n', ' ', 0), "a\nb");
    assert_eq!(replace_first("", '\n', ' ', 300), "");
    assert_eq!(
        replace_first(&"\n".repeat(301), '\n', ' ', 300),
        "\n".repeat(301).replacen("\n", " ", 300)
    );
}

#[test]
fn a_key_that_is_no_index_is_refused() {
    let sent = SentSteps::Keyed(vec![
        ("1".to_owned(), step(vec![1])),
        ("one".to_owned(), step(vec![2])),
        ("two".to_owned(), step(vec![3])),
    ]);

    assert_eq!(deserialize_steps(sent).unwrap_err(), "invalid step index: one");
}

#[test]
fn a_later_entry_replaces_an_earlier_one() {
    let sent = SentSteps::Keyed(vec![
        ("1".to_owned(), step(vec![1])),
        ("+1".to_owned(), step(vec![2])),
    ]);

    let steps = deserialize_steps(sent).unwrap();
    assert_eq!(steps.len(), 1);
    assert_eq!(steps[&1].checkboxes, vec![2]);
}

#[test]
fn a_list_and_an_object_keyed_by_position_agree() {
    let list = SentSteps::List(vec![step(vec![]), step(vec![5, 6])]);
    let object = SentSteps::Keyed(vec![
        ("1".to_owned(), step(vec![5, 6])),
        ("0".to_owned(), step(vec![])),
    ]);

    assert!(same_steps(
        &deserialize_steps(list).unwrap(),
        &deserialize_steps(object).unwrap()
    ));
}

#[test]
fn steps_are_collected_one_by_one() {
    let mut builder = StepsBuilder::new();
    assert!(builder.has_room());
    builder.add_listed(step(vec![1]));
    builder.add_listed(step(vec![2]));
    assert!(builder.add_keyed("9", step(vec![3])).is_ok());
    assert_eq!(
        builder.add_keyed("x", step(vec![4])),
        Err("invalid step index: x".to_owned())
    );

    let steps = builder.finish();
    assert_eq!(steps.len(), 3);
    assert_eq!(steps[&0].checkboxes, vec![1]);
    assert_eq!(steps[&1].checkboxes, vec![2]);
    assert_eq!(steps[&9].checkboxes, vec![3]);
}

#[test]
fn steps_are_compared_by_what_they_tick() {
    let one = HashMap::from([(1, step(vec![1, 2])), (2, step(vec![]))]);
    let same = HashMap::from([(2, step(vec![])), (1, step(vec![1, 2]))]);
    let fewer = HashMap::from([(1, step(vec![1, 2]))]);
    let other_key = HashMap::from([(1, step(vec![1, 2])), (3, step(vec![]))]);
    let other_ticks = HashMap::from([(1, step(vec![2, 1])), (2, step(vec![]))]);

    assert!(same_steps(&one, &same));
    assert!(!same_steps(&one, &fewer));
    assert!(!same_steps(&one, &other_key));
    assert!(!same_steps(&one, &other_ticks));
}

#[test]
fn timestamps_are_read() {
    assert_eq!(
        parse_timestamp("1970-01-01T00:00:01.5Z"),
        Some(Timestamp { seconds: 1, nanos: 500_000_000 })
    );
    assert_eq!(
        parse_timestamp("1970-01-01T02:00:00+02:00"),
        Some(Timestamp { seconds: 0, nanos: 0 })
    );
    assert_eq!(
        parse_timestamp("1969-12-31T23:59:59Z"),
        Some(Timestamp { seconds: -1, nanos: 0 })
    );
    assert_eq!(parse_timestamp("yesterday"), None);
}

#[test]
fn instants_decide_where_both_are_known() {
    let local = "2026-01-01T05:00:00+05:00".to_owned();

    assert!(!is_remote_newer(Some(&local), "2026-01-01T05:30:00+06:00"));
    assert!(is_remote_newer(Some(&local), "2026-01-01T00:00:00.000000001Z"));
    assert!(!is_remote_newer(Some(&local), "2026-01-01T00:00:00Z"));
}

#[test]
fn texts_decide_where_an_instant_is_unknown() {
    let local = "2026-01-01".to_owned();

    assert!(is_remote_newer(Some(&local), "2026-01-02"));
    assert!(!is_remote_newer(Some(&local), "2025-12-31T23:59:59Z"));
    assert!(!is_remote_newer(Some(&local), "2026-01-01"));
}

#[test]
fn the_given_instants_are_what_is_compared() {
    let early = Timestamp { seconds: 1, nanos: 999_999_999 };
    let late = Timestamp { seconds: 2, nanos: 0 };

    assert!(is_newer_given("b", Some(early), "a", Some(late)));
    assert!(!is_newer_given("a", Some(late), "b", Some(early)));
    assert!(!is_newer_given("a", Some(late), "b", Some(late)));
    assert!(is_newer_given("a", None, "b", Some(early)));
    assert!(!is_newer_given("b", Some(early), "a", None));
}

#[test]
fn the_clock_is_written_so_that_it_can_be_read() {
    let text = now_text();
    let now = parse_timestamp(&text).unwrap();

    assert!(now.seconds > 1_600_000_000);
    assert!(now.nanos < 1_000_000_000);
    assert!(text.ends_with("+00:00"));
    assert!(!is_remote_newer(Some(&text), &text));
}
