use ctm::render::{push_dash_line, push_labelled, push_quoted, push_rule_line};
use ctm::text::{
    chars_of, contains_text, format_int, name_precedes, push_decimal, push_padded_left,
    push_padded_right, push_spaces, same_text, shorten_name,
};

#[test]
fn integers_in_decimal() {
    assert_eq!(format_int(0), "0");
    assert_eq!(format_int(7), "7");
    assert_eq!(format_int(10), "10");
    assert_eq!(format_int(-1), "-1");
    assert_eq!(format_int(1234567890), "1234567890");
    assert_eq!(format_int(i64::MAX as i128), "9223372036854775807");
    assert_eq!(format_int(i64::MIN as i128), "-9223372036854775808");
    assert_eq!(format_int(i128::MAX), "170141183460469231731687303715884105727");
    assert_eq!(format_int(i128::MIN), "-170141183460469231731687303715884105728");
    for n in [-1000i128, -99, -10, -9, 9, 99, 100, 101, 65535, 1 << 70] {
        assert_eq!(format_int(n), format!("{}", n));
    }
}

#[test]
fn digits_are_appended() {
    let mut out = String::from("n=");
    push_decimal(&mut out, 0);
    push_decimal(&mut out, 4050);
    push_decimal(&mut out, u128::MAX);
    assert_eq!(out, "n=04050340282366920938463463374607431768211455");
}

#[test]
fn columns_are_filled_with_spaces() {
    let mut out = String::new();
    push_padded_right(&mut out, "ab", 5);
    out.push('|');
    push_padded_left(&mut out, "ab", 5);
    out.push('|');
    push_padded_right(&mut out, "abcdef", 3);
    out.push('|');
    push_padded_left(&mut out, "abcdef", 6);
    out.push('|');
    push_padded_right(&mut out, "", 2);
    out.push('|');
    push_spaces(&mut out, 0);
    push_spaces(&mut out, 3);
    assert_eq!(out, "ab   |   ab|abcdef|abcdef|  |   ");
    assert_eq!(out, format!("{:<5}|{:>5}|{:<3}|{:>6}|{:<2}|   ", "ab", "ab", "abcdef", "abcdef", ""));
}

#[test]
fn width_counts_characters_not_bytes() {
    let mut out = String::new();
    push_padded_right(&mut out, "héé", 5);
    out.push('|');
    push_padded_left(&mut out, "日本", 4);
    assert_eq!(out, "héé  |  日本");
    assert_eq!(out, format!("{:<5}|{:>4}", "héé", "日本"));
}

#[test]
fn long_names_are_cut_to_fifteen_characters() {
    assert_eq!(shorten_name(""), "");
    assert_eq!(shorten_name("short"), "short");
    assert_eq!(shorten_name("exactly eighteen c"), "exactly eighteen c");
    assert_eq!(shorten_name("exactly nineteen ch"), "exactly ninetee...");
    assert_eq!(shorten_name("0123456789abcdefghijklmnop"), "0123456789abcde...");
    assert_eq!(shorten_name("ééééééééééééééééééé"), "ééééééééééééééé...");
    assert_eq!(shorten_name("éééééééééééééééééé"), "éééééééééééééééééé");
}

#[test]
fn texts_are_searched_for_a_part() {
    assert!(contains_text("UNIQUE constraint failed: users.name", "UNIQUE constraint failed"));
    assert!(contains_text("x UNIQUE constraint failed", "UNIQUE constraint failed"));
    assert!(!contains_text("unique constraint failed", "UNIQUE constraint failed"));
    assert!(!contains_text("UNIQUE constraint faile", "UNIQUE constraint failed"));
    assert!(contains_text("abc", ""));
    assert!(contains_text("", ""));
    assert!(!contains_text("", "a"));
    assert!(contains_text("aab", "ab"));
    assert!(contains_text("abab", "bab"));
    assert!(!contains_text("abab", "bb"));
    assert!(contains_text("日本語", "本"));
}

#[test]
fn names_in_alphabetical_order() {
    assert!(name_precedes("a", "b"));
    assert!(!name_precedes("b", "a"));
    assert!(!name_precedes("a", "a"));
    assert!(name_precedes("", "a"));
    assert!(!name_precedes("a", ""));
    assert!(!name_precedes("", ""));
    assert!(name_precedes("ab", "abc"));
    assert!(name_precedes("Z", "a"));
    assert!(name_precedes("abc", "abd"));
    assert!(name_precedes("z", "é"));
    let names = ["", "A", "a", "ab", "abc", "b", "unassigned", "é", "日本"];
    for x in names {
        for y in names {
            assert_eq!(name_precedes(x, y), x < y, "{:?} {:?}", x, y);
        }
    }
}

#[test]
fn texts_are_compared_character_by_character() {
    assert!(same_text("", ""));
    assert!(same_text("default", "default"));
    assert!(!same_text("default", "Default"));
    assert!(!same_text("default", "default "));
    assert!(!same_text("a", ""));
    assert_eq!(chars_of("aé日"), vec!['a', 'é', '日']);
    assert_eq!(chars_of(""), vec![]);
}

#[test]
fn lines_of_report_furniture() {
    let mut out = String::new();
    push_rule_line(&mut out, 3);
    push_dash_line(&mut out, 4);
    push_rule_line(&mut out, 0);
    push_labelled(&mut out, "n: ", -12, "%\n");
    push_quoted(&mut out, "Deleted ", "x y", "!\n");
    assert_eq!(out, "━━━\n----\n\nn: -12%\nDeleted 'x y'!\n");
}
