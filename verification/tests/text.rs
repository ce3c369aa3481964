use myrello::labellist_from_vec;
use myrello::task::{Priority, Status, TimeWindow};
use myrello::text::{clip, decimal, join_each, trim, trim_end};
use myrello::time::{date_seconds, date_text};

#[test]
fn trim_end_removes_trailing_white_space_only() {
    assert_eq!(trim_end("  a b \t\r\n"), "  a b");
    assert_eq!(trim_end("abc"), "abc");
    assert_eq!(trim_end(""), "");
    assert_eq!(trim_end(" \n "), "");
    assert_eq!(trim_end("caf\u{e9}\u{a0}\u{2003}"), "caf\u{e9}");
}

#[test]
fn trim_removes_white_space_at_both_ends() {
    assert_eq!(trim("  a b \t"), "a b");
    assert_eq!(trim("abc"), "abc");
    assert_eq!(trim(""), "");
    assert_eq!(trim(" \n "), "");
    assert_eq!(trim("x "), "x");
    assert_eq!(trim(" x"), "x");
    assert_eq!(trim("\u{3000}gr\u{fc}n\u{2028}"), "gr\u{fc}n");
}

#[test]
fn clip_counts_bytes_and_keeps_characters_whole() {
    assert_eq!(clip("hello", 3), "hel");
    assert_eq!(clip("hello", 5), "hello");
    assert_eq!(clip("hello", 9), "hello");
    assert_eq!(clip("hello", 0), "");
    assert_eq!(clip("", 4), "");
    // two bytes each
    assert_eq!(clip("\u{e9}\u{e8}\u{ea}", 6), "\u{e9}\u{e8}\u{ea}");
    assert_eq!(clip("\u{e9}\u{e8}\u{ea}", 5), "\u{e9}\u{e8}");
    assert_eq!(clip("\u{e9}\u{e8}\u{ea}", 4), "\u{e9}\u{e8}");
    assert_eq!(clip("\u{e9}\u{e8}\u{ea}", 3), "\u{e9}");
    assert_eq!(clip("\u{e9}\u{e8}\u{ea}", 1), "");
    assert_eq!(clip("h\u{e9}llo", 2), "h");
    assert_eq!(clip("h\u{e9}llo", 3), "h\u{e9}");
    // three and four bytes
    assert_eq!(clip("\u{20ac}uro", 2), "");
    assert_eq!(clip("\u{20ac}uro", 4), "\u{20ac}u");
    assert_eq!(clip("a\u{1f600}b", 4), "a");
    assert_eq!(clip("a\u{1f600}b", 5), "a\u{1f600}");
}

#[test]
fn decimal_renders_numbers() {
    assert_eq!(decimal(0), "0");
    assert_eq!(decimal(7), "7");
    assert_eq!(decimal(10), "10");
    assert_eq!(decimal(229), "229");
    assert_eq!(decimal(1_000_000), "1000000");
    assert_eq!(decimal(u32::MAX), "4294967295");
}

#[test]
fn join_each_puts_the_tail_after_every_word() {
    let words = vec!["write".to_string(), "the".to_string(), "spec".to_string()];
    assert_eq!(join_each(&words, " "), "write the spec ");
    assert_eq!(join_each(&words, "\n"), "write\nthe\nspec\n");
    assert_eq!(join_each(&[], " "), "");
}

#[test]
fn labellist_holds_each_label_once() {
    let set = labellist_from_vec(vec![
        "a".to_string(),
        "b".to_string(),
        "a".to_string(),
        "A".to_string(),
    ]);
    assert_eq!(set.len(), 3);
    assert!(set.contains("a"));
    assert!(set.contains("b"));
    assert!(set.contains("A"));
    assert!(!set.contains("c"));
    assert!(labellist_from_vec(Vec::new()).is_empty());
}

#[test]
fn priorities_have_ranks_and_names() {
    let all = [
        (Priority::Urgent, 1, "urgent"),
        (Priority::High, 2, "high"),
        (Priority::Normal, 3, "normal"),
        (Priority::Low, 4, "low"),
        (Priority::Miserable, 5, "miserable"),
    ];
    for (p, rank, name) in all {
        assert_eq!(p.rank(), rank);
        assert_eq!(p.name(), name);
        assert_eq!(Priority::from_rank(rank), Some(p));
        assert_eq!(Priority::from_name(name), Some(p));
    }
    assert_eq!(Priority::from_rank(0), None);
    assert_eq!(Priority::from_rank(6), None);
    assert_eq!(Priority::from_name("Urgent"), None);
    assert_eq!(Priority::from_name(""), None);
    assert_eq!(Priority::from_name("todo"), None);
}

#[test]
fn raising_a_priority_moves_it_one_rank() {
    assert_eq!(Priority::Miserable.raised(), Priority::Low);
    assert_eq!(Priority::Low.raised(), Priority::Normal);
    assert_eq!(Priority::Normal.raised(), Priority::High);
    assert_eq!(Priority::High.raised(), Priority::Urgent);
    assert_eq!(Priority::Urgent.raised(), Priority::Urgent);
}

#[test]
fn statuses_have_ranks_and_names() {
    let all = [
        (Status::Todo, 1, "todo"),
        (Status::InProgress, 2, "in_progress"),
        (Status::Done, 3, "done"),
        (Status::Block, 4, "block"),
    ];
    for (s, rank, name) in all {
        assert_eq!(s.rank(), rank);
        assert_eq!(s.name(), name);
        assert_eq!(Status::from_rank(rank), Some(s));
        assert_eq!(Status::from_name(name), Some(s));
    }
    assert_eq!(Status::from_rank(0), None);
    assert_eq!(Status::from_rank(5), None);
    assert_eq!(Status::from_name("in progress"), None);
    assert_eq!(Status::from_name("DONE"), None);
}

#[test]
fn time_windows_have_names_and_lengths() {
    let all = [
        (TimeWindow::Today, "today", 24 * 3600),
        (TimeWindow::Yesterday, "yesterday", 48 * 3600),
        (TimeWindow::Week, "week", 7 * 24 * 3600),
        (TimeWindow::Month, "month", 28 * 24 * 3600),
    ];
    for (w, name, seconds) in all {
        assert_eq!(w.name(), name);
        assert_eq!(w.seconds(), seconds);
        assert_eq!(TimeWindow::from_name(name), Some(w));
    }
    assert_eq!(TimeWindow::from_name("year"), None);
}

#[test]
fn a_window_ends_where_its_length_is_reached() {
    let t: i64 = 1_000_000;
    assert!(TimeWindow::Today.contains(t, t));
    assert!(TimeWindow::Today.contains(t, t + 86_399));
    assert!(!TimeWindow::Today.contains(t, t + 86_400));
    assert!(TimeWindow::Yesterday.contains(t, t + 86_400));
    assert!(!TimeWindow::Yesterday.contains(t, t + 172_800));
    assert!(TimeWindow::Week.contains(t, t + 604_799));
    assert!(!TimeWindow::Week.contains(t, t + 604_800));
    assert!(TimeWindow::Month.contains(t, t + 2_419_199));
    assert!(!TimeWindow::Month.contains(t, t + 2_419_200));
    // a completion that lies ahead of the clock is inside
    assert!(TimeWindow::Today.contains(t + 5, t));
    // the ends of the range of dates
    assert!(!TimeWindow::Month.contains(i64::MIN, i64::MAX));
    assert!(TimeWindow::Today.contains(i64::MAX, i64::MIN));
}

#[test]
fn dates_are_rendered_in_utc() {
    assert_eq!(date_text(0), Some("1970-01-01 00:00:00".to_string()));
    assert_eq!(date_text(1_431_648_000), Some("2015-05-15 00:00:00".to_string()));
    assert_eq!(date_text(1_431_648_000 + 3_661), Some("2015-05-15 01:01:01".to_string()));
    assert_eq!(date_text(-1), Some("1969-12-31 23:59:59".to_string()));
    assert_eq!(date_text(i64::MAX), None);
    assert_eq!(date_text(i64::MIN), None);
}

#[test]
fn dates_are_read_as_utc() {
    assert_eq!(date_seconds("1970-01-01 00:00:00"), Some(0));
    assert_eq!(date_seconds("2015-05-15 00:00:00"), Some(1_431_648_000));
    assert_eq!(date_seconds("2015-05-15 01:01:01"), Some(1_431_648_000 + 3_661));
    assert_eq!(date_seconds("1969-12-31 23:59:59"), Some(-1));
    assert_eq!(date_seconds("2015-05-15"), None);
    assert_eq!(date_seconds("2015-02-30 00:00:00"), None);
    assert_eq!(date_seconds("2015-05-15 24:00:00"), None);
    assert_eq!(date_seconds("yesterday"), None);
    assert_eq!(date_seconds(""), None);
}

#[test]
fn a_date_that_is_written_can_be_read_again() {
    for secs in [0, 1, 59, 86_399, 86_400, 1_431_648_000, 4_102_444_800, -86_401] {
        let text = date_text(secs).unwrap();
        assert_eq!(date_seconds(&text), Some(secs));
    }
}
