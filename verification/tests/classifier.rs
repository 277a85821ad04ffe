use gh_activity::classifier::{
    count_since, judge, read_date, report_line, ClassifyError, Fault, Reading, Tally,
};
use gh_activity::instant::{parse_instant, Instant};
use gh_activity::item::{Field, Item};

fn text(s: &str) -> Option<String> {
    Some(String::from(s))
}

fn dated(created_at: Option<&str>, closed_at: Option<&str>) -> Item {
    Item {
        created_at: created_at.map(String::from),
        closed_at: closed_at.map(String::from),
        title: None,
        html_url: None,
    }
}

fn issue(created_at: &str, title: &str, link: &str) -> Item {
    Item { created_at: text(created_at), closed_at: None, title: text(title), html_url: text(link) }
}

/// 2024-05-15T12:00:00Z.
fn now() -> Instant {
    Instant::new(1_715_774_400, 0)
}

fn two_weeks_ago() -> Instant {
    now().days_before(14).unwrap()
}

#[test]
fn the_cutoff_two_weeks_back_is_the_first_of_may() {
    assert_eq!(Some(two_weeks_ago()), parse_instant("2024-05-01T12:00:00Z"));
}

#[test]
fn optional_string_field_picks_the_field() {
    let item = Item {
        created_at: text("a"),
        closed_at: text("b"),
        title: text("c"),
        html_url: text("d"),
    };
    assert_eq!(item.optional_string_field(Field::CreatedAt), Some("a"));
    assert_eq!(item.optional_string_field(Field::ClosedAt), Some("b"));
    assert_eq!(item.optional_string_field(Field::Title), Some("c"));
    assert_eq!(item.optional_string_field(Field::HtmlUrl), Some("d"));
}

#[test]
fn optional_string_field_of_a_missing_field_is_none() {
    let item = dated(None, Some("2024-05-14T12:00:00Z"));
    assert_eq!(item.optional_string_field(Field::CreatedAt), None);
    assert_eq!(item.optional_string_field(Field::Title), None);
    assert_eq!(item.optional_string_field(Field::HtmlUrl), None);
    assert_eq!(item.optional_string_field(Field::ClosedAt), Some("2024-05-14T12:00:00Z"));
}

#[test]
fn recent_old_and_undated_items() {
    let a = dated(Some("2024-05-14T12:00:00Z"), None);
    let b = dated(Some("2024-04-15T12:00:00Z"), None);
    let c = dated(None, None);
    let tally = count_since(&[a, b, c], Field::CreatedAt, &two_weeks_ago(), false);
    assert_eq!(tally, Ok(Tally { count: 1, lines: vec![] }));
}

#[test]
fn each_item_alone_is_counted_or_not() {
    let cutoff = two_weeks_ago();
    let a = dated(Some("2024-05-14T12:00:00Z"), None);
    let b = dated(Some("2024-04-15T12:00:00Z"), None);
    let c = dated(None, None);
    assert_eq!(count_since(&[a], Field::CreatedAt, &cutoff, false).unwrap().count, 1);
    assert_eq!(count_since(&[b], Field::CreatedAt, &cutoff, false).unwrap().count, 0);
    assert_eq!(count_since(&[c], Field::CreatedAt, &cutoff, false).unwrap().count, 0);
}

#[test]
fn verbose_reports_the_matching_item() {
    let items = vec![issue("2024-05-14T12:00:00Z", "Fix crash", "http://x/1")];
    let tally = count_since(&items, Field::CreatedAt, &two_weeks_ago(), true).unwrap();
    assert_eq!(tally.count, 1);
    assert_eq!(tally.lines, vec![String::from("* [Fix crash](http://x/1)")]);
}

#[test]
fn quiet_makes_no_lines() {
    let items = vec![issue("2024-05-14T12:00:00Z", "Fix crash", "http://x/1")];
    let tally = count_since(&items, Field::CreatedAt, &two_weeks_ago(), false).unwrap();
    assert_eq!(tally, Tally { count: 1, lines: vec![] });
}

#[test]
fn an_item_dated_at_the_cutoff_is_not_counted() {
    let cutoff = parse_instant("2024-05-01T12:00:00Z").unwrap();
    let at = dated(Some("2024-05-01T12:00:00Z"), None);
    let just_after = dated(Some("2024-05-01T12:00:00.000000001Z"), None);
    let just_before = dated(Some("2024-05-01T11:59:59.999999999Z"), None);
    assert_eq!(count_since(&[at], Field::CreatedAt, &cutoff, false).unwrap().count, 0);
    assert_eq!(count_since(&[just_after], Field::CreatedAt, &cutoff, false).unwrap().count, 1);
    assert_eq!(count_since(&[just_before], Field::CreatedAt, &cutoff, false).unwrap().count, 0);
}

#[test]
fn the_cutoff_is_compared_across_zones() {
    let cutoff = parse_instant("2024-05-01T12:00:00Z").unwrap();
    let later_wall_clock_but_earlier = dated(Some("2024-05-01T13:00:00+02:00"), None);
    let earlier_wall_clock_but_later = dated(Some("2024-05-01T11:00:00-02:00"), None);
    let items = [later_wall_clock_but_earlier, earlier_wall_clock_but_later];
    assert_eq!(count_since(&items, Field::CreatedAt, &cutoff, false).unwrap().count, 1);
}

#[test]
fn the_named_field_is_the_one_inspected() {
    let items = vec![
        dated(Some("2024-05-14T12:00:00Z"), None),
        dated(Some("2024-01-01T00:00:00Z"), Some("2024-05-10T00:00:00Z")),
        dated(Some("2024-05-13T00:00:00Z"), Some("2024-05-14T00:00:00Z")),
        dated(Some("2024-01-01T00:00:00Z"), Some("2024-02-01T00:00:00Z")),
    ];
    let cutoff = two_weeks_ago();
    assert_eq!(count_since(&items, Field::CreatedAt, &cutoff, false).unwrap().count, 2);
    assert_eq!(count_since(&items, Field::ClosedAt, &cutoff, false).unwrap().count, 2);
}

#[test]
fn no_items_give_a_count_of_zero() {
    assert_eq!(
        count_since(&[], Field::ClosedAt, &now(), true),
        Ok(Tally { count: 0, lines: vec![] })
    );
}

#[test]
fn lines_follow_the_order_of_the_items() {
    let items = vec![
        issue("2024-05-14T12:00:00Z", "first", "http://x/1"),
        issue("2024-01-01T12:00:00Z", "stale", "http://x/2"),
        issue("2024-05-12T12:00:00Z", "second", "http://x/3"),
        dated(None, None),
        issue("2024-05-15T11:59:59Z", "third", "http://x/4"),
    ];
    let tally = count_since(&items, Field::CreatedAt, &two_weeks_ago(), true).unwrap();
    assert_eq!(tally.count, 3);
    assert_eq!(
        tally.lines,
        vec![
            String::from("* [first](http://x/1)"),
            String::from("* [second](http://x/3)"),
            String::from("* [third](http://x/4)"),
        ]
    );
}

#[test]
fn a_malformed_date_is_an_error() {
    let items = vec![dated(Some("2024-05-14T12:00:00Z"), None), dated(Some("last week"), None)];
    assert_eq!(
        count_since(&items, Field::CreatedAt, &two_weeks_ago(), false),
        Err(ClassifyError { index: 1, fault: Fault::MalformedTimestamp })
    );
}

#[test]
fn a_malformed_date_in_another_field_is_not_looked_at() {
    let items = vec![dated(Some("2024-05-14T12:00:00Z"), Some("never"))];
    assert_eq!(count_since(&items, Field::CreatedAt, &two_weeks_ago(), false).unwrap().count, 1);
    assert_eq!(
        count_since(&items, Field::ClosedAt, &two_weeks_ago(), false),
        Err(ClassifyError { index: 0, fault: Fault::MalformedTimestamp })
    );
}

#[test]
fn a_reported_item_without_a_title_is_an_error() {
    let mut nameless = issue("2024-05-14T12:00:00Z", "x", "http://x/1");
    nameless.title = None;
    assert_eq!(
        count_since(&[nameless], Field::CreatedAt, &two_weeks_ago(), true),
        Err(ClassifyError { index: 0, fault: Fault::MissingTitle })
    );
}

#[test]
fn a_reported_item_without_a_link_is_an_error() {
    let mut unlinked = issue("2024-05-14T12:00:00Z", "x", "http://x/1");
    unlinked.html_url = None;
    let items = vec![issue("2024-05-14T12:00:00Z", "fine", "http://x/0"), unlinked];
    assert_eq!(
        count_since(&items, Field::CreatedAt, &two_weeks_ago(), true),
        Err(ClassifyError { index: 1, fault: Fault::MissingLink })
    );
}

#[test]
fn a_missing_title_comes_before_a_missing_link() {
    let bare = dated(Some("2024-05-14T12:00:00Z"), None);
    assert_eq!(
        count_since(&[bare], Field::CreatedAt, &two_weeks_ago(), true),
        Err(ClassifyError { index: 0, fault: Fault::MissingTitle })
    );
}

#[test]
fn missing_title_and_link_do_not_matter_when_quiet() {
    let bare = dated(Some("2024-05-14T12:00:00Z"), None);
    assert_eq!(
        count_since(&[bare], Field::CreatedAt, &two_weeks_ago(), false),
        Ok(Tally { count: 1, lines: vec![] })
    );
}

#[test]
fn missing_title_and_link_do_not_matter_on_an_item_that_does_not_match() {
    let stale = dated(Some("2024-01-14T12:00:00Z"), None);
    let undated = dated(None, None);
    assert_eq!(
        count_since(&[stale, undated], Field::CreatedAt, &two_weeks_ago(), true),
        Ok(Tally { count: 0, lines: vec![] })
    );
}

#[test]
fn the_first_item_at_fault_decides_the_error() {
    let mut nameless = issue("2024-05-14T12:00:00Z", "x", "http://x/1");
    nameless.title = None;
    let items = vec![
        issue("2024-05-14T12:00:00Z", "fine", "http://x/0"),
        nameless,
        dated(Some("garbage"), None),
    ];
    assert_eq!(
        count_since(&items, Field::CreatedAt, &two_weeks_ago(), true),
        Err(ClassifyError { index: 1, fault: Fault::MissingTitle })
    );
    assert_eq!(
        count_since(&items, Field::CreatedAt, &two_weeks_ago(), false),
        Err(ClassifyError { index: 2, fault: Fault::MalformedTimestamp })
    );
}

#[test]
fn classifying_twice_gives_the_same_result() {
    let items = vec![
        issue("2024-05-14T12:00:00Z", "a", "http://x/1"),
        issue("2024-03-14T12:00:00Z", "b", "http://x/2"),
        dated(None, Some("2024-05-14T12:00:00Z")),
        issue("2024-05-02T12:00:00Z", "c", "http://x/3"),
    ];
    let cutoff = two_weeks_ago();
    let first = count_since(&items, Field::CreatedAt, &cutoff, true);
    let second = count_since(&items, Field::CreatedAt, &cutoff, true);
    assert_eq!(first, second);
    assert_eq!(first.unwrap().count, 2);
    let quiet = count_since(&items, Field::CreatedAt, &cutoff, false);
    assert_eq!(quiet.unwrap().count, 2);
}

#[test]
fn classifying_twice_gives_the_same_error() {
    let items = vec![dated(Some("2024-05-14T12:00:00Z"), None), dated(Some("??"), None)];
    let cutoff = two_weeks_ago();
    assert_eq!(
        count_since(&items, Field::CreatedAt, &cutoff, false),
        count_since(&items, Field::CreatedAt, &cutoff, false)
    );
}

#[test]
fn read_date_tells_the_three_readings_apart() {
    let item = dated(Some("2020-03-01T12:00:00Z"), Some("soon"));
    assert_eq!(read_date(&item, Field::CreatedAt), Reading::At(Instant::new(1_583_064_000, 0)));
    assert_eq!(read_date(&item, Field::ClosedAt), Reading::Malformed);
    assert_eq!(read_date(&item, Field::Title), Reading::Absent);
}

#[test]
fn judge_counts_only_what_is_after_the_cutoff() {
    let cutoff = Instant::new(100, 5);
    assert_eq!(judge(Reading::At(Instant::new(100, 6)), &cutoff), Ok(true));
    assert_eq!(judge(Reading::At(Instant::new(101, 0)), &cutoff), Ok(true));
    assert_eq!(judge(Reading::At(Instant::new(100, 5)), &cutoff), Ok(false));
    assert_eq!(judge(Reading::At(Instant::new(99, 999)), &cutoff), Ok(false));
    assert_eq!(judge(Reading::Absent, &cutoff), Ok(false));
    assert_eq!(judge(Reading::Malformed, &cutoff), Err(Fault::MalformedTimestamp));
}

#[test]
fn report_line_puts_title_and_link_in_brackets() {
    let item = issue("whenever", "Fix crash", "http://x/1");
    assert_eq!(report_line(&item), Ok(String::from("* [Fix crash](http://x/1)")));
}

#[test]
fn report_line_keeps_empty_and_odd_text() {
    let item = issue("", "", "");
    assert_eq!(report_line(&item), Ok(String::from("* []()")));
    let odd = issue("", "a [b] (c)", "http://x/?q=(1)");
    assert_eq!(report_line(&odd), Ok(String::from("* [a [b] (c)](http://x/?q=(1))")));
}

#[test]
fn report_line_names_what_is_missing() {
    let mut item = issue("", "t", "l");
    item.html_url = None;
    assert_eq!(report_line(&item), Err(Fault::MissingLink));
    item.title = None;
    assert_eq!(report_line(&item), Err(Fault::MissingTitle));
    item.html_url = text("l");
    assert_eq!(report_line(&item), Err(Fault::MissingTitle));
}

#[test]
fn counts_of_two_lists_add_up() {
    let cutoff = two_weeks_ago();
    let front = vec![
        dated(Some("2024-05-14T12:00:00Z"), None),
        dated(Some("2024-02-14T12:00:00Z"), None),
    ];
    let back = vec![
        dated(None, None),
        dated(Some("2024-05-03T00:00:00Z"), None),
        dated(Some("2024-05-04T00:00:00Z"), None),
    ];
    let mut whole = front.clone();
    whole.extend(back.clone());
    let of_front = count_since(&front, Field::CreatedAt, &cutoff, false).unwrap().count;
    let of_back = count_since(&back, Field::CreatedAt, &cutoff, false).unwrap().count;
    let of_whole = count_since(&whole, Field::CreatedAt, &cutoff, false).unwrap().count;
    assert_eq!(of_front, 1);
    assert_eq!(of_back, 2);
    assert_eq!(of_whole, 3);
}

#[test]
fn reporting_does_not_change_the_count() {
    let items = vec![
        issue("2024-05-14T12:00:00Z", "a", "http://x/1"),
        issue("2024-03-14T12:00:00Z", "b", "http://x/2"),
        issue("2024-05-02T12:00:00Z", "c", "http://x/3"),
    ];
    let cutoff = two_weeks_ago();
    let reported = count_since(&items, Field::CreatedAt, &cutoff, true).unwrap();
    let quiet = count_since(&items, Field::CreatedAt, &cutoff, false).unwrap();
    assert_eq!(reported.count, 2);
    assert_eq!(quiet.count, 2);
    assert_eq!(reported.lines.len(), 2);
    assert!(quiet.lines.is_empty());
}
