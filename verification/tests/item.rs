use pocket_feeder::datetime::DateParseError;
use pocket_feeder::item::Item;

fn with_date(pub_date: &str) -> Item {
    Item {
        author: Some(vec!["Dave".to_string()]),
        category: None,
        description: "Some article".to_string(),
        link: "http://example.org/article".to_string(),
        pubDate: pub_date.to_string(),
        timestamp: None,
        title: "A very good title".to_string(),
        utc: None,
    }
}

#[test]
fn item_adds_timestamps() {
    let mut item = Item {
        author: Some(vec!["Dave".to_string()]),
        category: None,
        description: "Some article".to_string(),
        link: "http://example.org/article".to_string(),
        pubDate: "Mon, 28 Mar 2022 18:04:31 +0000".to_string(),
        timestamp: None,
        title: "A very good title".to_string(),
        utc: None,
    };

    item.add_timestamps();

    assert_eq!(item.utc, Some("2022-03-28 18:04:31".to_string()));
    assert_eq!(item.timestamp, Some(1648490671));
}

#[test]
fn timestamps_are_taken_in_utc() {
    let mut item = with_date("Tue, 01 Feb 2022 01:30:00 +0200");
    item.add_timestamps();
    assert_eq!(item.utc, Some("2022-01-31 23:30:00".to_string()));
    assert_eq!(item.timestamp, Some(1643671800));
}

#[test]
fn timestamps_before_the_epoch_are_negative() {
    let mut item = with_date("Wed, 31 Dec 1969 23:59:00 +0000");
    item.add_timestamps();
    assert_eq!(item.timestamp, Some(-60));
    assert_eq!(item.utc, Some("1969-12-31 23:59:00".to_string()));
}

#[test]
fn adding_timestamps_keeps_the_other_fields() {
    let mut item = with_date("Mon, 28 Mar 2022 18:04:31 +0000");
    let before = item.clone();
    item.add_timestamps();
    let once = item.clone();
    item.add_timestamps();
    assert_eq!(item, once);
    assert_eq!(item.title, before.title);
    assert_eq!(item.link, before.link);
    assert_eq!(item.author, before.author);
    assert_eq!(item.pubDate, before.pubDate);
}

#[test]
fn try_add_timestamps_reports_an_unparsable_date() {
    let mut item = with_date("something not correct");
    let before = item.clone();
    assert_eq!(item.try_add_timestamps(), Err(DateParseError::Invalid));
    assert_eq!(item, before);
}

#[test]
fn try_add_timestamps_reports_a_short_date() {
    let mut item = with_date("Mon, 28 Mar");
    assert_eq!(item.try_add_timestamps(), Err(DateParseError::TooShort));
    assert_eq!(item.timestamp, None);
}

#[test]
fn try_add_timestamps_fills_a_valid_date() {
    let mut item = with_date("Mon, 28 Mar 2022 18:04:31 +0000");
    assert_eq!(item.try_add_timestamps(), Ok(()));
    assert_eq!(item.timestamp, Some(1648490671));
}
