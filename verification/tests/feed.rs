use pocket_feeder::feed::{Channel, Feed};
use pocket_feeder::item::Item;
use pocket_feeder::source::{ExcludeRules, Source};

fn dated(title: &str, timestamp: Option<i64>) -> Item {
    Item {
        author: None,
        category: None,
        description: String::new(),
        link: format!("link {}", title),
        pubDate: String::new(),
        timestamp,
        title: title.to_string(),
        utc: None,
    }
}

fn titles(items: &[Item]) -> Vec<String> {
    items.iter().map(|i| i.title.clone()).collect()
}

#[test]
fn feed_filters_items() {
    let feed = Feed {
        channel: Channel {
            item: vec![
                Item {
                    author: Some(vec!["some author".to_string()]),
                    category: Some(vec!["some category".to_string()]),
                    description: "Some description".to_string(),
                    link: "some link".to_string(),
                    pubDate: "some date".to_string(),
                    timestamp: None,
                    title: "some title".to_string(),
                    utc: None,
                },
                Item {
                    author: Some(vec!["some author".to_string()]),
                    category: Some(vec!["excluded category".to_string()]),
                    description: "Some description".to_string(),
                    link: "some link".to_string(),
                    pubDate: "some date".to_string(),
                    timestamp: None,
                    title: "some title".to_string(),
                    utc: None,
                },
                Item {
                    author: Some(vec!["excluded author".to_string()]),
                    category: Some(vec!["some category".to_string()]),
                    description: "Some description".to_string(),
                    link: "some link".to_string(),
                    pubDate: "some date".to_string(),
                    timestamp: None,
                    title: "some title".to_string(),
                    utc: None,
                },
            ],
        },
    };

    println!("GOT HERE!");
    let source = Source {
        src: "somewhere".to_string(),
        name: "some name".to_string(),
        exclude: Some(ExcludeRules {
            author: Some(vec!["excluded author".to_string()]),
            category: Some(vec!["excluded category".to_string()]),
        }),
    };

    let actual = feed.filtered_items(&source);

    println!("got actual: {:?}", actual);

    assert_eq!(vec![feed.channel.item[0].clone()], actual);
}

#[test]
fn filtering_keeps_channel_order_and_every_kept_item() {
    let mut items = vec![dated("a", None), dated("b", None), dated("c", None), dated("d", None)];
    items[1].author = Some(vec!["spam".to_string()]);
    items[3].category = Some(vec!["ads".to_string(), "spam".to_string()]);
    let feed = Feed { channel: Channel { item: items } };
    let source = Source {
        src: "s".to_string(),
        name: "n".to_string(),
        exclude: Some(ExcludeRules {
            author: Some(vec!["spam".to_string()]),
            category: Some(vec!["spam".to_string()]),
        }),
    };
    let kept = feed.filtered_items(&source);
    assert_eq!(titles(&kept), vec!["a", "c"]);
    let again = Feed { channel: Channel { item: kept.clone() } }.filtered_items(&source);
    assert_eq!(again, kept);
}

#[test]
fn filtering_an_empty_channel_gives_nothing() {
    let feed = Feed { channel: Channel { item: vec![] } };
    let source = Source { src: "s".to_string(), name: "n".to_string(), exclude: None };
    assert!(feed.filtered_items(&source).is_empty());
}

#[test]
fn sorting_orders_by_timestamp_and_keeps_ties_in_order() {
    let mut channel = Channel {
        item: vec![
            dated("late", Some(300)),
            dated("none1", None),
            dated("early", Some(-5)),
            dated("mid1", Some(100)),
            dated("none2", None),
            dated("mid2", Some(100)),
        ],
    };
    channel.sort_by_timestamp();
    assert_eq!(titles(&channel.item), vec!["none1", "none2", "early", "mid1", "mid2", "late"]);
}

#[test]
fn sorting_a_sorted_channel_changes_nothing() {
    let mut channel = Channel {
        item: vec![dated("a", None), dated("b", Some(1)), dated("c", Some(1)), dated("d", Some(2))],
    };
    let before = channel.item.clone();
    channel.sort_by_timestamp();
    assert_eq!(channel.item, before);
}

#[test]
fn sorting_empty_and_single_channels() {
    let mut empty = Channel { item: vec![] };
    empty.sort_by_timestamp();
    assert!(empty.item.is_empty());
    let mut one = Channel { item: vec![dated("x", Some(7))] };
    one.sort_by_timestamp();
    assert_eq!(titles(&one.item), vec!["x"]);
}
