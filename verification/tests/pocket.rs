use pocket_feeder::item::Item;
use pocket_feeder::pocket_api::{publish_request, publish_tags, read_request};
use pocket_feeder::pocket_item::PocketItem;
use pocket_feeder::pocket_item_response::PocketItemResponse;

fn pairs(fields: &[(String, String)]) -> Vec<(&str, &str)> {
    fields.iter().map(|(k, v)| (k.as_str(), v.as_str())).collect()
}

fn article(category: Option<Vec<String>>) -> Item {
    Item {
        author: None,
        category,
        description: "d".to_string(),
        link: "http://example.org/a".to_string(),
        pubDate: "Mon, 28 Mar 2022 18:04:31 +0000".to_string(),
        timestamp: None,
        title: "A title".to_string(),
        utc: None,
    }
}

#[test]
fn publish_item_adds_rss_feeder_tag() {
    let tags = publish_tags(&article(None), "My Blog");
    assert!(tags.split(',').any(|t| t == "RSS feeder"));
}

#[test]
fn publish_tags_list_categories_then_feeder_then_source() {
    let cats = Some(vec!["rust".to_string(), "web".to_string()]);
    assert_eq!(publish_tags(&article(cats), "My Blog"), "rust,web,RSS feeder,My Blog");
    assert_eq!(publish_tags(&article(None), "My Blog"), "RSS feeder,My Blog");
    assert_eq!(publish_tags(&article(Some(vec![])), "x"), "RSS feeder,x");
}

#[test]
fn publish_request_posts_the_item_fields() {
    let item = article(Some(vec!["rust".to_string()]));
    let request = publish_request("key", "token", &item, "src");
    assert_eq!(request.endpoint, "https://getpocket.com/v3/add");
    assert_eq!(
        pairs(&request.fields),
        vec![
            ("consumer_key", "key"),
            ("access_token", "token"),
            ("url", "http://example.org/a"),
            ("title", "A title"),
            ("tags", "rust,RSS feeder,src"),
        ]
    );
}

#[test]
fn read_request_asks_for_all_items() {
    let request = read_request("key", "token");
    assert_eq!(request.endpoint, "https://getpocket.com/v3/get");
    assert_eq!(
        pairs(&request.fields),
        vec![("consumer_key", "key"), ("access_token", "token"), ("state", "all")]
    );
}

#[test]
fn pocket_item_response_has_link_returns_false_when_no_items() {
    let response = PocketItemResponse {
        status: 1,
        complete: 1,
        list: Vec::new(),
    };

    assert!(response.has_link("home_link") == false);
}

#[test]
fn pocket_item_response_has_link_returns_false_when_doesnt_match() {
    let mut list = Vec::new();
    let item = PocketItem {
        given_title: "some title".to_string(),
        given_url: "some url".to_string(),
    };
    list.push(("some_id".to_string(), item));

    let response = PocketItemResponse {
        status: 1,
        complete: 1,
        list: list,
    };

    assert!(response.has_link("home_link") == false);
}

#[test]
fn pocket_item_response_has_link_returns_true() {
    let mut list = Vec::new();
    let item = PocketItem {
        given_title: "some title".to_string(),
        given_url: "some url".to_string(),
    };
    list.push(("some_id".to_string(), item));

    let response = PocketItemResponse {
        status: 1,
        complete: 1,
        list: list,
    };

    assert!(response.has_link("some url") == true);
}

#[test]
fn has_link_finds_a_later_entry_and_ignores_titles() {
    let list = vec![
        ("1".to_string(), PocketItem { given_url: "a".to_string(), given_title: "b".to_string() }),
        ("2".to_string(), PocketItem { given_url: "b".to_string(), given_title: "c".to_string() }),
    ];
    let response = PocketItemResponse { status: 1, complete: 1, list };
    assert!(response.clone().has_link("b"));
    assert!(!response.clone().has_link("c"));
    assert!(!response.has_link(""));
}

#[test]
fn response_is_complete_only_when_marked_one() {
    let full = PocketItemResponse { status: 1, complete: 1, list: vec![] };
    let partial = PocketItemResponse { status: 1, complete: 0, list: vec![] };
    let other = PocketItemResponse { status: 1, complete: 2, list: vec![] };
    assert!(full.is_complete());
    assert!(!partial.is_complete());
    assert!(!other.is_complete());
}
