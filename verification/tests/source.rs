use pocket_feeder::item::Item;
use pocket_feeder::source::{ExcludeRules, Source};

fn item(author: Option<Vec<String>>, category: Option<Vec<String>>) -> Item {
    Item {
        author,
        category,
        description: "...".to_string(),
        link: "...".to_string(),
        pubDate: "...".to_string(),
        timestamp: None,
        title: "...".to_string(),
        utc: None,
    }
}

#[test]
fn source_item_included_author_and_category_none() {
    let source = Source {
        src: "example.org".to_string(),
        name: "some source".to_string(),
        exclude: None,
    };

    let item = Item {
        author: None,
        category: None,
        description: "...".to_string(),
        link: "...".to_string(),
        pubDate: "...".to_string(),
        timestamp: None,
        title: "...".to_string(),
        utc: None,
    };

    assert!(source.item_included(&item) == true);
}

#[test]
fn source_item_included_author_given_but_doesnt_match() {
    let source = Source {
        src: "example.org".to_string(),
        name: "some source".to_string(),
        exclude: None,
    };

    let item = Item {
        author: Some(vec!["smth".to_string()]),
        category: None,
        description: "...".to_string(),
        link: "...".to_string(),
        pubDate: "...".to_string(),
        timestamp: None,
        title: "...".to_string(),
        utc: None,
    };

    println!("got: {:?}", source.item_included(&item));

    assert!(source.item_included(&item) == true);
}

#[test]
fn source_item_included_categories_given_but_doesnt_match() {
    let source = Source {
        src: "example.org".to_string(),
        name: "some source".to_string(),
        exclude: None,
    };

    let item = Item {
        author: None,
        category: Some(vec!["smth".to_string()]),
        description: "...".to_string(),
        link: "...".to_string(),
        pubDate: "...".to_string(),
        timestamp: None,
        title: "...".to_string(),
        utc: None,
    };

    assert!(source.item_included(&item) == true);
}

#[test]
fn source_item_included_author_matches() {
    let source = Source {
        src: "example.org".to_string(),
        name: "some source".to_string(),
        exclude: Some(ExcludeRules {
            author: None,
            category: Some(vec!["smth".to_string()]),
        }),
    };

    let item = Item {
        author: None,
        category: Some(vec!["smth".to_string()]),
        description: "...".to_string(),
        link: "...".to_string(),
        pubDate: "...".to_string(),
        timestamp: None,
        title: "...".to_string(),
        utc: None,
    };

    assert!(source.item_included(&item) == false);
}

#[test]
fn source_item_included_category_matches() {
    let source = Source {
        src: "example.org".to_string(),
        name: "some source".to_string(),
        exclude: Some(ExcludeRules {
            author: Some(vec!["some author".to_string()]),
            category: None,
        }),
    };

    let item = Item {
        author: Some(vec!["some author".to_string()]),
        category: None,
        description: "...".to_string(),
        link: "...".to_string(),
        pubDate: "...".to_string(),
        timestamp: None,
        title: "...".to_string(),
        utc: None,
    };

    assert!(source.item_included(&item) == false);
}

#[test]
fn no_rules_keep_items_with_any_values() {
    let source = Source { src: "s".to_string(), name: "n".to_string(), exclude: None };
    let it = item(Some(vec!["a".to_string()]), Some(vec!["c".to_string()]));
    assert!(source.item_included(&it));
}

#[test]
fn excluded_author_among_several_leaves_item_out() {
    let source = Source {
        src: "s".to_string(),
        name: "n".to_string(),
        exclude: Some(ExcludeRules {
            author: Some(vec!["x".to_string(), "bob".to_string()]),
            category: Some(vec!["news".to_string()]),
        }),
    };
    let it = item(
        Some(vec!["alice".to_string(), "bob".to_string()]),
        Some(vec!["tech".to_string()]),
    );
    assert!(!source.item_included(&it));
}

#[test]
fn excluded_category_leaves_item_out_whatever_its_authors() {
    let source = Source {
        src: "s".to_string(),
        name: "n".to_string(),
        exclude: Some(ExcludeRules {
            author: Some(vec!["x".to_string()]),
            category: Some(vec!["news".to_string()]),
        }),
    };
    let it = item(Some(vec!["alice".to_string()]), Some(vec!["tech".to_string(), "news".to_string()]));
    assert!(!source.item_included(&it));
}

#[test]
fn rules_for_missing_values_keep_the_item() {
    let source = Source {
        src: "s".to_string(),
        name: "n".to_string(),
        exclude: Some(ExcludeRules {
            author: Some(vec!["bob".to_string()]),
            category: Some(vec!["news".to_string()]),
        }),
    };
    assert!(source.item_included(&item(None, None)));
    assert!(source.item_included(&item(Some(vec![]), Some(vec![]))));
    assert!(source.item_included(&item(Some(vec!["Bob".to_string()]), Some(vec!["news ".to_string()]))));
}
