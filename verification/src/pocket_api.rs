use vstd::prelude::*;
use crate::item::Item;
use crate::text::{copy_strings, join, joined, strings_view};

verus! {

/// A request to the Pocket service: the address to post to and the fields
/// of the JSON object to post.
#[derive(Clone, Debug)]
pub struct PocketRequest {
    pub endpoint: String,
    pub fields: Vec<(String, String)>,
}

/// The names and values of request fields.
pub open spec fn fields_view(fields: Seq<(String, String)>) -> Seq<(Seq<char>, Seq<char>)> {
    fields.map_values(|f: (String, String)| (f.0@, f.1@))
}

/// A field of a request.
pub(crate) fn field(name: &str, value: &str) -> (f: (String, String))
    ensures
        f.0@ == name@,
        f.1@ == value@,
{
    (name.to_string(), value.to_string())
}

/// The tag that every article added by this program carries.
pub open spec fn feeder_tag() -> Seq<char> {
    "RSS feeder"@
}

/// The tags of an article: its categories, the feeder tag and the name of
/// its source, separated by commas.
pub open spec fn tags_text(category: Option<Seq<Seq<char>>>, source_name: Seq<char>) -> Seq<char> {
    let categories = match category {
        Some(c) => c,
        None => Seq::empty(),
    };
    joined(categories + seq![feeder_tag(), source_name], ","@)
}

/// The tags of an article start with its categories and end with the
/// feeder tag and the name of its source.
pub proof fn law_tags_layout(category: Option<Seq<Seq<char>>>, source_name: Seq<char>)
    ensures
        tags_text(category, source_name) == (if category is Some && category->0.len() > 0 {
            joined(category->0, ","@) + ","@
        } else {
            Seq::empty()
        }) + feeder_tag() + ","@ + source_name,
{
    let c = match category {
        Some(c) => c,
        None => Seq::<Seq<char>>::empty(),
    };
    let all = c + seq![feeder_tag(), source_name];
    assert(all.drop_last() =~= c.push(feeder_tag()));
    assert(c.push(feeder_tag()).drop_last() =~= c);
    assert(all.last() == source_name);
    assert(joined(all, ","@) == joined(c.push(feeder_tag()), ","@) + ","@ + source_name);
    if c.len() > 0 {
        assert(joined(c.push(feeder_tag()), ","@) == joined(c, ","@) + ","@ + feeder_tag());
        assert(joined(all, ","@) =~= joined(c, ","@) + ","@ + feeder_tag() + ","@ + source_name);
    } else {
        assert(joined(c.push(feeder_tag()), ","@) == feeder_tag());
        assert(joined(all, ","@) =~= Seq::<char>::empty() + feeder_tag() + ","@ + source_name);
    }
}

/// The tags under which an item is saved to Pocket.
pub fn publish_tags(item: &Item, source_name: &str) -> (tags: String)
    ensures
        tags@ == tags_text(item@.category, source_name@),
{
    let mut categories: Vec<String> = match &item.category {
        Some(cats) => copy_strings(cats),
        None => Vec::new(),
    };
    let ghost cats = strings_view(categories@);
    categories.push("RSS feeder".to_string());
    categories.push(source_name.to_string());
    proof {
        let c = match item@.category {
            Some(c) => c,
            None => Seq::empty(),
        };
        assert(cats =~= c);
        assert(strings_view(categories@) =~= c + seq![feeder_tag(), source_name@]);
    }
    join(&categories, ",")
}

/// The request that saves `item`, found in the source named `source_name`,
/// to the Pocket list of the user that `access_token` stands for.
pub fn publish_request(
    key: &str,
    access_token: &str,
    item: &Item,
    source_name: &str,
) -> (request: PocketRequest)
    ensures
        request.endpoint@ == "https://getpocket.com/v3/add"@,
        fields_view(request.fields@) == seq![
            ("consumer_key"@, key@),
            ("access_token"@, access_token@),
            ("url"@, item.link@),
            ("title"@, item.title@),
            ("tags"@, tags_text(item@.category, source_name@)),
        ],
{
    let tags = publish_tags(item, source_name);
    let mut fields: Vec<(String, String)> = Vec::new();
    fields.push(field("consumer_key", key));
    fields.push(field("access_token", access_token));
    fields.push(field("url", item.link.as_str()));
    fields.push(field("title", item.title.as_str()));
    fields.push(field("tags", tags.as_str()));
    assert(fields_view(fields@) =~= seq![
        ("consumer_key"@, key@),
        ("access_token"@, access_token@),
        ("url"@, item.link@),
        ("title"@, item.title@),
        ("tags"@, tags_text(item@.category, source_name@)),
    ]);
    PocketRequest { endpoint: "https://getpocket.com/v3/add".to_string(), fields }
}

/// The request that lists all articles of the Pocket list of the user that
/// `access_token` stands for.
pub fn read_request(key: &str, access_token: &str) -> (request: PocketRequest)
    ensures
        request.endpoint@ == "https://getpocket.com/v3/get"@,
        fields_view(request.fields@) == seq![
            ("consumer_key"@, key@),
            ("access_token"@, access_token@),
            ("state"@, "all"@),
        ],
{
    let mut fields: Vec<(String, String)> = Vec::new();
    fields.push(field("consumer_key", key));
    fields.push(field("access_token", access_token));
    fields.push(field("state", "all"));
    assert(fields_view(fields@) =~= seq![
        ("consumer_key"@, key@),
        ("access_token"@, access_token@),
        ("state"@, "all"@),
    ]);
    PocketRequest { endpoint: "https://getpocket.com/v3/get".to_string(), fields }
}

} // verus!
